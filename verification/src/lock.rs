//! Locked deposits: creation, maturity checks, and withdrawal with
//! whole-year simple interest.

use vstd::prelude::*;

use crate::storage_types::{LockSave, SavingsError, User, LOCK_INTEREST_RATE_BPS, SECONDS_PER_YEAR};
use crate::users;
use crate::{lock_ok, lock_payout, lock_years, NesteraContract, UserEntry};

verus! {

/// The record a successful creation appends: owned by `user`, locked from
/// `now` until `now + duration`, at the fixed program-wide rate.
pub open spec fn new_lock(id: u64, user: u64, amount: i128, now: u64, duration: u64) -> LockSave {
    LockSave {
        id,
        owner: user,
        amount,
        interest_rate: LOCK_INTEREST_RATE_BPS,
        start_time: now,
        maturity_time: (now + duration) as u64,
        is_withdrawn: false,
    }
}

/// Creates a locked deposit of `amount` for `user`, maturing `duration`
/// seconds after `now`. Allocates the next id of the lock namespace, appends
/// it to the owner's index list, and adds `amount` to the owner's balance.
#[verifier::rlimit(60)]
pub fn create_lock_save(
    c: &mut NesteraContract,
    user: u64,
    amount: i128,
    duration: u64,
    now: u64,
) -> (r: Result<u64, SavingsError>)
    requires
        old(c)@.wf(),
        now + duration <= u64::MAX,
        old(c)@.locks.len() < u64::MAX,
        amount * (LOCK_INTEREST_RATE_BPS as int) <= i128::MAX,
        amount * (LOCK_INTEREST_RATE_BPS as int) * ((duration as int) / (SECONDS_PER_YEAR as int))
            <= i128::MAX,
        old(c)@.has_user(user) ==> old(c)@.user_of(user).total_balance + amount <= i128::MAX,
        old(c)@.has_user(user) ==> old(c)@.user_of(user).savings_count + 1 <= u32::MAX,
    ensures
        final(c)@.wf(),
        amount <= 0 ==> r == Err::<u64, SavingsError>(SavingsError::InvalidAmount) && final(c)@
            == old(c)@,
        amount > 0 && duration == 0 ==> r == Err::<u64, SavingsError>(SavingsError::InvalidDuration)
            && final(c)@ == old(c)@,
        amount > 0 && duration > 0 && !old(c)@.has_user(user) ==> r == Err::<u64, SavingsError>(
            SavingsError::UserNotFound,
        ) && final(c)@ == old(c)@,
        amount > 0 && duration > 0 && old(c)@.has_user(user) ==> {
            let id = (old(c)@.locks.len() + 1) as u64;
            &&& r == Ok::<u64, SavingsError>(id)
            &&& final(c)@.locks == old(c)@.locks.push(new_lock(id, user, amount, now, duration))
            &&& final(c)@.lock_ids_of(user) == old(c)@.lock_ids_of(user).push(id)
            &&& final(c)@.autosave_ids_of(user) == old(c)@.autosave_ids_of(user)
            &&& final(c)@.user_of(user).total_balance == old(c)@.user_of(user).total_balance
                + amount
            &&& final(c)@.user_of(user).savings_count == old(c)@.user_of(user).savings_count + 1
        },
        forall|a: u64| final(c)@.has_user(a) == old(c)@.has_user(a),
        forall|a: u64|
            a != user && old(c)@.has_user(a) ==> final(c)@.user_entry(a) == old(c)@.user_entry(a),
        final(c)@.admin == old(c)@.admin,
        final(c)@.schedules == old(c)@.schedules,
        final(c)@.proposals == old(c)@.proposals,
        final(c)@.votes == old(c)@.votes,
        final(c)@.voting_config == old(c)@.voting_config,
        final(c)@.governance_active == old(c)@.governance_active,
{
    let ghost pre = old(c)@;
    if amount <= 0 {
        return Err(SavingsError::InvalidAmount);
    }
    if duration == 0 {
        return Err(SavingsError::InvalidDuration);
    }
    let i = match users::find_user_index(c, user) {
        Some(i) => i,
        None => {
            return Err(SavingsError::UserNotFound);
        },
    };
    proof {
        pre.lemma_user_entry(i as int);
    }
    let lock_id: u64 = (c.locks.len() as u64) + 1;
    let lock = LockSave {
        id: lock_id,
        owner: user,
        amount,
        interest_rate: LOCK_INTEREST_RATE_BPS,
        start_time: now,
        maturity_time: now + duration,
        is_withdrawn: false,
    };
    c.locks.push(lock);
    let mut lock_ids = c.users[i].lock_ids.clone();
    lock_ids.push(lock_id);
    let autosave_ids = c.users[i].autosave_ids.clone();
    let data = User {
        total_balance: c.users[i].data.total_balance + amount,
        savings_count: c.users[i].data.savings_count + 1,
    };
    proof {
        assert(lock_ids@ =~= pre.users[i as int].lock_ids.push(lock_id));
        assert(autosave_ids@ =~= pre.users[i as int].autosave_ids);
    }
    let entry = UserEntry { address: user, data, lock_ids, autosave_ids };
    c.users.set(i, entry);
    proof {
        let post = c@;
        let n = pre.locks.len() as int;
        assert(post.schedules == pre.schedules);
        assert(post.proposals == pre.proposals);
        assert(post.votes == pre.votes);
        assert(post.voting_config == pre.voting_config);
        assert(post.locks =~= pre.locks.push(lock));
        assert(post.users =~= pre.users.update(i as int, entry@));
        assert(lock == new_lock(lock_id, user, amount, now, duration));
        assert forall|k: int| 0 <= k < post.users.len() implies (#[trigger] post.users[k]).address
            == pre.users[k].address by {}
        assert(post.users_unique());
        assert forall|a: u64| post.has_user(a) == pre.has_user(a) by {
            if post.has_user(a) {
                let w = choose|w: int|
                    0 <= w < post.users.len() && (#[trigger] post.users[w]).address == a;
                assert(pre.users[w].address == a);
                assert(pre.has_user(a));
            }
            if pre.has_user(a) {
                let w = choose|w: int|
                    0 <= w < pre.users.len() && (#[trigger] pre.users[w]).address == a;
                assert(post.users[w].address == a);
                assert(post.has_user(a));
            }
        }
        post.lemma_user_entry(i as int);
        assert(post.lock_ids_of(user) == pre.lock_ids_of(user).push(lock_id));
        assert(post.autosave_ids_of(user) == pre.autosave_ids_of(user));
        assert(post.user_of(user).total_balance == pre.user_of(user).total_balance + amount);
        assert(post.user_of(user).savings_count == pre.user_of(user).savings_count + 1);
        assert forall|a: u64| a != user && pre.has_user(a) implies post.user_entry(a)
            == pre.user_entry(a) by {
            let w = pre.user_slot(a);
            assert(0 <= w < pre.users.len() && pre.users[w].address == a);
            assert(w != i);
            pre.lemma_user_entry(w);
            post.lemma_user_entry(w);
        }
        // well-formedness of the grown state
        assert(lock_ok(lock, n));
        assert(post.locks_ok());
        assert(post.schedules_ok());
        assert(post.proposals_ok());
        assert forall|u: int| 0 <= u < post.users.len() implies crate::entry_ok(
            #[trigger] post.users[u],
            post.locks,
            post.schedules,
        ) by {
            assert(crate::entry_ok(pre.users[u], pre.locks, pre.schedules));
            if u != i {
                assert(post.users[u] == pre.users[u]);
                assert forall|k: int| 0 <= k < post.users[u].lock_ids.len() implies {
                    &&& 1 <= #[trigger] post.users[u].lock_ids[k] <= post.locks.len()
                    &&& post.locks[post.users[u].lock_ids[k] - 1].owner == post.users[u].address
                    &&& k > 0 ==> post.users[u].lock_ids[k - 1] < post.users[u].lock_ids[k]
                } by {
                    assert(1 <= pre.users[u].lock_ids[k] <= pre.locks.len());
                }
            } else {
                let e = post.users[u];
                assert(e.lock_ids =~= pre.users[u].lock_ids.push(lock_id));
                assert forall|k: int| 0 <= k < e.lock_ids.len() implies {
                    &&& 1 <= #[trigger] e.lock_ids[k] <= post.locks.len()
                    &&& post.locks[e.lock_ids[k] - 1].owner == e.address
                    &&& k > 0 ==> e.lock_ids[k - 1] < e.lock_ids[k]
                } by {
                    if k < e.lock_ids.len() - 1 {
                        assert(1 <= pre.users[u].lock_ids[k] <= pre.locks.len());
                    } else {
                        assert(e.lock_ids[k] == lock_id);
                        if k > 0 {
                            assert(1 <= pre.users[u].lock_ids[k - 1] <= pre.locks.len());
                        }
                    }
                }
            }
        }
        assert(post.indexes_ok());
        assert forall|i2: int| 0 <= i2 < post.locks.len() implies post.has_user(
            (#[trigger] post.locks[i2]).owner,
        ) by {
            if i2 < n {
                assert(pre.has_user(pre.locks[i2].owner));
            } else {
                assert(post.locks[i2].owner == user);
            }
        }
        assert forall|i2: int| 0 <= i2 < post.schedules.len() implies post.has_user(
            (#[trigger] post.schedules[i2]).user,
        ) by {
            assert(pre.has_user(pre.schedules[i2].user));
        }
        assert(post.wf());
    }
    Ok(lock_id)
}

/// Whether the lock with this id exists and has reached its maturity time;
/// `false`, not an error, for an id that does not exist.
pub fn check_matured_lock(c: &NesteraContract, lock_id: u64, now: u64) -> (r: bool)
    ensures
        r == (c@.has_lock(lock_id) && now >= c@.lock_of(lock_id).maturity_time),
{
    if 1 <= lock_id && lock_id <= c.locks.len() as u64 {
        let idx: usize = (lock_id - 1) as usize;
        now >= c.locks[idx].maturity_time
    } else {
        false
    }
}

/// The locked deposit with this id, if any.
pub fn get_lock_save(c: &NesteraContract, lock_id: u64) -> (r: Option<LockSave>)
    ensures
        r is Some <==> c@.has_lock(lock_id),
        c@.has_lock(lock_id) ==> r == Some(c@.lock_of(lock_id)),
{
    if 1 <= lock_id && lock_id <= c.locks.len() as u64 {
        let idx: usize = (lock_id - 1) as usize;
        Some(c.locks[idx])
    } else {
        None
    }
}

/// The ids of the locked deposits `user` owns, in creation order; withdrawn
/// ids are retained permanently.
pub fn get_user_lock_saves(c: &NesteraContract, user: u64) -> (r: Vec<u64>)
    requires
        c@.wf(),
    ensures
        r@ == c@.lock_ids_of(user),
{
    match users::find_user_index(c, user) {
        Some(i) => {
            proof {
                c@.lemma_user_entry(i as int);
            }
            let r = c.users[i].lock_ids.clone();
            proof {
                assert(r@ =~= c@.lock_ids_of(user));
            }
            r
        },
        None => {
            let r: Vec<u64> = Vec::new();
            proof {
                assert(r@ =~= c@.lock_ids_of(user));
            }
            r
        },
    }
}

/// Settles a matured, not-yet-withdrawn lock owned by `user`: marks it
/// withdrawn, removes the principal from the owner's balance, and returns the
/// principal plus whole-year simple interest.
#[verifier::rlimit(60)]
pub fn withdraw_lock_save(c: &mut NesteraContract, user: u64, lock_id: u64, now: u64) -> (r: Result<
    i128,
    SavingsError,
>)
    requires
        old(c)@.wf(),
        old(c)@.has_lock(lock_id) && old(c)@.has_user(user) ==> old(c)@.user_of(
            user,
        ).total_balance - old(c)@.lock_of(lock_id).amount >= i128::MIN,
    ensures
        final(c)@.wf(),
        ({
            let s = old(c)@;
            let t = final(c)@;
            &&& !s.has_lock(lock_id) ==> r == Err::<i128, SavingsError>(SavingsError::LockNotFound)
                && t == s
            &&& (s.has_lock(lock_id) && s.lock_of(lock_id).owner != user) ==> r == Err::<
                i128,
                SavingsError,
            >(SavingsError::Unauthorized) && t == s
            &&& (s.has_lock(lock_id) && s.lock_of(lock_id).owner == user && s.lock_of(
                lock_id,
            ).is_withdrawn) ==> r == Err::<i128, SavingsError>(SavingsError::AlreadyWithdrawn) && t
                == s
            &&& (s.has_lock(lock_id) && s.lock_of(lock_id).owner == user && !s.lock_of(
                lock_id,
            ).is_withdrawn && now < s.lock_of(lock_id).maturity_time) ==> r == Err::<
                i128,
                SavingsError,
            >(SavingsError::LockNotMatured) && t == s
            &&& (s.has_lock(lock_id) && s.lock_of(lock_id).owner == user && !s.lock_of(
                lock_id,
            ).is_withdrawn && now >= s.lock_of(lock_id).maturity_time) ==> {
                let l = s.lock_of(lock_id);
                &&& r matches Ok(v) && v == lock_payout(l)
                &&& t.locks == s.locks.update(lock_id - 1, LockSave { is_withdrawn: true, ..l })
                &&& t.user_of(user).total_balance == s.user_of(user).total_balance - l.amount
                &&& t.user_of(user).savings_count == s.user_of(user).savings_count
            }
        }),
        forall|a: u64| final(c)@.has_user(a) == old(c)@.has_user(a),
        forall|a: u64|
            old(c)@.has_user(a) ==> final(c)@.lock_ids_of(a) == old(c)@.lock_ids_of(a)
                && final(c)@.autosave_ids_of(a) == old(c)@.autosave_ids_of(a),
        forall|a: u64|
            a != user && old(c)@.has_user(a) ==> final(c)@.user_entry(a) == old(c)@.user_entry(a),
        forall|k: int|
            0 <= k < old(c)@.locks.len() ==> ((#[trigger] old(c)@.locks[k]).is_withdrawn
                ==> final(c)@.locks[k].is_withdrawn),
        final(c)@.locks.len() == old(c)@.locks.len(),
        final(c)@.admin == old(c)@.admin,
        final(c)@.schedules == old(c)@.schedules,
        final(c)@.proposals == old(c)@.proposals,
        final(c)@.votes == old(c)@.votes,
        final(c)@.voting_config == old(c)@.voting_config,
        final(c)@.governance_active == old(c)@.governance_active,
{
    let ghost pre = old(c)@;
    if !(1 <= lock_id && lock_id <= c.locks.len() as u64) {
        return Err(SavingsError::LockNotFound);
    }
    let idx: usize = (lock_id - 1) as usize;
    let lock = c.locks[idx];
    if lock.owner != user {
        return Err(SavingsError::Unauthorized);
    }
    if lock.is_withdrawn {
        return Err(SavingsError::AlreadyWithdrawn);
    }
    if now < lock.maturity_time {
        return Err(SavingsError::LockNotMatured);
    }
    proof {
        assert(lock_ok(lock, idx as int));
    }
    // whole-year simple interest, truncated to completed years
    let duration_secs: u64 = lock.maturity_time - lock.start_time;
    let duration_years: i128 = (duration_secs / SECONDS_PER_YEAR) as i128;
    proof {
        assert(duration_years == lock_years(lock));
        assert(lock.amount * (lock.interest_rate as int) >= 0) by (nonlinear_arith)
            requires
                lock.amount > 0,
                lock.interest_rate > 0,
        ;
        assert(lock.amount * (lock.interest_rate as int) * lock_years(lock) >= 0)
            by (nonlinear_arith)
            requires
                lock.amount * (lock.interest_rate as int) >= 0,
                lock_years(lock) >= 0,
        ;
        if lock_years(lock) >= 1 {
            assert(lock.amount * (lock.interest_rate as int) <= lock.amount * (
            lock.interest_rate as int) * lock_years(lock)) by (nonlinear_arith)
                requires
                    lock.amount * (lock.interest_rate as int) >= 0,
                    lock_years(lock) >= 1,
            ;
        }
    }
    let interest: i128 = (lock.amount * (lock.interest_rate as i128) * duration_years) / 10000;
    proof {
        let p = lock.amount * (lock.interest_rate as int) * lock_years(lock);
        assert(interest == p / 10000);
        assert(p / 10000 >= 0);
        if lock_years(lock) == 0 {
            assert(p == 0) by (nonlinear_arith)
                requires
                    p == lock.amount * (lock.interest_rate as int) * lock_years(lock),
                    lock_years(lock) == 0,
            ;
            assert(interest == 0);
        } else {
            assert(lock.amount * 800 <= p);
            assert(lock.amount <= i128::MAX / 800);
            assert(p / 10000 <= i128::MAX / 10000) by (nonlinear_arith)
                requires
                    0 <= p <= i128::MAX,
            ;
        }
        assert(lock.amount + interest <= i128::MAX);
    }
    let total_amount: i128 = lock.amount + interest;
    let updated = LockSave { is_withdrawn: true, ..lock };
    c.locks.set(idx, updated);
    let ui = match users::find_user_index(c, user) {
        Some(ui) => ui,
        None => {
            proof {
                assert(pre.has_user(user));
                assert(c@.has_user(user));
                assert(false);
            }
            return Err(SavingsError::InternalError);
        },
    };
    proof {
        pre.lemma_user_entry(ui as int);
    }
    let data = User {
        total_balance: c.users[ui].data.total_balance - lock.amount,
        savings_count: c.users[ui].data.savings_count,
    };
    let lock_ids = c.users[ui].lock_ids.clone();
    let autosave_ids = c.users[ui].autosave_ids.clone();
    proof {
        assert(lock_ids@ =~= pre.users[ui as int].lock_ids);
        assert(autosave_ids@ =~= pre.users[ui as int].autosave_ids);
    }
    let entry = UserEntry { address: user, data, lock_ids, autosave_ids };
    c.users.set(ui, entry);
    proof {
        let post = c@;
        assert(post.schedules == pre.schedules);
        assert(post.proposals == pre.proposals);
        assert(post.votes == pre.votes);
        assert(post.voting_config == pre.voting_config);
        assert(post.locks =~= pre.locks.update(lock_id - 1, updated));
        assert(post.users =~= pre.users.update(ui as int, entry@));
        assert forall|k: int| 0 <= k < post.users.len() implies (#[trigger] post.users[k]).address
            == pre.users[k].address by {}
        assert(post.users_unique());
        assert forall|a: u64| post.has_user(a) == pre.has_user(a) by {
            if post.has_user(a) {
                let w = choose|w: int|
                    0 <= w < post.users.len() && (#[trigger] post.users[w]).address == a;
                assert(pre.users[w].address == a);
                assert(pre.has_user(a));
            }
            if pre.has_user(a) {
                let w = choose|w: int|
                    0 <= w < pre.users.len() && (#[trigger] pre.users[w]).address == a;
                assert(post.users[w].address == a);
                assert(post.has_user(a));
            }
        }
        post.lemma_user_entry(ui as int);
        assert(post.user_of(user).total_balance == pre.user_of(user).total_balance - lock.amount);
        assert(post.lock_ids_of(user) == pre.lock_ids_of(user));
        assert(post.autosave_ids_of(user) == pre.autosave_ids_of(user));
        assert forall|a: u64| a != user && pre.has_user(a) implies post.user_entry(a)
            == pre.user_entry(a) by {
            let w = pre.user_slot(a);
            assert(0 <= w < pre.users.len() && pre.users[w].address == a);
            assert(w != ui);
            pre.lemma_user_entry(w);
            post.lemma_user_entry(w);
        }
        // well-formedness is preserved: only one flag and one balance changed
        assert(lock_ok(updated, lock_id - 1));
        assert(post.locks_ok());
        assert(post.schedules_ok());
        assert(post.proposals_ok());
        assert forall|u: int| 0 <= u < post.users.len() implies crate::entry_ok(
            #[trigger] post.users[u],
            post.locks,
            post.schedules,
        ) by {
            assert(crate::entry_ok(pre.users[u], pre.locks, pre.schedules));
            let e = post.users[u];
            assert(e.lock_ids == pre.users[u].lock_ids);
            assert(e.address == pre.users[u].address);
            assert forall|k: int| 0 <= k < e.lock_ids.len() implies {
                &&& 1 <= #[trigger] e.lock_ids[k] <= post.locks.len()
                &&& post.locks[e.lock_ids[k] - 1].owner == e.address
                &&& k > 0 ==> e.lock_ids[k - 1] < e.lock_ids[k]
            } by {
                assert(1 <= pre.users[u].lock_ids[k] <= pre.locks.len());
                assert(pre.locks[e.lock_ids[k] - 1].owner == e.address);
            }
        }
        assert(post.indexes_ok());
        assert forall|i2: int| 0 <= i2 < post.locks.len() implies post.has_user(
            (#[trigger] post.locks[i2]).owner,
        ) by {
            assert(pre.has_user(pre.locks[i2].owner));
            assert(post.locks[i2].owner == pre.locks[i2].owner);
        }
        assert forall|i2: int| 0 <= i2 < post.schedules.len() implies post.has_user(
            (#[trigger] post.schedules[i2]).user,
        ) by {
            assert(pre.has_user(pre.schedules[i2].user));
        }
        assert(post.wf());
    }
    Ok(total_amount)
}

} // verus!
