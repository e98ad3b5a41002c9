//! Scheduled recurring deposits: creation, due execution, and cancellation.
//!
//! The deposit effect itself (crediting the owner's flexible balance) belongs
//! to the host environment. The host first asks [`autosave_due_deposit`] what
//! is owed, performs the credit, and only on its success commits the schedule
//! advance with [`execute_autosave`]; a failed credit leaves the schedule
//! exactly as it was.

use vstd::prelude::*;

use crate::storage_types::{AutoSave, SavingsError};
use crate::users;
use crate::{schedule_ok, NesteraContract, UserEntry};

verus! {

/// The record a successful creation appends: owned by `user`, first due at
/// `start_time`, recurring every `interval_seconds`.
pub open spec fn new_schedule(
    id: u64,
    user: u64,
    amount: i128,
    interval_seconds: u64,
    start_time: u64,
) -> AutoSave {
    AutoSave {
        id,
        user,
        amount,
        interval_seconds,
        next_execution_time: start_time,
        is_active: true,
    }
}

/// Creates a recurring schedule of `amount` for `user`, first due at the
/// caller-chosen `start_time` (which may lie in the future or the past).
/// Allocates the next id of the schedule namespace, its own counter separate
/// from lock ids, and appends the id to the owner's index list.
#[verifier::rlimit(60)]
pub fn create_autosave(
    c: &mut NesteraContract,
    user: u64,
    amount: i128,
    interval_seconds: u64,
    start_time: u64,
) -> (r: Result<u64, SavingsError>)
    requires
        old(c)@.wf(),
        old(c)@.schedules.len() < u64::MAX,
    ensures
        final(c)@.wf(),
        amount <= 0 ==> r == Err::<u64, SavingsError>(SavingsError::InvalidAmount) && final(c)@
            == old(c)@,
        amount > 0 && interval_seconds == 0 ==> r == Err::<u64, SavingsError>(
            SavingsError::InvalidTimestamp,
        ) && final(c)@ == old(c)@,
        amount > 0 && interval_seconds > 0 && !old(c)@.has_user(user) ==> r == Err::<
            u64,
            SavingsError,
        >(SavingsError::UserNotFound) && final(c)@ == old(c)@,
        amount > 0 && interval_seconds > 0 && old(c)@.has_user(user) ==> {
            let id = (old(c)@.schedules.len() + 1) as u64;
            &&& r == Ok::<u64, SavingsError>(id)
            &&& final(c)@.schedules == old(c)@.schedules.push(
                new_schedule(id, user, amount, interval_seconds, start_time),
            )
            &&& final(c)@.autosave_ids_of(user) == old(c)@.autosave_ids_of(user).push(id)
            &&& final(c)@.lock_ids_of(user) == old(c)@.lock_ids_of(user)
            &&& final(c)@.user_of(user) == old(c)@.user_of(user)
        },
        forall|a: u64| final(c)@.has_user(a) == old(c)@.has_user(a),
        forall|a: u64|
            a != user && old(c)@.has_user(a) ==> final(c)@.user_entry(a) == old(c)@.user_entry(a),
        final(c)@.admin == old(c)@.admin,
        final(c)@.locks == old(c)@.locks,
        final(c)@.proposals == old(c)@.proposals,
        final(c)@.votes == old(c)@.votes,
        final(c)@.voting_config == old(c)@.voting_config,
        final(c)@.governance_active == old(c)@.governance_active,
{
    let ghost pre = old(c)@;
    if amount <= 0 {
        return Err(SavingsError::InvalidAmount);
    }
    if interval_seconds == 0 {
        return Err(SavingsError::InvalidTimestamp);
    }
    let i = match users::find_user_index(c, user) {
        Some(i) => i,
        None => {
            return Err(SavingsError::UserNotFound);
        },
    };
    proof {
        pre.lemma_user_entry(i as int);
    }
    let schedule_id: u64 = (c.schedules.len() as u64) + 1;
    let schedule = AutoSave {
        id: schedule_id,
        user,
        amount,
        interval_seconds,
        next_execution_time: start_time,
        is_active: true,
    };
    c.schedules.push(schedule);
    let lock_ids = c.users[i].lock_ids.clone();
    let mut autosave_ids = c.users[i].autosave_ids.clone();
    autosave_ids.push(schedule_id);
    let data = c.users[i].data;
    proof {
        assert(lock_ids@ =~= pre.users[i as int].lock_ids);
        assert(autosave_ids@ =~= pre.users[i as int].autosave_ids.push(schedule_id));
    }
    let entry = UserEntry { address: user, data, lock_ids, autosave_ids };
    c.users.set(i, entry);
    proof {
        let post = c@;
        let n = pre.schedules.len() as int;
        assert(post.locks == pre.locks);
        assert(post.proposals == pre.proposals);
        assert(post.votes == pre.votes);
        assert(post.voting_config == pre.voting_config);
        assert(post.schedules =~= pre.schedules.push(schedule));
        assert(post.users =~= pre.users.update(i as int, entry@));
        assert(schedule == new_schedule(schedule_id, user, amount, interval_seconds, start_time));
        assert forall|k: int| 0 <= k < post.users.len() implies (#[trigger] post.users[k]).address
            == pre.users[k].address by {}
        assert(post.users_unique());
        assert forall|a: u64| post.has_user(a) == pre.has_user(a) by {
            if post.has_user(a) {
                let w = choose|w: int|
                    0 <= w < post.users.len() && (#[trigger] post.users[w]).address == a;
                assert(pre.users[w].address == a);
                assert(pre.has_user(a));
            }
            if pre.has_user(a) {
                let w = choose|w: int|
                    0 <= w < pre.users.len() && (#[trigger] pre.users[w]).address == a;
                assert(post.users[w].address == a);
                assert(post.has_user(a));
            }
        }
        post.lemma_user_entry(i as int);
        assert(post.autosave_ids_of(user) == pre.autosave_ids_of(user).push(schedule_id));
        assert(post.lock_ids_of(user) == pre.lock_ids_of(user));
        assert(post.user_of(user) == pre.user_of(user));
        assert forall|a: u64| a != user && pre.has_user(a) implies post.user_entry(a)
            == pre.user_entry(a) by {
            let w = pre.user_slot(a);
            assert(0 <= w < pre.users.len() && pre.users[w].address == a);
            assert(w != i);
            pre.lemma_user_entry(w);
            post.lemma_user_entry(w);
        }
        assert(schedule_ok(schedule, n));
        assert(post.schedules_ok());
        assert(post.locks_ok());
        assert(post.proposals_ok());
        assert forall|u: int| 0 <= u < post.users.len() implies crate::entry_ok(
            #[trigger] post.users[u],
            post.locks,
            post.schedules,
        ) by {
            assert(crate::entry_ok(pre.users[u], pre.locks, pre.schedules));
            if u != i {
                assert(post.users[u] == pre.users[u]);
                assert forall|k: int| 0 <= k < post.users[u].autosave_ids.len() implies {
                    &&& 1 <= #[trigger] post.users[u].autosave_ids[k] <= post.schedules.len()
                    &&& post.schedules[post.users[u].autosave_ids[k] - 1].user
                        == post.users[u].address
                    &&& k > 0 ==> post.users[u].autosave_ids[k - 1] < post.users[u].autosave_ids[k]
                } by {
                    assert(1 <= pre.users[u].autosave_ids[k] <= pre.schedules.len());
                }
            } else {
                let e = post.users[u];
                assert(e.autosave_ids =~= pre.users[u].autosave_ids.push(schedule_id));
                assert forall|k: int| 0 <= k < e.autosave_ids.len() implies {
                    &&& 1 <= #[trigger] e.autosave_ids[k] <= post.schedules.len()
                    &&& post.schedules[e.autosave_ids[k] - 1].user == e.address
                    &&& k > 0 ==> e.autosave_ids[k - 1] < e.autosave_ids[k]
                } by {
                    if k < e.autosave_ids.len() - 1 {
                        assert(1 <= pre.users[u].autosave_ids[k] <= pre.schedules.len());
                    } else {
                        assert(e.autosave_ids[k] == schedule_id);
                        if k > 0 {
                            assert(1 <= pre.users[u].autosave_ids[k - 1] <= pre.schedules.len());
                        }
                    }
                }
            }
        }
        assert(post.indexes_ok());
        assert forall|i2: int| 0 <= i2 < post.locks.len() implies post.has_user(
            (#[trigger] post.locks[i2]).owner,
        ) by {
            assert(pre.has_user(pre.locks[i2].owner));
        }
        assert forall|i2: int| 0 <= i2 < post.schedules.len() implies post.has_user(
            (#[trigger] post.schedules[i2]).user,
        ) by {
            if i2 < n {
                assert(pre.has_user(pre.schedules[i2].user));
            } else {
                assert(post.schedules[i2].user == user);
            }
        }
        assert(post.wf());
    }
    Ok(schedule_id)
}

/// The flexible deposit owed by the schedule right now, if it is due: the
/// owner to credit and the amount. A pure decision; the host performs the
/// credit and then commits the advance with [`execute_autosave`].
pub fn autosave_due_deposit(c: &NesteraContract, schedule_id: u64, now: u64) -> (r: Result<
    (u64, i128),
    SavingsError,
>)
    ensures
        ({
            let s = c@;
            &&& !s.has_schedule(schedule_id) ==> r == Err::<(u64, i128), SavingsError>(
                SavingsError::PlanNotFound,
            )
            &&& (s.has_schedule(schedule_id) && !s.schedule_of(schedule_id).is_active) ==> r
                == Err::<(u64, i128), SavingsError>(SavingsError::InvalidPlanConfig)
            &&& (s.has_schedule(schedule_id) && s.schedule_of(schedule_id).is_active && now
                < s.schedule_of(schedule_id).next_execution_time) ==> r == Err::<
                (u64, i128),
                SavingsError,
            >(SavingsError::InvalidTimestamp)
            &&& (s.has_schedule(schedule_id) && s.schedule_of(schedule_id).is_active && now
                >= s.schedule_of(schedule_id).next_execution_time) ==> r == Ok::<
                (u64, i128),
                SavingsError,
            >((s.schedule_of(schedule_id).user, s.schedule_of(schedule_id).amount))
        }),
{
    if !(1 <= schedule_id && schedule_id <= c.schedules.len() as u64) {
        return Err(SavingsError::PlanNotFound);
    }
    let idx: usize = (schedule_id - 1) as usize;
    let schedule = c.schedules[idx];
    if !schedule.is_active {
        return Err(SavingsError::InvalidPlanConfig);
    }
    if now < schedule.next_execution_time {
        return Err(SavingsError::InvalidTimestamp);
    }
    Ok((schedule.user, schedule.amount))
}

/// Commits one due execution of the schedule: re-validates that it exists,
/// is active and is due, then advances `next_execution_time` by exactly one
/// interval — never more, however far past due the schedule is — and returns
/// the owner and amount of the deposit that execution performed.
pub fn execute_autosave(c: &mut NesteraContract, schedule_id: u64, now: u64) -> (r: Result<
    (u64, i128),
    SavingsError,
>)
    requires
        old(c)@.wf(),
        (old(c)@.has_schedule(schedule_id) && old(c)@.schedule_of(schedule_id).is_active && now
            >= old(c)@.schedule_of(schedule_id).next_execution_time) ==> old(c)@.schedule_of(
            schedule_id,
        ).next_execution_time + old(c)@.schedule_of(schedule_id).interval_seconds <= u64::MAX,
    ensures
        final(c)@.wf(),
        ({
            let s = old(c)@;
            let t = final(c)@;
            &&& !s.has_schedule(schedule_id) ==> r == Err::<(u64, i128), SavingsError>(
                SavingsError::PlanNotFound,
            ) && t == s
            &&& (s.has_schedule(schedule_id) && !s.schedule_of(schedule_id).is_active) ==> r
                == Err::<(u64, i128), SavingsError>(SavingsError::InvalidPlanConfig) && t == s
            &&& (s.has_schedule(schedule_id) && s.schedule_of(schedule_id).is_active && now
                < s.schedule_of(schedule_id).next_execution_time) ==> r == Err::<
                (u64, i128),
                SavingsError,
            >(SavingsError::InvalidTimestamp) && t == s
            &&& (s.has_schedule(schedule_id) && s.schedule_of(schedule_id).is_active && now
                >= s.schedule_of(schedule_id).next_execution_time) ==> {
                let sch = s.schedule_of(schedule_id);
                &&& r == Ok::<(u64, i128), SavingsError>((sch.user, sch.amount))
                &&& t.schedules == s.schedules.update(
                    schedule_id - 1,
                    AutoSave {
                        next_execution_time: (sch.next_execution_time + sch.interval_seconds) as u64,
                        ..sch
                    },
                )
                &&& t.users == s.users
            }
        }),
        forall|k: int|
            0 <= k < old(c)@.schedules.len() ==> (!(#[trigger] old(c)@.schedules[k]).is_active
                ==> !final(c)@.schedules[k].is_active),
        final(c)@.schedules.len() == old(c)@.schedules.len(),
        final(c)@.users == old(c)@.users,
        final(c)@.admin == old(c)@.admin,
        final(c)@.locks == old(c)@.locks,
        final(c)@.proposals == old(c)@.proposals,
        final(c)@.votes == old(c)@.votes,
        final(c)@.voting_config == old(c)@.voting_config,
        final(c)@.governance_active == old(c)@.governance_active,
{
    let ghost pre = old(c)@;
    if !(1 <= schedule_id && schedule_id <= c.schedules.len() as u64) {
        return Err(SavingsError::PlanNotFound);
    }
    let idx: usize = (schedule_id - 1) as usize;
    let schedule = c.schedules[idx];
    if !schedule.is_active {
        return Err(SavingsError::InvalidPlanConfig);
    }
    if now < schedule.next_execution_time {
        return Err(SavingsError::InvalidTimestamp);
    }
    let updated = AutoSave {
        next_execution_time: schedule.next_execution_time + schedule.interval_seconds,
        ..schedule
    };
    c.schedules.set(idx, updated);
    proof {
        let post = c@;
        assert(post.schedules =~= pre.schedules.update(schedule_id - 1, updated));
        assert(post.users == pre.users);
        assert(post.locks == pre.locks);
        assert(post.proposals == pre.proposals);
        assert(post.votes == pre.votes);
        assert(post.voting_config == pre.voting_config);
        assert(schedule_ok(updated, idx as int));
        assert(post.schedules_ok());
        assert(post.locks_ok());
        assert(post.proposals_ok());
        assert(post.users_unique());
        assert forall|u: int| 0 <= u < post.users.len() implies crate::entry_ok(
            #[trigger] post.users[u],
            post.locks,
            post.schedules,
        ) by {
            assert(crate::entry_ok(pre.users[u], pre.locks, pre.schedules));
            let e = post.users[u];
            assert forall|k: int| 0 <= k < e.autosave_ids.len() implies {
                &&& 1 <= #[trigger] e.autosave_ids[k] <= post.schedules.len()
                &&& post.schedules[e.autosave_ids[k] - 1].user == e.address
                &&& k > 0 ==> e.autosave_ids[k - 1] < e.autosave_ids[k]
            } by {
                assert(1 <= pre.users[u].autosave_ids[k] <= pre.schedules.len());
                assert(pre.schedules[e.autosave_ids[k] - 1].user == e.address);
            }
        }
        assert(post.indexes_ok());
        assert forall|a: u64| post.has_user(a) == pre.has_user(a) by {}
        assert forall|i2: int| 0 <= i2 < post.schedules.len() implies post.has_user(
            (#[trigger] post.schedules[i2]).user,
        ) by {
            assert(pre.has_user(pre.schedules[i2].user));
            assert(post.schedules[i2].user == pre.schedules[i2].user);
        }
        assert forall|i2: int| 0 <= i2 < post.locks.len() implies post.has_user(
            (#[trigger] post.locks[i2]).owner,
        ) by {
            assert(pre.has_user(pre.locks[i2].owner));
        }
        assert(post.wf());
    }
    Ok((schedule.user, schedule.amount))
}

/// Cancels the schedule: only its owner may cancel, and cancellation is
/// terminal — a cancelled schedule can never execute or be reactivated, and
/// cancelling it again fails.
pub fn cancel_autosave(c: &mut NesteraContract, user: u64, schedule_id: u64) -> (r: Result<
    (),
    SavingsError,
>)
    requires
        old(c)@.wf(),
    ensures
        final(c)@.wf(),
        ({
            let s = old(c)@;
            let t = final(c)@;
            &&& !s.has_schedule(schedule_id) ==> r == Err::<(), SavingsError>(
                SavingsError::PlanNotFound,
            ) && t == s
            &&& (s.has_schedule(schedule_id) && s.schedule_of(schedule_id).user != user) ==> r
                == Err::<(), SavingsError>(SavingsError::Unauthorized) && t == s
            &&& (s.has_schedule(schedule_id) && s.schedule_of(schedule_id).user == user
                && !s.schedule_of(schedule_id).is_active) ==> r == Err::<(), SavingsError>(
                SavingsError::InvalidPlanConfig,
            ) && t == s
            &&& (s.has_schedule(schedule_id) && s.schedule_of(schedule_id).user == user
                && s.schedule_of(schedule_id).is_active) ==> {
                let sch = s.schedule_of(schedule_id);
                &&& r == Ok::<(), SavingsError>(())
                &&& t.schedules == s.schedules.update(
                    schedule_id - 1,
                    AutoSave { is_active: false, ..sch },
                )
                &&& t.users == s.users
            }
        }),
        forall|k: int|
            0 <= k < old(c)@.schedules.len() ==> (!(#[trigger] old(c)@.schedules[k]).is_active
                ==> !final(c)@.schedules[k].is_active),
        final(c)@.schedules.len() == old(c)@.schedules.len(),
        final(c)@.users == old(c)@.users,
        final(c)@.admin == old(c)@.admin,
        final(c)@.locks == old(c)@.locks,
        final(c)@.proposals == old(c)@.proposals,
        final(c)@.votes == old(c)@.votes,
        final(c)@.voting_config == old(c)@.voting_config,
        final(c)@.governance_active == old(c)@.governance_active,
{
    let ghost pre = old(c)@;
    if !(1 <= schedule_id && schedule_id <= c.schedules.len() as u64) {
        return Err(SavingsError::PlanNotFound);
    }
    let idx: usize = (schedule_id - 1) as usize;
    let schedule = c.schedules[idx];
    if schedule.user != user {
        return Err(SavingsError::Unauthorized);
    }
    if !schedule.is_active {
        return Err(SavingsError::InvalidPlanConfig);
    }
    let updated = AutoSave { is_active: false, ..schedule };
    c.schedules.set(idx, updated);
    proof {
        let post = c@;
        assert(post.schedules =~= pre.schedules.update(schedule_id - 1, updated));
        assert(post.users == pre.users);
        assert(post.locks == pre.locks);
        assert(post.proposals == pre.proposals);
        assert(post.votes == pre.votes);
        assert(post.voting_config == pre.voting_config);
        assert(schedule_ok(updated, idx as int));
        assert(post.schedules_ok());
        assert(post.locks_ok());
        assert(post.proposals_ok());
        assert(post.users_unique());
        assert forall|u: int| 0 <= u < post.users.len() implies crate::entry_ok(
            #[trigger] post.users[u],
            post.locks,
            post.schedules,
        ) by {
            assert(crate::entry_ok(pre.users[u], pre.locks, pre.schedules));
            let e = post.users[u];
            assert forall|k: int| 0 <= k < e.autosave_ids.len() implies {
                &&& 1 <= #[trigger] e.autosave_ids[k] <= post.schedules.len()
                &&& post.schedules[e.autosave_ids[k] - 1].user == e.address
                &&& k > 0 ==> e.autosave_ids[k - 1] < e.autosave_ids[k]
            } by {
                assert(1 <= pre.users[u].autosave_ids[k] <= pre.schedules.len());
                assert(pre.schedules[e.autosave_ids[k] - 1].user == e.address);
            }
        }
        assert(post.indexes_ok());
        assert forall|a: u64| post.has_user(a) == pre.has_user(a) by {}
        assert forall|i2: int| 0 <= i2 < post.schedules.len() implies post.has_user(
            (#[trigger] post.schedules[i2]).user,
        ) by {
            assert(pre.has_user(pre.schedules[i2].user));
            assert(post.schedules[i2].user == pre.schedules[i2].user);
        }
        assert forall|i2: int| 0 <= i2 < post.locks.len() implies post.has_user(
            (#[trigger] post.locks[i2]).owner,
        ) by {
            assert(pre.has_user(pre.locks[i2].owner));
        }
        assert(post.wf());
    }
    Ok(())
}

/// The schedule with this id, if any.
pub fn get_autosave(c: &NesteraContract, schedule_id: u64) -> (r: Option<AutoSave>)
    ensures
        r is Some <==> c@.has_schedule(schedule_id),
        c@.has_schedule(schedule_id) ==> r == Some(c@.schedule_of(schedule_id)),
{
    if 1 <= schedule_id && schedule_id <= c.schedules.len() as u64 {
        let idx: usize = (schedule_id - 1) as usize;
        Some(c.schedules[idx])
    } else {
        None
    }
}

/// The ids of the schedules `user` owns, in creation order; cancelled ids
/// are retained permanently.
pub fn get_user_autosaves(c: &NesteraContract, user: u64) -> (r: Vec<u64>)
    requires
        c@.wf(),
    ensures
        r@ == c@.autosave_ids_of(user),
{
    match users::find_user_index(c, user) {
        Some(i) => {
            proof {
                c@.lemma_user_entry(i as int);
            }
            let r = c.users[i].autosave_ids.clone();
            proof {
                assert(r@ =~= c@.autosave_ids_of(user));
            }
            r
        },
        None => {
            let r: Vec<u64> = Vec::new();
            proof {
                assert(r@ =~= c@.autosave_ids_of(user));
            }
            r
        },
    }
}

} // verus!
