//! The user registry: registration and pure lookups.
//!
//! Registration is deliberately not idempotent: registering an address that
//! already exists resets its aggregate balance and commitment count to zero,
//! while the address's instrument-id lists are kept.

use vstd::prelude::*;

use crate::storage_types::User;
use crate::{NesteraContract, UserEntry};

verus! {

/// The index of `address`'s entry in the registry vector, if any.
pub(crate) fn find_user_index(c: &NesteraContract, address: u64) -> (r: Option<usize>)
    ensures
        match r {
            Some(i) => 0 <= i < c@.users.len() && c@.users[i as int].address == address,
            None => !c@.has_user(address),
        },
{
    let n = c.users.len();
    let mut i: usize = 0;
    while i < n
        invariant
            n == c@.users.len(),
            i <= n,
            forall|j: int| 0 <= j < i ==> (#[trigger] c@.users[j]).address != address,
        decreases n - i,
    {
        if c.users[i].address == address {
            return Some(i);
        }
        i = i + 1;
    }
    assert(!c@.has_user(address));
    None
}

/// Whether `user` is a registered participant.
pub fn user_exists(c: &NesteraContract, user: u64) -> (r: bool)
    ensures
        r == c@.has_user(user),
{
    find_user_index(c, user).is_some()
}

/// The aggregate record registered for `user`, if any.
pub fn get_user(c: &NesteraContract, user: u64) -> (r: Option<User>)
    requires
        c@.wf(),
    ensures
        r is Some <==> c@.has_user(user),
        c@.has_user(user) ==> r == Some(c@.user_of(user)),
{
    match find_user_index(c, user) {
        Some(i) => {
            proof {
                c@.lemma_user_entry(i as int);
            }
            Some(c.users[i].data)
        },
        None => None,
    }
}

/// Registers `user`, overwriting any existing aggregate record with a zeroed
/// one; the instrument-id lists of a re-registered address are kept.
#[verifier::rlimit(40)]
pub fn init_user(c: &mut NesteraContract, user: u64) -> (r: User)
    requires
        old(c)@.wf(),
    ensures
        final(c)@.wf(),
        r == (User { total_balance: 0, savings_count: 0 }),
        final(c)@.has_user(user),
        final(c)@.user_of(user) == r,
        final(c)@.lock_ids_of(user) == old(c)@.lock_ids_of(user),
        final(c)@.autosave_ids_of(user) == old(c)@.autosave_ids_of(user),
        forall|a: u64| a != user ==> final(c)@.has_user(a) == old(c)@.has_user(a),
        forall|a: u64|
            a != user && old(c)@.has_user(a) ==> final(c)@.user_entry(a) == old(c)@.user_entry(a),
        final(c)@.admin == old(c)@.admin,
        final(c)@.locks == old(c)@.locks,
        final(c)@.schedules == old(c)@.schedules,
        final(c)@.proposals == old(c)@.proposals,
        final(c)@.votes == old(c)@.votes,
        final(c)@.voting_config == old(c)@.voting_config,
        final(c)@.governance_active == old(c)@.governance_active,
{
    let ghost pre = old(c)@;
    let user_data = User { total_balance: 0, savings_count: 0 };
    match find_user_index(c, user) {
        Some(i) => {
            let lock_ids = c.users[i].lock_ids.clone();
            let autosave_ids = c.users[i].autosave_ids.clone();
            proof {
                assert(lock_ids@ =~= pre.users[i as int].lock_ids);
                assert(autosave_ids@ =~= pre.users[i as int].autosave_ids);
            }
            let entry = UserEntry { address: user, data: user_data, lock_ids, autosave_ids };
            c.users.set(i, entry);
            proof {
                let post = c@;
                assert(post.locks == pre.locks);
                assert(post.schedules == pre.schedules);
                assert(post.proposals == pre.proposals);
                assert(post.votes == pre.votes);
                assert(post.voting_config == pre.voting_config);
                assert(post.users =~= pre.users.update(i as int, entry@));
                assert forall|k: int| 0 <= k < post.users.len() implies (#[trigger] post.users[k]).address
                    == pre.users[k].address by {}
                assert(post.users_unique());
                assert forall|a: u64| post.has_user(a) == pre.has_user(a) by {
                    if post.has_user(a) {
                        let w = choose|w: int|
                            0 <= w < post.users.len() && (#[trigger] post.users[w]).address == a;
                        assert(pre.users[w].address == a);
                        assert(pre.has_user(a));
                    }
                    if pre.has_user(a) {
                        let w = choose|w: int|
                            0 <= w < pre.users.len() && (#[trigger] pre.users[w]).address == a;
                        assert(post.users[w].address == a);
                        assert(post.has_user(a));
                    }
                }
                pre.lemma_user_entry(i as int);
                post.lemma_user_entry(i as int);
                assert(post.user_of(user) == user_data);
                assert(post.lock_ids_of(user) == pre.lock_ids_of(user));
                assert(post.autosave_ids_of(user) == pre.autosave_ids_of(user));
                assert forall|a: u64| a != user && pre.has_user(a) implies post.user_entry(a)
                    == pre.user_entry(a) by {
                    let w = pre.user_slot(a);
                    assert(0 <= w < pre.users.len() && pre.users[w].address == a);
                    assert(w != i);
                    pre.lemma_user_entry(w);
                    post.lemma_user_entry(w);
                }
                assert(post.indexes_ok());
                assert forall|i2: int| 0 <= i2 < post.locks.len() implies post.has_user(
                    (#[trigger] post.locks[i2]).owner,
                ) by {
                    assert(pre.has_user(pre.locks[i2].owner));
                }
                assert forall|i2: int| 0 <= i2 < post.schedules.len() implies post.has_user(
                    (#[trigger] post.schedules[i2]).user,
                ) by {
                    assert(pre.has_user(pre.schedules[i2].user));
                }
                assert(post.locks_ok());
                assert(post.schedules_ok());
                assert(post.proposals_ok());
                assert(post.wf());
            }
            user_data
        },
        None => {
            let entry = UserEntry {
                address: user,
                data: user_data,
                lock_ids: Vec::new(),
                autosave_ids: Vec::new(),
            };
            c.users.push(entry);
            proof {
                let post = c@;
                assert(post.locks == pre.locks);
                assert(post.schedules == pre.schedules);
                assert(post.proposals == pre.proposals);
                assert(post.votes == pre.votes);
                assert(post.voting_config == pre.voting_config);
                let n = pre.users.len() as int;
                assert(post.users =~= pre.users.push(entry@));
                assert forall|k: int| 0 <= k < n implies post.users[k] == pre.users[k] by {}
                assert(post.users[n].address == user);
                assert(post.users_unique());
                assert(post.has_user(user));
                assert forall|a: u64| a != user implies post.has_user(a) == pre.has_user(a) by {
                    if post.has_user(a) {
                        let w = choose|w: int|
                            0 <= w < post.users.len() && (#[trigger] post.users[w]).address == a;
                        assert(w != n);
                        assert(pre.users[w].address == a);
                        assert(pre.has_user(a));
                    }
                    if pre.has_user(a) {
                        let w = choose|w: int|
                            0 <= w < pre.users.len() && (#[trigger] pre.users[w]).address == a;
                        assert(post.users[w].address == a);
                        assert(post.has_user(a));
                    }
                }
                post.lemma_user_entry(n);
                assert(post.user_of(user) == user_data);
                assert(post.lock_ids_of(user) =~= Seq::<u64>::empty());
                assert(pre.lock_ids_of(user) =~= Seq::<u64>::empty());
                assert(post.autosave_ids_of(user) =~= Seq::<u64>::empty());
                assert(pre.autosave_ids_of(user) =~= Seq::<u64>::empty());
                assert forall|a: u64| a != user && pre.has_user(a) implies post.user_entry(a)
                    == pre.user_entry(a) by {
                    let w = pre.user_slot(a);
                    assert(0 <= w < pre.users.len() && pre.users[w].address == a);
                    pre.lemma_user_entry(w);
                    post.lemma_user_entry(w);
                }
                assert forall|i2: int| 0 <= i2 < post.locks.len() implies post.has_user(
                    (#[trigger] post.locks[i2]).owner,
                ) by {
                    assert(pre.has_user(pre.locks[i2].owner));
                    if pre.locks[i2].owner != user {
                        assert(post.has_user(post.locks[i2].owner));
                    }
                }
                assert forall|i2: int| 0 <= i2 < post.schedules.len() implies post.has_user(
                    (#[trigger] post.schedules[i2]).user,
                ) by {
                    assert(pre.has_user(pre.schedules[i2].user));
                    if pre.schedules[i2].user != user {
                        assert(post.has_user(post.schedules[i2].user));
                    }
                }
                assert(post.indexes_ok());
                assert(post.locks_ok());
                assert(post.schedules_ok());
                assert(post.proposals_ok());
                assert(post.wf());
            }
            user_data
        },
    }
}

} // verus!
