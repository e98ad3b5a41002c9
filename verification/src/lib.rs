//! A verified ledger state-machine core for user-owned financial commitments:
//! locked deposits that mature and pay whole-year simple interest, recurring
//! scheduled deposits that become due and advance by fixed intervals, and
//! governance proposals with weighted voting.
//!
//! The host environment owns everything outside this core: persistence of the
//! records, caller authentication, the clock, and notification delivery. Each
//! operation here takes the authenticated caller as a plain address identifier
//! and the current time as a plain `now` argument, and either completes fully
//! or fails with a typed [`SavingsError`] leaving the state untouched.

use vstd::prelude::*;

pub mod autosave;
pub mod governance;
pub mod lock;
pub mod storage_types;
pub mod users;

pub use governance::{
    ActionProposal, GovernanceKey, Proposal, ProposalAction, ProposalRecord, VoteRecord,
    VotingConfig,
};
pub use storage_types::{
    AutoSave, DataKey, LockSave, PlanType, SavingsError, SavingsPlan, User,
    LOCK_INTEREST_RATE_BPS, SECONDS_PER_YEAR,
};

verus! {

/// One registered participant: its address, its aggregate record, and the
/// append-only lists of instrument ids it owns.
#[derive(Clone, Debug, Eq, PartialEq)]
pub struct UserEntry {
    pub address: u64,
    pub data: User,
    pub lock_ids: Vec<u64>,
    pub autosave_ids: Vec<u64>,
}

/// Mathematical projection of a [`UserEntry`].
pub ghost struct EntryView {
    pub address: u64,
    pub data: User,
    pub lock_ids: Seq<u64>,
    pub autosave_ids: Seq<u64>,
}

impl View for UserEntry {
    type V = EntryView;

    open spec fn view(&self) -> EntryView {
        EntryView {
            address: self.address,
            data: self.data,
            lock_ids: self.lock_ids@,
            autosave_ids: self.autosave_ids@,
        }
    }
}

/// The whole contract state. Ids are allocated densely per namespace, so the
/// record with id `n` sits at index `n - 1` of its vector and the next id of
/// each namespace is the vector's length plus one.
pub struct NesteraContract {
    pub admin: u64,
    pub users: Vec<UserEntry>,
    pub locks: Vec<LockSave>,
    pub schedules: Vec<AutoSave>,
    pub proposals: Vec<ProposalRecord>,
    pub votes: Vec<VoteRecord>,
    pub voting_config: Option<VotingConfig>,
    pub governance_active: bool,
}

/// Mathematical projection of the whole contract state.
pub ghost struct StateView {
    pub admin: u64,
    pub users: Seq<EntryView>,
    pub locks: Seq<LockSave>,
    pub schedules: Seq<AutoSave>,
    pub proposals: Seq<ProposalRecord>,
    pub votes: Seq<VoteRecord>,
    pub voting_config: Option<VotingConfig>,
    pub governance_active: bool,
}

impl View for NesteraContract {
    type V = StateView;

    open spec fn view(&self) -> StateView {
        StateView {
            admin: self.admin,
            users: self.users@.map_values(|e: UserEntry| e@),
            locks: self.locks@,
            schedules: self.schedules@,
            proposals: self.proposals@,
            votes: self.votes@,
            voting_config: self.voting_config,
            governance_active: self.governance_active,
        }
    }
}

impl StateView {
    /// Whether `address` is a registered participant.
    pub open spec fn has_user(self, address: u64) -> bool {
        exists|i: int| 0 <= i < self.users.len() && (#[trigger] self.users[i]).address == address
    }

    /// The index of `address`'s entry (meaningful only under `users_unique`).
    pub open spec fn user_slot(self, address: u64) -> int {
        choose|i: int| 0 <= i < self.users.len() && (#[trigger] self.users[i]).address == address
    }

    /// The entry registered for `address`.
    pub open spec fn user_entry(self, address: u64) -> EntryView {
        self.users[self.user_slot(address)]
    }

    /// The aggregate record registered for `address`.
    pub open spec fn user_of(self, address: u64) -> User {
        self.user_entry(address).data
    }

    /// The ids of the locked deposits `address` owns, in creation order;
    /// empty for an unregistered address.
    pub open spec fn lock_ids_of(self, address: u64) -> Seq<u64> {
        if self.has_user(address) {
            self.user_entry(address).lock_ids
        } else {
            Seq::empty()
        }
    }

    /// The ids of the schedules `address` owns, in creation order; empty for
    /// an unregistered address.
    pub open spec fn autosave_ids_of(self, address: u64) -> Seq<u64> {
        if self.has_user(address) {
            self.user_entry(address).autosave_ids
        } else {
            Seq::empty()
        }
    }

    /// Whether a locked deposit with this id exists.
    pub open spec fn has_lock(self, id: u64) -> bool {
        1 <= id <= self.locks.len()
    }

    /// The locked deposit with this id.
    pub open spec fn lock_of(self, id: u64) -> LockSave {
        self.locks[id - 1]
    }

    /// Whether a schedule with this id exists.
    pub open spec fn has_schedule(self, id: u64) -> bool {
        1 <= id <= self.schedules.len()
    }

    /// The schedule with this id.
    pub open spec fn schedule_of(self, id: u64) -> AutoSave {
        self.schedules[id - 1]
    }

    /// Whether a proposal (of either kind) with this id exists.
    pub open spec fn has_proposal(self, id: u64) -> bool {
        1 <= id <= self.proposals.len()
    }

    /// The proposal record with this id.
    pub open spec fn proposal_rec(self, id: u64) -> ProposalRecord {
        self.proposals[id - 1]
    }

    /// Whether `voter` has already cast a ballot on `proposal_id`.
    pub open spec fn has_voted(self, proposal_id: u64, voter: u64) -> bool {
        exists|i: int|
            0 <= i < self.votes.len() && (#[trigger] self.votes[i]).proposal_id == proposal_id
                && self.votes[i].voter == voter
    }

    /// Registered addresses are pairwise distinct.
    pub open spec fn users_unique(self) -> bool {
        forall|i: int, j: int|
            0 <= i < j < self.users.len() ==> (#[trigger] self.users[i]).address != (
            #[trigger] self.users[j]).address
    }

    /// Every stored locked deposit is internally valid and sits at the index
    /// its id names.
    pub open spec fn locks_ok(self) -> bool {
        forall|i: int| 0 <= i < self.locks.len() ==> lock_ok(#[trigger] self.locks[i], i)
    }

    /// Every stored schedule is internally valid and sits at the index its id
    /// names.
    pub open spec fn schedules_ok(self) -> bool {
        forall|i: int| 0 <= i < self.schedules.len() ==> schedule_ok(#[trigger] self.schedules[i], i)
    }

    /// Every stored proposal sits at the index its id names, and its voting
    /// window is the configured period starting at its creation time.
    pub open spec fn proposals_ok(self) -> bool {
        &&& forall|i: int|
            0 <= i < self.proposals.len() ==> proposal_ok(
                #[trigger] self.proposals[i],
                i,
                self.voting_config,
            )
        &&& self.voting_config is None ==> self.proposals.len() == 0
    }

    /// Each user's id lists are strictly increasing and name instruments that
    /// exist and belong to that user.
    pub open spec fn indexes_ok(self) -> bool {
        forall|u: int|
            0 <= u < self.users.len() ==> entry_ok(
                #[trigger] self.users[u],
                self.locks,
                self.schedules,
            )
    }

    /// Every instrument's owner is a registered participant.
    pub open spec fn owners_registered(self) -> bool {
        &&& forall|i: int|
            0 <= i < self.locks.len() ==> self.has_user((#[trigger] self.locks[i]).owner)
        &&& forall|i: int|
            0 <= i < self.schedules.len() ==> self.has_user((#[trigger] self.schedules[i]).user)
    }

    /// Well-formedness of the whole state: established by the constructor and
    /// preserved by every operation.
    pub open spec fn wf(self) -> bool {
        &&& self.users_unique()
        &&& self.locks_ok()
        &&& self.schedules_ok()
        &&& self.proposals_ok()
        &&& self.indexes_ok()
        &&& self.owners_registered()
    }
}

impl StateView {
    /// Under distinct addresses, the entry at index `i` is the one that every
    /// `user_*` projection returns for its address.
    pub proof fn lemma_user_entry(self, i: int)
        requires
            self.users_unique(),
            0 <= i < self.users.len(),
        ensures
            self.has_user(self.users[i].address),
            self.user_slot(self.users[i].address) == i,
            self.user_entry(self.users[i].address) == self.users[i],
    {
        let a = self.users[i].address;
        assert(self.has_user(a));
        let j = self.user_slot(a);
        assert(0 <= j < self.users.len() && self.users[j].address == a);
        if i < j {
            assert(self.users[i].address != self.users[j].address);
        }
        if j < i {
            assert(self.users[j].address != self.users[i].address);
        }
    }
    /// Well-formedness carries over to a state with the same participants and
    /// instruments once its proposals are known to be in order.
    pub proof fn lemma_wf_same_instruments(self, other: StateView)
        requires
            self.wf(),
            other.users == self.users,
            other.locks == self.locks,
            other.schedules == self.schedules,
            other.proposals_ok(),
        ensures
            other.wf(),
    {
        assert(other.users_unique());
        assert forall|i: int| 0 <= i < other.locks.len() implies lock_ok(
            #[trigger] other.locks[i],
            i,
        ) by {
            assert(lock_ok(self.locks[i], i));
        }
        assert forall|i: int| 0 <= i < other.schedules.len() implies schedule_ok(
            #[trigger] other.schedules[i],
            i,
        ) by {
            assert(schedule_ok(self.schedules[i], i));
        }
        assert forall|u: int| 0 <= u < other.users.len() implies entry_ok(
            #[trigger] other.users[u],
            other.locks,
            other.schedules,
        ) by {
            assert(entry_ok(self.users[u], self.locks, self.schedules));
        }
        assert forall|i: int| 0 <= i < other.locks.len() implies other.has_user(
            (#[trigger] other.locks[i]).owner,
        ) by {
            assert(self.has_user(self.locks[i].owner));
            let w = self.user_slot(self.locks[i].owner);
            assert(0 <= w < self.users.len() && self.users[w].address == self.locks[i].owner);
            assert(other.users[w].address == other.locks[i].owner);
        }
        assert forall|i: int| 0 <= i < other.schedules.len() implies other.has_user(
            (#[trigger] other.schedules[i]).user,
        ) by {
            assert(self.has_user(self.schedules[i].user));
            let w = self.user_slot(self.schedules[i].user);
            assert(0 <= w < self.users.len() && self.users[w].address == self.schedules[i].user);
            assert(other.users[w].address == other.schedules[i].user);
        }
    }
}

/// Validity of one stored locked deposit at index `i`: dense id, positive
/// amount, the fixed rate, a forward-moving maturity, and interest arithmetic
/// that cannot overflow an `i128`.
pub open spec fn lock_ok(l: LockSave, i: int) -> bool {
    &&& l.id == i + 1
    &&& l.amount > 0
    &&& l.interest_rate == LOCK_INTEREST_RATE_BPS
    &&& l.start_time < l.maturity_time
    &&& l.amount * (LOCK_INTEREST_RATE_BPS as int) <= i128::MAX
    &&& l.amount * (LOCK_INTEREST_RATE_BPS as int) * lock_years(l) <= i128::MAX
}

/// Validity of one stored schedule at index `i`: dense id, positive amount,
/// positive interval.
pub open spec fn schedule_ok(s: AutoSave, i: int) -> bool {
    &&& s.id == i + 1
    &&& s.amount > 0
    &&& s.interval_seconds > 0
}

/// Validity of one stored proposal at index `i`: dense id, and a voting
/// window of exactly the configured period.
pub open spec fn proposal_ok(r: ProposalRecord, i: int, cfg: Option<VotingConfig>) -> bool {
    &&& r.rec_id() == i + 1
    &&& cfg matches Some(cf) ==> r.rec_end_time() == r.rec_start_time() + cf.voting_period
}

/// Validity of one registry entry against the instrument vectors: its id
/// lists are strictly increasing and name instruments owned by its address.
pub open spec fn entry_ok(e: EntryView, locks: Seq<LockSave>, schedules: Seq<AutoSave>) -> bool {
    &&& forall|k: int|
        0 <= k < e.lock_ids.len() ==> {
            &&& 1 <= #[trigger] e.lock_ids[k] <= locks.len()
            &&& locks[e.lock_ids[k] - 1].owner == e.address
            &&& k > 0 ==> e.lock_ids[k - 1] < e.lock_ids[k]
        }
    &&& forall|k: int|
        0 <= k < e.autosave_ids.len() ==> {
            &&& 1 <= #[trigger] e.autosave_ids[k] <= schedules.len()
            &&& schedules[e.autosave_ids[k] - 1].user == e.address
            &&& k > 0 ==> e.autosave_ids[k - 1] < e.autosave_ids[k]
        }
}

/// The number of whole years a locked deposit spans, by integer floor
/// division; durations under one year count zero years.
pub open spec fn lock_years(l: LockSave) -> int {
    (l.maturity_time - l.start_time) / (SECONDS_PER_YEAR as int)
}

/// What a withdrawal of a locked deposit pays out: the principal plus
/// whole-year simple interest at the stored rate.
pub open spec fn lock_payout(l: LockSave) -> int {
    l.amount + (l.amount * (l.interest_rate as int) * lock_years(l)) / 10000
}

/// Within each counter namespace — locks, schedules, proposals — the ids of
/// a well-formed state are exactly `1, 2, 3, ...` in creation order: they
/// start at 1, are strictly increasing, hence pairwise distinct, whoever
/// created the instruments; and the id the next creation returns, one past
/// the count, is strictly greater than every id already allocated.
pub proof fn lemma_ids_strictly_increasing(s: StateView)
    requires
        s.wf(),
    ensures
        forall|i: int, j: int|
            0 <= i < j < s.locks.len() ==> (#[trigger] s.locks[i]).id < (#[trigger] s.locks[j]).id,
        s.locks.len() > 0 ==> s.locks[0].id == 1,
        forall|i: int| 0 <= i < s.locks.len() ==> (#[trigger] s.locks[i]).id < s.locks.len() + 1,
        forall|i: int, j: int|
            0 <= i < j < s.schedules.len() ==> (#[trigger] s.schedules[i]).id < (
            #[trigger] s.schedules[j]).id,
        s.schedules.len() > 0 ==> s.schedules[0].id == 1,
        forall|i: int|
            0 <= i < s.schedules.len() ==> (#[trigger] s.schedules[i]).id < s.schedules.len() + 1,
        forall|i: int, j: int|
            0 <= i < j < s.proposals.len() ==> (#[trigger] s.proposals[i]).rec_id() < (
            #[trigger] s.proposals[j]).rec_id(),
        s.proposals.len() > 0 ==> s.proposals[0].rec_id() == 1,
        forall|i: int|
            0 <= i < s.proposals.len() ==> (#[trigger] s.proposals[i]).rec_id() < s.proposals.len()
                + 1,
{
}

/// A user's instrument-id lists are sound: every listed lock id names an
/// existing lock owned by that user, every listed schedule id names an
/// existing schedule owned by that user, and both lists are strictly
/// increasing — creation order, without duplicates. (The lists only ever
/// grow: creation appends the fresh id, and no operation removes one.)
pub proof fn lemma_owner_index_sound(s: StateView, user: u64)
    requires
        s.wf(),
    ensures
        forall|k: int|
            0 <= k < s.lock_ids_of(user).len() ==> 1 <= #[trigger] s.lock_ids_of(user)[k]
                <= s.locks.len() && s.lock_of(s.lock_ids_of(user)[k]).owner == user,
        forall|k: int|
            0 < k < s.lock_ids_of(user).len() ==> s.lock_ids_of(user)[k - 1]
                < #[trigger] s.lock_ids_of(user)[k],
        forall|k: int|
            0 <= k < s.autosave_ids_of(user).len() ==> 1 <= #[trigger] s.autosave_ids_of(user)[k]
                <= s.schedules.len() && s.schedule_of(s.autosave_ids_of(user)[k]).user == user,
        forall|k: int|
            0 < k < s.autosave_ids_of(user).len() ==> s.autosave_ids_of(user)[k - 1]
                < #[trigger] s.autosave_ids_of(user)[k],
{
    if s.has_user(user) {
        let w = s.user_slot(user);
        assert(0 <= w < s.users.len() && s.users[w].address == user);
        assert(entry_ok(s.users[w], s.locks, s.schedules));
    }
}

impl NesteraContract {
    /// Bootstrap: an empty ledger whose privileged administrator is `admin`.
    pub fn new(admin: u64) -> (c: NesteraContract)
        ensures
            c@.wf(),
            c@.admin == admin,
            c@.users == Seq::<EntryView>::empty(),
            c@.locks == Seq::<LockSave>::empty(),
            c@.schedules == Seq::<AutoSave>::empty(),
            c@.proposals == Seq::<ProposalRecord>::empty(),
            c@.votes == Seq::<VoteRecord>::empty(),
            c@.voting_config is None,
            !c@.governance_active,
    {
        let c = NesteraContract {
            admin,
            users: Vec::new(),
            locks: Vec::new(),
            schedules: Vec::new(),
            proposals: Vec::new(),
            votes: Vec::new(),
            voting_config: None,
            governance_active: false,
        };
        proof {
            assert(c@.users =~= Seq::<EntryView>::empty());
            assert(c@.locks =~= Seq::<LockSave>::empty());
            assert(c@.schedules =~= Seq::<AutoSave>::empty());
            assert(c@.proposals =~= Seq::<ProposalRecord>::empty());
            assert(c@.votes =~= Seq::<VoteRecord>::empty());
        }
        c
    }

    /// Registers `user`; see [`users::init_user`].
    pub fn init_user(&mut self, user: u64) -> (r: User)
        requires
            old(self)@.wf(),
        ensures
            final(self)@.wf(),
            r == (User { total_balance: 0, savings_count: 0 }),
            final(self)@.has_user(user),
            final(self)@.user_of(user) == r,
            final(self)@.lock_ids_of(user) == old(self)@.lock_ids_of(user),
            final(self)@.autosave_ids_of(user) == old(self)@.autosave_ids_of(user),
            forall|a: u64| a != user ==> final(self)@.has_user(a) == old(self)@.has_user(a),
            forall|a: u64|
                a != user && old(self)@.has_user(a) ==> final(self)@.user_entry(a)
                    == old(self)@.user_entry(a),
            final(self)@.admin == old(self)@.admin,
            final(self)@.locks == old(self)@.locks,
            final(self)@.schedules == old(self)@.schedules,
            final(self)@.proposals == old(self)@.proposals,
            final(self)@.votes == old(self)@.votes,
            final(self)@.voting_config == old(self)@.voting_config,
            final(self)@.governance_active == old(self)@.governance_active,
    {
        users::init_user(self, user)
    }

    /// Creates a locked deposit; see [`lock::create_lock_save`].
    pub fn create_lock_save(&mut self, user: u64, amount: i128, duration: u64, now: u64) -> (r:
        Result<u64, SavingsError>)
        requires
            old(self)@.wf(),
            now + duration <= u64::MAX,
            old(self)@.locks.len() < u64::MAX,
            amount * (LOCK_INTEREST_RATE_BPS as int) <= i128::MAX,
            amount * (LOCK_INTEREST_RATE_BPS as int) * ((duration as int) / (
            SECONDS_PER_YEAR as int)) <= i128::MAX,
            old(self)@.has_user(user) ==> old(self)@.user_of(user).total_balance + amount
                <= i128::MAX,
            old(self)@.has_user(user) ==> old(self)@.user_of(user).savings_count + 1 <= u32::MAX,
        ensures
            final(self)@.wf(),
            amount <= 0 ==> r == Err::<u64, SavingsError>(SavingsError::InvalidAmount)
                && final(self)@ == old(self)@,
            amount > 0 && duration == 0 ==> r == Err::<u64, SavingsError>(
                SavingsError::InvalidDuration,
            ) && final(self)@ == old(self)@,
            amount > 0 && duration > 0 && !old(self)@.has_user(user) ==> r == Err::<
                u64,
                SavingsError,
            >(SavingsError::UserNotFound) && final(self)@ == old(self)@,
            amount > 0 && duration > 0 && old(self)@.has_user(user) ==> {
                let id = (old(self)@.locks.len() + 1) as u64;
                &&& r == Ok::<u64, SavingsError>(id)
                &&& final(self)@.locks == old(self)@.locks.push(
                    lock::new_lock(id, user, amount, now, duration),
                )
                &&& final(self)@.lock_ids_of(user) == old(self)@.lock_ids_of(user).push(id)
                &&& final(self)@.autosave_ids_of(user) == old(self)@.autosave_ids_of(user)
                &&& final(self)@.user_of(user).total_balance == old(self)@.user_of(
                    user,
                ).total_balance + amount
                &&& final(self)@.user_of(user).savings_count == old(self)@.user_of(
                    user,
                ).savings_count + 1
            },
            forall|a: u64| final(self)@.has_user(a) == old(self)@.has_user(a),
            final(self)@.schedules == old(self)@.schedules,
            final(self)@.proposals == old(self)@.proposals,
            final(self)@.voting_config == old(self)@.voting_config,
    {
        lock::create_lock_save(self, user, amount, duration, now)
    }

    /// Maturity check; see [`lock::check_matured_lock`].
    pub fn check_matured_lock(&self, lock_id: u64, now: u64) -> (r: bool)
        ensures
            r == (self@.has_lock(lock_id) && now >= self@.lock_of(lock_id).maturity_time),
    {
        lock::check_matured_lock(self, lock_id, now)
    }

    /// Withdraws a matured lock; see [`lock::withdraw_lock_save`].
    pub fn withdraw_lock_save(&mut self, user: u64, lock_id: u64, now: u64) -> (r: Result<
        i128,
        SavingsError,
    >)
        requires
            old(self)@.wf(),
            old(self)@.has_lock(lock_id) && old(self)@.has_user(user) ==> old(self)@.user_of(
                user,
            ).total_balance - old(self)@.lock_of(lock_id).amount >= i128::MIN,
        ensures
            final(self)@.wf(),
            ({
                let s = old(self)@;
                let t = final(self)@;
                &&& !s.has_lock(lock_id) ==> r == Err::<i128, SavingsError>(
                    SavingsError::LockNotFound,
                ) && t == s
                &&& (s.has_lock(lock_id) && s.lock_of(lock_id).owner != user) ==> r == Err::<
                    i128,
                    SavingsError,
                >(SavingsError::Unauthorized) && t == s
                &&& (s.has_lock(lock_id) && s.lock_of(lock_id).owner == user && s.lock_of(
                    lock_id,
                ).is_withdrawn) ==> r == Err::<i128, SavingsError>(SavingsError::AlreadyWithdrawn)
                    && t == s
                &&& (s.has_lock(lock_id) && s.lock_of(lock_id).owner == user && !s.lock_of(
                    lock_id,
                ).is_withdrawn && now < s.lock_of(lock_id).maturity_time) ==> r == Err::<
                    i128,
                    SavingsError,
                >(SavingsError::LockNotMatured) && t == s
                &&& (s.has_lock(lock_id) && s.lock_of(lock_id).owner == user && !s.lock_of(
                    lock_id,
                ).is_withdrawn && now >= s.lock_of(lock_id).maturity_time) ==> {
                    let l = s.lock_of(lock_id);
                    &&& r matches Ok(v) && v == lock_payout(l)
                    &&& t.locks == s.locks.update(lock_id - 1, LockSave { is_withdrawn: true, ..l })
                    &&& t.user_of(user).total_balance == s.user_of(user).total_balance - l.amount
                    &&& t.user_of(user).savings_count == s.user_of(user).savings_count
                }
            }),
            forall|a: u64| final(self)@.has_user(a) == old(self)@.has_user(a),
            forall|a: u64|
                old(self)@.has_user(a) ==> final(self)@.lock_ids_of(a) == old(self)@.lock_ids_of(a)
                    && final(self)@.autosave_ids_of(a) == old(self)@.autosave_ids_of(a),
            forall|k: int|
                0 <= k < old(self)@.locks.len() ==> ((#[trigger] old(self)@.locks[k]).is_withdrawn
                    ==> final(self)@.locks[k].is_withdrawn),
            final(self)@.locks.len() == old(self)@.locks.len(),
            final(self)@.schedules == old(self)@.schedules,
            final(self)@.proposals == old(self)@.proposals,
            final(self)@.voting_config == old(self)@.voting_config,
    {
        lock::withdraw_lock_save(self, user, lock_id, now)
    }

    /// The locked deposit with this id, if any; see [`lock::get_lock_save`].
    pub fn get_lock_save(&self, lock_id: u64) -> (r: Option<LockSave>)
        ensures
            r is Some <==> self@.has_lock(lock_id),
            self@.has_lock(lock_id) ==> r == Some(self@.lock_of(lock_id)),
    {
        lock::get_lock_save(self, lock_id)
    }

    /// The ids of the locks `user` owns; see [`lock::get_user_lock_saves`].
    pub fn get_user_lock_saves(&self, user: u64) -> (r: Vec<u64>)
        requires
            self@.wf(),
        ensures
            r@ == self@.lock_ids_of(user),
    {
        lock::get_user_lock_saves(self, user)
    }

    /// The aggregate record of `user`, if registered; see [`users::get_user`].
    pub fn get_user(&self, user: u64) -> (r: Option<User>)
        requires
            self@.wf(),
        ensures
            r is Some <==> self@.has_user(user),
            self@.has_user(user) ==> r == Some(self@.user_of(user)),
    {
        users::get_user(self, user)
    }
}

} // verus!
