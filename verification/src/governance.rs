//! Governance records: proposals (plain and action-carrying), the one-time
//! voting configuration, weighted votes, and the admin/governance gate.

use vstd::prelude::*;

use crate::storage_types::SavingsError;
use crate::{NesteraContract, StateView};

verus! {

/// A plain governance proposal.
#[derive(Clone, Debug, Eq, PartialEq)]
pub struct Proposal {
    pub id: u64,
    pub creator: u64,
    pub description: String,
    pub start_time: u64,
    pub end_time: u64,
    pub executed: bool,
    pub for_votes: u128,
    pub against_votes: u128,
    pub abstain_votes: u128,
}

/// A governance proposal that carries an operation to perform if it passes.
#[derive(Clone, Debug, Eq, PartialEq)]
pub struct ActionProposal {
    pub id: u64,
    pub creator: u64,
    pub description: String,
    pub start_time: u64,
    pub end_time: u64,
    pub executed: bool,
    pub for_votes: u128,
    pub against_votes: u128,
    pub abstain_votes: u128,
    pub action: ProposalAction,
}

/// The process-wide voting configuration, set exactly once.
#[derive(Clone, Copy, Debug, Eq, PartialEq, Structural)]
pub struct VotingConfig {
    pub quorum: u32,
    pub voting_period: u64,
    pub timelock_duration: u64,
}

/// Keys of the governance records in the persistent key-value ledger.
#[derive(Clone, Copy, Debug, Eq, PartialEq, Structural)]
pub enum GovernanceKey {
    Proposal(u64),
    ActionProposal(u64),
    NextProposalId,
    VotingConfig,
    AllProposals,
    GovernanceActive,
}

/// The operations an action proposal can carry.
#[derive(Clone, Copy, Debug, Eq, PartialEq, Structural)]
pub enum ProposalAction {
    SetFlexiRate(i128),
    SetGoalRate(i128),
    SetGroupRate(i128),
    SetLockRate(u64, i128),
    PauseContract,
    UnpauseContract,
}

/// One entry of the shared proposal id space: either kind of proposal.
#[derive(Clone, Debug, Eq, PartialEq)]
pub enum ProposalRecord {
    Plain(Proposal),
    Action(ActionProposal),
}

/// One cast ballot, kept to bar a voter from voting twice on one proposal.
#[derive(Clone, Copy, Debug, Eq, PartialEq, Structural)]
pub struct VoteRecord {
    pub proposal_id: u64,
    pub voter: u64,
    pub support: bool,
    pub weight: u128,
}

impl ProposalRecord {
    /// The id shared by both kinds of record.
    pub open spec fn rec_id(self) -> u64 {
        match self {
            ProposalRecord::Plain(p) => p.id,
            ProposalRecord::Action(p) => p.id,
        }
    }

    /// The creation time shared by both kinds of record.
    pub open spec fn rec_start_time(self) -> u64 {
        match self {
            ProposalRecord::Plain(p) => p.start_time,
            ProposalRecord::Action(p) => p.start_time,
        }
    }

    /// The end of the voting window shared by both kinds of record.
    pub open spec fn rec_end_time(self) -> u64 {
        match self {
            ProposalRecord::Plain(p) => p.end_time,
            ProposalRecord::Action(p) => p.end_time,
        }
    }

    /// The votes in favour recorded so far.
    pub open spec fn rec_for_votes(self) -> u128 {
        match self {
            ProposalRecord::Plain(p) => p.for_votes,
            ProposalRecord::Action(p) => p.for_votes,
        }
    }

    /// The votes against recorded so far.
    pub open spec fn rec_against_votes(self) -> u128 {
        match self {
            ProposalRecord::Plain(p) => p.against_votes,
            ProposalRecord::Action(p) => p.against_votes,
        }
    }

    /// Whether the proposal has been executed.
    pub open spec fn rec_executed(self) -> bool {
        match self {
            ProposalRecord::Plain(p) => p.executed,
            ProposalRecord::Action(p) => p.executed,
        }
    }
}

/// The voting weight a lifetime-deposited amount confers: the amount itself,
/// floored at zero.
pub open spec fn voting_weight(lifetime_deposited: i128) -> u128 {
    if lifetime_deposited > 0 {
        lifetime_deposited as u128
    } else {
        0
    }
}

/// Whether a ballot on this record is admissible at time `now`: the proposal
/// is not executed and `now` lies in the half-open window `[start, end)`.
pub open spec fn vote_window_open(r: ProposalRecord, now: u64) -> bool {
    &&& !r.rec_executed()
    &&& r.rec_start_time() <= now < r.rec_end_time()
}

/// The record with one ballot of weight `w` added to the tally that
/// `support` selects.
pub open spec fn vote_bumped(r: ProposalRecord, support: bool, w: u128) -> ProposalRecord {
    match r {
        ProposalRecord::Plain(p) => ProposalRecord::Plain(
            Proposal {
                for_votes: if support {
                    (p.for_votes + w) as u128
                } else {
                    p.for_votes
                },
                against_votes: if support {
                    p.against_votes
                } else {
                    (p.against_votes + w) as u128
                },
                ..p
            },
        ),
        ProposalRecord::Action(p) => ProposalRecord::Action(
            ActionProposal {
                for_votes: if support {
                    (p.for_votes + w) as u128
                } else {
                    p.for_votes
                },
                against_votes: if support {
                    p.against_votes
                } else {
                    (p.against_votes + w) as u128
                },
                ..p
            },
        ),
    }
}

/// Voting power derived from the lifetime amount a rewards source reports
/// for the address, floored at zero.
pub fn get_voting_power(lifetime_deposited: i128) -> (r: u128)
    ensures
        r == voting_weight(lifetime_deposited),
{
    if lifetime_deposited > 0 {
        lifetime_deposited as u128
    } else {
        0
    }
}

/// The voting configuration, or `InternalError` while it is uninitialized.
pub fn get_voting_config(c: &NesteraContract) -> (r: Result<VotingConfig, SavingsError>)
    ensures
        c@.voting_config matches Some(cfg) ==> r == Ok::<VotingConfig, SavingsError>(cfg),
        c@.voting_config is None ==> r == Err::<VotingConfig, SavingsError>(
            SavingsError::InternalError,
        ),
{
    match c.voting_config {
        Some(cfg) => Ok(cfg),
        None => Err(SavingsError::InternalError),
    }
}

/// Sets the one-time voting configuration. Only the stored administrator may
/// do so, and only once.
pub fn init_voting_config(c: &mut NesteraContract, admin: u64, config: VotingConfig) -> (r: Result<
    (),
    SavingsError,
>)
    requires
        old(c)@.wf(),
    ensures
        final(c)@.wf(),
        admin != old(c)@.admin ==> r == Err::<(), SavingsError>(SavingsError::Unauthorized)
            && final(c)@ == old(c)@,
        admin == old(c)@.admin && old(c)@.voting_config is Some ==> r == Err::<(), SavingsError>(
            SavingsError::ConfigAlreadyInitialized,
        ) && final(c)@ == old(c)@,
        admin == old(c)@.admin && old(c)@.voting_config is None ==> r == Ok::<(), SavingsError>(())
            && final(c)@ == (StateView { voting_config: Some(config), ..old(c)@ }),
{
    let ghost pre = old(c)@;
    if admin != c.admin {
        return Err(SavingsError::Unauthorized);
    }
    if c.voting_config.is_some() {
        return Err(SavingsError::ConfigAlreadyInitialized);
    }
    c.voting_config = Some(config);
    proof {
        let post = c@;
        assert(post.users == pre.users);
        assert(post.proposals == pre.proposals);
        assert(post.proposals_ok());
        pre.lemma_wf_same_instruments(post);
    }
    Ok(())
}

/// Whether governance has been activated.
pub fn is_governance_active(c: &NesteraContract) -> (r: bool)
    ensures
        r == c@.governance_active,
{
    c.governance_active
}

/// Flips the global governance flag on. Only the stored administrator may do
/// so; the flag never reverts.
pub fn activate_governance(c: &mut NesteraContract, admin: u64) -> (r: Result<(), SavingsError>)
    requires
        old(c)@.wf(),
    ensures
        final(c)@.wf(),
        admin != old(c)@.admin ==> r == Err::<(), SavingsError>(SavingsError::Unauthorized)
            && final(c)@ == old(c)@,
        admin == old(c)@.admin ==> r == Ok::<(), SavingsError>(()) && final(c)@ == (StateView {
            governance_active: true,
            ..old(c)@
        }),
{
    let ghost pre = old(c)@;
    if admin != c.admin {
        return Err(SavingsError::Unauthorized);
    }
    c.governance_active = true;
    proof {
        let post = c@;
        assert(post.proposals_ok());
        pre.lemma_wf_same_instruments(post);
    }
    Ok(())
}

/// Guards privileged mutations: `Ok(true)` means the governance path (open
/// to everyone once governance is active), `Ok(false)` means the admin path;
/// any other caller while governance is inactive fails `Unauthorized`.
pub fn validate_admin_or_governance(c: &NesteraContract, caller: u64) -> (r: Result<
    bool,
    SavingsError,
>)
    ensures
        c@.governance_active ==> r == Ok::<bool, SavingsError>(true),
        !c@.governance_active && caller == c@.admin ==> r == Ok::<bool, SavingsError>(false),
        !c@.governance_active && caller != c@.admin ==> r == Err::<bool, SavingsError>(
            SavingsError::Unauthorized,
        ),
{
    if c.governance_active {
        return Ok(true);
    }
    if caller == c.admin {
        Ok(false)
    } else {
        Err(SavingsError::Unauthorized)
    }
}

/// Creates a plain proposal by `creator`, open for votes from `now` for the
/// configured voting period. Requires the voting configuration; allocates
/// from the proposal id namespace shared with action proposals.
pub fn create_proposal(c: &mut NesteraContract, creator: u64, description: String, now: u64) -> (r:
    Result<u64, SavingsError>)
    requires
        old(c)@.wf(),
        old(c)@.proposals.len() < u64::MAX,
        old(c)@.voting_config matches Some(cfg) ==> now + cfg.voting_period <= u64::MAX,
    ensures
        final(c)@.wf(),
        old(c)@.voting_config is None ==> r == Err::<u64, SavingsError>(SavingsError::InternalError)
            && final(c)@ == old(c)@,
        old(c)@.voting_config matches Some(cfg) ==> {
            let id = (old(c)@.proposals.len() + 1) as u64;
            &&& r == Ok::<u64, SavingsError>(id)
            &&& final(c)@ == (StateView {
                proposals: old(c)@.proposals.push(
                    ProposalRecord::Plain(
                        Proposal {
                            id,
                            creator,
                            description,
                            start_time: now,
                            end_time: (now + cfg.voting_period) as u64,
                            executed: false,
                            for_votes: 0,
                            against_votes: 0,
                            abstain_votes: 0,
                        },
                    ),
                ),
                ..old(c)@
            })
        },
{
    let ghost pre = old(c)@;
    let config = match get_voting_config(c) {
        Ok(cfg) => cfg,
        Err(e) => {
            return Err(e);
        },
    };
    let proposal_id: u64 = (c.proposals.len() as u64) + 1;
    let proposal = Proposal {
        id: proposal_id,
        creator,
        description,
        start_time: now,
        end_time: now + config.voting_period,
        executed: false,
        for_votes: 0,
        against_votes: 0,
        abstain_votes: 0,
    };
    c.proposals.push(ProposalRecord::Plain(proposal));
    proof {
        let post = c@;
        let n = pre.proposals.len() as int;
        assert(post.proposals =~= pre.proposals.push(ProposalRecord::Plain(proposal)));
        assert forall|i: int| 0 <= i < post.proposals.len() implies crate::proposal_ok(
            #[trigger] post.proposals[i],
            i,
            post.voting_config,
        ) by {
            if i < n {
                assert(crate::proposal_ok(pre.proposals[i], i, pre.voting_config));
            }
        }
        assert(post.proposals_ok());
        pre.lemma_wf_same_instruments(post);
        assert(post =~= StateView { proposals: pre.proposals.push(ProposalRecord::Plain(proposal)), ..pre });
    }
    Ok(proposal_id)
}

/// Creates an action-carrying proposal by `creator`, open for votes from
/// `now` for the configured voting period; the id comes from the namespace
/// shared with plain proposals.
pub fn create_action_proposal(
    c: &mut NesteraContract,
    creator: u64,
    description: String,
    action: ProposalAction,
    now: u64,
) -> (r: Result<u64, SavingsError>)
    requires
        old(c)@.wf(),
        old(c)@.proposals.len() < u64::MAX,
        old(c)@.voting_config matches Some(cfg) ==> now + cfg.voting_period <= u64::MAX,
    ensures
        final(c)@.wf(),
        old(c)@.voting_config is None ==> r == Err::<u64, SavingsError>(SavingsError::InternalError)
            && final(c)@ == old(c)@,
        old(c)@.voting_config matches Some(cfg) ==> {
            let id = (old(c)@.proposals.len() + 1) as u64;
            &&& r == Ok::<u64, SavingsError>(id)
            &&& final(c)@ == (StateView {
                proposals: old(c)@.proposals.push(
                    ProposalRecord::Action(
                        ActionProposal {
                            id,
                            creator,
                            description,
                            start_time: now,
                            end_time: (now + cfg.voting_period) as u64,
                            executed: false,
                            for_votes: 0,
                            against_votes: 0,
                            abstain_votes: 0,
                            action,
                        },
                    ),
                ),
                ..old(c)@
            })
        },
{
    let ghost pre = old(c)@;
    let config = match get_voting_config(c) {
        Ok(cfg) => cfg,
        Err(e) => {
            return Err(e);
        },
    };
    let proposal_id: u64 = (c.proposals.len() as u64) + 1;
    let proposal = ActionProposal {
        id: proposal_id,
        creator,
        description,
        start_time: now,
        end_time: now + config.voting_period,
        executed: false,
        for_votes: 0,
        against_votes: 0,
        abstain_votes: 0,
        action,
    };
    c.proposals.push(ProposalRecord::Action(proposal));
    proof {
        let post = c@;
        let n = pre.proposals.len() as int;
        assert(post.proposals =~= pre.proposals.push(ProposalRecord::Action(proposal)));
        assert forall|i: int| 0 <= i < post.proposals.len() implies crate::proposal_ok(
            #[trigger] post.proposals[i],
            i,
            post.voting_config,
        ) by {
            if i < n {
                assert(crate::proposal_ok(pre.proposals[i], i, pre.voting_config));
            }
        }
        assert(post.proposals_ok());
        pre.lemma_wf_same_instruments(post);
        assert(post =~= StateView { proposals: pre.proposals.push(ProposalRecord::Action(proposal)), ..pre });
    }
    Ok(proposal_id)
}

/// The plain proposal with this id, if the id names a plain proposal.
pub fn get_proposal(c: &NesteraContract, proposal_id: u64) -> (r: Option<Proposal>)
    ensures
        r is Some <==> (c@.has_proposal(proposal_id) && c@.proposal_rec(proposal_id) is Plain),
        c@.has_proposal(proposal_id) ==> (c@.proposal_rec(proposal_id) matches
            ProposalRecord::Plain(p) ==> r == Some(p)),
{
    if !(1 <= proposal_id && proposal_id <= c.proposals.len() as u64) {
        return None;
    }
    let idx: usize = (proposal_id - 1) as usize;
    match &c.proposals[idx] {
        ProposalRecord::Plain(p) => {
            let q = Proposal {
                id: p.id,
                creator: p.creator,
                description: p.description.clone(),
                start_time: p.start_time,
                end_time: p.end_time,
                executed: p.executed,
                for_votes: p.for_votes,
                against_votes: p.against_votes,
                abstain_votes: p.abstain_votes,
            };
            Some(q)
        },
        ProposalRecord::Action(_) => None,
    }
}

/// The action proposal with this id, if the id names an action proposal.
pub fn get_action_proposal(c: &NesteraContract, proposal_id: u64) -> (r: Option<ActionProposal>)
    ensures
        r is Some <==> (c@.has_proposal(proposal_id) && c@.proposal_rec(proposal_id) is Action),
        c@.has_proposal(proposal_id) ==> (c@.proposal_rec(proposal_id) matches
            ProposalRecord::Action(p) ==> r == Some(p)),
{
    if !(1 <= proposal_id && proposal_id <= c.proposals.len() as u64) {
        return None;
    }
    let idx: usize = (proposal_id - 1) as usize;
    match &c.proposals[idx] {
        ProposalRecord::Action(p) => {
            let q = ActionProposal {
                id: p.id,
                creator: p.creator,
                description: p.description.clone(),
                start_time: p.start_time,
                end_time: p.end_time,
                executed: p.executed,
                for_votes: p.for_votes,
                against_votes: p.against_votes,
                abstain_votes: p.abstain_votes,
                action: p.action,
            };
            Some(q)
        },
        ProposalRecord::Plain(_) => None,
    }
}

/// All proposal ids in creation order: the dense sequence `1 ..= count`.
pub fn list_proposals(c: &NesteraContract) -> (r: Vec<u64>)
    ensures
        r@.len() == c@.proposals.len(),
        forall|j: int| 0 <= j < r@.len() ==> r@[j] == j + 1,
{
    let n = c.proposals.len();
    let mut r: Vec<u64> = Vec::new();
    let mut i: usize = 0;
    while i < n
        invariant
            i <= n,
            n == c@.proposals.len(),
            r@.len() == i,
            forall|j: int| 0 <= j < i ==> r@[j] == j + 1,
        decreases n - i,
    {
        r.push((i as u64) + 1);
        i = i + 1;
    }
    r
}

/// Casts a ballot of `voter`'s full voting weight on the proposal. The weight
/// must be positive, the proposal must exist with its window open, and each
/// voter may vote at most once per proposal; tallies only ever grow.
pub fn cast_vote(
    c: &mut NesteraContract,
    voter: u64,
    proposal_id: u64,
    support: bool,
    lifetime_deposited: i128,
    now: u64,
) -> (r: Result<(), SavingsError>)
    requires
        old(c)@.wf(),
        ({
            let s = old(c)@;
            let w = voting_weight(lifetime_deposited);
            (w > 0 && s.has_proposal(proposal_id) && vote_window_open(
                s.proposal_rec(proposal_id),
                now,
            ) && !s.has_voted(proposal_id, voter)) ==> (if support {
                s.proposal_rec(proposal_id).rec_for_votes() + w <= u128::MAX
            } else {
                s.proposal_rec(proposal_id).rec_against_votes() + w <= u128::MAX
            })
        }),
    ensures
        final(c)@.wf(),
        ({
            let s = old(c)@;
            let t = final(c)@;
            let w = voting_weight(lifetime_deposited);
            &&& w == 0 ==> r == Err::<(), SavingsError>(SavingsError::InsufficientBalance) && t
                == s
            &&& (w > 0 && !s.has_proposal(proposal_id)) ==> r == Err::<(), SavingsError>(
                SavingsError::PlanNotFound,
            ) && t == s
            &&& (w > 0 && s.has_proposal(proposal_id) && !vote_window_open(
                s.proposal_rec(proposal_id),
                now,
            )) ==> r == Err::<(), SavingsError>(SavingsError::InvalidTimestamp) && t == s
            &&& (w > 0 && s.has_proposal(proposal_id) && vote_window_open(
                s.proposal_rec(proposal_id),
                now,
            ) && s.has_voted(proposal_id, voter)) ==> r == Err::<(), SavingsError>(
                SavingsError::Unauthorized,
            ) && t == s
            &&& (w > 0 && s.has_proposal(proposal_id) && vote_window_open(
                s.proposal_rec(proposal_id),
                now,
            ) && !s.has_voted(proposal_id, voter)) ==> {
                &&& r == Ok::<(), SavingsError>(())
                &&& t.proposals == s.proposals.update(
                    proposal_id - 1,
                    vote_bumped(s.proposal_rec(proposal_id), support, w),
                )
                &&& t.votes == s.votes.push(
                    VoteRecord { proposal_id, voter, support, weight: w },
                )
                &&& t.has_voted(proposal_id, voter)
            }
        }),
        forall|k: int|
            0 <= k < old(c)@.proposals.len() ==> {
                &&& (#[trigger] final(c)@.proposals[k]).rec_for_votes() >= old(
                    c,
                )@.proposals[k].rec_for_votes()
                &&& final(c)@.proposals[k].rec_against_votes()
                    >= old(c)@.proposals[k].rec_against_votes()
            },
        final(c)@.proposals.len() == old(c)@.proposals.len(),
        forall|i: int|
            0 <= i < old(c)@.votes.len() ==> #[trigger] final(c)@.votes[i] == old(c)@.votes[i],
        final(c)@.users == old(c)@.users,
        final(c)@.admin == old(c)@.admin,
        final(c)@.locks == old(c)@.locks,
        final(c)@.schedules == old(c)@.schedules,
        final(c)@.voting_config == old(c)@.voting_config,
        final(c)@.governance_active == old(c)@.governance_active,
{
    let ghost pre = old(c)@;
    let weight = get_voting_power(lifetime_deposited);
    if weight == 0 {
        return Err(SavingsError::InsufficientBalance);
    }
    if !(1 <= proposal_id && proposal_id <= c.proposals.len() as u64) {
        return Err(SavingsError::PlanNotFound);
    }
    let idx: usize = (proposal_id - 1) as usize;
    // window and execution checks, over either kind of record
    let open_now: bool = match &c.proposals[idx] {
        ProposalRecord::Plain(p) => !p.executed && p.start_time <= now && now < p.end_time,
        ProposalRecord::Action(p) => !p.executed && p.start_time <= now && now < p.end_time,
    };
    proof {
        assert(open_now == vote_window_open(pre.proposal_rec(proposal_id), now));
    }
    if !open_now {
        return Err(SavingsError::InvalidTimestamp);
    }
    if has_vote_record(c, proposal_id, voter) {
        return Err(SavingsError::Unauthorized);
    }
    let updated: ProposalRecord = match &c.proposals[idx] {
        ProposalRecord::Plain(p) => ProposalRecord::Plain(
            Proposal {
                id: p.id,
                creator: p.creator,
                description: p.description.clone(),
                start_time: p.start_time,
                end_time: p.end_time,
                executed: p.executed,
                for_votes: if support {
                    p.for_votes + weight
                } else {
                    p.for_votes
                },
                against_votes: if support {
                    p.against_votes
                } else {
                    p.against_votes + weight
                },
                abstain_votes: p.abstain_votes,
            },
        ),
        ProposalRecord::Action(p) => ProposalRecord::Action(
            ActionProposal {
                id: p.id,
                creator: p.creator,
                description: p.description.clone(),
                start_time: p.start_time,
                end_time: p.end_time,
                executed: p.executed,
                for_votes: if support {
                    p.for_votes + weight
                } else {
                    p.for_votes
                },
                against_votes: if support {
                    p.against_votes
                } else {
                    p.against_votes + weight
                },
                abstain_votes: p.abstain_votes,
                action: p.action,
            },
        ),
    };
    proof {
        assert(updated == vote_bumped(pre.proposal_rec(proposal_id), support, weight as u128));
    }
    c.proposals.set(idx, updated);
    c.votes.push(VoteRecord { proposal_id, voter, support, weight });
    proof {
        let post = c@;
        let rec = VoteRecord { proposal_id, voter, support, weight };
        assert(post.proposals =~= pre.proposals.update(proposal_id - 1, updated));
        assert(post.votes =~= pre.votes.push(rec));
        assert(post.votes[post.votes.len() - 1] == rec);
        assert(post.has_voted(proposal_id, voter));
        assert forall|i: int| 0 <= i < post.proposals.len() implies crate::proposal_ok(
            #[trigger] post.proposals[i],
            i,
            post.voting_config,
        ) by {
            assert(crate::proposal_ok(pre.proposals[i], i, pre.voting_config));
        }
        assert(post.proposals_ok());
        pre.lemma_wf_same_instruments(post);
        assert forall|k: int| 0 <= k < pre.proposals.len() implies {
            &&& (#[trigger] post.proposals[k]).rec_for_votes() >= pre.proposals[k].rec_for_votes()
            &&& post.proposals[k].rec_against_votes() >= pre.proposals[k].rec_against_votes()
        } by {}
    }
    Ok(())
}

/// Whether a ballot by `voter` on `proposal_id` is already on record.
fn has_vote_record(c: &NesteraContract, proposal_id: u64, voter: u64) -> (r: bool)
    ensures
        r == c@.has_voted(proposal_id, voter),
{
    let n = c.votes.len();
    let mut i: usize = 0;
    while i < n
        invariant
            i <= n,
            n == c@.votes.len(),
            forall|j: int|
                0 <= j < i ==> !((#[trigger] c@.votes[j]).proposal_id == proposal_id
                    && c@.votes[j].voter == voter),
        decreases n - i,
    {
        if c.votes[i].proposal_id == proposal_id && c.votes[i].voter == voter {
            return true;
        }
        i = i + 1;
    }
    false
}

} // verus!
