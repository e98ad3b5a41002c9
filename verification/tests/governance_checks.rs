//! Tests of the governance engine: configuration, proposals, voting, and the
//! admin/governance gate.

use nestera::governance;
use nestera::{NesteraContract, ProposalAction, SavingsError, VotingConfig};

const ADMIN: u64 = 1000;

fn config() -> VotingConfig {
    VotingConfig { quorum: 100, voting_period: 604800, timelock_duration: 86400 }
}

#[test]
fn voting_power_floors_at_zero() {
    assert_eq!(governance::get_voting_power(2_500_000), 2_500_000);
    assert_eq!(governance::get_voting_power(0), 0);
    assert_eq!(governance::get_voting_power(-42), 0);
}

#[test]
fn init_voting_config_requires_admin() {
    let mut c = NesteraContract::new(ADMIN);

    let result = governance::init_voting_config(&mut c, 5, config());
    assert_eq!(result.unwrap_err(), SavingsError::Unauthorized);

    assert!(governance::get_voting_config(&c).is_err());
}

#[test]
fn init_voting_config_is_one_time() {
    let mut c = NesteraContract::new(ADMIN);

    assert!(governance::init_voting_config(&mut c, ADMIN, config()).is_ok());
    assert_eq!(governance::get_voting_config(&c).unwrap(), config());

    let again = governance::init_voting_config(&mut c, ADMIN, config());
    assert_eq!(again.unwrap_err(), SavingsError::ConfigAlreadyInitialized);
}

#[test]
fn create_proposal_needs_config() {
    let mut c = NesteraContract::new(ADMIN);

    let result = governance::create_proposal(&mut c, 1, String::from("raise rates"), 0);
    assert_eq!(result.unwrap_err(), SavingsError::InternalError);
    assert_eq!(governance::list_proposals(&c).len(), 0);
}

#[test]
fn create_proposal_fixes_window_from_config() {
    let mut c = NesteraContract::new(ADMIN);
    governance::init_voting_config(&mut c, ADMIN, config()).unwrap();

    let now: u64 = 5000;
    let id = governance::create_proposal(&mut c, 1, String::from("raise rates"), now).unwrap();
    assert_eq!(id, 1);

    let p = governance::get_proposal(&c, id).unwrap();
    assert_eq!(p.id, id);
    assert_eq!(p.creator, 1);
    assert_eq!(p.description, String::from("raise rates"));
    assert_eq!(p.start_time, now);
    assert_eq!(p.end_time, now + 604800);
    assert!(!p.executed);
    assert_eq!(p.for_votes, 0);
    assert_eq!(p.against_votes, 0);
    assert_eq!(p.abstain_votes, 0);
}

#[test]
fn proposal_kinds_share_one_id_namespace() {
    let mut c = NesteraContract::new(ADMIN);
    governance::init_voting_config(&mut c, ADMIN, config()).unwrap();

    let id1 = governance::create_proposal(&mut c, 1, String::from("first"), 0).unwrap();
    let id2 = governance::create_action_proposal(
        &mut c,
        2,
        String::from("second"),
        ProposalAction::SetLockRate(1, 900),
        0,
    )
    .unwrap();
    let id3 = governance::create_proposal(&mut c, 1, String::from("third"), 0).unwrap();

    assert_eq!(id1, 1);
    assert_eq!(id2, 2);
    assert_eq!(id3, 3);

    // Each id answers only for its own kind
    assert!(governance::get_proposal(&c, id2).is_none());
    let a = governance::get_action_proposal(&c, id2).unwrap();
    assert_eq!(a.action, ProposalAction::SetLockRate(1, 900));

    let ids = governance::list_proposals(&c);
    assert_eq!(ids, vec![1, 2, 3]);
}

#[test]
fn cast_vote_requires_positive_weight() {
    let mut c = NesteraContract::new(ADMIN);
    governance::init_voting_config(&mut c, ADMIN, config()).unwrap();
    let id = governance::create_proposal(&mut c, 1, String::from("p"), 0).unwrap();

    let result = governance::cast_vote(&mut c, 7, id, true, 0, 10);
    assert_eq!(result.unwrap_err(), SavingsError::InsufficientBalance);
}

#[test]
fn cast_vote_unknown_proposal() {
    let mut c = NesteraContract::new(ADMIN);
    governance::init_voting_config(&mut c, ADMIN, config()).unwrap();

    let result = governance::cast_vote(&mut c, 7, 99, true, 500, 10);
    assert_eq!(result.unwrap_err(), SavingsError::PlanNotFound);
}

#[test]
fn cast_vote_outside_window() {
    let mut c = NesteraContract::new(ADMIN);
    governance::init_voting_config(&mut c, ADMIN, config()).unwrap();
    let id = governance::create_proposal(&mut c, 1, String::from("p"), 1000).unwrap();

    // Before the window opens
    let early = governance::cast_vote(&mut c, 7, id, true, 500, 999);
    assert_eq!(early.unwrap_err(), SavingsError::InvalidTimestamp);

    // At the closed end of the window
    let late = governance::cast_vote(&mut c, 7, id, true, 500, 1000 + 604800);
    assert_eq!(late.unwrap_err(), SavingsError::InvalidTimestamp);
}

#[test]
fn cast_vote_tallies_weight_once() {
    let mut c = NesteraContract::new(ADMIN);
    governance::init_voting_config(&mut c, ADMIN, config()).unwrap();
    let id = governance::create_proposal(&mut c, 1, String::from("p"), 0).unwrap();

    governance::cast_vote(&mut c, 7, id, true, 500, 10).unwrap();
    let p = governance::get_proposal(&c, id).unwrap();
    assert_eq!(p.for_votes, 500);
    assert_eq!(p.against_votes, 0);

    // A second ballot by the same voter is refused, tallies unchanged
    let twice = governance::cast_vote(&mut c, 7, id, false, 500, 11);
    assert_eq!(twice.unwrap_err(), SavingsError::Unauthorized);
    let p = governance::get_proposal(&c, id).unwrap();
    assert_eq!(p.for_votes, 500);
    assert_eq!(p.against_votes, 0);

    // Another voter may vote against
    governance::cast_vote(&mut c, 8, id, false, 300, 12).unwrap();
    let p = governance::get_proposal(&c, id).unwrap();
    assert_eq!(p.for_votes, 500);
    assert_eq!(p.against_votes, 300);
}

#[test]
fn activate_governance_requires_admin() {
    let mut c = NesteraContract::new(ADMIN);

    assert!(!governance::is_governance_active(&c));

    let refused = governance::activate_governance(&mut c, 5);
    assert_eq!(refused.unwrap_err(), SavingsError::Unauthorized);
    assert!(!governance::is_governance_active(&c));

    governance::activate_governance(&mut c, ADMIN).unwrap();
    assert!(governance::is_governance_active(&c));
}

#[test]
fn validate_admin_or_governance_gate() {
    let mut c = NesteraContract::new(ADMIN);

    // Inactive governance: only the admin passes, on the admin path
    assert_eq!(governance::validate_admin_or_governance(&c, ADMIN), Ok(false));
    assert_eq!(
        governance::validate_admin_or_governance(&c, 5).unwrap_err(),
        SavingsError::Unauthorized
    );

    // Active governance: every caller passes, on the governance path
    governance::activate_governance(&mut c, ADMIN).unwrap();
    assert_eq!(governance::validate_admin_or_governance(&c, 5), Ok(true));
    assert_eq!(governance::validate_admin_or_governance(&c, ADMIN), Ok(true));
}
