//! Tests of the locked-deposit lifecycle: creation, maturity, withdrawal.
//!
//! The host clock is modelled by the `now` argument; a fresh ledger starts at
//! time 0, as the tests advance it explicitly where maturity matters.

use nestera::{NesteraContract, SavingsError};

const ADMIN: u64 = 1000;

#[test]
fn test_create_lock_save_success() {
    let mut c = NesteraContract::new(ADMIN);
    let user: u64 = 1;

    c.init_user(user);

    let result = c.create_lock_save(user, 1_000_000, 30 * 24 * 60 * 60, 0);

    assert!(result.is_ok());
    let lock_id = result.unwrap();
    assert_eq!(lock_id, 1);

    let lock_save = c.get_lock_save(lock_id);
    assert!(lock_save.is_some());

    let lock = lock_save.unwrap();
    assert_eq!(lock.id, lock_id);
    assert_eq!(lock.owner, user);
    assert_eq!(lock.amount, 1_000_000);
    assert_eq!(lock.interest_rate, 800);
    assert!(!lock.is_withdrawn);
}

#[test]
fn test_create_lock_save_invalid_amount() {
    let mut c = NesteraContract::new(ADMIN);
    let user: u64 = 1;

    c.init_user(user);

    let result = c.create_lock_save(user, 0, 30 * 24 * 60 * 60, 0);

    assert!(result.is_err());
    assert_eq!(result.unwrap_err(), SavingsError::InvalidAmount);
}

#[test]
fn test_create_lock_save_invalid_duration() {
    let mut c = NesteraContract::new(ADMIN);
    let user: u64 = 1;

    c.init_user(user);

    let result = c.create_lock_save(user, 1_000_000, 0, 0);

    assert!(result.is_err());
    assert_eq!(result.unwrap_err(), SavingsError::InvalidDuration);
}

#[test]
fn test_create_lock_save_user_not_found() {
    let mut c = NesteraContract::new(ADMIN);
    let user: u64 = 1;

    // No registration beforehand
    let result = c.create_lock_save(user, 1_000_000, 30 * 24 * 60 * 60, 0);

    assert!(result.is_err());
    assert_eq!(result.unwrap_err(), SavingsError::UserNotFound);
}

#[test]
fn test_check_matured_lock_not_matured() {
    let mut c = NesteraContract::new(ADMIN);
    let user: u64 = 1;

    c.init_user(user);
    let lock_id = c.create_lock_save(user, 1_000_000, 30 * 24 * 60 * 60, 0).unwrap();

    let is_matured = c.check_matured_lock(lock_id, 0);
    assert!(!is_matured);
}

#[test]
fn test_check_matured_lock_matured() {
    let mut c = NesteraContract::new(ADMIN);
    let user: u64 = 1;

    c.init_user(user);
    let lock_id = c.create_lock_save(user, 1_000_000, 1, 0).unwrap();

    // Two seconds later the one-second lock has matured
    let is_matured = c.check_matured_lock(lock_id, 2);
    assert!(is_matured);
}

#[test]
fn test_check_matured_lock_nonexistent() {
    let c = NesteraContract::new(ADMIN);

    let is_matured = c.check_matured_lock(999, 0);
    assert!(!is_matured);
}

#[test]
fn test_multiple_lock_saves_unique_ids() {
    let mut c = NesteraContract::new(ADMIN);
    let user: u64 = 1;

    c.init_user(user);

    let lock_id1 = c.create_lock_save(user, 1_000_000, 30 * 24 * 60 * 60, 0).unwrap();
    let lock_id2 = c.create_lock_save(user, 2_000_000, 60 * 24 * 60 * 60, 0).unwrap();
    let lock_id3 = c.create_lock_save(user, 500_000, 15 * 24 * 60 * 60, 0).unwrap();

    assert_eq!(lock_id1, 1);
    assert_eq!(lock_id2, 2);
    assert_eq!(lock_id3, 3);

    let lock1 = c.get_lock_save(lock_id1).unwrap();
    let lock2 = c.get_lock_save(lock_id2).unwrap();
    let lock3 = c.get_lock_save(lock_id3).unwrap();

    assert_eq!(lock1.amount, 1_000_000);
    assert_eq!(lock2.amount, 2_000_000);
    assert_eq!(lock3.amount, 500_000);
}

#[test]
fn test_user_lock_saves_tracking() {
    let mut c = NesteraContract::new(ADMIN);
    let user: u64 = 1;

    c.init_user(user);

    let lock_id1 = c.create_lock_save(user, 1_000_000, 30 * 24 * 60 * 60, 0).unwrap();
    let lock_id2 = c.create_lock_save(user, 2_000_000, 60 * 24 * 60 * 60, 0).unwrap();

    let user_locks = c.get_user_lock_saves(user);

    assert_eq!(user_locks.len(), 2);
    assert!(user_locks.contains(&lock_id1));
    assert!(user_locks.contains(&lock_id2));
}

#[test]
fn test_user_balance_update_on_lock_creation() {
    let mut c = NesteraContract::new(ADMIN);
    let user: u64 = 1;

    c.init_user(user);

    let _lock_id = c.create_lock_save(user, 1_000_000, 30 * 24 * 60 * 60, 0).unwrap();

    let updated_user = c.get_user(user).unwrap();
    assert_eq!(updated_user.total_balance, 1_000_000);
    assert_eq!(updated_user.savings_count, 1);
}

#[test]
fn test_lock_save_start_and_maturity_times() {
    let mut c = NesteraContract::new(ADMIN);
    let user: u64 = 1;

    c.init_user(user);

    let duration = 30 * 24 * 60 * 60; // 30 days
    let start_time: u64 = 0;

    let lock_id = c.create_lock_save(user, 1_000_000, duration, start_time).unwrap();

    let lock_save = c.get_lock_save(lock_id).unwrap();
    assert_eq!(lock_save.start_time, start_time);
    assert_eq!(lock_save.maturity_time, start_time + duration);
}

#[test]
fn test_withdraw_lock_save_success() {
    let mut c = NesteraContract::new(ADMIN);
    let user: u64 = 1;

    c.init_user(user);
    let lock_id = c.create_lock_save(user, 1_000_000, 1, 0).unwrap();

    // Two seconds later the lock has matured
    let result = c.withdraw_lock_save(user, lock_id, 2);
    assert!(result.is_ok());

    let lock_save = c.get_lock_save(lock_id).unwrap();
    assert!(lock_save.is_withdrawn);
}

#[test]
fn test_withdraw_lock_save_not_matured() {
    let mut c = NesteraContract::new(ADMIN);
    let user: u64 = 1;

    c.init_user(user);
    let lock_id = c.create_lock_save(user, 1_000_000, 30 * 24 * 60 * 60, 0).unwrap();

    let result = c.withdraw_lock_save(user, lock_id, 0);
    assert!(result.is_err());
    assert_eq!(result.unwrap_err(), SavingsError::LockNotMatured);
}

#[test]
fn test_withdraw_lock_save_unauthorized() {
    let mut c = NesteraContract::new(ADMIN);
    let user1: u64 = 1;
    let user2: u64 = 2;

    c.init_user(user1);
    let lock_id = c.create_lock_save(user1, 1_000_000, 1, 0).unwrap();

    let result = c.withdraw_lock_save(user2, lock_id, 2);
    assert!(result.is_err());
    assert_eq!(result.unwrap_err(), SavingsError::Unauthorized);
}

#[test]
fn test_withdraw_lock_save_already_withdrawn() {
    let mut c = NesteraContract::new(ADMIN);
    let user: u64 = 1;

    c.init_user(user);
    let lock_id = c.create_lock_save(user, 1_000_000, 1, 0).unwrap();

    let result1 = c.withdraw_lock_save(user, lock_id, 2);
    assert!(result1.is_ok());

    let result2 = c.withdraw_lock_save(user, lock_id, 2);
    assert!(result2.is_err());
    assert_eq!(result2.unwrap_err(), SavingsError::AlreadyWithdrawn);
}

#[test]
fn test_get_user_before_after_init() {
    let mut c = NesteraContract::new(ADMIN);
    let user: u64 = 1;

    let before = c.get_user(user);
    assert!(before.is_none());

    let created = c.init_user(user);
    assert_eq!(created.total_balance, 0);
    assert_eq!(created.savings_count, 0);

    let after = c.get_user(user);
    assert!(after.is_some());
    let fetched = after.unwrap();
    assert_eq!(fetched.total_balance, 0);
    assert_eq!(fetched.savings_count, 0);
}

#[test]
fn test_withdraw_returns_amount_with_interest() {
    let mut c = NesteraContract::new(ADMIN);
    let user: u64 = 1;

    c.init_user(user);

    // Exactly one year's duration gives a single interest period
    let one_year_secs: u64 = 365 * 24 * 60 * 60;
    let principal: i128 = 1_000_000;
    let lock_id = c.create_lock_save(user, principal, one_year_secs, 0).unwrap();

    let result = c.withdraw_lock_save(user, lock_id, one_year_secs + 1);
    assert!(result.is_ok());
    let withdrawn = result.unwrap();

    let expected_interest: i128 = principal * 800 / 10_000; // 8.00% in bps
    let expected_total: i128 = principal + expected_interest;
    assert_eq!(withdrawn, expected_total);
}

#[test]
fn test_next_lock_id_increments_across_users() {
    let mut c = NesteraContract::new(ADMIN);
    let user1: u64 = 1;
    let user2: u64 = 2;

    c.init_user(user1);
    c.init_user(user2);

    let id1 = c.create_lock_save(user1, 100, 10, 0).unwrap();
    let id2 = c.create_lock_save(user2, 200, 20, 0).unwrap();

    assert_eq!(id1, 1);
    assert_eq!(id2, 2);
}

#[test]
fn test_user_lock_ids_persist_after_withdraw() {
    let mut c = NesteraContract::new(ADMIN);
    let user: u64 = 1;

    c.init_user(user);

    let lock_id = c.create_lock_save(user, 1_000, 1, 0).unwrap();

    let _ = c.withdraw_lock_save(user, lock_id, 2).unwrap();

    // The withdrawn lock's id stays in the owner's list
    let ids = c.get_user_lock_saves(user);
    assert!(ids.contains(&lock_id));
}

#[test]
fn test_check_matured_lock_boundary_condition() {
    let mut c = NesteraContract::new(ADMIN);
    let user: u64 = 1;

    c.init_user(user);

    let duration: u64 = 10;
    let lock_id = c.create_lock_save(user, 5_000, duration, 0).unwrap();

    let lock = c.get_lock_save(lock_id).unwrap();

    // At exactly maturity_time the lock counts as matured (>=)
    let matured = c.check_matured_lock(lock_id, lock.maturity_time);
    assert!(matured);
}
