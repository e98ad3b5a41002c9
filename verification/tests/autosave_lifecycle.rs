//! Tests of the scheduled-deposit lifecycle: creation, due execution, and
//! terminal cancellation.

use nestera::autosave;
use nestera::{NesteraContract, SavingsError};

const ADMIN: u64 = 1000;

fn setup() -> (NesteraContract, u64) {
    let mut c = NesteraContract::new(ADMIN);
    let user: u64 = 1;
    c.init_user(user);
    (c, user)
}

#[test]
fn test_create_autosave_success() {
    let (mut c, user) = setup();

    let amount = 1000;
    let interval = 86400; // 1 day
    let start_time: u64 = 0;

    let result = autosave::create_autosave(&mut c, user, amount, interval, start_time);
    assert_eq!(result, Ok(1)); // First schedule ID

    let schedules = autosave::get_user_autosaves(&c, user);
    assert_eq!(schedules.len(), 1);
    assert_eq!(schedules[0], 1);
}

#[test]
fn test_create_autosave_zero_amount() {
    let (mut c, user) = setup();

    let result = autosave::create_autosave(&mut c, user, 0, 86400, 0);
    assert!(result.is_err());
    assert_eq!(result.unwrap_err(), SavingsError::InvalidAmount);
}

#[test]
fn test_create_autosave_zero_interval() {
    let (mut c, user) = setup();

    let result = autosave::create_autosave(&mut c, user, 1000, 0, 0);
    assert!(result.is_err());
    assert_eq!(result.unwrap_err(), SavingsError::InvalidTimestamp);
}

#[test]
fn test_create_autosave_user_not_found() {
    let mut c = NesteraContract::new(ADMIN);
    let user: u64 = 1; // Not registered

    let result = autosave::create_autosave(&mut c, user, 1000, 86400, 0);
    assert!(result.is_err());
    assert_eq!(result.unwrap_err(), SavingsError::UserNotFound);
}

#[test]
fn test_execute_autosave_success() {
    let (mut c, user) = setup();

    let amount = 1000;
    let interval = 86400;
    let start_time: u64 = 0;

    let schedule_id = autosave::create_autosave(&mut c, user, amount, interval, start_time).unwrap();

    // Due at start_time: the host is owed one deposit of `amount` for `user`
    let due = autosave::autosave_due_deposit(&c, schedule_id, start_time);
    assert_eq!(due, Ok((user, amount)));

    let result = autosave::execute_autosave(&mut c, schedule_id, start_time);
    assert_eq!(result, Ok((user, amount)));

    // The schedule advanced by exactly one interval
    let schedule = autosave::get_autosave(&c, schedule_id).unwrap();
    assert_eq!(schedule.next_execution_time, start_time + interval);
}

#[test]
fn test_execute_autosave_before_due_time() {
    let (mut c, user) = setup();

    let amount = 1000;
    let interval = 86400;
    let now: u64 = 0;
    let start_time = now + 10000; // Future time

    let schedule_id = autosave::create_autosave(&mut c, user, amount, interval, start_time).unwrap();

    let result = autosave::execute_autosave(&mut c, schedule_id, now);
    assert!(result.is_err());
    assert_eq!(result.unwrap_err(), SavingsError::InvalidTimestamp);
}

#[test]
fn test_cancel_autosave_success() {
    let (mut c, user) = setup();

    let schedule_id = autosave::create_autosave(&mut c, user, 1000, 86400, 0).unwrap();

    let cancelled = autosave::cancel_autosave(&mut c, user, schedule_id);
    assert!(cancelled.is_ok());

    // Executing a cancelled schedule fails
    let result = autosave::execute_autosave(&mut c, schedule_id, 0);
    assert!(result.is_err());
}

#[test]
fn test_cancel_autosave_unauthorized() {
    let (mut c, user) = setup();

    let schedule_id = autosave::create_autosave(&mut c, user, 1000, 86400, 0).unwrap();

    let other_user: u64 = 2;
    c.init_user(other_user);

    let result = autosave::cancel_autosave(&mut c, other_user, schedule_id);
    assert!(result.is_err());
    assert_eq!(result.unwrap_err(), SavingsError::Unauthorized);
}

#[test]
fn test_get_user_autosaves() {
    let (mut c, user) = setup();

    let start_time: u64 = 0;

    let id1 = autosave::create_autosave(&mut c, user, 1000, 86400, start_time).unwrap();
    let id2 = autosave::create_autosave(&mut c, user, 2000, 172800, start_time).unwrap();

    let schedules = autosave::get_user_autosaves(&c, user);
    assert_eq!(schedules.len(), 2);
    assert_eq!(schedules[0], id1);
    assert_eq!(schedules[1], id2);
}

#[test]
fn test_execute_cancelled_schedule() {
    let (mut c, user) = setup();

    let schedule_id = autosave::create_autosave(&mut c, user, 1000, 86400, 0).unwrap();

    autosave::cancel_autosave(&mut c, user, schedule_id).unwrap();

    let result = autosave::execute_autosave(&mut c, schedule_id, 0);
    assert!(result.is_err());
    assert_eq!(result.unwrap_err(), SavingsError::InvalidPlanConfig);
}
