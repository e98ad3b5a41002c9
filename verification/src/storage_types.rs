//! Plain data records kept in the ledger: users, savings plans, locked
//! deposits, scheduled deposits, the error taxonomy and the storage key space.
//!
//! Addresses are represented as plain `u64` identifiers: the host environment
//! that authenticates callers maps its own address type to these identifiers
//! and back at the boundary.

use vstd::prelude::*;

verus! {

/// Annual interest rate, in basis points, fixed for every locked deposit.
pub const LOCK_INTEREST_RATE_BPS: u32 = 800;

/// Seconds in one (non-leap) year; interest accrues only per whole year.
pub const SECONDS_PER_YEAR: u64 = 365 * 24 * 60 * 60;

/// The kinds of savings plans offered.
#[derive(Clone, Debug, Eq, PartialEq)]
pub enum PlanType {
    Flexi,
    /// Locked until the carried timestamp.
    Lock(u64),
    /// Goal category, target amount, contribution cadence.
    Goal(String, i128, u32),
    /// Group id, public flag, contribution cadence, target amount.
    Group(u64, bool, u32, i128),
}

/// An individual savings plan record.
#[derive(Clone, Debug, Eq, PartialEq)]
pub struct SavingsPlan {
    pub plan_id: u64,
    pub plan_type: PlanType,
    pub balance: i128,
    pub start_time: u64,
    pub last_deposit: u64,
    pub last_withdraw: u64,
    /// Annual percentage yield in basis points (e.g. 500 = 5.00%).
    pub interest_rate: u32,
    pub is_completed: bool,
}

/// A participant's aggregate balance and commitment count.
#[derive(Clone, Copy, Debug, Eq, PartialEq, Structural)]
pub struct User {
    pub total_balance: i128,
    pub savings_count: u32,
}

/// A locked deposit: a fixed amount held until `maturity_time`.
#[derive(Clone, Copy, Debug, Eq, PartialEq, Structural)]
pub struct LockSave {
    pub id: u64,
    pub owner: u64,
    pub amount: i128,
    pub interest_rate: u32,
    pub start_time: u64,
    pub maturity_time: u64,
    pub is_withdrawn: bool,
}

/// A scheduled recurring deposit: `amount` becomes due every
/// `interval_seconds`, starting at `next_execution_time`.
#[derive(Clone, Copy, Debug, Eq, PartialEq, Structural)]
pub struct AutoSave {
    pub id: u64,
    pub user: u64,
    pub amount: i128,
    pub interval_seconds: u64,
    pub next_execution_time: u64,
    pub is_active: bool,
}

/// Every failure an engine operation can report. `PlanNotFound` covers
/// missing scheduled deposits and missing proposals alike.
#[derive(Clone, Copy, Debug, Eq, PartialEq, Structural)]
pub enum SavingsError {
    InvalidAmount,
    InvalidDuration,
    InvalidTimestamp,
    UserNotFound,
    LockNotFound,
    PlanNotFound,
    LockNotMatured,
    AlreadyWithdrawn,
    Unauthorized,
    InsufficientBalance,
    InvalidPlanConfig,
    ConfigAlreadyInitialized,
    InternalError,
}

/// Keys of the persistent key-value ledger, as the host storage engine
/// addresses the records this crate computes.
#[derive(Clone, Copy, Debug, Eq, PartialEq, Structural)]
pub enum DataKey {
    Admin,
    User(u64),
    /// A (user address, plan id) pair naming a `SavingsPlan`.
    SavingsPlan(u64, u64),
    /// A lock id naming a `LockSave`.
    LockSave(u64),
    /// A user address naming the list of that user's lock ids.
    UserLockSaves(u64),
    /// The next auto-incrementing lock id.
    NextLockId,
    /// A schedule id naming an `AutoSave`.
    AutoSave(u64),
    /// A user address naming the list of that user's schedule ids.
    UserAutoSaves(u64),
    /// The next auto-incrementing schedule id.
    NextAutoSaveId,
}

} // verus!
