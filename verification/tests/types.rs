//! Tests of the plain record types and the storage key space.

use nestera::{DataKey, LockSave, PlanType, SavingsPlan, User};

#[test]
fn test_user_instantiation() {
    let user = User { total_balance: 1_000_000, savings_count: 3 };

    assert_eq!(user.total_balance, 1_000_000);
    assert_eq!(user.savings_count, 3);
}

#[test]
fn test_flexi_savings_plan() {
    let plan = SavingsPlan {
        plan_id: 1,
        plan_type: PlanType::Flexi,
        balance: 500_000,
        start_time: 1000000,
        last_deposit: 1000100,
        last_withdraw: 0,
        interest_rate: 500, // 5.00% APY
        is_completed: false,
    };

    assert_eq!(plan.plan_id, 1);
    assert_eq!(plan.plan_type, PlanType::Flexi);
    assert_eq!(plan.balance, 500_000);
    assert!(!plan.is_completed);
}

#[test]
fn test_lock_savings_plan() {
    let locked_until = 2000000;
    let plan = SavingsPlan {
        plan_id: 2,
        plan_type: PlanType::Lock(locked_until),
        balance: 1_000_000,
        start_time: 1000000,
        last_deposit: 1000000,
        last_withdraw: 0,
        interest_rate: 800,
        is_completed: false,
    };

    assert_eq!(plan.plan_id, 2);
    match plan.plan_type {
        PlanType::Lock(until) => assert_eq!(until, locked_until),
        _ => panic!("Expected Lock plan type"),
    }
}

#[test]
fn test_goal_savings_plan() {
    let plan = SavingsPlan {
        plan_id: 3,
        plan_type: PlanType::Goal(
            String::from("education"),
            5_000_000,
            1u32, // e.g. 1 = weekly
        ),
        balance: 2_000_000,
        start_time: 1000000,
        last_deposit: 1500000,
        last_withdraw: 0,
        interest_rate: 600,
        is_completed: false,
    };

    assert_eq!(plan.plan_id, 3);
    match plan.plan_type {
        PlanType::Goal(category, target_amount, contribution_type) => {
            assert_eq!(category, String::from("education"));
            assert_eq!(target_amount, 5_000_000);
            assert_eq!(contribution_type, 1u32);
        }
        _ => panic!("Expected Goal plan type"),
    }
}

#[test]
fn test_group_savings_plan() {
    let plan = SavingsPlan {
        plan_id: 4,
        plan_type: PlanType::Group(101, true, 2u32, 10_000_000),
        balance: 3_000_000,
        start_time: 1000000,
        last_deposit: 1600000,
        last_withdraw: 0,
        interest_rate: 700,
        is_completed: false,
    };

    assert_eq!(plan.plan_id, 4);
    match plan.plan_type {
        PlanType::Group(group_id, is_public, contribution_type, target_amount) => {
            assert_eq!(group_id, 101);
            assert!(is_public);
            assert_eq!(contribution_type, 2u32);
            assert_eq!(target_amount, 10_000_000);
        }
        _ => panic!("Expected Group plan type"),
    }
}

#[test]
fn test_data_key_admin() {
    let key = DataKey::Admin;
    assert_eq!(key, DataKey::Admin);
}

#[test]
fn test_data_key_user() {
    let user_address: u64 = 17;
    let key = DataKey::User(user_address);

    match key {
        DataKey::User(addr) => assert_eq!(addr, user_address),
        _ => panic!("Expected User data key"),
    }
}

#[test]
fn test_data_key_savings_plan() {
    let user_address: u64 = 23;
    let plan_id = 42;
    let key = DataKey::SavingsPlan(user_address, plan_id);

    match key {
        DataKey::SavingsPlan(addr, id) => {
            assert_eq!(addr, user_address);
            assert_eq!(id, plan_id);
        }
        _ => panic!("Expected SavingsPlan data key"),
    }
}

#[test]
fn test_completed_plan() {
    let plan = SavingsPlan {
        plan_id: 5,
        plan_type: PlanType::Goal(String::from("house"), 10_000_000, 2u32),
        balance: 10_000_000,
        start_time: 1000000,
        last_deposit: 2000000,
        last_withdraw: 0,
        interest_rate: 650,
        is_completed: true,
    };

    assert!(plan.is_completed);
    assert_eq!(plan.balance, 10_000_000);
}

#[test]
fn test_plan_type_patterns() {
    // Extract values from each plan type variant
    let lock_plan = PlanType::Lock(1234567);
    if let PlanType::Lock(timestamp) = lock_plan {
        assert_eq!(timestamp, 1234567);
    }

    let goal_plan = PlanType::Goal(String::from("car"), 2_000_000, 3u32);
    if let PlanType::Goal(cat, amount, contrib) = goal_plan {
        assert_eq!(cat, String::from("car"));
        assert_eq!(amount, 2_000_000);
        assert_eq!(contrib, 3u32);
    }

    let group_plan = PlanType::Group(999, true, 1u32, 5_000_000);
    if let PlanType::Group(id, public, contrib, amount) = group_plan {
        assert_eq!(id, 999);
        assert!(public);
        assert_eq!(contrib, 1u32);
        assert_eq!(amount, 5_000_000);
    }
}

#[test]
fn test_lock_save_struct() {
    let user: u64 = 31;

    let lock_save = LockSave {
        id: 1,
        owner: user,
        amount: 1_000_000,
        interest_rate: 800,
        start_time: 1000000,
        maturity_time: 1000000 + (30 * 24 * 60 * 60), // 30 days
        is_withdrawn: false,
    };

    assert_eq!(lock_save.id, 1);
    assert_eq!(lock_save.owner, user);
    assert_eq!(lock_save.amount, 1_000_000);
    assert_eq!(lock_save.interest_rate, 800);
    assert!(!lock_save.is_withdrawn);
}
