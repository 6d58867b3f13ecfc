use nevo_contract::{Application, Contract, Milestone, NevoError};

fn s(x: &str) -> String {
    x.to_string()
}

fn pool(c: &mut Contract, creator: &str, goal: u128) -> u32 {
    c.create_pool(s(creator), &s("Title"), &s("Description"), goal).unwrap()
}

fn approve_directly(c: &mut Contract, pool_id: u32, student: &str) {
    c.set_application_status(pool_id, s(student), s("Approved"));
}

#[test]
fn test_create_pool() {
    let mut c = Contract::new();
    let pool_id = c
        .create_pool(s("GCREATOR"), &s("Emergency Relief Fund"), &s("Helping those in need"), 1_000_000_000)
        .unwrap();
    assert_eq!(pool_id, 1);
    let p = c.get_pool(pool_id).unwrap();
    assert_eq!(p, (1, s("GCREATOR"), 1_000_000_000, 0, false));
}

#[test]
fn test_donate() {
    let mut c = Contract::new();
    let pool_id = pool(&mut c, "GCREATOR", 10_000_000_000);
    c.donate(pool_id, &s("GDONOR"), 100_000_000).unwrap();
    assert_eq!(c.get_pool(pool_id).unwrap().3, 100_000_000);
}

#[test]
fn test_multiple_donations() {
    let mut c = Contract::new();
    let pool_id = pool(&mut c, "GCREATOR", 5_000_000_000);
    c.donate(pool_id, &s("GD1"), 100_000_000).unwrap();
    c.donate(pool_id, &s("GD2"), 200_000_000).unwrap();
    assert_eq!(c.get_pool(pool_id).unwrap().3, 300_000_000);
    assert_eq!(c.get_total_raised(pool_id), Ok(300_000_000));
}

#[test]
fn test_close_pool() {
    let mut c = Contract::new();
    let pool_id = pool(&mut c, "GCREATOR", 1_000_000_000);
    let out = c.close_pool(pool_id);
    assert_eq!(out.auth, Some(s("GCREATOR")));
    assert_eq!(out.result, Ok(()));
    assert!(c.get_pool(pool_id).unwrap().4);
}

#[test]
fn test_donate_to_closed_pool() {
    let mut c = Contract::new();
    let pool_id = pool(&mut c, "GCREATOR", 1_000_000_000);
    c.close_pool(pool_id).result.unwrap();
    assert_eq!(c.donate(pool_id, &s("GDONOR"), 100_000_000), Err(NevoError::PoolClosed));
    assert_eq!(c.get_total_raised(pool_id), Ok(0));
}

#[test]
fn test_close_pool_missing_demands_no_auth() {
    let mut c = Contract::new();
    let out = c.close_pool(7);
    assert_eq!(out.auth, None);
    assert_eq!(out.result, Err(NevoError::PoolNotFound));
}

#[test]
fn test_multiple_pools() {
    let mut c = Contract::new();
    assert_eq!(c.get_pool_count(), 0);
    let p1 = pool(&mut c, "GC1", 1_000_000_000);
    let p2 = pool(&mut c, "GC2", 2_000_000_000);
    assert_eq!((p1, p2), (1, 2));
    assert_eq!(c.get_pool_count(), 2);
}

#[test]
fn test_try_get_pool_returns_none_for_missing_pool() {
    let c = Contract::new();
    assert_eq!(c.try_get_pool(999), None);
    assert_eq!(c.try_get_pool(0), None);
}

#[test]
fn test_try_get_pool_retrieves_multiple_pools_independently() {
    let mut c = Contract::new();
    let p1 = pool(&mut c, "GC1", 1_000_000_000);
    let p2 = pool(&mut c, "GC2", 3_000_000_000);
    c.donate(p1, &s("GX"), 125_000_000).unwrap();
    c.donate(p2, &s("GY"), 275_000_000).unwrap();
    assert_eq!(c.try_get_pool(p1), Some((p1, s("GC1"), 1_000_000_000, 125_000_000, false)));
    assert_eq!(c.try_get_pool(p2), Some((p2, s("GC2"), 3_000_000_000, 275_000_000, false)));
}

#[test]
fn test_get_total_raised_rejects_missing_pool() {
    let c = Contract::new();
    assert_eq!(c.get_total_raised(1), Err(NevoError::PoolNotFound));
    assert_eq!(c.get_pool(1), Err(NevoError::PoolNotFound));
}

#[test]
fn test_donate_invalid_pool_id_rejected() {
    let mut c = Contract::new();
    assert_eq!(c.donate(1, &s("GD"), 5), Err(NevoError::PoolNotFound));
}

#[test]
fn test_donate_overflow_rejected_and_state_kept() {
    let mut c = Contract::new();
    let p = pool(&mut c, "GC", 1);
    c.donate(p, &s("GD"), u128::MAX).unwrap();
    assert_eq!(c.donate(p, &s("GD"), 1), Err(NevoError::ArithmeticOverflow));
    assert_eq!(c.get_total_raised(p), Ok(u128::MAX));
}

#[test]
fn test_register_school_and_create_pool_for_school() {
    let mut c = Contract::new();
    assert_eq!(c.set_admin(s("GADMIN")).auth, Some(s("GADMIN")));
    let out = c.register_school(s("GADMIN"), s("GSCHOOL"));
    assert_eq!(out.auth, Some(s("GADMIN")));
    assert_eq!(out.result, Ok(()));
    assert!(c.is_school_registered(&s("GSCHOOL")));
    assert!(!c.is_school_registered(&s("GOTHER")));
    let out = c.create_pool_for_school(s("GCREATOR"), &s("T"), &s("D"), 1_000, s("GSCHOOL"));
    assert_eq!(out.auth, Some(s("GCREATOR")));
    let pool_id = out.result.unwrap();
    assert_eq!(pool_id, 1);
    assert_eq!(c.get_pool_school(pool_id), Ok(s("GSCHOOL")));
}

#[test]
fn test_create_pool_for_school_unregistered_school_rejected() {
    let mut c = Contract::new();
    let out = c.create_pool_for_school(s("GCREATOR"), &s("T"), &s("D"), 1_000, s("GSCHOOL"));
    assert_eq!(out.result, Err(NevoError::SchoolNotRegistered));
    assert_eq!(c.get_pool_count(), 0);
}

#[test]
fn test_get_pool_school_unset() {
    let mut c = Contract::new();
    let p = pool(&mut c, "GC", 1);
    assert_eq!(c.get_pool_school(p), Err(NevoError::PoolSchoolNotSet));
    assert_eq!(c.get_pool_school(99), Err(NevoError::PoolSchoolNotSet));
}

#[test]
fn test_register_school_without_admin_set_gives_specific_error() {
    let mut c = Contract::new();
    let out = c.register_school(s("GADMIN"), s("GSCHOOL"));
    assert_eq!(out.auth, Some(s("GADMIN")));
    assert_eq!(out.result, Err(NevoError::AdminNotSet));
}

#[test]
fn test_register_school_wrong_admin_gives_specific_error() {
    let mut c = Contract::new();
    c.set_admin(s("GREAL"));
    let out = c.register_school(s("GFAKE"), s("GSCHOOL"));
    assert_eq!(out.result, Err(NevoError::UnauthorizedAdmin));
    assert!(!c.is_school_registered(&s("GSCHOOL")));
}

#[test]
fn test_apply_to_pool_sets_pending() {
    let mut c = Contract::new();
    let p = pool(&mut c, "GC", 1_000);
    let out = c.apply_to_pool(p, s("GSTUDENT"), s("application_data"));
    assert_eq!(out.auth, Some(s("GSTUDENT")));
    assert_eq!(out.result, Ok(()));
    assert_eq!(c.get_application_status(p, &s("GSTUDENT")), "Pending");
}

#[test]
fn test_apply_to_pool_invalid_pool_id_rejected() {
    let mut c = Contract::new();
    assert_eq!(c.apply_to_pool(3, s("GSTUDENT"), s("d")).result, Err(NevoError::PoolNotFound));
}

#[test]
fn test_apply_to_pool_duplicate_rejected() {
    let mut c = Contract::new();
    let p = pool(&mut c, "GC", 1_000);
    c.apply_to_pool(p, s("GSTUDENT"), s("a")).result.unwrap();
    assert_eq!(c.apply_to_pool(p, s("GSTUDENT"), s("b")).result, Err(NevoError::DuplicateApplication));
    c.apply_to_pool(p, s("GOTHER"), s("c")).result.unwrap();
}

fn school_pool(c: &mut Contract) -> u32 {
    c.set_admin(s("GADMIN"));
    c.register_school(s("GADMIN"), s("GSCHOOL")).result.unwrap();
    c.create_pool_for_school(s("GCREATOR"), &s("T"), &s("D"), 1_000_000_000, s("GSCHOOL")).result.unwrap()
}

#[test]
fn test_approve_application_sets_status() {
    let mut c = Contract::new();
    let p = school_pool(&mut c);
    c.apply_to_pool(p, s("GA"), s("a")).result.unwrap();
    c.apply_to_pool(p, s("GB"), s("b")).result.unwrap();
    let out = c.approve_application(p, s("GSCHOOL"), s("GA"), true);
    assert_eq!(out.auth, Some(s("GSCHOOL")));
    assert_eq!(out.result, Ok(()));
    c.approve_application(p, s("GSCHOOL"), s("GB"), false).result.unwrap();
    assert_eq!(c.get_application_status(p, &s("GA")), "Approved");
    assert_eq!(c.get_application_status(p, &s("GB")), "Rejected");
}

#[test]
fn test_approve_application_wrong_school_gives_specific_error() {
    let mut c = Contract::new();
    let p = school_pool(&mut c);
    c.apply_to_pool(p, s("GA"), s("a")).result.unwrap();
    assert_eq!(c.approve_application(p, s("GOTHER"), s("GA"), true).result, Err(NevoError::NotLinkedSchool));
}

#[test]
fn test_approve_application_no_application_gives_specific_error() {
    let mut c = Contract::new();
    let p = school_pool(&mut c);
    assert_eq!(c.approve_application(p, s("GSCHOOL"), s("GA"), true).result, Err(NevoError::NotApplied));
}

#[test]
fn test_approve_application_pool_without_school() {
    let mut c = Contract::new();
    let p = pool(&mut c, "GC", 1);
    assert_eq!(c.approve_application(p, s("GSCHOOL"), s("GA"), true).result, Err(NevoError::PoolSchoolNotSet));
}

#[test]
fn test_setup_milestones() {
    let mut c = Contract::new();
    let p = pool(&mut c, "GC", 300);
    let ms = vec![Milestone { amount: 100 }, Milestone { amount: 200 }];
    let out = c.setup_application_milestones(p, s("GS"), ms.clone());
    assert_eq!(out.auth, Some(s("GS")));
    assert_eq!(out.result, Ok(()));
    assert_eq!(c.get_milestones(p, &s("GS")), ms);
    assert_eq!(c.get_milestones(p, &s("GOTHER")), vec![]);
}

#[test]
fn test_setup_milestones_empty_rejected() {
    let mut c = Contract::new();
    let p = pool(&mut c, "GC", 300);
    assert_eq!(c.setup_application_milestones(p, s("GS"), vec![]).result, Err(NevoError::MilestonesRequired));
}

#[test]
fn test_setup_milestones_wrong_sum_rejected() {
    let mut c = Contract::new();
    let p = pool(&mut c, "GC", 300);
    let ms = vec![Milestone { amount: 100 }, Milestone { amount: 100 }];
    assert_eq!(c.setup_application_milestones(p, s("GS"), ms).result, Err(NevoError::MilestoneTotalMismatch));
    assert_eq!(c.get_milestones(p, &s("GS")), vec![]);
}

#[test]
fn test_setup_milestones_overflow_rejected() {
    let mut c = Contract::new();
    let p = pool(&mut c, "GC", 300);
    let ms = vec![Milestone { amount: u128::MAX }, Milestone { amount: 1 }];
    assert_eq!(c.setup_application_milestones(p, s("GS"), ms).result, Err(NevoError::MilestoneAmountOverflow));
}

#[test]
fn test_setup_milestones_missing_pool() {
    let mut c = Contract::new();
    let ms = vec![Milestone { amount: 1 }];
    assert_eq!(c.setup_application_milestones(4, s("GS"), ms).result, Err(NevoError::PoolNotFound));
}

#[test]
fn test_get_application_status() {
    let mut c = Contract::new();
    let p = pool(&mut c, "GC", 1);
    assert_eq!(c.get_application_status(p, &s("GS")), "");
    approve_directly(&mut c, p, "GS");
    assert_eq!(c.get_application_status(p, &s("GS")), "Approved");
    c.set_application_status(p, s("GS"), s("Custom"));
    assert_eq!(c.get_application_status(p, &s("GS")), "Custom");
}

#[test]
fn test_get_claimed_amount_initial_zero() {
    let mut c = Contract::new();
    let p = pool(&mut c, "GC", 1);
    assert_eq!(c.get_claimed_amount(p, &s("GS")), 0);
    assert_eq!(c.get_claimed_amount(999, &s("GS")), 0);
    assert_eq!(c.get_application(p, &s("GS")), None);
}

#[test]
fn test_claim_funds_no_status() {
    let mut c = Contract::new();
    let p = pool(&mut c, "GC", 1_000_000_000);
    c.donate(p, &s("GC"), 500_000_000).unwrap();
    let out = c.claim_funds(s("GS"), p, 100_000_000, s("CTOKEN"));
    assert_eq!(out.auth, Some(s("GS")));
    assert_eq!(out.result.unwrap_err(), NevoError::StatusNotFound);
}

#[test]
fn test_claim_funds_rejected_application() {
    let mut c = Contract::new();
    let p = pool(&mut c, "GC", 1_000_000_000);
    c.donate(p, &s("GC"), 500_000_000).unwrap();
    c.set_application_status(p, s("GS"), s("Rejected"));
    assert_eq!(c.claim_funds(s("GS"), p, 100_000_000, s("CTOKEN")).result.unwrap_err(), NevoError::NotApproved);
}

#[test]
fn test_claim_funds_overdraw() {
    let mut c = Contract::new();
    let p = pool(&mut c, "GC", 1_000_000_000);
    c.donate(p, &s("GC"), 100_000_000).unwrap();
    approve_directly(&mut c, p, "GS");
    assert_eq!(c.claim_funds(s("GS"), p, 500_000_000, s("CTOKEN")).result.unwrap_err(), NevoError::Overdraw);
    assert_eq!(c.get_claimed_amount(p, &s("GS")), 0);
}

#[test]
fn test_claim_funds_negative_amount() {
    let mut c = Contract::new();
    let p = pool(&mut c, "GC", 1_000_000_000);
    approve_directly(&mut c, p, "GS");
    assert_eq!(c.claim_funds(s("GS"), p, -100_000_000, s("CTOKEN")).result.unwrap_err(), NevoError::ClaimAmountNotPositive);
    assert_eq!(c.claim_funds(s("GS"), p, 0, s("CTOKEN")).result.unwrap_err(), NevoError::ClaimAmountNotPositive);
}

#[test]
fn test_claim_funds_missing_pool() {
    let mut c = Contract::new();
    approve_directly(&mut c, 9, "GS");
    assert_eq!(c.claim_funds(s("GS"), 9, 10, s("CTOKEN")).result.unwrap_err(), NevoError::PoolNotFound);
}

#[test]
fn test_claim_funds_transfers_net_of_fee() {
    let mut c = Contract::new();
    let p = pool(&mut c, "GC", 1_000_000_000);
    c.donate(p, &s("GC"), 500_000_000).unwrap();
    approve_directly(&mut c, p, "GS");
    let t = c.claim_funds(s("GS"), p, 100_000_000, s("CTOKEN")).result.unwrap();
    assert_eq!((t.token.as_str(), t.to.as_str(), t.amount), ("CTOKEN", "GS", 99_000_000));
    assert_eq!(c.get_application(p, &s("GS")), Some(Application { approved_amount: 500_000_000, amount_claimed: 100_000_000 }));
}

#[test]
fn test_fee_rounds_down() {
    let mut c = Contract::new();
    let p = pool(&mut c, "GC", 1_000);
    c.donate(p, &s("GC"), 1_000).unwrap();
    c.set_admin(s("GADMIN"));
    approve_directly(&mut c, p, "GS");
    let t = c.claim_funds(s("GS"), p, 199, s("CTOKEN")).result.unwrap();
    assert_eq!(t.amount, 198);
    let t = c.claim_funds(s("GS"), p, 99, s("CTOKEN")).result.unwrap();
    assert_eq!(t.amount, 99);
    assert_eq!(c.claim_protocol_fees(s("GADMIN"), s("CTOKEN")).result.unwrap().amount, 1);
}

#[test]
fn test_recovery_partial_claim_sequence() {
    let mut c = Contract::new();
    let p = pool(&mut c, "GC", 1_000_000_000);
    c.donate(p, &s("GC"), 300_000_000).unwrap();
    approve_directly(&mut c, p, "GS");
    let amount: i128 = 50_000_000;
    c.claim_funds(s("GS"), p, amount, s("CTOKEN")).result.unwrap();
    assert_eq!(c.get_claimed_amount(p, &s("GS")), amount);
    c.claim_funds(s("GS"), p, amount, s("CTOKEN")).result.unwrap();
    assert_eq!(c.get_claimed_amount(p, &s("GS")), amount * 2);
}

#[test]
fn test_claim_protocol_fees_multiple_claims_accumulate() {
    let mut c = Contract::new();
    c.set_admin(s("GADMIN"));
    let p = pool(&mut c, "GC", 1_000_000_000);
    c.donate(p, &s("GC"), 500_000_000).unwrap();
    approve_directly(&mut c, p, "GS1");
    approve_directly(&mut c, p, "GS2");
    c.claim_funds(s("GS1"), p, 100_000_000, s("CTOKEN")).result.unwrap();
    c.claim_funds(s("GS2"), p, 50_000_000, s("CTOKEN")).result.unwrap();
    let out = c.claim_protocol_fees(s("GADMIN"), s("CTOKEN"));
    assert_eq!(out.auth, Some(s("GADMIN")));
    let t = out.result.unwrap();
    assert_eq!((t.to.as_str(), t.amount), ("GADMIN", 1_500_000));
}

#[test]
fn test_fees_isolated_from_student_allocations() {
    let mut c = Contract::new();
    c.set_admin(s("GADMIN"));
    let p = pool(&mut c, "GC", 1_000_000_000);
    c.donate(p, &s("GC"), 500_000_000).unwrap();
    approve_directly(&mut c, p, "GS");
    c.claim_funds(s("GS"), p, 100_000_000, s("CTOKEN")).result.unwrap();
    assert_eq!(c.get_application(p, &s("GS")).unwrap().amount_claimed, 100_000_000);
    assert_eq!(c.get_total_raised(p), Ok(500_000_000));
}

#[test]
fn test_protocol_fees_reset_after_claim() {
    let mut c = Contract::new();
    c.set_admin(s("GADMIN"));
    let p = pool(&mut c, "GC", 1_000_000_000);
    c.donate(p, &s("GC"), 500_000_000).unwrap();
    approve_directly(&mut c, p, "GS");
    c.claim_funds(s("GS"), p, 100_000_000, s("CTOKEN")).result.unwrap();
    assert_eq!(c.claim_protocol_fees(s("GADMIN"), s("CTOKEN")).result.unwrap().amount, 1_000_000);
    assert_eq!(c.claim_protocol_fees(s("GADMIN"), s("CTOKEN")).result.unwrap_err(), NevoError::NoUnclaimedFees);
}

#[test]
fn test_claim_protocol_fees_requires_admin_authorization() {
    let mut c = Contract::new();
    c.set_admin(s("GADMIN"));
    assert_eq!(c.claim_protocol_fees(s("GOTHER"), s("CTOKEN")).result.unwrap_err(), NevoError::UnauthorizedAdmin);
}

#[test]
fn test_claim_protocol_fees_no_fees() {
    let mut c = Contract::new();
    c.set_admin(s("GADMIN"));
    assert_eq!(c.claim_protocol_fees(s("GADMIN"), s("CTOKEN")).result.unwrap_err(), NevoError::NoUnclaimedFees);
}

#[test]
fn test_claim_protocol_fees_no_admin_set_gives_specific_error() {
    let mut c = Contract::new();
    assert_eq!(c.claim_protocol_fees(s("GADMIN"), s("CTOKEN")).result.unwrap_err(), NevoError::AdminNotSet);
}

#[test]
fn test_withdraw_unallocated_funds_all_surplus() {
    let mut c = Contract::new();
    let p = pool(&mut c, "GSPONSOR", 1_000);
    c.donate(p, &s("GD"), 700).unwrap();
    let out = c.withdraw_unallocated_funds(p, s("CTOKEN"));
    assert_eq!(out.auth, Some(s("GSPONSOR")));
    let t = out.result.unwrap();
    assert_eq!((t.token.as_str(), t.to.as_str(), t.amount), ("CTOKEN", "GSPONSOR", 700));
    assert_eq!(c.get_total_raised(p), Ok(0));
    assert_eq!(c.withdraw_unallocated_funds(p, s("CTOKEN")).result.unwrap_err(), NevoError::NoSurplus);
}

#[test]
fn test_withdraw_keeps_locked_funds() {
    let mut c = Contract::new();
    let p = school_pool(&mut c);
    c.donate(p, &s("GD"), 1_000).unwrap();
    // Two applicants; one is approved and claims, so its remaining allowance is locked.
    c.apply_to_pool(p, s("GA"), s("a")).result.unwrap();
    c.apply_to_pool(p, s("GB"), s("b")).result.unwrap();
    c.approve_application(p, s("GSCHOOL"), s("GA"), true).result.unwrap();
    c.approve_application(p, s("GSCHOOL"), s("GB"), false).result.unwrap();
    c.claim_funds(s("GA"), p, 400, s("CTOKEN")).result.unwrap();
    // GA: approved 1000, claimed 400 -> 600 locked; GB rejected -> nothing locked.
    let t = c.withdraw_unallocated_funds(p, s("CTOKEN")).result.unwrap();
    assert_eq!(t.amount, 400);
    assert_eq!(c.get_total_raised(p), Ok(600));
    assert_eq!(c.withdraw_unallocated_funds(p, s("CTOKEN")).result.unwrap_err(), NevoError::NoSurplus);
}

#[test]
fn test_withdraw_insolvency() {
    let mut c = Contract::new();
    let p = school_pool(&mut c);
    c.donate(p, &s("GD"), 1_000).unwrap();
    c.apply_to_pool(p, s("GA"), s("a")).result.unwrap();
    c.approve_application(p, s("GSCHOOL"), s("GA"), true).result.unwrap();
    c.claim_funds(s("GA"), p, 100, s("CTOKEN")).result.unwrap();
    // Locked: 1000 - 100 = 900 out of 1000; withdraw 100 leaves 900.
    assert_eq!(c.withdraw_unallocated_funds(p, s("CTOKEN")).result.unwrap().amount, 100);
    // A second applicant approved with a larger record makes the pool insolvent.
    c.apply_to_pool(p, s("GB"), s("b")).result.unwrap();
    c.approve_application(p, s("GSCHOOL"), s("GB"), true).result.unwrap();
    c.claim_funds(s("GB"), p, 10, s("CTOKEN")).result.unwrap();
    // GB: approved 900, claimed 10 -> 890; total locked 1790 > 900.
    assert_eq!(c.withdraw_unallocated_funds(p, s("CTOKEN")).result.unwrap_err(), NevoError::Insolvency);
}

#[test]
fn test_withdraw_missing_pool() {
    let mut c = Contract::new();
    let out = c.withdraw_unallocated_funds(5, s("CTOKEN"));
    assert_eq!(out.auth, None);
    assert_eq!(out.result.unwrap_err(), NevoError::PoolNotFound);
}

#[test]
fn test_withdraw_pending_without_claim_locks_nothing() {
    let mut c = Contract::new();
    let p = pool(&mut c, "GSPONSOR", 1_000);
    c.donate(p, &s("GD"), 50).unwrap();
    c.apply_to_pool(p, s("GA"), s("a")).result.unwrap();
    assert_eq!(c.withdraw_unallocated_funds(p, s("CTOKEN")).result.unwrap().amount, 50);
}

#[test]
fn test_recovery_failed_donation_preserves_state() {
    let mut c = Contract::new();
    let p = pool(&mut c, "GC", 1_000_000_000);
    c.donate(p, &s("GD"), 100_000_000).unwrap();
    let before = c.get_pool(p).unwrap();
    c.close_pool(p).result.unwrap();
    assert!(c.donate(p, &s("GD"), 50).is_err());
    let after = c.get_pool(p).unwrap();
    assert_eq!(after.3, before.3);
    assert!(after.4);
}

#[test]
fn test_snapshot_round_trip() {
    let mut c = Contract::new();
    c.set_admin(s("GADMIN"));
    let p = school_pool(&mut c);
    c.apply_to_pool(p, s("GA"), s("a")).result.unwrap();
    c.donate(p, &s("GD"), 500).unwrap();
    c.setup_application_milestones(p, s("GA"), vec![Milestone { amount: 1_000_000_000 }]).result.unwrap();
    let snap = c.into_snapshot();
    let c2 = Contract::from_snapshot(snap).unwrap();
    assert_eq!(c2.get_pool(p).unwrap(), (p, s("GCREATOR"), 1_000_000_000, 500, false));
    assert_eq!(c2.get_application_status(p, &s("GA")), "Pending");
    assert_eq!(c2.get_milestones(p, &s("GA")), vec![Milestone { amount: 1_000_000_000 }]);
    assert!(c2.is_school_registered(&s("GSCHOOL")));
}

#[test]
fn test_snapshot_with_duplicate_keys_rejected() {
    let mut c = Contract::new();
    c.set_application_status(1, s("GA"), s("x"));
    let mut snap = c.into_snapshot();
    snap.statuses.push(nevo_contract::StudentEntry { pool_id: 1, student: s("GA"), value: s("y") });
    assert!(Contract::from_snapshot(snap).is_none());
}

#[test]
fn test_snapshot_with_duplicate_applicant_rejected() {
    let mut c = Contract::new();
    let p = pool(&mut c, "GC", 1);
    c.apply_to_pool(p, s("GA"), s("a")).result.unwrap();
    let mut snap = c.into_snapshot();
    snap.pools[0].applications.push(nevo_contract::ApplicationEntry { student: s("GA"), data: s("b") });
    assert!(Contract::from_snapshot(snap).is_none());
}

#[test]
fn test_error_messages() {
    assert_eq!(NevoError::PoolNotFound.message(), "Pool not found");
    assert_eq!(NevoError::Overdraw.message(), "Overdraw attempt");
    assert_eq!(NevoError::Insolvency.message(), "Insolvency: locked funds exceed collected");
    assert_eq!(NevoError::NoUnclaimedFees.message(), "No unclaimed fees");
}

#[test]
fn test_first_claim_within_approved_amount() {
    let mut c = Contract::new();
    let p = pool(&mut c, "GC", 1_000);
    c.donate(p, &s("GD"), 100).unwrap();
    approve_directly(&mut c, p, "GS");
    c.claim_funds(s("GS"), p, 100, s("CTOKEN")).result.unwrap();
    let a = c.get_application(p, &s("GS")).unwrap();
    assert_eq!(a, Application { approved_amount: 100, amount_claimed: 100 });
    assert_eq!(c.claim_funds(s("GS"), p, 1, s("CTOKEN")).result.unwrap_err(), NevoError::Overdraw);
}

#[test]
fn test_claims_bounded_by_recorded_approval() {
    // The first claim records the pool's collected funds as the approved
    // amount; later donations do not let the student claim beyond it.
    let mut c = Contract::new();
    let p = pool(&mut c, "GC", 1_000);
    c.donate(p, &s("GD"), 100).unwrap();
    approve_directly(&mut c, p, "GS");
    c.claim_funds(s("GS"), p, 100, s("CTOKEN")).result.unwrap();
    c.donate(p, &s("GD"), 100).unwrap();
    assert_eq!(c.claim_funds(s("GS"), p, 50, s("CTOKEN")).result.unwrap_err(), NevoError::Overdraw);
    assert_eq!(c.get_application(p, &s("GS")), Some(Application { approved_amount: 100, amount_claimed: 100 }));
}

#[test]
fn test_partial_claims_up_to_approved_amount() {
    let mut c = Contract::new();
    let p = pool(&mut c, "GC", 1_000);
    c.donate(p, &s("GD"), 200).unwrap();
    approve_directly(&mut c, p, "GS");
    c.claim_funds(s("GS"), p, 120, s("CTOKEN")).result.unwrap();
    c.claim_funds(s("GS"), p, 80, s("CTOKEN")).result.unwrap();
    assert_eq!(c.claim_funds(s("GS"), p, 1, s("CTOKEN")).result.unwrap_err(), NevoError::Overdraw);
    assert_eq!(c.get_application(p, &s("GS")), Some(Application { approved_amount: 200, amount_claimed: 200 }));
}

#[test]
fn test_withdraw_locked_funds_overflow() {
    let mut c = Contract::new();
    let p = pool(&mut c, "GSPONSOR", 1);
    c.donate(p, &s("GD"), i128::MAX as u128).unwrap();
    for st in ["GA", "GB", "GC"] {
        c.apply_to_pool(p, s(st), s("x")).result.unwrap();
        approve_directly(&mut c, p, st);
        c.claim_funds(s(st), p, 1, s("CTOKEN")).result.unwrap();
    }
    assert_eq!(
        c.withdraw_unallocated_funds(p, s("CTOKEN")).result.unwrap_err(),
        NevoError::LockedFundsOverflow
    );
    assert_eq!(c.get_total_raised(p), Ok(i128::MAX as u128));
}

#[test]
fn test_withdraw_counts_pending_claim_records() {
    let mut c = Contract::new();
    let p = pool(&mut c, "GSPONSOR", 1);
    c.donate(p, &s("GD"), 1_000).unwrap();
    c.apply_to_pool(p, s("GA"), s("x")).result.unwrap();
    approve_directly(&mut c, p, "GA");
    c.claim_funds(s("GA"), p, 300, s("CTOKEN")).result.unwrap();
    c.set_application_status(p, s("GA"), s("Pending"));
    // Pending still locks what GA may claim: 1000 - 300.
    assert_eq!(c.withdraw_unallocated_funds(p, s("CTOKEN")).result.unwrap().amount, 300);
    c.set_application_status(p, s("GA"), s("Withdrawn"));
    assert_eq!(c.withdraw_unallocated_funds(p, s("CTOKEN")).result.unwrap().amount, 700);
}

#[test]
fn test_pools_persist_across_calls() {
    let mut c = Contract::new();
    c.set_admin(s("GADMIN"));
    c.register_school(s("GADMIN"), s("GSCHOOL")).result.unwrap();
    let p1 = c.create_pool_for_school(s("GC1"), &s("T"), &s("D"), 500, s("GSCHOOL")).result.unwrap();
    let p2 = pool(&mut c, "GC2", 700);
    c.donate(p1, &s("GD"), 40).unwrap();
    c.close_pool(p2).result.unwrap();
    c.withdraw_unallocated_funds(p1, s("CTOKEN")).result.unwrap();
    let p3 = pool(&mut c, "GC3", 900);
    assert_eq!((p1, p2, p3), (1, 2, 3));
    assert_eq!(c.get_pool_count(), 3);
    assert_eq!(c.get_pool(p1).unwrap(), (1, s("GC1"), 500, 0, false));
    assert_eq!(c.get_pool(p2).unwrap(), (2, s("GC2"), 700, 0, true));
    assert_eq!(c.get_pool_school(p1), Ok(s("GSCHOOL")));
    assert_eq!(c.get_pool_school(p3), Err(NevoError::PoolSchoolNotSet));
}

#[test]
fn test_milestones_last_successful_setup() {
    let mut c = Contract::new();
    let p = pool(&mut c, "GC", 300);
    c.setup_application_milestones(p, s("GS"), vec![Milestone { amount: 300 }]).result.unwrap();
    let second = vec![Milestone { amount: 100 }, Milestone { amount: 200 }];
    c.setup_application_milestones(p, s("GS"), second.clone()).result.unwrap();
    assert!(c.setup_application_milestones(p, s("GS"), vec![Milestone { amount: 1 }]).result.is_err());
    assert_eq!(c.get_milestones(p, &s("GS")), second);
}

#[test]
fn test_claim_record_sums_successful_claims() {
    let mut c = Contract::new();
    let p = pool(&mut c, "GC", 1_000);
    c.donate(p, &s("GD"), 500).unwrap();
    approve_directly(&mut c, p, "GS");
    assert_eq!(c.get_application(p, &s("GS")), None);
    c.claim_funds(s("GS"), p, 200, s("CTOKEN")).result.unwrap();
    assert!(c.claim_funds(s("GS"), p, 400, s("CTOKEN")).result.is_err());
    c.claim_funds(s("GS"), p, 250, s("CTOKEN")).result.unwrap();
    assert_eq!(c.get_application(p, &s("GS")), Some(Application { approved_amount: 500, amount_claimed: 450 }));
    assert_eq!(c.get_claimed_amount(p, &s("GS")), 450);
}
