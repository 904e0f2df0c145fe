use multisig_wallet::policy::majority_reached;

#[test]
fn threshold_without_signers_is_met() {
    assert!(majority_reached(0, 0));
}

#[test]
fn threshold_with_up_to_four_signers_needs_no_approval() {
    assert!(majority_reached(1, 0));
    assert!(majority_reached(2, 0));
    assert!(majority_reached(3, 0));
    assert!(majority_reached(4, 0));
}

#[test]
fn threshold_with_five_signers_needs_one_approval() {
    assert!(!majority_reached(5, 0));
    assert!(majority_reached(5, 1));
}

#[test]
fn threshold_rounds_two_thirds_down() {
    // 2 * 6 / 3 = 4, so two approvals and the two implied ones suffice.
    assert!(!majority_reached(6, 1));
    assert!(majority_reached(6, 2));
    // 2 * 7 / 3 = 4 as well.
    assert!(!majority_reached(7, 1));
    assert!(majority_reached(7, 2));
    // 2 * 8 / 3 = 5.
    assert!(!majority_reached(8, 2));
    assert!(majority_reached(8, 3));
    // 2 * 9 / 3 = 6.
    assert!(!majority_reached(9, 3));
    assert!(majority_reached(9, 4));
}

#[test]
fn threshold_is_monotone_in_approvals() {
    for signers in 0..40u64 {
        let mut met = false;
        for approvals in 0..40u64 {
            let now = majority_reached(signers, approvals);
            assert!(!met || now);
            met = now;
            assert_eq!(now, approvals + 2 >= 2 * signers / 3);
        }
    }
}

#[test]
fn threshold_does_not_overflow() {
    assert!(majority_reached(u64::MAX, u64::MAX));
    assert!(majority_reached(0, u64::MAX));
    assert!(!majority_reached(u64::MAX, 0));
    // 2 * (2^64 - 1) / 3 = 12297829382473034410.
    assert!(!majority_reached(u64::MAX, 12297829382473034407));
    assert!(majority_reached(u64::MAX, 12297829382473034408));
}
