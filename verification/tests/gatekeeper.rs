use qc_generator::gatekeeper::westgard_check;
use qc_generator::rules::{apply_rules, check_r_4s, RuleConfig, RuleError};

#[test]
fn gate_accepts_a_quiet_candidate() {
    assert_eq!(westgard_check(&[], 100, 100, 2), Ok(true));
    assert_eq!(westgard_check(&[101, 99, 100], 101, 100, 2), Ok(true));
    // exactly two standard deviations away is still inside
    assert_eq!(westgard_check(&[], 104, 100, 2), Ok(true));
    assert_eq!(westgard_check(&[], 96, 100, 2), Ok(true));
}

#[test]
fn gate_refuses_beyond_two_std_devs() {
    assert_eq!(westgard_check(&[], 105, 100, 2), Ok(false));
    assert_eq!(westgard_check(&[100, 100], 95, 100, 2), Ok(false));
}

#[test]
fn gate_refuses_a_jump_of_more_than_four_std_devs() {
    // 96 -> 104 is exactly four standard deviations: accepted
    assert_eq!(westgard_check(&[96], 104, 100, 2), Ok(true));
    assert_eq!(westgard_check(&[9_600], 10_400, 10_000, 200), Ok(true));
    // 9599 -> 10400 with a standard deviation of 200 is more than four
    assert_eq!(westgard_check(&[9_599], 10_400, 10_000, 200), Ok(false));
    assert_eq!(westgard_check(&[10_400], 9_599, 10_000, 200), Ok(false));
    assert_eq!(westgard_check(&[9_700], 10_350, 10_000, 160), Ok(false));
}

#[test]
fn gate_refuses_a_fifth_point_far_on_one_side() {
    // one percent of the target 10_000 is 100
    let high = [10_101, 10_150, 10_200, 10_101];
    assert_eq!(westgard_check(&high, 10_101, 10_000, 200), Ok(false));
    // exactly one percent away is not far
    assert_eq!(westgard_check(&high, 10_100, 10_000, 200), Ok(true));
    let low = [9_899, 9_850, 9_800, 9_899];
    assert_eq!(westgard_check(&low, 9_899, 10_000, 200), Ok(false));
    assert_eq!(westgard_check(&low, 10_101, 10_000, 200), Ok(true));
    // only three points before the candidate: too few
    assert_eq!(westgard_check(&high[1..], 10_101, 10_000, 200), Ok(true));
    // an older point near the target breaks the run
    let broken = [10_101, 10_050, 10_200, 10_101];
    assert_eq!(westgard_check(&broken, 10_101, 10_000, 200), Ok(true));
}

#[test]
fn gate_refuses_a_tenth_point_on_one_side() {
    let mut history = vec![10_010; 9];
    assert_eq!(westgard_check(&history, 10_010, 10_000, 200), Ok(false));
    assert_eq!(westgard_check(&history, 9_990, 10_000, 200), Ok(true));
    // a candidate on the target is on neither side
    assert_eq!(westgard_check(&history, 10_000, 10_000, 200), Ok(true));
    // eight points and the candidate are only nine
    assert_eq!(westgard_check(&history[..8], 10_010, 10_000, 200), Ok(true));
    // only the last nine count
    history.insert(0, 9_990);
    assert_eq!(westgard_check(&history, 10_010, 10_000, 200), Ok(false));
    history[1] = 9_990;
    assert_eq!(westgard_check(&history, 10_010, 10_000, 200), Ok(true));
    let below = vec![9_990; 9];
    assert_eq!(westgard_check(&below, 9_990, 10_000, 200), Ok(false));
    assert_eq!(westgard_check(&below, 10_010, 10_000, 200), Ok(true));
}

#[test]
fn gate_refuses_non_positive_std_dev() {
    assert_eq!(westgard_check(&[100], 100, 100, 0), Err(RuleError::NonPositiveStdDev));
    assert_eq!(westgard_check(&[], 100, 100, -1), Err(RuleError::NonPositiveStdDev));
}

#[test]
fn gate_and_audit_are_different_rule_sets() {
    // The gatekeeper lets each of these points through, one after the other ...
    let series = [10_000, 10_050, 10_090, 10_130, 10_170, 10_210, 10_250];
    for i in 0..series.len() {
        assert_eq!(westgard_check(&series[..i], series[i], 10_000, 200), Ok(true));
    }
    // ... yet the audit finds the trend that the gatekeeper does not look for.
    let report = apply_rules(&series, 10_000, 200, &RuleConfig::default()).unwrap();
    assert!(report.iter().any(|r| r.rule_name == "7-T" && r.violated));
    // And the gatekeeper refuses a jump that is no R-4s pattern in the audit.
    assert_eq!(westgard_check(&[9_700], 10_600, 10_000, 200), Ok(false));
    assert!(!check_r_4s(&[9_700, 10_350], 10_000, 200));
    assert_eq!(westgard_check(&[9_700], 10_350, 10_000, 200), Ok(true));
}

#[test]
fn gate_leaves_the_series_alone() {
    let history = vec![100, 101, 99];
    let before = history.clone();
    let _ = westgard_check(&history, 120, 100, 2);
    assert_eq!(history, before);
}
