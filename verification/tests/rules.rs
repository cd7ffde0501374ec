use qc_generator::export::UNITS_PER_ONE;
use qc_generator::rules::{
    all_rules, any_violated, apply_rules, check_10x, check_1_3s, check_2_2s, check_3_1s, check_4_1s, check_7_t,
    check_r_4s, Rule, RuleConfig, RuleError, WestgardResult,
};

/// Whole numbers as values of the library's resolution.
fn units(values: &[i64]) -> Vec<i64> {
    values.iter().map(|v| v * UNITS_PER_ONE).collect()
}

fn line<'a>(report: &'a [WestgardResult], name: &str) -> &'a WestgardResult {
    let found: Vec<&WestgardResult> = report.iter().filter(|r| r.rule_name == name).collect();
    assert_eq!(found.len(), 1);
    found[0]
}

#[test]
fn test_1_3s() {
    let target = 100 * UNITS_PER_ONE;
    let std_dev = 2 * UNITS_PER_ONE;
    // 107 is > 3SD (106)
    let data = units(&[100, 101, 107, 100]);
    assert!(check_1_3s(&data, target, std_dev));

    let data_ok = units(&[100, 105, 95]); // Within +/- 3SD
    assert!(!check_1_3s(&data_ok, target, std_dev));
}

#[test]
fn test_2_2s() {
    let target = 100 * UNITS_PER_ONE;
    let std_dev = 2 * UNITS_PER_ONE; // 2SD = 104
    // Two consecutive points > 104
    let data = units(&[100, 105, 105, 100]);
    assert!(check_2_2s(&data, target, std_dev));

    // One high, one low (not same side) - should pass 2-2s (but might fail R-4s)
    let data_diff_side = units(&[100, 105, 95, 100]);
    assert!(!check_2_2s(&data_diff_side, target, std_dev));
}

#[test]
fn one_three_s_is_strict_at_the_limit() {
    // exactly three standard deviations away is not beyond them
    assert!(!check_1_3s(&[106, 94], 100, 2));
    assert!(check_1_3s(&[100, 93], 100, 2));
    assert!(check_1_3s(&[107], 100, 2));
    assert!(!check_1_3s(&[], 100, 2));
}

#[test]
fn two_two_s_needs_neighbours_on_one_side() {
    assert!(check_2_2s(&[100, 95, 95], 100, 2));
    assert!(!check_2_2s(&[105, 100, 105], 100, 2));
    assert!(!check_2_2s(&[104, 104], 100, 2));
    assert!(!check_2_2s(&[105], 100, 2));
}

#[test]
fn r_four_s_needs_opposite_extremes() {
    assert!(check_r_4s(&[100, 105, 95, 100], 100, 2));
    assert!(check_r_4s(&[95, 105], 100, 2));
    // same side: never
    assert!(!check_r_4s(&[105, 105], 100, 2));
    assert!(!check_r_4s(&[95, 95], 100, 2));
    // not neighbours
    assert!(!check_r_4s(&[105, 100, 95], 100, 2));
    // exactly two standard deviations is not beyond them
    assert!(!check_r_4s(&[104, 96], 100, 2));
    assert!(!check_r_4s(&[105], 100, 2));
}

#[test]
fn three_one_s_and_four_one_s() {
    assert!(check_3_1s(&[100, 103, 103, 103], 100, 2));
    assert!(check_3_1s(&[97, 97, 97], 100, 2));
    assert!(!check_3_1s(&[103, 103, 97], 100, 2));
    assert!(!check_3_1s(&[103, 103, 102], 100, 2));
    assert!(!check_3_1s(&[103, 103], 100, 2));

    assert!(check_4_1s(&[103, 103, 103, 103], 100, 2));
    assert!(check_4_1s(&[100, 97, 97, 97, 97], 100, 2));
    assert!(!check_4_1s(&[103, 103, 103, 100, 103], 100, 2));
    assert!(!check_4_1s(&[103, 103, 103], 100, 2));
}

#[test]
fn seven_t_is_a_strict_trend() {
    assert!(check_7_t(&[1, 2, 3, 4, 5, 6, 7], 100, 2));
    assert!(check_7_t(&[9, 7, 6, 5, 4, 3, 2, 1], 100, 2));
    assert!(check_7_t(&[5, 5, 1, 2, 3, 4, 5, 6, 7], 100, 2));
    // a plateau breaks it
    assert!(!check_7_t(&[1, 2, 3, 4, 4, 5, 6, 7], 100, 2));
    // six points are too few
    assert!(!check_7_t(&[1, 2, 3, 4, 5, 6], 100, 2));
    assert!(!check_7_t(&[1, 2, 3, 4, 3, 2, 1], 100, 2));
}

#[test]
fn ten_x_needs_ten_on_one_side() {
    let above = [101; 10];
    let below = [99; 10];
    assert!(check_10x(&above, 100, 2));
    assert!(check_10x(&below, 100, 2));
    // a run of nine never violates
    assert!(!check_10x(&above[..9], 100, 2));
    assert!(!check_10x(&below[..9], 100, 2));
    // a point on the target is on neither side
    let mut broken = vec![101; 12];
    broken[5] = 100;
    assert!(!check_10x(&broken, 100, 2));
    broken[5] = 99;
    assert!(!check_10x(&broken, 100, 2));
    // the run may begin anywhere
    let mut late = vec![99, 100];
    late.extend_from_slice(&above);
    assert!(check_10x(&late, 100, 2));
}

#[test]
fn rule_check_agrees_with_the_named_functions() {
    let data = [100, 105, 95, 100, 107, 103, 103, 103, 103];
    for rule in all_rules() {
        let direct = match rule {
            Rule::OneThreeS => check_1_3s(&data, 100, 2),
            Rule::TwoTwoS => check_2_2s(&data, 100, 2),
            Rule::RFourS => check_r_4s(&data, 100, 2),
            Rule::ThreeOneS => check_3_1s(&data, 100, 2),
            Rule::FourOneS => check_4_1s(&data, 100, 2),
            Rule::SevenT => check_7_t(&data, 100, 2),
            Rule::TenX => check_10x(&data, 100, 2),
        };
        assert_eq!(rule.check(&data, 100, 2), direct);
    }
}

#[test]
fn catalog_names_and_windows() {
    let rules = all_rules();
    let names: Vec<String> = rules.iter().map(|r| r.name()).collect();
    assert_eq!(names, vec!["1-3s", "2-2s", "R-4s", "3-1s", "4-1s", "7-T", "10x"]);
    let windows: Vec<usize> = rules.iter().map(|r| r.window()).collect();
    assert_eq!(windows, vec![1, 2, 2, 3, 4, 7, 10]);
}

#[test]
fn default_config_enables_every_rule() {
    let config = RuleConfig::default();
    for rule in all_rules() {
        assert!(config.is_enabled(rule));
    }
    assert!(config.check_1_3s && config.check_2_2s && config.check_r_4s);
    assert!(config.check_3_1s && config.check_4_1s && config.check_7t && config.check_10x);
}

#[test]
fn report_lists_every_rule_in_order() {
    let data = [100, 101, 107, 100];
    let report = apply_rules(&data, 100, 2, &RuleConfig::default()).unwrap();
    let names: Vec<&str> = report.iter().map(|r| r.rule_name.as_str()).collect();
    assert_eq!(names, vec!["1-3s", "2-2s", "R-4s", "3-1s", "4-1s", "7-T", "10x"]);
    assert!(line(&report, "1-3s").violated);
    assert!(!line(&report, "2-2s").violated);
    assert!(!line(&report, "R-4s").violated);
    assert!(!line(&report, "3-1s").violated);
    assert!(!line(&report, "4-1s").violated);
    assert!(!line(&report, "7-T").violated);
    assert!(!line(&report, "10x").violated);
}

#[test]
fn report_separates_two_two_s_from_r_four_s() {
    let config = RuleConfig::default();
    let same = apply_rules(&[100, 105, 105, 100], 100, 2, &config).unwrap();
    assert!(line(&same, "2-2s").violated);
    assert!(!line(&same, "R-4s").violated);
    let opposite = apply_rules(&[100, 105, 95, 100], 100, 2, &config).unwrap();
    assert!(!line(&opposite, "2-2s").violated);
    assert!(line(&opposite, "R-4s").violated);
}

#[test]
fn disabled_rules_are_listed_as_not_violated() {
    let data = [100, 101, 107, 100];
    let mut config = RuleConfig::default();
    config.check_1_3s = false;
    let report = apply_rules(&data, 100, 2, &config).unwrap();
    assert_eq!(report.len(), 7);
    assert!(!line(&report, "1-3s").violated);

    let none = RuleConfig {
        check_1_3s: false,
        check_2_2s: false,
        check_r_4s: false,
        check_3_1s: false,
        check_4_1s: false,
        check_7t: false,
        check_10x: false,
    };
    let worst = [120, 120, 80, 121, 122, 123, 124, 125, 126, 127, 128, 129, 130];
    let report = apply_rules(&worst, 100, 2, &none).unwrap();
    assert_eq!(report.len(), 7);
    assert!(report.iter().all(|r| !r.violated));
    let report = apply_rules(&worst, 100, 2, &RuleConfig::default()).unwrap();
    assert!(report.iter().all(|r| r.violated));
}

#[test]
fn empty_and_short_series_pass() {
    let report = apply_rules(&[], 100, 2, &RuleConfig::default()).unwrap();
    assert_eq!(report.len(), 7);
    assert!(report.iter().all(|r| !r.violated));
    assert!(!any_violated(&report));
    assert!(!any_violated(&[]));
    assert!(any_violated(&apply_rules(&[107], 100, 2, &RuleConfig::default()).unwrap()));
    let report = apply_rules(&[100], 100, 2, &RuleConfig::default()).unwrap();
    assert!(report.iter().all(|r| !r.violated));
}

#[test]
fn non_positive_std_dev_is_refused() {
    let config = RuleConfig::default();
    assert_eq!(apply_rules(&[100, 101], 100, 0, &config).unwrap_err(), RuleError::NonPositiveStdDev);
    assert_eq!(apply_rules(&[], 100, -2, &config).unwrap_err(), RuleError::NonPositiveStdDev);
    assert!(apply_rules(&[], 100, 1, &config).is_ok());
    assert!(!RuleError::NonPositiveStdDev.message().is_empty());
}

#[test]
fn audit_is_repeatable_and_leaves_its_input_alone() {
    let data = vec![100, 105, 95, 100, 107, 103, 103, 103, 103];
    let before = data.clone();
    let config = RuleConfig::default();
    let first = apply_rules(&data, 100, 2, &config).unwrap();
    let second = apply_rules(&data, 100, 2, &config).unwrap();
    assert_eq!(first.len(), second.len());
    for (a, b) in first.iter().zip(second.iter()) {
        assert_eq!(a.rule_name, b.rule_name);
        assert_eq!(a.violated, b.violated);
    }
    assert_eq!(data, before);
}

#[test]
fn extreme_values_do_not_overflow() {
    let data = [i64::MAX, i64::MIN, i64::MAX];
    assert!(check_1_3s(&data, 0, i64::MAX / 3));
    assert!(!check_1_3s(&data, 0, i64::MAX));
    assert!(!check_1_3s(&[i64::MAX], i64::MAX, i64::MAX));
    assert!(check_r_4s(&data, 0, 1));
    let report = apply_rules(&data, i64::MIN, i64::MAX, &RuleConfig::default()).unwrap();
    assert_eq!(report.len(), 7);
}
