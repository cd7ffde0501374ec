use qc_generator::export::UNITS_PER_ONE;
use qc_generator::generator::{
    derive_std_dev, draw_plan, generate_data, sanitize_cv, validate, DistributionType, DrawOutcome,
    DrawPlan, GenerateError, Generator, QCParams, SamplingMode, Verdict, PPM,
};
use qc_generator::gatekeeper::westgard_check;
use qc_generator::rules::{apply_rules, RuleConfig};
use rand::rngs::StdRng;
use rand::{Rng, SeedableRng};
use rand_distr::{Distribution, LogNormal, Normal};

fn to_real(units: i64) -> f64 {
    units as f64 / UNITS_PER_ONE as f64
}

fn to_units(x: f64) -> i64 {
    (x * UNITS_PER_ONE as f64).round() as i64
}

/// Makes the draw that a plan asks for.
fn draw<R: Rng>(plan: DrawPlan, rng: &mut R) -> DrawOutcome {
    match plan {
        DrawPlan::Fallback { .. } => DrawOutcome::Degenerate,
        DrawPlan::Sample { dist: DistributionType::Normal, mean, std_dev } => {
            match Normal::new(to_real(mean), to_real(std_dev)) {
                Ok(normal) => DrawOutcome::Sample(to_units(normal.sample(rng))),
                Err(_) => DrawOutcome::Degenerate,
            }
        }
        DrawPlan::Sample { dist: DistributionType::LogNormal, mean, std_dev } => {
            let mean = to_real(mean);
            let std_dev = to_real(std_dev);
            let sigma_sq = (1.0 + (std_dev * std_dev) / (mean * mean)).ln();
            let sigma = sigma_sq.sqrt();
            let mu = mean.ln() - 0.5 * sigma_sq;
            if !mu.is_finite() || !sigma.is_finite() {
                return DrawOutcome::Degenerate;
            }
            match LogNormal::new(mu, sigma) {
                Ok(dist) => DrawOutcome::Sample(to_units(dist.sample(rng))),
                Err(_) => DrawOutcome::Degenerate,
            }
        }
    }
}

/// Draws ahead for every observation and generates without constraints.
fn generate_with<R: Rng>(params: &QCParams, rng: &mut R) -> Vec<f64> {
    let mut draws = Vec::new();
    for day in 0..params.num_days {
        let plan = draw_plan(params, day).unwrap().unwrap();
        draws.push(draw(plan, rng));
    }
    generate_data(params, &draws).unwrap().into_iter().map(to_real).collect()
}

fn params(target: i64, cv: i64, bias: i64, drift_rate: i64, num_days: usize) -> QCParams {
    QCParams { target, cv, bias, drift_rate, num_days, dist_type: DistributionType::Normal }
}

#[test]
fn test_generate_normal() {
    let params = QCParams {
        target: to_units(100.0),
        cv: 20_000, // 0.02, that is 2%
        bias: 0,
        drift_rate: 0,
        num_days: 1000,
        dist_type: DistributionType::Normal,
    };

    let data = generate_with(&params, &mut rand::thread_rng());
    let mean: f64 = data.iter().sum::<f64>() / data.len() as f64;
    let variance: f64 = data.iter().map(|x| (x - mean).powi(2)).sum::<f64>() / data.len() as f64;
    let std_dev = variance.sqrt();

    // Check if mean is close to 100
    assert!((mean - 100.0).abs() < 1.0, "Mean should be close to 100, got {}", mean);
    // Check if CV is close to 2% (SD approx 2.0)
    assert!((std_dev - 2.0).abs() < 0.2, "StdDev should be close to 2.0, got {}", std_dev);
}

#[test]
fn test_drift() {
    let params = QCParams {
        target: to_units(100.0),
        cv: 1, // 0.000001: next to no random variation, to test pure drift
        bias: 0,
        drift_rate: to_units(1.0),
        num_days: 5,
        dist_type: DistributionType::Normal,
    };

    let data = generate_with(&params, &mut rand::thread_rng());
    // Expected: approx 100, 101, 102, 103, 104
    assert!((data[0] - 100.0).abs() < 0.01);
    assert!((data[4] - 104.0).abs() < 0.01);
}

#[test]
fn normal_run_converges_with_a_seeded_source() {
    let params = QCParams {
        target: to_units(50.0),
        cv: 40_000,
        bias: 0,
        drift_rate: 0,
        num_days: 20_000,
        dist_type: DistributionType::Normal,
    };
    let mut rng = StdRng::seed_from_u64(7);
    let data = generate_with(&params, &mut rng);
    assert_eq!(data.len(), 20_000);
    let mean: f64 = data.iter().sum::<f64>() / data.len() as f64;
    let variance: f64 = data.iter().map(|x| (x - mean).powi(2)).sum::<f64>() / data.len() as f64;
    assert!((mean - 50.0).abs() < 0.1);
    assert!((variance.sqrt() - 2.0).abs() < 0.05);
    // the same seed gives the same series
    let again = generate_with(&params, &mut StdRng::seed_from_u64(7));
    assert_eq!(data, again);
}

#[test]
fn log_normal_run_has_the_requested_mean() {
    let params = QCParams {
        target: to_units(100.0),
        cv: 20_000,
        bias: 0,
        drift_rate: 0,
        num_days: 20_000,
        dist_type: DistributionType::LogNormal,
    };
    let mut rng = StdRng::seed_from_u64(11);
    let data = generate_with(&params, &mut rng);
    assert!(data.iter().all(|x| *x > 0.0));
    let mean: f64 = data.iter().sum::<f64>() / data.len() as f64;
    let variance: f64 = data.iter().map(|x| (x - mean).powi(2)).sum::<f64>() / data.len() as f64;
    assert!((mean - 100.0).abs() < 0.2);
    assert!((variance.sqrt() - 2.0).abs() < 0.1);
}

#[test]
fn std_dev_is_target_times_imprecision() {
    // 100.0 at 2% is 2.0
    assert_eq!(derive_std_dev(100_000_000, 20_000), Ok(2_000_000));
    // 100.0 at one part per million is 0.0001
    assert_eq!(derive_std_dev(100_000_000, 1), Ok(100));
    // rounded up to the next unit, so never zero
    assert_eq!(derive_std_dev(1, 1), Ok(1));
    assert_eq!(derive_std_dev(3, 500_000), Ok(2));
    assert_eq!(derive_std_dev(1_000_001, 1), Ok(2));
    assert_eq!(derive_std_dev(PPM, 1), Ok(1));
    assert_eq!(derive_std_dev(0, 5), Err(GenerateError::InvalidParameter));
    assert_eq!(derive_std_dev(5, 0), Err(GenerateError::InvalidParameter));
    assert_eq!(derive_std_dev(-5, 5), Err(GenerateError::InvalidParameter));
    assert_eq!(derive_std_dev(i64::MAX, i64::MAX), Err(GenerateError::OutOfRange));
    assert_eq!(derive_std_dev(i64::MAX, PPM), Ok(i64::MAX));
    assert_eq!(derive_std_dev(i64::MAX, PPM + 1), Err(GenerateError::OutOfRange));
}

#[test]
fn imprecision_is_clamped_to_the_smallest_positive() {
    assert_eq!(sanitize_cv(0), 1);
    assert_eq!(sanitize_cv(20_000), 20_000);
    assert_eq!(sanitize_cv(-20_000), 20_000);
    assert_eq!(sanitize_cv(1), 1);
    assert_eq!(sanitize_cv(-1), 1);
    assert_eq!(sanitize_cv(i64::MIN), i64::MAX);
    assert_eq!(sanitize_cv(i64::MAX), i64::MAX);
}

#[test]
fn invalid_parameters_are_refused_before_any_draw() {
    let good = params(100, 20_000, 0, 0, 5);
    assert_eq!(validate(&good), Ok(2));
    for bad in [
        QCParams { target: 0, ..good },
        QCParams { target: -100, ..good },
        QCParams { cv: 0, ..good },
        QCParams { cv: -1, ..good },
        QCParams { num_days: 0, ..good },
    ] {
        assert_eq!(validate(&bad), Err(GenerateError::InvalidParameter));
        assert_eq!(generate_data(&bad, &[]), Err(GenerateError::InvalidParameter));
        assert_eq!(draw_plan(&bad, 0), Err(GenerateError::InvalidParameter));
        assert!(matches!(
            Generator::start(bad, SamplingMode::Unconstrained),
            Err(GenerateError::InvalidParameter)
        ));
    }
}

#[test]
fn unrepresentable_runs_are_refused() {
    let far = params(i64::MAX, 20_000, 1, 0, 5);
    assert_eq!(validate(&far), Err(GenerateError::OutOfRange));
    let drifting = params(100, 20_000, 0, i64::MAX / 2, 4);
    assert_eq!(validate(&drifting), Err(GenerateError::OutOfRange));
    assert_eq!(generate_data(&drifting, &[DrawOutcome::Degenerate; 4]), Err(GenerateError::OutOfRange));
    // three observations stay in range: 100, 100 + MAX/2, 100 + 2 * (MAX/2)
    let shorter = params(100, 20_000, -200, i64::MAX / 2, 3);
    assert!(validate(&shorter).is_ok());
    let falling = params(100, 20_000, 0, i64::MIN, 3);
    assert_eq!(validate(&falling), Err(GenerateError::OutOfRange));
    let two_steps = params(100, 20_000, 0, i64::MIN, 2);
    assert_eq!(generate_data(&two_steps, &[DrawOutcome::Degenerate; 2]), Ok(vec![100, i64::MIN + 100]));
    let wide = params(i64::MAX, i64::MAX, 0, 0, 1);
    assert_eq!(validate(&wide), Err(GenerateError::OutOfRange));
    assert!(!GenerateError::OutOfRange.message().is_empty());
}

#[test]
fn missing_draws_are_reported() {
    let p = params(100, 20_000, 0, 0, 3);
    let two = [DrawOutcome::Sample(100), DrawOutcome::Sample(101)];
    assert_eq!(generate_data(&p, &two), Err(GenerateError::MissingDraws));
    let four = [
        DrawOutcome::Sample(100),
        DrawOutcome::Sample(101),
        DrawOutcome::Sample(99),
        DrawOutcome::Sample(55),
    ];
    assert_eq!(generate_data(&p, &four), Ok(vec![100, 101, 99]));
}

#[test]
fn pure_drift_is_exact_when_draws_are_degenerate() {
    let p = params(100, 20_000, 0, 1, 5);
    let series = generate_data(&p, &[DrawOutcome::Degenerate; 5]).unwrap();
    assert_eq!(series, vec![100, 101, 102, 103, 104]);
    let p = params(100, 20_000, 7, -3, 4);
    let series = generate_data(&p, &[DrawOutcome::Degenerate; 4]).unwrap();
    assert_eq!(series, vec![107, 104, 101, 98]);
}

#[test]
fn plans_follow_the_working_mean() {
    let p = params(1_000, 20_000, 5, 10, 3);
    assert_eq!(
        draw_plan(&p, 0),
        Ok(Some(DrawPlan::Sample { dist: DistributionType::Normal, mean: 1_005, std_dev: 20 }))
    );
    assert_eq!(
        draw_plan(&p, 2),
        Ok(Some(DrawPlan::Sample { dist: DistributionType::Normal, mean: 1_025, std_dev: 20 }))
    );
    assert_eq!(draw_plan(&p, 3), Ok(None));
}

#[test]
fn log_normal_falls_back_to_the_mean_when_it_is_not_positive() {
    let p = QCParams {
        target: 100,
        cv: 20_000,
        bias: 0,
        drift_rate: -50,
        num_days: 4,
        dist_type: DistributionType::LogNormal,
    };
    assert_eq!(
        draw_plan(&p, 1),
        Ok(Some(DrawPlan::Sample { dist: DistributionType::LogNormal, mean: 50, std_dev: 2 }))
    );
    assert_eq!(draw_plan(&p, 2), Ok(Some(DrawPlan::Fallback { mean: 0 })));
    assert_eq!(draw_plan(&p, 3), Ok(Some(DrawPlan::Fallback { mean: -50 })));
    // where the plan is a fallback, whatever is offered is replaced by the mean
    let draws = [
        DrawOutcome::Sample(98),
        DrawOutcome::Degenerate,
        DrawOutcome::Sample(3),
        DrawOutcome::Sample(4),
    ];
    assert_eq!(generate_data(&p, &draws), Ok(vec![98, 50, 0, -50]));
    // a normal distribution has no such limit
    let normal = QCParams { dist_type: DistributionType::Normal, ..p };
    assert_eq!(generate_data(&normal, &draws), Ok(vec![98, 50, 3, 4]));
    // and the real draw agrees with the plan
    let mut rng = StdRng::seed_from_u64(3);
    assert_eq!(draw(DrawPlan::Fallback { mean: 0 }, &mut rng), DrawOutcome::Degenerate);
}

#[test]
fn unconstrained_run_takes_every_candidate() {
    let p = params(100, 20_000, 0, 1, 3);
    let mut run = Generator::start(p, SamplingMode::Unconstrained).unwrap();
    assert!(!run.is_finished());
    assert_eq!(
        run.next_draw(),
        Some(DrawPlan::Sample { dist: DistributionType::Normal, mean: 100, std_dev: 2 })
    );
    assert_eq!(run.offer(DrawOutcome::Sample(500)), Ok(Verdict::Accepted));
    assert_eq!(
        run.next_draw(),
        Some(DrawPlan::Sample { dist: DistributionType::Normal, mean: 101, std_dev: 2 })
    );
    assert_eq!(run.offer(DrawOutcome::Degenerate), Ok(Verdict::Accepted));
    assert_eq!(run.offer(DrawOutcome::Sample(-7)), Ok(Verdict::Accepted));
    assert!(run.is_finished());
    assert_eq!(run.next_draw(), None);
    assert_eq!(run.offer(DrawOutcome::Sample(1)), Ok(Verdict::Idle));
    assert_eq!(run.series(), &vec![500, 101, -7]);
    assert!(!run.is_exhausted());
    assert_eq!(run.into_series(), vec![500, 101, -7]);
}

#[test]
fn run_and_batch_agree() {
    let p = params(10_000, 20_000, 30, -4, 6);
    let draws = [
        DrawOutcome::Sample(10_100),
        DrawOutcome::Degenerate,
        DrawOutcome::Sample(9_000),
        DrawOutcome::Sample(10_000),
        DrawOutcome::Degenerate,
        DrawOutcome::Sample(12_345),
    ];
    let mut run = Generator::start(p, SamplingMode::Unconstrained).unwrap();
    for d in draws {
        assert_eq!(run.offer(d), Ok(Verdict::Accepted));
    }
    assert_eq!(generate_data(&p, &draws).unwrap(), run.into_series());
}

#[test]
fn constrained_run_refuses_and_redraws() {
    let p = params(10_000, 20_000, 0, 0, 3);
    let mut run = Generator::start(p, SamplingMode::Constrained { max_retries: 2 }).unwrap();
    // outside the band of two standard deviations (200 each)
    assert_eq!(run.offer(DrawOutcome::Sample(10_401)), Ok(Verdict::Rejected));
    assert_eq!(run.offer(DrawOutcome::Sample(9_599)), Ok(Verdict::Rejected));
    assert!(run.series().is_empty());
    // the edge of the band is inside
    assert_eq!(run.offer(DrawOutcome::Sample(10_400)), Ok(Verdict::Accepted));
    // acceptance restores the budget: two more refusals are borne
    assert_eq!(run.offer(DrawOutcome::Sample(9_599)), Ok(Verdict::Rejected));
    assert_eq!(run.offer(DrawOutcome::Sample(9_000)), Ok(Verdict::Rejected));
    // inside the band, but more than four standard deviations from 10_400
    assert_eq!(westgard_check(&[10_400], 9_599, 10_000, 200), Ok(false));
    assert_eq!(run.offer(DrawOutcome::Sample(9_600)), Ok(Verdict::Accepted));
    assert_eq!(run.offer(DrawOutcome::Sample(10_000)), Ok(Verdict::Accepted));
    assert!(run.is_finished());
    assert_eq!(run.into_series(), vec![10_400, 9_600, 10_000]);
}

#[test]
fn constrained_run_reports_the_liveness_risk() {
    let p = params(10_000, 20_000, 0, 0, 2);
    let mut run = Generator::start(p, SamplingMode::Constrained { max_retries: 1 }).unwrap();
    assert_eq!(run.offer(DrawOutcome::Sample(20_000)), Ok(Verdict::Rejected));
    assert_eq!(run.offer(DrawOutcome::Sample(20_000)), Err(GenerateError::LivenessRisk));
    assert!(run.is_exhausted());
    assert!(!run.is_finished());
    assert_eq!(run.next_draw(), None);
    // nothing is taken any more, not even a good candidate
    assert_eq!(run.offer(DrawOutcome::Sample(10_000)), Err(GenerateError::LivenessRisk));
    assert!(run.series().is_empty());

    // with no retries the first refusal ends the run
    let mut strict = Generator::start(p, SamplingMode::Constrained { max_retries: 0 }).unwrap();
    assert_eq!(strict.offer(DrawOutcome::Sample(10_000)), Ok(Verdict::Accepted));
    assert_eq!(strict.offer(DrawOutcome::Sample(0)), Err(GenerateError::LivenessRisk));
    assert_eq!(strict.into_series(), vec![10_000]);
    assert!(!GenerateError::LivenessRisk.message().is_empty());
}

#[test]
fn gated_series_may_still_fail_the_audit() {
    // four points more than one standard deviation above the target, but
    // never five of them more than one percent above it
    let p = params(100_000, 5_000, 0, 0, 4);
    let mut run = Generator::start(p, SamplingMode::Constrained { max_retries: 0 }).unwrap();
    for v in [100_600, 100_700, 100_600, 100_700] {
        assert_eq!(run.offer(DrawOutcome::Sample(v)), Ok(Verdict::Accepted));
    }
    let report = apply_rules(run.series(), 100_000, 500, &RuleConfig::default()).unwrap();
    let violated: Vec<&str> =
        report.iter().filter(|r| r.violated).map(|r| r.rule_name.as_str()).collect();
    assert_eq!(violated, vec!["3-1s", "4-1s"]);

    // the tenth point on one side is refused, so the audit finds no such run
    let p = params(10_000, 20_000, 0, 0, 10);
    let mut run = Generator::start(p, SamplingMode::Constrained { max_retries: 1 }).unwrap();
    for v in [10_050, 10_090, 10_010, 10_020, 10_010, 10_030, 10_010, 10_020, 10_010] {
        assert_eq!(run.offer(DrawOutcome::Sample(v)), Ok(Verdict::Accepted));
    }
    assert_eq!(run.offer(DrawOutcome::Sample(10_030)), Ok(Verdict::Rejected));
    assert_eq!(run.offer(DrawOutcome::Sample(9_990)), Ok(Verdict::Accepted));
    let report = apply_rules(run.series(), 10_000, 200, &RuleConfig::default()).unwrap();
    assert!(report.iter().all(|r| !r.violated));
}

#[test]
fn constrained_run_with_a_mean_outside_the_band_cannot_proceed() {
    // the bias puts every fallback candidate outside the band
    let p = QCParams {
        target: 10_000,
        cv: 20_000,
        bias: 1_000,
        drift_rate: 0,
        num_days: 2,
        dist_type: DistributionType::Normal,
    };
    let mut run = Generator::start(p, SamplingMode::Constrained { max_retries: 3 }).unwrap();
    for _ in 0..3 {
        assert_eq!(run.offer(DrawOutcome::Degenerate), Ok(Verdict::Rejected));
    }
    assert_eq!(run.offer(DrawOutcome::Degenerate), Err(GenerateError::LivenessRisk));
}

#[test]
fn constrained_run_with_real_draws_stays_gated() {
    let p = QCParams {
        target: to_units(100.0),
        cv: 20_000,
        bias: 0,
        drift_rate: 0,
        num_days: 300,
        dist_type: DistributionType::Normal,
    };
    let std_dev = validate(&p).unwrap();
    let mut rng = StdRng::seed_from_u64(2024);
    let mut run = Generator::start(p, SamplingMode::Constrained { max_retries: 10_000 }).unwrap();
    let mut refused = 0;
    while let Some(plan) = run.next_draw() {
        match run.offer(draw(plan, &mut rng)) {
            Ok(Verdict::Accepted) => {}
            Ok(Verdict::Rejected) => refused += 1,
            other => panic!("unexpected answer {:?}", other),
        }
    }
    assert!(run.is_finished());
    assert!(refused > 0);
    let series = run.into_series();
    assert_eq!(series.len(), 300);
    for i in 0..series.len() {
        assert!((series[i] - p.target).abs() <= 2 * std_dev);
        assert_eq!(westgard_check(&series[..i], series[i], p.target, std_dev), Ok(true));
    }
    // what the gatekeeper let through never trips these rules of the audit
    let report = apply_rules(&series, p.target, std_dev, &RuleConfig::default()).unwrap();
    for line in &report {
        if ["1-3s", "2-2s", "R-4s", "10x"].contains(&line.rule_name.as_str()) {
            assert!(!line.violated, "{} violated", line.rule_name);
        }
    }
}
