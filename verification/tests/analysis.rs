use polar_ks::analysis::{analyze, keep_first_quadrant, Report, RunOptions};
use polar_ks::angle::MeanAngle;
use polar_ks::config::{AxisDraw, GeneratorConfig, SeedMode};
use polar_ks::error::{AnalysisError, ConfigIssue};
use polar_ks::ks::KsResult;
use polar_ks::normalized::NormalizationBase;
use polar_ks::sampler::{Measurement, Point};
use rand::rngs::StdRng;
use rand::{Rng, SeedableRng};
use rand_distr::{Distribution, Pareto, Zipf};

const UNIT: i64 = 1 << 20;
const ANGLE_UNIT: f64 = (1u64 << 40) as f64;

fn measured(x: i64, y: i64, angle: i64) -> Measurement {
    Measurement { x: Some(x), y: Some(y), angle: Some(angle) }
}

fn to_units(value: f64, unit: f64) -> Option<i64> {
    let scaled = (value * unit).round();
    if scaled.is_finite() && scaled.abs() < 9.0e18 {
        Some(scaled as i64)
    } else {
        None
    }
}

fn draw_uniform(config: &GeneratorConfig) -> Vec<Measurement> {
    let plan = config.plan().unwrap();
    let seed = match plan.seed {
        SeedMode::Fixed(seed) => seed,
        SeedMode::Entropy => panic!("the scenario uses a fixed seed"),
    };
    let (low, high) = match plan.x {
        AxisDraw::Uniform { low, high } => (low as f64 / UNIT as f64, high as f64 / UNIT as f64),
        _ => panic!("the scenario draws uniformly"),
    };
    let mut rng = StdRng::seed_from_u64(seed);
    let mut out = Vec::new();
    for _ in 0..config.count {
        let x: f64 = rng.gen_range(low..high);
        let y: f64 = rng.gen_range(low..high);
        let theta = y.atan2(x);
        out.push(Measurement {
            x: to_units(x, UNIT as f64),
            y: to_units(y, UNIT as f64),
            angle: to_units(theta, ANGLE_UNIT),
        });
    }
    out
}

fn by_domain_max(x_max: i64) -> RunOptions {
    RunOptions { normalization: NormalizationBase::DomainMax(x_max), first_quadrant_only: false }
}

#[test]
fn fixed_seed_gives_the_same_four_points_twice() {
    let config = GeneratorConfig::uniform(SeedMode::Fixed(5489), 4, UNIT, 4 * UNIT);
    let first = draw_uniform(&config);
    let second = draw_uniform(&config);
    assert_eq!(first.len(), 4);
    assert_eq!(first, second);
    for m in &first {
        let x = m.x.unwrap();
        let y = m.y.unwrap();
        assert!(UNIT <= x && x <= 4 * UNIT);
        assert!(UNIT <= y && y <= 4 * UNIT);
    }
    let options = by_domain_max(config.x_max);
    let one = analyze(&config, &options, &first).unwrap();
    let two = analyze(&config, &options, &second).unwrap();
    assert_eq!(one, two);
    assert_eq!(one.points.len(), 4);
    let points: Vec<Point> =
        first.iter().map(|m| Point { x: m.x.unwrap(), y: m.y.unwrap() }).collect();
    assert_eq!(one.points, points);
    // Both coordinates are positive, so every angle lies in the first quadrant.
    let quarter = (std::f64::consts::FRAC_PI_2 * ANGLE_UNIT).ceil() as i64;
    assert!(one.mean_angle.lies_within(0, quarter));
    assert!(one.ks.numerator <= one.ks.denominator);
}

#[test]
fn other_seed_gives_other_points() {
    let a = GeneratorConfig::uniform(SeedMode::Fixed(5489), 4, UNIT, 4 * UNIT);
    let b = GeneratorConfig::uniform(SeedMode::Fixed(5490), 4, UNIT, 4 * UNIT);
    assert_ne!(draw_uniform(&a), draw_uniform(&b));
}

#[test]
fn analysis_of_a_small_run() {
    let config = GeneratorConfig::uniform(SeedMode::Fixed(5489), 5, 0, 10);
    let m = vec![
        measured(9, 1, 100),
        measured(3, 2, 200),
        measured(2, 3, 300),
        measured(8, 4, 400),
        measured(3, 5, 500),
    ];
    let report = analyze(&config, &by_domain_max(10), &m).unwrap();
    assert_eq!(
        report,
        Report {
            points: vec![
                Point { x: 9, y: 1 },
                Point { x: 3, y: 2 },
                Point { x: 2, y: 3 },
                Point { x: 8, y: 4 },
                Point { x: 3, y: 5 },
            ],
            mean_angle: MeanAngle { sum: 1500, count: 5 },
            ks: KsResult { numerator: 15, denominator: 50 },
        }
    );
}

#[test]
fn analysis_by_observed_maximum() {
    let config = GeneratorConfig::zipf_pareto(SeedMode::Fixed(5489), 3, 3);
    let m = vec![measured(50, 1, 7), measured(1, 1, 8), measured(2, 4, 9)];
    let by_count = analyze(&config, &by_domain_max(config.x_max), &m).unwrap();
    assert_eq!(by_count.ks, KsResult { numerator: 144, denominator: 9 });
    let options =
        RunOptions { normalization: NormalizationBase::ObservedMax, first_quadrant_only: false };
    let by_max = analyze(&config, &options, &m).unwrap();
    assert_eq!(by_max.ks, KsResult { numerator: 94, denominator: 150 });
    assert_eq!(by_max.mean_angle, MeanAngle { sum: 24, count: 3 });
    assert_eq!(by_max.points, by_count.points);
}

#[test]
fn analysis_failures_in_their_order() {
    let m = vec![measured(1, 1, 1), Measurement { x: Some(2), y: Some(2), angle: None }];
    let zero = GeneratorConfig::uniform(SeedMode::Fixed(1), 0, 0, 10);
    assert_eq!(
        analyze(&zero, &by_domain_max(0), &m),
        Err(AnalysisError::Configuration(ConfigIssue::ZeroCount))
    );
    let three = GeneratorConfig::uniform(SeedMode::Fixed(1), 3, 0, 10);
    assert_eq!(
        analyze(&three, &by_domain_max(0), &m),
        Err(AnalysisError::Configuration(ConfigIssue::CountMismatch))
    );
    let two = GeneratorConfig::uniform(SeedMode::Fixed(1), 2, 0, 10);
    assert_eq!(
        analyze(&two, &by_domain_max(0), &m),
        Err(AnalysisError::NumericDegeneracy { index: 1 })
    );
    let finite = vec![measured(1, 1, 1), measured(2, 2, 2)];
    assert_eq!(
        analyze(&two, &by_domain_max(0), &finite),
        Err(AnalysisError::Configuration(ConfigIssue::DomainMaxNotPositive))
    );
    assert!(analyze(&two, &by_domain_max(10), &finite).is_ok());
}

#[test]
fn first_quadrant_filter_keeps_angles_of_points_without_negative_coordinate() {
    let points = vec![
        Point { x: 1, y: 1 },
        Point { x: -1, y: 1 },
        Point { x: 0, y: 0 },
        Point { x: 1, y: -1 },
        Point { x: 5, y: 0 },
    ];
    assert_eq!(keep_first_quadrant(&points, &vec![10, 20, 30, 40, 50]), vec![10, 30, 50]);
    assert_eq!(keep_first_quadrant(&points, &vec![10, 20, 30]), vec![10, 30]);
    assert_eq!(keep_first_quadrant(&Vec::new(), &vec![10]), Vec::<i64>::new());
}

#[test]
fn first_quadrant_option_restricts_the_mean_only() {
    let config = GeneratorConfig::uniform(SeedMode::Fixed(1), 3, -10, 10);
    let m = vec![measured(5, 5, 45), measured(-5, 5, 135), measured(10, 0, 0)];
    let all = analyze(&config, &by_domain_max(10), &m).unwrap();
    assert_eq!(all.mean_angle, MeanAngle { sum: 180, count: 3 });
    let options =
        RunOptions { normalization: NormalizationBase::DomainMax(10), first_quadrant_only: true };
    let filtered = analyze(&config, &options, &m).unwrap();
    assert_eq!(filtered.mean_angle, MeanAngle { sum: 45, count: 2 });
    assert_eq!(filtered.points, all.points);
    assert_eq!(filtered.ks, all.ks);
    assert!(filtered.mean_angle.lies_within(0, 90));
    assert!(!all.mean_angle.lies_within(0, 45));
}

#[test]
fn first_quadrant_option_with_no_point_left_is_empty_input() {
    let config = GeneratorConfig::uniform(SeedMode::Fixed(1), 2, -10, 10);
    let m = vec![measured(-5, 5, 135), measured(-1, -1, -135)];
    let options =
        RunOptions { normalization: NormalizationBase::DomainMax(10), first_quadrant_only: true };
    assert_eq!(analyze(&config, &options, &m), Err(AnalysisError::EmptyInput));
}

fn draw_heavy_tailed(config: &GeneratorConfig) -> Vec<Measurement> {
    let plan = config.plan().unwrap();
    let seed = match plan.seed {
        SeedMode::Fixed(seed) => seed,
        SeedMode::Entropy => panic!("the scenario uses a fixed seed"),
    };
    let mut generators: Vec<StdRng> =
        (0..plan.generators).map(|_| StdRng::seed_from_u64(seed)).collect();
    let zipf = match plan.x {
        AxisDraw::Zipf { domain, exponent } => {
            Zipf::new(domain, exponent.numerator as f64 / exponent.denominator as f64).unwrap()
        }
        _ => panic!("the first coordinate is Zipf distributed"),
    };
    let pareto = match plan.y {
        AxisDraw::Pareto { scale, shape } => Pareto::new(
            scale.numerator as f64 / scale.denominator as f64,
            shape.numerator as f64 / shape.denominator as f64,
        )
        .unwrap(),
        _ => panic!("the second coordinate is Pareto distributed"),
    };
    let mut out = Vec::new();
    for _ in 0..config.count {
        let x: f64 = zipf.sample(&mut generators[plan.x_generator]);
        let y: f64 = pareto.sample(&mut generators[plan.y_generator]);
        out.push(Measurement {
            x: to_units(x, UNIT as f64),
            y: to_units(y, UNIT as f64),
            angle: to_units(y.atan2(x), ANGLE_UNIT),
        });
    }
    out
}

#[test]
fn heavy_tailed_run_with_fixed_seed_repeats() {
    let count: usize = 200;
    let config = GeneratorConfig::zipf_pareto(SeedMode::Fixed(5489), count, count as i64 * UNIT);
    let first = draw_heavy_tailed(&config);
    let second = draw_heavy_tailed(&config);
    assert_eq!(first, second);
    for m in &first {
        // Ranks are whole numbers between one and the size of the domain,
        // and no Pareto draw lies under the scale.
        let x = m.x.unwrap();
        assert_eq!(x % UNIT, 0);
        assert!(1 <= x / UNIT && x / UNIT <= 10000);
        assert!(m.y.unwrap() >= UNIT);
    }
    let by_count = analyze(&config, &by_domain_max(config.x_max), &first).unwrap();
    assert_eq!(by_count, analyze(&config, &by_domain_max(config.x_max), &second).unwrap());
    assert_eq!(by_count.ks.denominator, (count as u128) * (config.x_max as u128));
    let options =
        RunOptions { normalization: NormalizationBase::ObservedMax, first_quadrant_only: true };
    let by_max = analyze(&config, &options, &first).unwrap();
    assert!(by_max.ks.numerator <= by_max.ks.denominator);
    // Every point lies in the first quadrant, so the filter keeps them all.
    assert_eq!(by_max.mean_angle, by_count.mean_angle);
    let quarter = (std::f64::consts::FRAC_PI_2 * ANGLE_UNIT).ceil() as i64;
    assert!(by_max.mean_angle.lies_within(0, quarter));
}
