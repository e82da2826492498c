use polar_ks::config::{
    AxisDraw, DrawPlan, GeneratorConfig, GeneratorKind, Ratio, SeedMode, DEFAULT_SEED,
    DEFAULT_ZIPF_DOMAIN,
};
use polar_ks::error::{AnalysisError, ConfigIssue};

fn refused(issue: ConfigIssue) -> Result<(), AnalysisError> {
    Err(AnalysisError::Configuration(issue))
}

#[test]
fn default_constants() {
    assert_eq!(DEFAULT_SEED, 5489);
    assert_eq!(DEFAULT_ZIPF_DOMAIN, 10000);
    let c = GeneratorConfig::zipf_pareto(SeedMode::Fixed(DEFAULT_SEED), 7, 7);
    assert_eq!(c.kind, GeneratorKind::ZipfPareto);
    assert_eq!(c.count, 7);
    assert_eq!(c.x_max, 7);
    assert_eq!(c.zipf_domain, 10000);
    assert_eq!(c.zipf_exponent, Ratio { numerator: 11, denominator: 10 });
    assert_eq!(c.pareto_scale, Ratio { numerator: 1, denominator: 1 });
    assert_eq!(c.pareto_shape, Ratio { numerator: 3, denominator: 1 });
    assert_eq!(c.validate(), Ok(()));
}

#[test]
fn uniform_configuration_is_valid() {
    let c = GeneratorConfig::uniform(SeedMode::Entropy, 4, 1, 4);
    assert_eq!(c.kind, GeneratorKind::Uniform);
    assert_eq!(c.seed, SeedMode::Entropy);
    assert_eq!((c.count, c.x_min, c.x_max), (4, 1, 4));
    assert_eq!(c.validate(), Ok(()));
}

#[test]
fn zero_count_is_refused_first() {
    let c = GeneratorConfig::uniform(SeedMode::Fixed(1), 0, 5, 5);
    assert_eq!(c.validate(), refused(ConfigIssue::ZeroCount));
    let c = GeneratorConfig::zipf_pareto(SeedMode::Fixed(1), 0, 0);
    assert_eq!(c.validate(), refused(ConfigIssue::ZeroCount));
}

#[test]
fn empty_uniform_range_is_refused() {
    let c = GeneratorConfig::uniform(SeedMode::Fixed(1), 3, 5, 5);
    assert_eq!(c.validate(), refused(ConfigIssue::EmptyRange));
    let c = GeneratorConfig::uniform(SeedMode::Fixed(1), 3, 5, 4);
    assert_eq!(c.validate(), refused(ConfigIssue::EmptyRange));
    let c = GeneratorConfig::uniform(SeedMode::Fixed(1), 3, -5, -4);
    assert_eq!(c.validate(), Ok(()));
}

#[test]
fn heavy_tailed_range_is_not_looked_at() {
    let c = GeneratorConfig::zipf_pareto(SeedMode::Fixed(1), 3, -8);
    assert_eq!(c.validate(), Ok(()));
}

#[test]
fn uniform_source_ignores_heavy_tailed_parameters() {
    let mut c = GeneratorConfig::uniform(SeedMode::Fixed(1), 3, 0, 1);
    c.zipf_domain = 0;
    c.pareto_scale = Ratio { numerator: -1, denominator: 0 };
    assert_eq!(c.validate(), Ok(()));
}

#[test]
fn zipf_parameters_are_checked() {
    let base = GeneratorConfig::zipf_pareto(SeedMode::Fixed(1), 3, 3);
    let mut c = base;
    c.zipf_exponent = Ratio { numerator: -1, denominator: 10 };
    assert_eq!(c.validate(), refused(ConfigIssue::ZipfExponentInvalid));
    c.zipf_exponent = Ratio { numerator: 1, denominator: 0 };
    assert_eq!(c.validate(), refused(ConfigIssue::ZipfExponentInvalid));
    c.zipf_exponent = Ratio { numerator: 0, denominator: 1 };
    assert_eq!(c.validate(), Ok(()));
    c.zipf_domain = 0;
    assert_eq!(c.validate(), refused(ConfigIssue::ZipfDomainEmpty));
    c.zipf_exponent = Ratio { numerator: -3, denominator: 1 };
    assert_eq!(c.validate(), refused(ConfigIssue::ZipfExponentInvalid));
    c = base;
    c.zipf_domain = 1;
    assert_eq!(c.validate(), Ok(()));
}

#[test]
fn pareto_parameters_are_checked() {
    let base = GeneratorConfig::zipf_pareto(SeedMode::Fixed(1), 3, 3);
    let mut c = base;
    c.pareto_scale = Ratio { numerator: 0, denominator: 1 };
    assert_eq!(c.validate(), refused(ConfigIssue::ParetoScaleNotPositive));
    c.pareto_shape = Ratio { numerator: 0, denominator: 1 };
    assert_eq!(c.validate(), refused(ConfigIssue::ParetoScaleNotPositive));
    c.pareto_scale = Ratio { numerator: 1, denominator: 2 };
    assert_eq!(c.validate(), refused(ConfigIssue::ParetoShapeNotPositive));
    c.pareto_shape = Ratio { numerator: -3, denominator: 1 };
    assert_eq!(c.validate(), refused(ConfigIssue::ParetoShapeNotPositive));
    c.pareto_shape = Ratio { numerator: 3, denominator: 0 };
    assert_eq!(c.validate(), refused(ConfigIssue::ParetoShapeNotPositive));
    c.pareto_shape = Ratio { numerator: 1, denominator: 1000 };
    assert_eq!(c.validate(), Ok(()));
}

#[test]
fn ratio_signs() {
    assert!(Ratio { numerator: 1, denominator: 1 }.is_positive());
    assert!(!Ratio { numerator: 0, denominator: 1 }.is_positive());
    assert!(!Ratio { numerator: 1, denominator: 0 }.is_positive());
    assert!(Ratio { numerator: 0, denominator: 1 }.is_non_negative());
    assert!(!Ratio { numerator: -1, denominator: 1 }.is_non_negative());
    assert!(!Ratio { numerator: 0, denominator: 0 }.is_non_negative());
}

#[test]
fn uniform_plan_draws_both_coordinates_from_one_generator() {
    let c = GeneratorConfig::uniform(SeedMode::Fixed(5489), 4, 1, 4);
    assert_eq!(
        c.plan(),
        Ok(DrawPlan {
            seed: SeedMode::Fixed(5489),
            generators: 1,
            x_generator: 0,
            y_generator: 0,
            x: AxisDraw::Uniform { low: 1, high: 4 },
            y: AxisDraw::Uniform { low: 1, high: 4 },
        })
    );
}

#[test]
fn heavy_tailed_plan_has_a_generator_for_each_coordinate() {
    let c = GeneratorConfig::zipf_pareto(SeedMode::Entropy, 9, 9);
    let plan = c.plan().unwrap();
    assert_eq!(plan.seed, SeedMode::Entropy);
    assert_eq!(plan.generators, 2);
    assert_ne!(plan.x_generator, plan.y_generator);
    assert!(plan.x_generator < plan.generators && plan.y_generator < plan.generators);
    assert_eq!(
        plan.x,
        AxisDraw::Zipf { domain: 10000, exponent: Ratio { numerator: 11, denominator: 10 } }
    );
    assert_eq!(
        plan.y,
        AxisDraw::Pareto {
            scale: Ratio { numerator: 1, denominator: 1 },
            shape: Ratio { numerator: 3, denominator: 1 },
        }
    );
}

#[test]
fn no_plan_for_an_invalid_configuration() {
    let c = GeneratorConfig::uniform(SeedMode::Fixed(5489), 0, 1, 4);
    assert_eq!(c.plan(), Err(AnalysisError::Configuration(ConfigIssue::ZeroCount)));
    let mut c = GeneratorConfig::zipf_pareto(SeedMode::Fixed(5489), 2, 2);
    c.pareto_shape = Ratio { numerator: 0, denominator: 1 };
    assert_eq!(c.plan(), Err(AnalysisError::Configuration(ConfigIssue::ParetoShapeNotPositive)));
}
