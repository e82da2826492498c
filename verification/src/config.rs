use vstd::prelude::*;
use crate::error::{AnalysisError, ConfigIssue};

verus! {

/// The seed that a run uses where reproducible output is asked for and no
/// other seed is given.
pub const DEFAULT_SEED: u64 = 5489;

/// The number of elements of the Zipf domain, unless configured otherwise.
pub const DEFAULT_ZIPF_DOMAIN: u64 = 10000;

/// Which source the coordinates are drawn from.
#[derive(Clone, Copy, Debug, PartialEq, Eq, Structural)]
pub enum GeneratorKind {
    /// Both coordinates uniform on `[x_min, x_max)`.
    Uniform,
    /// The first coordinate Zipf distributed, the second Pareto distributed.
    ZipfPareto,
}

/// How a generator is seeded.
#[derive(Clone, Copy, Debug, PartialEq, Eq, Structural)]
pub enum SeedMode {
    /// From the given constant: every run draws the same stream.
    Fixed(u64),
    /// From the machine's entropy source: every run draws another stream.
    Entropy,
}

/// A parameter of a distribution, the rational `numerator / denominator`. A
/// denominator of zero stands for no number at all.
#[derive(Clone, Copy, Debug, PartialEq, Eq, Structural)]
pub struct Ratio {
    pub numerator: i64,
    pub denominator: u64,
}

impl Ratio {
    /// The ratio is a number greater than zero.
    pub open spec fn positive(self) -> bool {
        self.denominator > 0 && self.numerator > 0
    }

    /// The ratio is a number that is zero or greater.
    pub open spec fn non_negative(self) -> bool {
        self.denominator > 0 && self.numerator >= 0
    }

    pub fn is_positive(&self) -> (r: bool)
        ensures
            r == self.positive(),
    {
        self.denominator > 0 && self.numerator > 0
    }

    pub fn is_non_negative(&self) -> (r: bool)
        ensures
            r == self.non_negative(),
    {
        self.denominator > 0 && self.numerator >= 0
    }
}

/// Everything that decides what a run draws. The bounds `x_min` and `x_max`
/// are measured in the unit of the coordinates.
#[derive(Clone, Copy, Debug, PartialEq, Eq, Structural)]
pub struct GeneratorConfig {
    pub kind: GeneratorKind,
    pub seed: SeedMode,
    /// The number of points to draw.
    pub count: usize,
    /// The lower bound of the uniform range, included.
    pub x_min: i64,
    /// The upper bound of the uniform range, excluded.
    pub x_max: i64,
    pub zipf_domain: u64,
    pub zipf_exponent: Ratio,
    pub pareto_scale: Ratio,
    pub pareto_shape: Ratio,
}

/// What one coordinate is drawn from.
#[derive(Clone, Copy, Debug, PartialEq, Eq, Structural)]
pub enum AxisDraw {
    /// Uniform on `[low, high)`.
    Uniform { low: i64, high: i64 },
    /// A rank between one and `domain`, the rank `k` weighted by `k` to the
    /// power of minus `exponent`.
    Zipf { domain: u64, exponent: Ratio },
    /// Pareto distributed from `scale` upwards.
    Pareto { scale: Ratio, shape: Ratio },
}

/// How the two coordinates of every point are drawn: from which generator,
/// and from what distribution. Generators are numbered from zero and each is
/// seeded on its own as `seed` says.
#[derive(Clone, Copy, Debug, PartialEq, Eq, Structural)]
pub struct DrawPlan {
    pub seed: SeedMode,
    pub generators: usize,
    pub x_generator: usize,
    pub y_generator: usize,
    pub x: AxisDraw,
    pub y: AxisDraw,
}

impl GeneratorConfig {
    /// The first thing wrong with the configuration, if anything is.
    ///
    /// A count of zero comes first. Then, of the uniform source, a range that
    /// holds no value; of the other, the Zipf exponent, the Zipf domain, the
    /// Pareto scale and the Pareto shape, in this order. Parameters of the
    /// source that is not selected are not looked at.
    pub open spec fn issue(self) -> Option<ConfigIssue> {
        if self.count == 0 {
            Some(ConfigIssue::ZeroCount)
        } else {
            match self.kind {
                GeneratorKind::Uniform => if self.x_max <= self.x_min {
                    Some(ConfigIssue::EmptyRange)
                } else {
                    None
                },
                GeneratorKind::ZipfPareto => if !self.zipf_exponent.non_negative() {
                    Some(ConfigIssue::ZipfExponentInvalid)
                } else if self.zipf_domain < 1 {
                    Some(ConfigIssue::ZipfDomainEmpty)
                } else if !self.pareto_scale.positive() {
                    Some(ConfigIssue::ParetoScaleNotPositive)
                } else if !self.pareto_shape.positive() {
                    Some(ConfigIssue::ParetoShapeNotPositive)
                } else {
                    None
                },
            }
        }
    }

    /// Nothing is wrong with the configuration.
    pub open spec fn valid(self) -> bool {
        self.issue() is None
    }

    /// The plan of a valid configuration.
    ///
    /// The uniform source draws both coordinates from one generator. The
    /// other source has one generator for each coordinate, so that the two
    /// streams do not share their draws.
    pub open spec fn draw_plan(self) -> DrawPlan {
        match self.kind {
            GeneratorKind::Uniform => DrawPlan {
                seed: self.seed,
                generators: 1,
                x_generator: 0,
                y_generator: 0,
                x: AxisDraw::Uniform { low: self.x_min, high: self.x_max },
                y: AxisDraw::Uniform { low: self.x_min, high: self.x_max },
            },
            GeneratorKind::ZipfPareto => DrawPlan {
                seed: self.seed,
                generators: 2,
                x_generator: 0,
                y_generator: 1,
                x: AxisDraw::Zipf { domain: self.zipf_domain, exponent: self.zipf_exponent },
                y: AxisDraw::Pareto { scale: self.pareto_scale, shape: self.pareto_shape },
            },
        }
    }

    /// A uniform source on `[x_min, x_max)`, the other parameters at their
    /// defaults.
    pub fn uniform(seed: SeedMode, count: usize, x_min: i64, x_max: i64) -> (c: Self)
        ensures
            c == (GeneratorConfig {
                kind: GeneratorKind::Uniform,
                seed,
                count,
                x_min,
                x_max,
                zipf_domain: DEFAULT_ZIPF_DOMAIN,
                zipf_exponent: Ratio { numerator: 11, denominator: 10 },
                pareto_scale: Ratio { numerator: 1, denominator: 1 },
                pareto_shape: Ratio { numerator: 3, denominator: 1 },
            }),
    {
        GeneratorConfig {
            kind: GeneratorKind::Uniform,
            seed,
            count,
            x_min,
            x_max,
            zipf_domain: DEFAULT_ZIPF_DOMAIN,
            zipf_exponent: Ratio { numerator: 11, denominator: 10 },
            pareto_scale: Ratio { numerator: 1, denominator: 1 },
            pareto_shape: Ratio { numerator: 3, denominator: 1 },
        }
    }

    /// The heavy-tailed source at its default parameters: a Zipf domain of
    /// ten thousand ranks with exponent 11/10, and a Pareto distribution of
    /// scale one and shape three. `x_max` is the maximum by which the first
    /// coordinate is later normalized.
    pub fn zipf_pareto(seed: SeedMode, count: usize, x_max: i64) -> (c: Self)
        ensures
            c == (GeneratorConfig {
                kind: GeneratorKind::ZipfPareto,
                seed,
                count,
                x_min: 0,
                x_max,
                zipf_domain: DEFAULT_ZIPF_DOMAIN,
                zipf_exponent: Ratio { numerator: 11, denominator: 10 },
                pareto_scale: Ratio { numerator: 1, denominator: 1 },
                pareto_shape: Ratio { numerator: 3, denominator: 1 },
            }),
    {
        GeneratorConfig {
            kind: GeneratorKind::ZipfPareto,
            seed,
            count,
            x_min: 0,
            x_max,
            zipf_domain: DEFAULT_ZIPF_DOMAIN,
            zipf_exponent: Ratio { numerator: 11, denominator: 10 },
            pareto_scale: Ratio { numerator: 1, denominator: 1 },
            pareto_shape: Ratio { numerator: 3, denominator: 1 },
        }
    }

    /// Checks the configuration before anything is drawn.
    pub fn validate(&self) -> (r: Result<(), AnalysisError>)
        ensures
            r == match self.issue() {
                Some(issue) => Err::<(), AnalysisError>(AnalysisError::Configuration(issue)),
                None => Ok::<(), AnalysisError>(()),
            },
            r is Ok <==> self.valid(),
    {
        if self.count == 0 {
            return Err(AnalysisError::Configuration(ConfigIssue::ZeroCount));
        }
        match self.kind {
            GeneratorKind::Uniform => {
                if self.x_max <= self.x_min {
                    return Err(AnalysisError::Configuration(ConfigIssue::EmptyRange));
                }
            },
            GeneratorKind::ZipfPareto => {
                if !self.zipf_exponent.is_non_negative() {
                    return Err(AnalysisError::Configuration(ConfigIssue::ZipfExponentInvalid));
                }
                if self.zipf_domain < 1 {
                    return Err(AnalysisError::Configuration(ConfigIssue::ZipfDomainEmpty));
                }
                if !self.pareto_scale.is_positive() {
                    return Err(AnalysisError::Configuration(ConfigIssue::ParetoScaleNotPositive));
                }
                if !self.pareto_shape.is_positive() {
                    return Err(AnalysisError::Configuration(ConfigIssue::ParetoShapeNotPositive));
                }
            },
        }
        Ok(())
    }

    /// Says how the coordinates are to be drawn, or what is wrong with the
    /// configuration.
    pub fn plan(&self) -> (r: Result<DrawPlan, AnalysisError>)
        ensures
            r == match self.issue() {
                Some(issue) => Err::<DrawPlan, AnalysisError>(AnalysisError::Configuration(issue)),
                None => Ok::<DrawPlan, AnalysisError>(self.draw_plan()),
            },
    {
        match self.validate() {
            Err(e) => Err(e),
            Ok(_) => Ok(
                match self.kind {
                    GeneratorKind::Uniform => DrawPlan {
                        seed: self.seed,
                        generators: 1,
                        x_generator: 0,
                        y_generator: 0,
                        x: AxisDraw::Uniform { low: self.x_min, high: self.x_max },
                        y: AxisDraw::Uniform { low: self.x_min, high: self.x_max },
                    },
                    GeneratorKind::ZipfPareto => DrawPlan {
                        seed: self.seed,
                        generators: 2,
                        x_generator: 0,
                        y_generator: 1,
                        x: AxisDraw::Zipf {
                            domain: self.zipf_domain,
                            exponent: self.zipf_exponent,
                        },
                        y: AxisDraw::Pareto {
                            scale: self.pareto_scale,
                            shape: self.pareto_shape,
                        },
                    },
                },
            ),
        }
    }
}

} // verus!
