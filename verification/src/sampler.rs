use vstd::prelude::*;
use crate::config::GeneratorConfig;
use crate::error::{AnalysisError, ConfigIssue};

verus! {

/// What one sampling step measured: the two coordinates that were drawn and
/// the polar angle of the point they make. A component that is not a finite
/// number, or that its unit cannot express, is `None`.
#[derive(Clone, Copy, Debug, PartialEq, Eq, Structural)]
pub struct Measurement {
    pub x: Option<i64>,
    pub y: Option<i64>,
    pub angle: Option<i64>,
}

impl Measurement {
    /// All three components are numbers.
    pub open spec fn finite(self) -> bool {
        self.x is Some && self.y is Some && self.angle is Some
    }

    pub fn is_finite(&self) -> (r: bool)
        ensures
            r == self.finite(),
    {
        self.x.is_some() && self.y.is_some() && self.angle.is_some()
    }
}

/// A point of the plane.
#[derive(Clone, Copy, Debug, PartialEq, Eq, Structural)]
pub struct Point {
    pub x: i64,
    pub y: i64,
}

/// What a run sampled, in the order of the draws: the points, their first
/// coordinates once more as a stream of their own, and their polar angles.
#[derive(Debug, PartialEq, Eq)]
pub struct SampleSet {
    pub points: Vec<Point>,
    pub raw_x: Vec<i64>,
    pub angles: Vec<i64>,
}

/// The position of the first measurement that is not finite, or the number
/// of measurements where all are.
pub open spec fn first_non_finite(m: Seq<Measurement>) -> int
    decreases m.len(),
{
    if m.len() == 0 {
        0
    } else if !m.first().finite() {
        0
    } else {
        1 + first_non_finite(m.drop_first())
    }
}

/// The points of finite measurements.
pub open spec fn points_of(m: Seq<Measurement>) -> Seq<Point> {
    Seq::new(m.len(), |i: int| Point { x: m[i].x->0, y: m[i].y->0 })
}

/// The first coordinates of finite measurements.
pub open spec fn xs_of(m: Seq<Measurement>) -> Seq<i64> {
    Seq::new(m.len(), |i: int| m[i].x->0)
}

/// The angles of finite measurements.
pub open spec fn angles_of(m: Seq<Measurement>) -> Seq<i64> {
    Seq::new(m.len(), |i: int| m[i].angle->0)
}

/// Why the measurements cannot be taken as the sample of a run, if they
/// cannot. What is wrong with the configuration comes first, then a number of
/// measurements other than the count, then the first measurement that is not
/// finite.
pub open spec fn sample_failure(config: GeneratorConfig, m: Seq<Measurement>) -> Option<
    AnalysisError,
> {
    match config.issue() {
        Some(issue) => Some(AnalysisError::Configuration(issue)),
        None => if m.len() != config.count {
            Some(AnalysisError::Configuration(ConfigIssue::CountMismatch))
        } else if first_non_finite(m) < m.len() {
            Some(AnalysisError::NumericDegeneracy { index: first_non_finite(m) as usize })
        } else {
            None
        },
    }
}

/// What `sample` promises of its result.
pub open spec fn sample_post(
    config: GeneratorConfig,
    m: Seq<Measurement>,
    r: Result<SampleSet, AnalysisError>,
) -> bool {
    match sample_failure(config, m) {
        Some(e) => r == Err::<SampleSet, AnalysisError>(e),
        None => r matches Ok(set) && set.points@ == points_of(m) && set.raw_x@ == xs_of(m)
            && set.angles@ == angles_of(m),
    }
}

/// Records the measurements of a run as its sample: one point, one raw first
/// coordinate and one angle for each measurement, in the order given. Nothing
/// is filtered out.
pub fn sample(config: &GeneratorConfig, measurements: &Vec<Measurement>) -> (r: Result<
    SampleSet,
    AnalysisError,
>)
    ensures
        sample_post(*config, measurements@, r),
        r is Ok <==> config.valid() && measurements.len() == config.count && forall|i: int|
            0 <= i < measurements.len() ==> (#[trigger] measurements[i]).finite(),
{
    proof {
        lemma_first_non_finite(measurements@);
    }
    match config.validate() {
        Err(e) => {
            return Err(e);
        },
        Ok(_) => {},
    }
    if measurements.len() != config.count {
        return Err(AnalysisError::Configuration(ConfigIssue::CountMismatch));
    }
    let mut points: Vec<Point> = Vec::new();
    let mut raw_x: Vec<i64> = Vec::new();
    let mut angles: Vec<i64> = Vec::new();
    let mut i: usize = 0;
    while i < measurements.len()
        invariant
            i <= measurements.len(),
            config.issue() is None,
            measurements.len() == config.count,
            forall|j: int| 0 <= j < i ==> (#[trigger] measurements[j]).finite(),
            points@ == points_of(measurements@.take(i as int)),
            raw_x@ == xs_of(measurements@.take(i as int)),
            angles@ == angles_of(measurements@.take(i as int)),
        decreases measurements.len() - i,
    {
        let m = measurements[i];
        match (m.x, m.y, m.angle) {
            (Some(x), Some(y), Some(angle)) => {
                points.push(Point { x, y });
                raw_x.push(x);
                angles.push(angle);
            },
            _ => {
                proof {
                    lemma_first_non_finite_found(measurements@, i as int);
                }
                return Err(AnalysisError::NumericDegeneracy { index: i });
            },
        }
        proof {
            let before = measurements@.take(i as int);
            let after = measurements@.take(i as int + 1);
            assert(points@ =~= points_of(after));
            assert(raw_x@ =~= xs_of(after));
            assert(angles@ =~= angles_of(after));
        }
        i = i + 1;
    }
    proof {
        assert(measurements@.take(measurements.len() as int) =~= measurements@);
        lemma_first_non_finite_found(measurements@, measurements.len() as int);
    }
    Ok(SampleSet { points, raw_x, angles })
}

/// The first measurement that is not finite is where `first_non_finite` says:
/// every measurement before that position is finite, and the one at it, if
/// there is one, is not.
pub proof fn lemma_first_non_finite(m: Seq<Measurement>)
    ensures
        0 <= first_non_finite(m) <= m.len(),
        forall|j: int| 0 <= j < first_non_finite(m) ==> (#[trigger] m[j]).finite(),
        first_non_finite(m) < m.len() ==> !m[first_non_finite(m)].finite(),
    decreases m.len(),
{
    if m.len() > 0 && m.first().finite() {
        let rest = m.drop_first();
        lemma_first_non_finite(rest);
        assert forall|j: int| 0 <= j < first_non_finite(m) implies (#[trigger] m[j]).finite() by {
            if j > 0 {
                assert(rest[j - 1] == m[j]);
            }
        }
        if first_non_finite(m) < m.len() {
            assert(rest[first_non_finite(rest)] == m[first_non_finite(m)]);
        }
    }
}

proof fn lemma_first_non_finite_found(m: Seq<Measurement>, i: int)
    requires
        0 <= i <= m.len(),
        forall|j: int| 0 <= j < i ==> (#[trigger] m[j]).finite(),
        i < m.len() ==> !m[i].finite(),
    ensures
        first_non_finite(m) == i,
    decreases i,
{
    if i > 0 {
        let rest = m.drop_first();
        assert(m.first() == m[0]);
        assert forall|j: int| 0 <= j < i - 1 implies (#[trigger] rest[j]).finite() by {
            assert(rest[j] == m[j + 1]);
        }
        if i < m.len() {
            assert(rest[i - 1] == m[i]);
        }
        lemma_first_non_finite_found(rest, i - 1);
    } else if m.len() > 0 {
        assert(m.first() == m[0]);
    }
}

/// Sampling has no hidden state: two results that `sample` may return for one
/// configuration and one sequence of measurements fail alike or hold the same
/// points, the same raw coordinates and the same angles.
pub proof fn lemma_sample_repeatable(
    config: GeneratorConfig,
    m: Seq<Measurement>,
    first: Result<SampleSet, AnalysisError>,
    second: Result<SampleSet, AnalysisError>,
)
    requires
        sample_post(config, m, first),
        sample_post(config, m, second),
    ensures
        first is Err ==> second == first,
        first matches Ok(a) ==> second matches Ok(b) && a.points@ == b.points@ && a.raw_x@
            == b.raw_x@ && a.angles@ == b.angles@,
{
}

} // verus!
