use vstd::prelude::*;
use crate::angle::{lemma_mean_between_bounds, mean_angle, mean_outcome, total, MeanAngle};
use crate::config::GeneratorConfig;
use crate::error::AnalysisError;
use crate::ks::{ks_outcome, ks_statistic, max_deviation, KsResult};
use crate::normalized::{
    normalization_failure, normalization_scale, normalize, within_unit_interval,
    NormalizationBase,
};
use crate::sampler::{
    angles_of, lemma_first_non_finite, points_of, sample, sample_failure, xs_of, Measurement, Point,
};
use crate::sort::{lemma_sorted_values, lemma_sorted_values_keep_bounds, sorted_values};

verus! {

/// The choices of a run that do not concern the generator.
#[derive(Clone, Copy, Debug, PartialEq, Eq, Structural)]
pub struct RunOptions {
    /// By what the first coordinates are divided before the statistic is
    /// taken.
    pub normalization: NormalizationBase,
    /// Whether the mean angle is taken over the points of the first quadrant
    /// alone, in place of all points.
    pub first_quadrant_only: bool,
}

/// What a run hands on for reporting.
#[derive(Debug, PartialEq, Eq)]
pub struct Report {
    /// Every sampled point, in the order of the draws.
    pub points: Vec<Point>,
    pub mean_angle: MeanAngle,
    pub ks: KsResult,
}

/// The point has no negative coordinate.
pub open spec fn in_first_quadrant(p: Point) -> bool {
    p.x >= 0 && p.y >= 0
}

/// The angles of those among the first `k` points that lie in the first
/// quadrant, in their order.
pub open spec fn first_quadrant_angles_of_prefix(
    points: Seq<Point>,
    angles: Seq<i64>,
    k: nat,
) -> Seq<i64>
    decreases k,
{
    if k == 0 {
        Seq::empty()
    } else {
        let earlier = first_quadrant_angles_of_prefix(points, angles, (k - 1) as nat);
        if in_first_quadrant(points[k - 1]) {
            earlier.push(angles[k - 1])
        } else {
            earlier
        }
    }
}

/// The angles of those points that lie in the first quadrant, in their
/// order. Point and angle are paired by position, as far as both sequences
/// go.
pub open spec fn first_quadrant_angles(points: Seq<Point>, angles: Seq<i64>) -> Seq<i64> {
    first_quadrant_angles_of_prefix(
        points,
        angles,
        if points.len() <= angles.len() {
            points.len()
        } else {
            angles.len()
        },
    )
}

/// Keeps the angles of the points that lie in the first quadrant.
pub fn keep_first_quadrant(points: &Vec<Point>, angles: &Vec<i64>) -> (kept: Vec<i64>)
    ensures
        kept@ == first_quadrant_angles(points@, angles@),
{
    let n: usize = if points.len() <= angles.len() {
        points.len()
    } else {
        angles.len()
    };
    let mut kept: Vec<i64> = Vec::new();
    let mut i: usize = 0;
    while i < n
        invariant
            i <= n,
            n <= points.len(),
            n <= angles.len(),
            kept@ == first_quadrant_angles_of_prefix(points@, angles@, i as nat),
        decreases n - i,
    {
        if points[i].x >= 0 && points[i].y >= 0 {
            kept.push(angles[i]);
        }
        i = i + 1;
    }
    kept
}

/// The angles that go into the mean.
pub open spec fn aggregated_angles(m: Seq<Measurement>, options: RunOptions) -> Seq<i64> {
    if options.first_quadrant_only {
        first_quadrant_angles(points_of(m), angles_of(m))
    } else {
        angles_of(m)
    }
}

/// Why a run has no report, if it has none. What `sample` refuses comes
/// first, then a mean over no angle, then a base by which the first
/// coordinates cannot be normalized.
pub open spec fn analysis_failure(
    config: GeneratorConfig,
    options: RunOptions,
    m: Seq<Measurement>,
) -> Option<AnalysisError> {
    match sample_failure(config, m) {
        Some(e) => Some(e),
        None => if aggregated_angles(m, options).len() == 0 {
            Some(AnalysisError::EmptyInput)
        } else {
            normalization_failure(xs_of(m), options.normalization)
        },
    }
}

/// What `analyze` promises of its result.
pub open spec fn analysis_post(
    config: GeneratorConfig,
    options: RunOptions,
    m: Seq<Measurement>,
    r: Result<Report, AnalysisError>,
) -> bool {
    match analysis_failure(config, options, m) {
        Some(e) => r == Err::<Report, AnalysisError>(e),
        None => {
            let angles = aggregated_angles(m, options);
            let sorted = sorted_values(xs_of(m));
            let scale = normalization_scale(xs_of(m), options.normalization);
            &&& r matches Ok(report)
            &&& report.points@ == points_of(m)
            &&& Ok::<MeanAngle, AnalysisError>(report.mean_angle) == mean_outcome(angles)
            &&& report.mean_angle.sum == total(angles)
            &&& report.mean_angle.count == angles.len()
            &&& Ok::<KsResult, AnalysisError>(report.ks) == ks_outcome(sorted, scale)
            &&& report.ks.numerator == max_deviation(sorted, scale, sorted.len())
            &&& report.ks.denominator == m.len() * scale
            &&& within_unit_interval(xs_of(m), scale) ==> report.ks.numerator
                <= report.ks.denominator
        },
    }
}

/// The whole run after the draws: records the measurements as the sample,
/// takes the mean of the angles, scales the first coordinates to the unit
/// interval, sorts them, and takes their Kolmogorov-Smirnov statistic.
pub fn analyze(
    config: &GeneratorConfig,
    options: &RunOptions,
    measurements: &Vec<Measurement>,
) -> (r: Result<Report, AnalysisError>)
    ensures
        analysis_post(*config, *options, measurements@, r),
{
    let set = match sample(config, measurements) {
        Err(e) => {
            return Err(e);
        },
        Ok(set) => set,
    };
    let mean = if options.first_quadrant_only {
        let kept = keep_first_quadrant(&set.points, &set.angles);
        mean_angle(&kept)
    } else {
        mean_angle(&set.angles)
    };
    let mean = match mean {
        Err(e) => {
            return Err(e);
        },
        Ok(mean) => mean,
    };
    let normalized = match normalize(&set.raw_x, options.normalization) {
        Err(e) => {
            return Err(e);
        },
        Ok(normalized) => normalized,
    };
    let sorted = normalized.sorted();
    proof {
        lemma_first_non_finite(measurements@);
        lemma_sorted_values(xs_of(measurements@));
        let scale = normalization_scale(xs_of(measurements@), options.normalization);
        if within_unit_interval(xs_of(measurements@), scale) {
            lemma_sorted_values_keep_bounds(xs_of(measurements@), 0, scale);
        }
    }
    match ks_statistic(&sorted) {
        Err(e) => Err(e),
        Ok(ks) => Ok(Report { points: set.points, mean_angle: mean, ks }),
    }
}

proof fn lemma_first_quadrant_angles_between_bounds(
    points: Seq<Point>,
    angles: Seq<i64>,
    k: nat,
    low: int,
    high: int,
)
    requires
        k <= points.len(),
        k <= angles.len(),
        forall|i: int|
            0 <= i < k && in_first_quadrant(#[trigger] points[i]) ==> low <= angles[i] <= high,
    ensures
        forall|j: int|
            0 <= j < first_quadrant_angles_of_prefix(points, angles, k).len() ==> low <= (
            #[trigger] first_quadrant_angles_of_prefix(points, angles, k)[j]) <= high,
    decreases k,
{
    if k > 0 {
        lemma_first_quadrant_angles_between_bounds(points, angles, (k - 1) as nat, low, high);
        let earlier = first_quadrant_angles_of_prefix(points, angles, (k - 1) as nat);
        let kept = first_quadrant_angles_of_prefix(points, angles, k);
        assert forall|j: int| 0 <= j < kept.len() implies low <= #[trigger] kept[j] <= high by {
            if j < earlier.len() {
                assert(kept[j] == earlier[j]);
            } else {
                assert(in_first_quadrant(points[k - 1]));
                assert(kept[j] == angles[k - 1]);
            }
        }
    }
}

/// Where the angle of every point of the first quadrant lies between `low`
/// and `high`, as a quarter turn from zero does for the polar angle, the
/// mean over the points of the first quadrant lies between them too.
pub proof fn lemma_first_quadrant_mean_between_bounds(
    points: Seq<Point>,
    angles: Seq<i64>,
    low: int,
    high: int,
)
    requires
        forall|i: int|
            0 <= i < points.len() && i < angles.len() && in_first_quadrant(#[trigger] points[i])
                ==> low <= angles[i] <= high,
    ensures
        low * first_quadrant_angles(points, angles).len() <= total(
            first_quadrant_angles(points, angles),
        ) <= high * first_quadrant_angles(points, angles).len(),
{
    let k: nat = if points.len() <= angles.len() {
        points.len()
    } else {
        angles.len()
    };
    lemma_first_quadrant_angles_between_bounds(points, angles, k, low, high);
    lemma_mean_between_bounds(first_quadrant_angles(points, angles), low, high);
}

} // verus!
