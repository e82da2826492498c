use vstd::prelude::*;
use vstd::math::{abs, max};
use crate::error::AnalysisError;
use crate::normalized::{within_unit_interval, NormalizedSample};
use crate::sort::ascending;

verus! {

/// Distance, in units of `1 / (len * scale)`, between the empirical
/// distribution just after step `i` and the value `values[i] / scale`.
pub open spec fn upper_deviation(values: Seq<i64>, scale: int, i: int) -> int {
    abs((i + 1) * scale - values[i] * values.len()) as int
}

/// Distance, in units of `1 / (len * scale)`, between the value
/// `values[i] / scale` and the empirical distribution just before step `i`.
pub open spec fn lower_deviation(values: Seq<i64>, scale: int, i: int) -> int {
    abs(values[i] * values.len() - i * scale) as int
}

/// The larger of the two deviations at step `i`.
pub open spec fn step_deviation(values: Seq<i64>, scale: int, i: int) -> int {
    max(upper_deviation(values, scale, i), lower_deviation(values, scale, i))
}

/// The largest deviation over the first `k` steps; zero for `k == 0`.
pub open spec fn max_deviation(values: Seq<i64>, scale: int, k: nat) -> int
    decreases k,
{
    if k == 0 {
        0
    } else {
        max(max_deviation(values, scale, (k - 1) as nat), step_deviation(values, scale, k - 1))
    }
}

/// `d` bounds every deviation of the sample and, where the sample has a value,
/// is one of them: it is their maximum.
pub open spec fn is_largest_deviation(values: Seq<i64>, scale: int, d: int) -> bool {
    &&& forall|i: int|
        0 <= i < values.len() ==> #[trigger] upper_deviation(values, scale, i) <= d
    &&& forall|i: int|
        0 <= i < values.len() ==> #[trigger] lower_deviation(values, scale, i) <= d
    &&& values.len() > 0 ==> exists|i: int|
        0 <= i < values.len() && #[trigger] step_deviation(values, scale, i) == d
}

/// The statistic `numerator / denominator`, kept exact.
#[derive(Clone, Copy, Debug, PartialEq, Eq, Structural)]
pub struct KsResult {
    pub numerator: u128,
    pub denominator: u128,
}

/// What `ks_statistic` returns on a sample of the given values and scale.
pub open spec fn ks_outcome(values: Seq<i64>, scale: int) -> Result<KsResult, AnalysisError> {
    if values.len() == 0 {
        Err(AnalysisError::EmptyInput)
    } else {
        Ok(
            KsResult {
                numerator: max_deviation(values, scale, values.len()) as u128,
                denominator: (values.len() * scale) as u128,
            },
        )
    }
}

fn distance(a: u128, b: u128) -> (r: u128)
    ensures
        r == abs(a - b),
{
    if a >= b {
        a - b
    } else {
        b - a
    }
}

/// Both deviations at step `i` of a sample of `n` values, the value at that
/// step being `x / scale`.
fn deviations_at(x: i64, i: usize, n: usize, scale: i64) -> (r: (u128, u128))
    requires
        i < n,
        scale > 0,
    ensures
        r.0 == abs((i + 1) * scale - x * n),
        r.1 == abs(x * n - i * scale),
{
    let len: u128 = n as u128;
    let unit: u128 = scale as u128;
    assert(i * scale <= 0xffff_ffff_ffff_fffe * 0x7fff_ffff_ffff_ffff && (i + 1) * scale == i
        * scale + scale) by (nonlinear_arith)
        requires
            0 <= i <= 0xffff_ffff_ffff_fffe,
            0 < scale <= 0x7fff_ffff_ffff_ffff,
    ;
    let before: u128 = (i as u128) * unit;
    let after: u128 = before + unit;
    if x >= 0 {
        assert(0 <= x * n <= 0x7fff_ffff_ffff_ffff * 0xffff_ffff_ffff_ffff) by (nonlinear_arith)
            requires
                0 <= x <= 0x7fff_ffff_ffff_ffff,
                0 <= n <= 0xffff_ffff_ffff_ffff,
        ;
        let at: u128 = (x as u128) * len;
        (distance(after, at), distance(at, before))
    } else {
        let size: u128 = (-(x as i128)) as u128;
        assert(0 <= size * n <= 0x8000_0000_0000_0000 * 0xffff_ffff_ffff_ffff && size * n == -(x
            * n)) by (nonlinear_arith)
            requires
                size == -x,
                -0x8000_0000_0000_0000 <= x < 0,
                0 <= n <= 0xffff_ffff_ffff_ffff,
        ;
        let below: u128 = size * len;
        (after + below, below + before)
    }
}

/// The one-pass Kolmogorov-Smirnov statistic of a sample against the uniform
/// distribution on the unit interval.
///
/// For a sample whose values ascend, the result is the largest vertical gap
/// between the empirical distribution function and the identity. The formula
/// is evaluated as it stands on any sample: values are not required to ascend
/// nor to lie in the unit interval.
pub fn ks_statistic(sample: &NormalizedSample) -> (r: Result<KsResult, AnalysisError>)
    ensures
        r == ks_outcome(sample.values(), sample.scale()),
        r matches Ok(ks) ==> ks.numerator == max_deviation(
            sample.values(),
            sample.scale(),
            sample.values().len(),
        ) && ks.denominator == sample.values().len() * sample.scale(),
        sample.values().len() == 0 <==> r == Err::<KsResult, AnalysisError>(
            AnalysisError::EmptyInput,
        ),
        r matches Ok(ks) ==> ks.denominator > 0 && is_largest_deviation(
            sample.values(),
            sample.scale(),
            ks.numerator as int,
        ),
        r matches Ok(ks) ==> (within_unit_interval(sample.values(), sample.scale())
            ==> ks.numerator <= ks.denominator),
{
    let n: usize = sample.len();
    if n == 0 {
        return Err(AnalysisError::EmptyInput);
    }
    let scale: i64 = sample.denominator();
    let mut d: u128 = 0;
    let mut i: usize = 0;
    while i < n
        invariant
            i <= n,
            n == sample.values().len(),
            scale == sample.scale(),
            scale > 0,
            d == max_deviation(sample.values(), scale as int, i as nat),
        decreases n - i,
    {
        let (upper, lower) = deviations_at(sample.numerator(i), i, n, scale);
        if upper > d {
            d = upper;
        }
        if lower > d {
            d = lower;
        }
        i = i + 1;
    }
    assert(0 < n * scale <= 0xffff_ffff_ffff_ffff * 0x7fff_ffff_ffff_ffff) by (nonlinear_arith)
        requires
            0 < n <= 0xffff_ffff_ffff_ffff,
            0 < scale <= 0x7fff_ffff_ffff_ffff,
    ;
    proof {
        lemma_max_deviation_is_largest(sample.values(), scale as int);
        if within_unit_interval(sample.values(), scale as int) {
            lemma_statistic_at_most_one(sample.values(), scale as int);
        }
    }
    Ok(KsResult { numerator: d, denominator: (n as u128) * (scale as u128) })
}

proof fn lemma_max_deviation_prefix(values: Seq<i64>, scale: int, k: nat)
    requires
        k <= values.len(),
    ensures
        0 <= max_deviation(values, scale, k),
        forall|i: int| 0 <= i < k ==> #[trigger] step_deviation(values, scale, i) <= max_deviation(
            values,
            scale,
            k,
        ),
        k > 0 ==> exists|i: int|
            0 <= i < k && #[trigger] step_deviation(values, scale, i) == max_deviation(
                values,
                scale,
                k,
            ),
    decreases k,
{
    if k > 0 {
        lemma_max_deviation_prefix(values, scale, (k - 1) as nat);
        let last = k - 1;
        let earlier = max_deviation(values, scale, (k - 1) as nat);
        if step_deviation(values, scale, last) >= earlier {
            assert(step_deviation(values, scale, last) == max_deviation(values, scale, k));
        } else {
            let w = choose|i: int|
                0 <= i < k - 1 && #[trigger] step_deviation(values, scale, i) == earlier;
            assert(step_deviation(values, scale, w) == max_deviation(values, scale, k));
        }
    }
}

/// The value that `ks_statistic` computes step by step is the maximum of all
/// the deviations of the sample.
pub proof fn lemma_max_deviation_is_largest(values: Seq<i64>, scale: int)
    ensures
        is_largest_deviation(values, scale, max_deviation(values, scale, values.len())),
{
    lemma_max_deviation_prefix(values, scale, values.len());
    let d = max_deviation(values, scale, values.len());
    assert forall|i: int| 0 <= i < values.len() implies #[trigger] upper_deviation(
        values,
        scale,
        i,
    ) <= d by {
        assert(step_deviation(values, scale, i) <= d);
    }
    assert forall|i: int| 0 <= i < values.len() implies #[trigger] lower_deviation(
        values,
        scale,
        i,
    ) <= d by {
        assert(step_deviation(values, scale, i) <= d);
    }
}

/// A maximum is unique: two numbers that are each the largest deviation of
/// one sample are equal.
pub proof fn lemma_largest_deviation_unique(values: Seq<i64>, scale: int, a: int, b: int)
    requires
        values.len() > 0,
        is_largest_deviation(values, scale, a),
        is_largest_deviation(values, scale, b),
    ensures
        a == b,
{
    let i = choose|i: int| 0 <= i < values.len() && #[trigger] step_deviation(values, scale, i) == a;
    let j = choose|j: int| 0 <= j < values.len() && #[trigger] step_deviation(values, scale, j) == b;
    assert(upper_deviation(values, scale, i) <= b && lower_deviation(values, scale, i) <= b);
    assert(upper_deviation(values, scale, j) <= a && lower_deviation(values, scale, j) <= a);
}

proof fn lemma_step_at_most_one(values: Seq<i64>, scale: int, i: int)
    requires
        0 <= i < values.len(),
        0 <= values[i] <= scale,
    ensures
        step_deviation(values, scale, i) <= values.len() * scale,
{
    let n = values.len() as int;
    let x = values[i] as int;
    assert(0 <= i * scale <= (i + 1) * scale <= n * scale && 0 <= x * n <= n * scale)
        by (nonlinear_arith)
        requires
            0 <= i < n,
            0 <= x <= scale,
    ;
}

/// On a sample whose values all lie in the unit interval the statistic lies
/// there too: it is at least zero and at most one.
pub proof fn lemma_statistic_at_most_one(values: Seq<i64>, scale: int)
    requires
        scale > 0,
        within_unit_interval(values, scale),
    ensures
        0 <= max_deviation(values, scale, values.len()) <= values.len() * scale,
{
    lemma_max_deviation_prefix(values, scale, values.len());
    if values.len() > 0 {
        let w = choose|i: int|
            0 <= i < values.len() && #[trigger] step_deviation(values, scale, i) == max_deviation(
                values,
                scale,
                values.len(),
            );
        lemma_step_at_most_one(values, scale, w);
    } else {
        assert(values.len() * scale == 0) by (nonlinear_arith)
            requires
                values.len() == 0,
        ;
    }
}

/// The statistic depends on nothing but the values and the scale: evaluating
/// it again on an equal sample gives an equal result.
pub proof fn lemma_ks_statistic_repeatable(a: NormalizedSample, b: NormalizedSample)
    requires
        a.values() == b.values(),
        a.scale() == b.scale(),
    ensures
        ks_outcome(a.values(), a.scale()) == ks_outcome(b.values(), b.scale()),
{
}

/// How many of the values `values[i] / scale` are at most `p / q`.
pub open spec fn count_at_most(values: Seq<i64>, scale: int, p: int, q: int) -> nat
    decreases values.len(),
{
    if values.len() == 0 {
        0
    } else {
        let earlier = count_at_most(values.drop_last(), scale, p, q);
        if values.last() * q <= p * scale {
            earlier + 1
        } else {
            earlier
        }
    }
}

/// In an ascending sample the values that are at most `p / q` are the first
/// `count_at_most` ones.
pub proof fn lemma_count_at_most_splits(values: Seq<i64>, scale: int, p: int, q: int)
    requires
        ascending(values),
        q > 0,
    ensures
        count_at_most(values, scale, p, q) <= values.len(),
        forall|i: int|
            0 <= i < count_at_most(values, scale, p, q) ==> (#[trigger] values[i]) * q <= p * scale,
        forall|i: int|
            count_at_most(values, scale, p, q) <= i < values.len() ==> (#[trigger] values[i]) * q
                > p * scale,
    decreases values.len(),
{
    if values.len() > 0 {
        let front = values.drop_last();
        let last = values.last();
        assert forall|i: int, j: int| 0 <= i <= j < front.len() implies front[i] <= front[j] by {
            assert(front[i] == values[i] && front[j] == values[j]);
        }
        lemma_count_at_most_splits(front, scale, p, q);
        let k = count_at_most(front, scale, p, q);
        assert forall|i: int| 0 <= i < front.len() implies (#[trigger] values[i]) * q <= last
            * q by {
            let x = values[i];
            assert(x <= last);
            assert(x * q <= last * q) by (nonlinear_arith)
                requires
                    x <= last,
                    q > 0,
            ;
        }
        if last * q <= p * scale {
            if k < front.len() {
                assert(front[k as int] == values[k as int]);
                assert(values[k as int] * q > p * scale);
            }
            assert forall|i: int| 0 <= i < k + 1 implies (#[trigger] values[i]) * q <= p
                * scale by {
                if i < k {
                    assert(front[i] == values[i]);
                }
            }
        } else {
            assert forall|i: int| 0 <= i < k implies (#[trigger] values[i]) * q <= p * scale by {
                assert(front[i] == values[i]);
            }
            assert forall|i: int| k <= i < values.len() implies (#[trigger] values[i]) * q > p
                * scale by {
                if i < front.len() {
                    assert(front[i] == values[i]);
                }
            }
        }
    }
}

/// The gap at `p / q` between the empirical distribution of the sample and
/// the identity, in units of `1 / (len * q)`: with `k` values at most `p / q`
/// out of `len`, the distance between `k / len` and `p / q`.
pub open spec fn gap_at(values: Seq<i64>, scale: int, p: int, q: int) -> int {
    abs(count_at_most(values, scale, p, q) * q - p * values.len()) as int
}

/// The gap at `p / q` exceeds the statistic less `1 / r`.
pub open spec fn gap_comes_within(values: Seq<i64>, scale: int, p: int, q: int, r: int) -> bool {
    gap_at(values, scale, p, q) * scale * r + values.len() * scale * q > max_deviation(
        values,
        scale,
        values.len(),
    ) * q * r
}

/// The statistic bounds the gap between the empirical distribution of an
/// ascending sample and the identity at every point `p / q` of the unit
/// interval.
pub proof fn lemma_statistic_bounds_every_gap(values: Seq<i64>, scale: int, p: int, q: int)
    requires
        ascending(values),
        values.len() > 0,
        scale > 0,
        q > 0,
        0 <= p <= q,
    ensures
        gap_at(values, scale, p, q) * scale <= max_deviation(values, scale, values.len()) * q,
{
    let n = values.len() as int;
    let k = count_at_most(values, scale, p, q) as int;
    let d = max_deviation(values, scale, values.len());
    lemma_count_at_most_splits(values, scale, p, q);
    lemma_max_deviation_is_largest(values, scale);
    lemma_max_deviation_prefix(values, scale, values.len());
    if k * q >= p * n {
        if k == 0 {
            assert(p * n == 0 && d * q >= 0) by (nonlinear_arith)
                requires
                    0 * q >= p * n,
                    p >= 0,
                    n > 0,
                    d >= 0,
                    q > 0,
            ;
            assert(k * q == 0) by (nonlinear_arith)
                requires
                    k == 0,
            ;
        } else {
            let x = values[k - 1] as int;
            assert(x * q <= p * scale);
            assert(upper_deviation(values, scale, k - 1) <= d);
            assert(k * scale - x * n <= d);
            assert((k * q - p * n) * scale <= d * q) by (nonlinear_arith)
                requires
                    x * q <= p * scale,
                    k * scale - x * n <= d,
                    n > 0,
                    q > 0,
            ;
        }
    } else {
        assert(k < n) by (nonlinear_arith)
            requires
                k * q < p * n,
                0 <= p <= q,
                k <= n,
                n > 0,
        ;
        let x = values[k] as int;
        assert(x * q > p * scale);
        assert(lower_deviation(values, scale, k) <= d);
        assert(x * n - k * scale <= d);
        assert((p * n - k * q) * scale <= d * q) by (nonlinear_arith)
            requires
                x * q > p * scale,
                x * n - k * scale <= d,
                n > 0,
                q > 0,
        ;
    }
}

/// On an ascending sample within the unit interval no smaller number bounds
/// the gaps: for every tolerance `1 / r`, the gap at some point `p / q` of the
/// unit interval exceeds the statistic less `1 / r`. With the bound above,
/// the statistic is the supremum of the gaps over the unit interval.
pub proof fn lemma_statistic_is_least_bound(values: Seq<i64>, scale: int, r: int)
    requires
        ascending(values),
        within_unit_interval(values, scale),
        values.len() > 0,
        scale > 0,
        r > 0,
    ensures
        exists|p: int, q: int|
            q > 0 && 0 <= p <= q && #[trigger] gap_comes_within(values, scale, p, q, r),
{
    let n = values.len() as int;
    let d = max_deviation(values, scale, values.len());
    lemma_max_deviation_prefix(values, scale, values.len());
    let i = choose|i: int| 0 <= i < n && #[trigger] step_deviation(values, scale, i) == d;
    let x = values[i] as int;
    assert(0 <= x <= scale);
    let up = (i + 1) * scale - x * n;
    let low = x * n - i * scale;
    assert(up + low == scale) by (nonlinear_arith)
        requires
            up == (i + 1) * scale - x * n,
            low == x * n - i * scale,
    ;
    assert(upper_deviation(values, scale, i) == abs(up));
    assert(lower_deviation(values, scale, i) == abs(low));
    if d == abs(up) && up >= 0 {
        // The gap at the value itself is the statistic.
        let p = x;
        let q = scale;
        lemma_count_at_most_splits(values, scale, p, q);
        let k = count_at_most(values, scale, p, q) as int;
        if k <= i {
            assert(values[i] * q > p * scale);
        }
        assert(k >= i + 1);
        assert(gap_at(values, scale, p, q) >= d) by (nonlinear_arith)
            requires
                gap_at(values, scale, p, q) == abs(k * q - p * n),
                k >= i + 1,
                q == scale,
                p == x,
                d == (i + 1) * scale - x * n,
                scale > 0,
        ;
        let g = gap_at(values, scale, p, q);
        assert(g * scale * r + n * scale * q > d * q * r) by (nonlinear_arith)
            requires
                g >= d,
                d >= 0,
                q == scale,
                scale > 0,
                r > 0,
                n > 0,
        ;
        assert(gap_comes_within(values, scale, p, q, r));
    } else if x == 0 {
        // A value of zero has its largest deviation above it: the first case.
        assert(up > 0) by (nonlinear_arith)
            requires
                up == (i + 1) * scale - x * n,
                x == 0,
                i >= 0,
                scale > 0,
        ;
        assert(low <= 0) by (nonlinear_arith)
            requires
                low == x * n - i * scale,
                x == 0,
                i >= 0,
                scale > 0,
        ;
        assert(d == abs(low));
        assert(d == scale - up);
        assert(false);
    } else {
        // The statistic is the distance from the value down to the step
        // below it, which the gaps just under the value approach.
        assert(d == abs(low));
        assert(low >= 0);
        let big = r + 1;
        let p = x * big - 1;
        let q = scale * big;
        assert(q > 0 && 0 <= p <= q && q > r) by (nonlinear_arith)
            requires
                p == x * big - 1,
                q == scale * big,
                big == r + 1,
                r > 0,
                1 <= x <= scale,
        ;
        lemma_count_at_most_splits(values, scale, p, q);
        let k = count_at_most(values, scale, p, q) as int;
        if k > i {
            assert(values[i] * q <= p * scale);
            assert(false) by (nonlinear_arith)
                requires
                    x * q <= p * scale,
                    p == x * big - 1,
                    q == scale * big,
                    scale > 0,
            ;
        }
        assert(k <= i);
        let g = gap_at(values, scale, p, q);
        assert(g >= p * n - k * q);
        assert(p * n - k * q >= big * d - n) by (nonlinear_arith)
            requires
                p == x * big - 1,
                q == scale * big,
                d == x * n - i * scale,
                0 <= k <= i,
                big > 0,
                scale > 0,
        ;
        assert(g * scale * r + n * scale * q > d * q * r) by (nonlinear_arith)
            requires
                g >= big * d - n,
                q == scale * big,
                big == r + 1,
                scale > 0,
                r > 0,
                n > 0,
                d >= 0,
        ;
        assert(gap_comes_within(values, scale, p, q, r));
    }
}

} // verus!
