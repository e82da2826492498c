use vstd::prelude::*;
use vstd::math::max;
use crate::error::{AnalysisError, ConfigIssue};
use crate::sort::{ascending, is_ascending, sort_ascending, sorted_values};

verus! {

/// The largest of the values; arbitrary on the empty sequence.
pub open spec fn largest_value(values: Seq<i64>) -> int
    decreases values.len(),
{
    if values.len() <= 1 {
        values[0] as int
    } else {
        max(largest_value(values.drop_last()), values.last() as int)
    }
}

/// Every value `values[i] / scale` lies in `[0, 1]`.
pub open spec fn within_unit_interval(values: Seq<i64>, scale: int) -> bool {
    forall|i: int| 0 <= i < values.len() ==> 0 <= #[trigger] values[i] <= scale
}

/// By what a coordinate stream is divided to scale it to the unit interval.
#[derive(Clone, Copy, Debug, PartialEq, Eq, Structural)]
pub enum NormalizationBase {
    /// A maximum of the domain that is known beforehand.
    DomainMax(i64),
    /// The largest value that the stream itself holds.
    ObservedMax,
}

/// A coordinate stream scaled to the unit interval: entry `i` stands for the
/// rational `values()[i] / scale()`, and the scale is positive.
#[derive(Debug, PartialEq, Eq)]
pub struct NormalizedSample {
    values: Vec<i64>,
    scale: i64,
}

impl NormalizedSample {
    #[verifier::type_invariant]
    spec fn positive_scale(self) -> bool {
        self.scale > 0
    }

    /// The numerators, in the order they are stored.
    pub closed spec fn values(self) -> Seq<i64> {
        self.values@
    }

    /// The common denominator.
    pub closed spec fn scale(self) -> int {
        self.scale as int
    }

    /// The number of values.
    pub fn len(&self) -> (n: usize)
        ensures
            n == self.values().len(),
    {
        self.values.len()
    }

    /// The common denominator, which is positive.
    pub fn denominator(&self) -> (d: i64)
        ensures
            d == self.scale(),
            d > 0,
    {
        proof {
            use_type_invariant(self);
        }
        self.scale
    }

    /// The numerator at position `i`.
    pub fn numerator(&self, i: usize) -> (x: i64)
        requires
            i < self.values().len(),
        ensures
            x == self.values()[i as int],
    {
        self.values[i]
    }

    /// Tells whether the values ascend, as the statistic expects them to.
    pub fn is_sorted(&self) -> (r: bool)
        ensures
            r == ascending(self.values()),
    {
        is_ascending(&self.values)
    }

    /// The same sample in ascending order: the scale is kept, each value
    /// occurs as often as before, and `self` is left untouched.
    pub fn sorted(&self) -> (r: NormalizedSample)
        ensures
            r.scale() == self.scale(),
            r.values() == sorted_values(self.values()),
            ascending(r.values()),
            r.values().to_multiset() == self.values().to_multiset(),
            r.values().len() == self.values().len(),
    {
        proof {
            use_type_invariant(self);
        }
        NormalizedSample { values: sort_ascending(&self.values), scale: self.scale }
    }
}

fn copy_of(v: &Vec<i64>) -> (out: Vec<i64>)
    ensures
        out@ == v@,
{
    let mut out: Vec<i64> = Vec::new();
    let mut i: usize = 0;
    while i < v.len()
        invariant
            i <= v.len(),
            out@ == v@.take(i as int),
        decreases v.len() - i,
    {
        out.push(v[i]);
        proof {
            assert(v@.take(i as int + 1) =~= v@.take(i as int).push(v[i as int]));
        }
        i = i + 1;
    }
    proof {
        assert(v@.take(v.len() as int) =~= v@);
    }
    out
}

/// The largest value of a stream that holds at least one.
pub fn observed_max(values: &Vec<i64>) -> (m: i64)
    requires
        values.len() > 0,
    ensures
        m == largest_value(values@),
{
    let mut m: i64 = values[0];
    let mut i: usize = 1;
    proof {
        assert(values@.take(1).len() == 1);
    }
    while i < values.len()
        invariant
            1 <= i <= values.len(),
            m == largest_value(values@.take(i as int)),
        decreases values.len() - i,
    {
        proof {
            let longer = values@.take(i as int + 1);
            assert(longer.drop_last() =~= values@.take(i as int));
            assert(longer.last() == values[i as int]);
        }
        if values[i] > m {
            m = values[i];
        }
        i = i + 1;
    }
    proof {
        assert(values@.take(values.len() as int) =~= values@);
    }
    m
}

/// Why a stream cannot be normalized by the given base, if it cannot: the
/// observed maximum of no values does not exist, and a maximum that is zero
/// or negative is refused.
pub open spec fn normalization_failure(raw: Seq<i64>, base: NormalizationBase) -> Option<
    AnalysisError,
> {
    match base {
        NormalizationBase::DomainMax(m) => if m <= 0 {
            Some(AnalysisError::Configuration(ConfigIssue::DomainMaxNotPositive))
        } else {
            None
        },
        NormalizationBase::ObservedMax => if raw.len() == 0 {
            Some(AnalysisError::EmptyInput)
        } else if largest_value(raw) <= 0 {
            Some(AnalysisError::Configuration(ConfigIssue::DomainMaxNotPositive))
        } else {
            None
        },
    }
}

/// The number by which the base has the values of a stream divided.
pub open spec fn normalization_scale(raw: Seq<i64>, base: NormalizationBase) -> int {
    match base {
        NormalizationBase::DomainMax(m) => m as int,
        NormalizationBase::ObservedMax => largest_value(raw),
    }
}

/// Scales a raw coordinate stream to the unit interval by pairing it with the
/// maximum that its values are divided by. The values themselves are kept as
/// they are and in their order.
pub fn normalize(raw: &Vec<i64>, base: NormalizationBase) -> (r: Result<
    NormalizedSample,
    AnalysisError,
>)
    ensures
        match normalization_failure(raw@, base) {
            Some(e) => r == Err::<NormalizedSample, AnalysisError>(e),
            None => r matches Ok(s) && s.values() == raw@ && s.scale() == normalization_scale(
                raw@,
                base,
            ),
        },
{
    let scale: i64 = match base {
        NormalizationBase::DomainMax(m) => m,
        NormalizationBase::ObservedMax => {
            if raw.len() == 0 {
                return Err(AnalysisError::EmptyInput);
            }
            observed_max(raw)
        },
    };
    if scale <= 0 {
        return Err(AnalysisError::Configuration(ConfigIssue::DomainMaxNotPositive));
    }
    Ok(NormalizedSample { values: copy_of(raw), scale })
}

/// The largest value of a sequence bounds all of its values and is one of
/// them.
pub proof fn lemma_largest_value_is_largest(values: Seq<i64>)
    requires
        values.len() > 0,
    ensures
        forall|i: int| 0 <= i < values.len() ==> #[trigger] values[i] <= largest_value(values),
        exists|i: int| 0 <= i < values.len() && #[trigger] values[i] == largest_value(values),
    decreases values.len(),
{
    if values.len() > 1 {
        let front = values.drop_last();
        lemma_largest_value_is_largest(front);
        let w = choose|i: int| 0 <= i < front.len() && #[trigger] front[i] == largest_value(front);
        assert forall|i: int| 0 <= i < values.len() implies #[trigger] values[i] <= largest_value(
            values,
        ) by {
            if i < front.len() {
                assert(front[i] == values[i]);
            }
        }
        if values.last() >= largest_value(front) {
            assert(values[values.len() - 1] == largest_value(values));
        } else {
            assert(values[w] == front[w]);
        }
    } else {
        assert(values[0] == largest_value(values));
    }
}

/// A stream without negative values that is scaled by its own largest value
/// lies in the unit interval.
pub proof fn lemma_observed_max_fills_unit_interval(values: Seq<i64>)
    requires
        values.len() > 0,
        forall|i: int| 0 <= i < values.len() ==> 0 <= #[trigger] values[i],
    ensures
        within_unit_interval(values, largest_value(values)),
{
    lemma_largest_value_is_largest(values);
}

} // verus!
