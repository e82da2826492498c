use vstd::prelude::*;
use crate::error::AnalysisError;

verus! {

/// The sum of the angles, as a mathematical integer.
pub open spec fn total(angles: Seq<i64>) -> int
    decreases angles.len(),
{
    if angles.len() == 0 {
        0
    } else {
        total(angles.drop_last()) + angles.last()
    }
}

/// The mean `sum / count` of at least one angle, kept exact. It is measured in
/// the unit in which the angles were given.
#[derive(Clone, Copy, Debug, PartialEq, Eq, Structural)]
pub struct MeanAngle {
    pub sum: i128,
    pub count: usize,
}

impl MeanAngle {
    /// The mean is at least `low` and at most `high`.
    pub open spec fn within(self, low: int, high: int) -> bool {
        low * self.count <= self.sum <= high * self.count
    }

    /// Tells whether the mean lies between the two bounds, both included.
    pub fn lies_within(&self, low: i64, high: i64) -> (r: bool)
        ensures
            r == self.within(low as int, high as int),
    {
        assert(-0x8000_0000_0000_0000 * 0xffff_ffff_ffff_ffff <= low * self.count
            <= 0x7fff_ffff_ffff_ffff * 0xffff_ffff_ffff_ffff && -0x8000_0000_0000_0000
            * 0xffff_ffff_ffff_ffff <= high * self.count <= 0x7fff_ffff_ffff_ffff
            * 0xffff_ffff_ffff_ffff) by (nonlinear_arith)
            requires
                -0x8000_0000_0000_0000 <= low <= 0x7fff_ffff_ffff_ffff,
                -0x8000_0000_0000_0000 <= high <= 0x7fff_ffff_ffff_ffff,
                0 <= self.count <= 0xffff_ffff_ffff_ffff,
        ;
        let n: i128 = self.count as i128;
        (low as i128) * n <= self.sum && self.sum <= (high as i128) * n
    }
}

/// What `mean_angle` returns on the given angles.
pub open spec fn mean_outcome(angles: Seq<i64>) -> Result<MeanAngle, AnalysisError> {
    if angles.len() == 0 {
        Err(AnalysisError::EmptyInput)
    } else {
        Ok(MeanAngle { sum: total(angles) as i128, count: angles.len() as usize })
    }
}

/// A running sum of angles, fed one angle at a time.
pub struct AngleAccumulator {
    running_sum: i128,
    n: usize,
    seen: Ghost<Seq<i64>>,
}

impl AngleAccumulator {
    #[verifier::type_invariant]
    spec fn consistent(self) -> bool {
        &&& self.n == self.seen@.len()
        &&& self.running_sum == total(self.seen@)
    }

    /// The angles added so far, oldest first.
    pub closed spec fn view(&self) -> Seq<i64> {
        self.seen@
    }

    /// An accumulator that has seen no angle.
    pub fn new() -> (acc: Self)
        ensures
            acc@ == Seq::<i64>::empty(),
    {
        AngleAccumulator { running_sum: 0, n: 0, seen: Ghost(Seq::empty()) }
    }

    /// The number of angles added so far.
    pub fn count(&self) -> (n: usize)
        ensures
            n == self@.len(),
    {
        proof {
            use_type_invariant(self);
        }
        self.n
    }

    /// Adds one angle to the running sum.
    pub fn add(&mut self, angle: i64)
        requires
            old(self)@.len() < usize::MAX,
        ensures
            final(self)@ == old(self)@.push(angle),
    {
        proof {
            use_type_invariant(&*self);
            lemma_total_bounds(self.seen@);
            assert(self.seen@.push(angle).drop_last() =~= self.seen@);
        }
        *self = AngleAccumulator {
            running_sum: self.running_sum + angle as i128,
            n: self.n + 1,
            seen: Ghost(self.seen@.push(angle)),
        };
    }

    /// The mean of the angles added so far, or `EmptyInput` where there is
    /// none to divide by.
    pub fn mean(&self) -> (r: Result<MeanAngle, AnalysisError>)
        ensures
            r == mean_outcome(self@),
            r matches Ok(m) ==> m.sum == total(self@) && m.count == self@.len(),
            self@.len() == 0 <==> r == Err::<MeanAngle, AnalysisError>(AnalysisError::EmptyInput),
    {
        proof {
            use_type_invariant(self);
        }
        if self.n == 0 {
            Err(AnalysisError::EmptyInput)
        } else {
            Ok(MeanAngle { sum: self.running_sum, count: self.n })
        }
    }
}

/// The mean of the angles, taken in one pass, or `EmptyInput` where there is
/// no angle.
pub fn mean_angle(angles: &Vec<i64>) -> (r: Result<MeanAngle, AnalysisError>)
    ensures
        r == mean_outcome(angles@),
        r matches Ok(m) ==> m.sum == total(angles@) && m.count == angles.len(),
        angles.len() == 0 <==> r == Err::<MeanAngle, AnalysisError>(AnalysisError::EmptyInput),
{
    let mut acc = AngleAccumulator::new();
    let mut i: usize = 0;
    while i < angles.len()
        invariant
            i <= angles.len(),
            acc@ == angles@.take(i as int),
        decreases angles.len() - i,
    {
        acc.add(angles[i]);
        proof {
            assert(angles@.take(i as int + 1) =~= angles@.take(i as int).push(angles[i as int]));
        }
        i = i + 1;
    }
    proof {
        assert(angles@.take(angles.len() as int) =~= angles@);
    }
    acc.mean()
}

/// A sum of 64-bit angles is bounded by their number.
pub proof fn lemma_total_bounds(angles: Seq<i64>)
    ensures
        -0x8000_0000_0000_0000 * angles.len() <= total(angles) <= 0x7fff_ffff_ffff_ffff
            * angles.len(),
    decreases angles.len(),
{
    if angles.len() > 0 {
        lemma_total_bounds(angles.drop_last());
    }
}

/// Where every angle lies between `low` and `high`, so does their mean: the
/// sum lies between `low` and `high` times the number of angles.
pub proof fn lemma_mean_between_bounds(angles: Seq<i64>, low: int, high: int)
    requires
        forall|i: int| 0 <= i < angles.len() ==> low <= #[trigger] angles[i] <= high,
    ensures
        low * angles.len() <= total(angles) <= high * angles.len(),
    decreases angles.len(),
{
    if angles.len() > 0 {
        let front = angles.drop_last();
        assert forall|i: int| 0 <= i < front.len() implies low <= #[trigger] front[i] <= high by {
            assert(front[i] == angles[i]);
        }
        lemma_mean_between_bounds(front, low, high);
        let n = front.len() as int;
        assert(low * (n + 1) == low * n + low && high * (n + 1) == high * n + high)
            by (nonlinear_arith);
        assert(low <= angles[angles.len() - 1] <= high);
    } else {
        assert(low * 0 == 0 && high * 0 == 0) by (nonlinear_arith);
    }
}

} // verus!
