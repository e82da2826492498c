use vstd::prelude::*;

verus! {

/// What is wrong with a configuration.
#[derive(Clone, Copy, Debug, PartialEq, Eq, Structural)]
pub enum ConfigIssue {
    /// No points were asked for.
    ZeroCount,
    /// The uniform range `[x_min, x_max)` holds no value.
    EmptyRange,
    /// The Zipf exponent is negative or has a zero denominator.
    ZipfExponentInvalid,
    /// The Zipf domain holds no element.
    ZipfDomainEmpty,
    /// The Pareto scale is not positive.
    ParetoScaleNotPositive,
    /// The Pareto shape is not positive.
    ParetoShapeNotPositive,
    /// The number of measurements differs from the configured count.
    CountMismatch,
    /// The maximum by which a sample is normalized is not positive.
    DomainMaxNotPositive,
}

/// Every failure the library reports. None is recovered internally.
#[derive(Clone, Copy, Debug, PartialEq, Eq, Structural)]
pub enum AnalysisError {
    /// The run was configured with values that admit no defined result.
    Configuration(ConfigIssue),
    /// A statistic was asked of zero values.
    EmptyInput,
    /// The measurement at `index` has a component that is not a finite number.
    NumericDegeneracy { index: usize },
}

} // verus!
