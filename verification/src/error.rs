use vstd::prelude::*;

verus! {

/// An input that is rejected before any tick is evaluated.
#[derive(Clone, Copy, Debug, PartialEq, Eq, Structural)]
pub enum ValidationError {
    /// The latitude lies outside [-90°, 90°].
    LatitudeOutOfRange,
    /// The longitude lies outside (-180°, 180°].
    LongitudeOutOfRange,
    /// The run covers zero days.
    ZeroRunLength,
    /// The step between two ticks is zero or negative.
    NonPositiveStep,
    /// The end of the run cannot be represented as a timestamp.
    HorizonOutOfRange,
}

/// A computed quantity that has no defined value.
#[derive(Clone, Copy, Debug, PartialEq, Eq, Structural)]
pub enum DomainError {
    /// An intensity factor lies outside [0, 1].
    FactorOutOfRange,
    /// The readings of a tick do not match the solar arrays one for one.
    ReadingCountMismatch,
    /// A total exceeds 128 bits.
    Overflow,
}

/// Why an evaluation produced no result.
#[derive(Clone, Copy, Debug, PartialEq, Eq, Structural)]
pub enum EvaluationError {
    /// An input was rejected; nothing was evaluated.
    Validation(ValidationError),
    /// A quantity computed during the run has no defined value.
    Domain(DomainError),
}

} // verus!
