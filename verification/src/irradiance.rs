use vstd::prelude::*;
use crate::error::DomainError;

verus! {

/// The value of an intensity factor that stands for 1: factors are counted in
/// parts per million.
pub const FACTOR_SCALE: u32 = 1_000_000;

/// The fraction of a panel's rated capacity that the sun's position lets it
/// deliver at an instant, in parts per million, never above `FACTOR_SCALE`.
#[derive(Clone, Copy, Debug, PartialEq, Eq, Structural)]
pub struct IntensityFactor {
    ppm: u32,
}

impl View for IntensityFactor {
    type V = nat;

    closed spec fn view(&self) -> nat {
        self.ppm as nat
    }
}

impl IntensityFactor {
    #[verifier::type_invariant]
    spec fn within_unit_interval(&self) -> bool {
        self.ppm <= FACTOR_SCALE
    }

    /// Accepts a reading in parts per million when it lies in [0, 1].
    pub fn new(ppm: u32) -> (factor: Result<IntensityFactor, DomainError>)
        ensures
            match factor {
                Ok(f) => ppm <= FACTOR_SCALE && f@ == ppm,
                Err(e) => ppm > FACTOR_SCALE && e == DomainError::FactorOutOfRange,
            },
    {
        if ppm <= FACTOR_SCALE {
            Ok(IntensityFactor { ppm })
        } else {
            Err(DomainError::FactorOutOfRange)
        }
    }

    /// The factor of a surface whose normal has the projection `projection`
    /// on the direction of the sun, in parts per million: a surface that
    /// faces away from the sun, whose projection is negative, receives
    /// nothing.
    pub fn from_projection(projection: i64) -> (factor: Result<IntensityFactor, DomainError>)
        ensures
            match factor {
                Ok(f) => projection <= FACTOR_SCALE && f@ == if projection < 0 {
                    0
                } else {
                    projection
                },
                Err(e) => projection > FACTOR_SCALE && e == DomainError::FactorOutOfRange,
            },
    {
        if projection < 0 {
            Ok(IntensityFactor { ppm: 0 })
        } else if projection <= FACTOR_SCALE as i64 {
            Ok(IntensityFactor { ppm: projection as u32 })
        } else {
            Err(DomainError::FactorOutOfRange)
        }
    }

    /// The factor in parts per million.
    pub fn ppm(&self) -> (ppm: u32)
        ensures
            ppm == self@,
            ppm <= FACTOR_SCALE,
    {
        proof {
            use_type_invariant(self);
        }
        self.ppm
    }
}

} // verus!
