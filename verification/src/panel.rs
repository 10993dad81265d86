use vstd::prelude::*;
use crate::irradiance::IntensityFactor;
use crate::irradiance::FACTOR_SCALE;
use crate::site::Location;
use crate::site::Orientation;

verus! {

/// The conditions of the air at a place and time. The output of a panel array
/// does not depend on them yet.
#[derive(Clone, Copy, Debug, PartialEq, Eq, Structural)]
pub struct Weather {}

/// A group of panels at one place that face one way.
#[derive(Clone, Copy, Debug, PartialEq, Eq, Structural)]
pub struct SolarPanelArray {
    /// The number of panels.
    pub size: u32,
    pub location: Location,
    pub orientation: Orientation,
    /// The rated capacity of the whole array, in milliwatts.
    pub nominal_power_mw: u64,
}

/// The power, in nanowatts, of an array rated at `nominal_power_mw` milliwatts
/// under an intensity factor of `factor_ppm` parts per million.
pub open spec fn array_output(nominal_power_mw: nat, factor_ppm: nat) -> nat {
    nominal_power_mw * factor_ppm
}

impl SolarPanelArray {
    /// An array of `size` panels at `location`, facing as `orientation` says,
    /// rated at `nominal_power_mw` milliwatts.
    pub fn new(size: u32, location: Location, orientation: Orientation, nominal_power_mw: u64) -> (array:
        SolarPanelArray)
        ensures
            array == (SolarPanelArray { size, location, orientation, nominal_power_mw }),
    {
        SolarPanelArray { size, location, orientation, nominal_power_mw }
    }

    /// The power that the array delivers under `factor`, in nanowatts: its
    /// rated capacity times the factor, and so never more than its rated
    /// capacity.
    pub fn output(&self, factor: IntensityFactor, _weather: &Weather) -> (power: u128)
        ensures
            power == array_output(self.nominal_power_mw as nat, factor@),
            power <= self.nominal_power_mw * FACTOR_SCALE,
    {
        let ppm: u32 = factor.ppm();
        assert(self.nominal_power_mw * ppm <= self.nominal_power_mw * FACTOR_SCALE
            <= u64::MAX * FACTOR_SCALE) by (nonlinear_arith)
            requires
                ppm <= FACTOR_SCALE,
        ;
        self.nominal_power_mw as u128 * ppm as u128
    }
}

} // verus!
