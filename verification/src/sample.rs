use vstd::prelude::*;
use crate::error::DomainError;
use crate::error::EvaluationError;
use crate::error::ValidationError;
use crate::irradiance::IntensityFactor;
use crate::panel::SolarPanelArray;
use crate::panel::Weather;
use crate::supply::collect_solar_arrays;
use crate::supply::solar_arrays;
use crate::supply::supply_outcome;
use crate::supply::total_power;
use crate::supply::Load;
use crate::supply::Storage;
use crate::supply::Supply;
use crate::time::Timestamp;

verus! {

/// The state of the site at one tick: the power supplied, drawn and stored, in
/// nanowatts.
#[derive(Clone, Copy, Debug, PartialEq, Eq, Structural)]
pub struct SimulationSample {
    pub timestamp: Timestamp,
    pub total_supply_nw: u128,
    pub total_load_nw: u128,
    pub total_storage_nw: u128,
}

/// The sample of the tick at `time`, in nanoseconds since the Unix epoch, at
/// which the supplies deliver `supply` nanowatts: loads draw nothing and
/// stores hold nothing.
pub open spec fn sample_at(time: int, supply: u128) -> SimulationSample {
    SimulationSample {
        timestamp: Timestamp { nanos: time as i64 },
        total_supply_nw: supply,
        total_load_nw: 0,
        total_storage_nw: 0,
    }
}

/// The power that `loads` draw together, in nanowatts: nothing yet.
pub fn calculate_load(loads: &Vec<Load>) -> (power: u128)
    ensures
        power == 0,
{
    0
}

/// The power that flows into `stores` together, in nanowatts: nothing yet.
pub fn calculate_storage(stores: &Vec<Storage>) -> (power: u128)
    ensures
        power == 0,
{
    0
}

/// The state of the site at `time_point`. `factors` holds the readings of that
/// instant, one for each array of `solar_arrays(supplies)`, in that order.
pub fn evaluate_at_time_point(
    time_point: Timestamp,
    weather: &Weather,
    supplies: &Vec<Supply>,
    loads: &Vec<Load>,
    stores: &Vec<Storage>,
    factors: &Vec<IntensityFactor>,
) -> (sample: Result<SimulationSample, EvaluationError>)
    ensures
        sample == match supply_outcome(solar_arrays(supplies@), factors@) {
            Ok(power) => Ok::<SimulationSample, EvaluationError>(sample_at(time_point@, power)),
            Err(e) => Err(EvaluationError::Domain(e)),
        },
{
    let arrays: Vec<SolarPanelArray> = collect_solar_arrays(supplies);
    sample_arrays(time_point, weather, &arrays, loads, stores, factors)
}

/// The state at `time_point` of a site whose solar supplies hold `arrays`.
pub fn sample_arrays(
    time_point: Timestamp,
    weather: &Weather,
    arrays: &Vec<SolarPanelArray>,
    loads: &Vec<Load>,
    stores: &Vec<Storage>,
    factors: &Vec<IntensityFactor>,
) -> (sample: Result<SimulationSample, EvaluationError>)
    ensures
        sample == match supply_outcome(arrays@, factors@) {
            Ok(power) => Ok::<SimulationSample, EvaluationError>(sample_at(time_point@, power)),
            Err(e) => Err(EvaluationError::Domain(e)),
        },
{
    match total_power(weather, arrays, factors) {
        Ok(power) => Ok(
            SimulationSample {
                timestamp: time_point,
                total_supply_nw: power,
                total_load_nw: calculate_load(loads),
                total_storage_nw: calculate_storage(stores),
            },
        ),
        Err(e) => Err(EvaluationError::Domain(e)),
    }
}

/// The energy, in nanowatt-nanoseconds, that the supplies deliver over the
/// first `n` samples where each sample stands for `step` nanoseconds.
pub open spec fn energy_sum(samples: Seq<SimulationSample>, step: int, n: nat) -> int
    decreases n,
{
    if n == 0 {
        0
    } else {
        energy_sum(samples, step, (n - 1) as nat) + samples[n - 1].total_supply_nw * step
    }
}

/// What the energy of a series is: refused where the step is not positive or
/// the energy exceeds 128 bits.
pub open spec fn energy_outcome(samples: Seq<SimulationSample>, step: int) -> Result<
    u128,
    EvaluationError,
> {
    if step <= 0 {
        Err(EvaluationError::Validation(ValidationError::NonPositiveStep))
    } else if energy_sum(samples, step, samples.len()) > u128::MAX {
        Err(EvaluationError::Domain(DomainError::Overflow))
    } else {
        Ok(energy_sum(samples, step, samples.len()) as u128)
    }
}

/// The energy that the supplies deliver over a series of samples taken `step`
/// nanoseconds apart, in nanowatt-nanoseconds: the sum over the samples of
/// power times step.
pub fn total_energy(samples: &Vec<SimulationSample>, step: i64) -> (energy: Result<
    u128,
    EvaluationError,
>)
    ensures
        energy == energy_outcome(samples@, step as int),
{
    if step <= 0 {
        return Err(EvaluationError::Validation(ValidationError::NonPositiveStep));
    }
    let mut total: u128 = 0;
    let mut i: usize = 0;
    while i < samples.len()
        invariant
            i <= samples.len(),
            step > 0,
            total == energy_sum(samples@, step as int, i as nat),
        decreases samples.len() - i,
    {
        let sum: Option<u128> = match samples[i].total_supply_nw.checked_mul(step as u128) {
            Some(energy) => total.checked_add(energy),
            None => None,
        };
        match sum {
            Some(sum) => {
                total = sum;
            },
            None => {
                proof {
                    lemma_energy_sum_grows(samples@, step as int, (i + 1) as nat, samples@.len());
                }
                return Err(EvaluationError::Domain(DomainError::Overflow));
            },
        }
        i = i + 1;
    }
    Ok(total)
}

/// Under a positive step the energy of the first `n` samples never exceeds
/// that of the first `m`, where `n <= m`.
pub proof fn lemma_energy_sum_grows(samples: Seq<SimulationSample>, step: int, n: nat, m: nat)
    requires
        step > 0,
        n <= m,
    ensures
        0 <= energy_sum(samples, step, n) <= energy_sum(samples, step, m),
    decreases m,
{
    if m > 0 {
        assert(samples[m - 1].total_supply_nw * step >= 0) by (nonlinear_arith)
            requires
                samples[m - 1].total_supply_nw >= 0,
                step > 0,
        ;
    }
    if n < m {
        lemma_energy_sum_grows(samples, step, n, (m - 1) as nat);
    } else if n > 0 {
        lemma_energy_sum_grows(samples, step, (n - 1) as nat, (m - 1) as nat);
    }
}

} // verus!
