use vstd::prelude::*;
use crate::error::DomainError;
use crate::irradiance::IntensityFactor;
use crate::panel::array_output;
use crate::panel::SolarPanelArray;
use crate::panel::Weather;

verus! {

/// A source of power. Wind and grid supplies deliver nothing yet.
#[derive(Debug, PartialEq, Eq)]
pub enum Supply {
    Solar { panels: Vec<SolarPanelArray> },
    Wind,
    Grid,
}

/// A consumer of power. It draws nothing yet.
#[derive(Clone, Copy, Debug, PartialEq, Eq, Structural)]
pub struct Load {}

/// A store of energy. It holds nothing yet.
#[derive(Clone, Copy, Debug, PartialEq, Eq, Structural)]
pub struct Storage {}

/// The arrays through which one supply delivers power.
pub open spec fn arrays_of(supply: Supply) -> Seq<SolarPanelArray> {
    match supply {
        Supply::Solar { panels } => panels@,
        Supply::Wind => Seq::empty(),
        Supply::Grid => Seq::empty(),
    }
}

/// The arrays of all solar supplies, in the order of the supplies and, within
/// one supply, of its panels.
pub open spec fn solar_arrays(supplies: Seq<Supply>) -> Seq<SolarPanelArray>
    decreases supplies.len(),
{
    if supplies.len() == 0 {
        Seq::empty()
    } else {
        solar_arrays(supplies.drop_last()) + arrays_of(supplies.last())
    }
}

/// The power, in nanowatts, of the first `n` arrays, the array at each index
/// under the factor at the same index.
pub open spec fn output_sum(
    arrays: Seq<SolarPanelArray>,
    factors: Seq<IntensityFactor>,
    n: nat,
) -> nat
    decreases n,
{
    if n == 0 {
        0
    } else {
        output_sum(arrays, factors, (n - 1) as nat) + array_output(
            arrays[n - 1].nominal_power_mw as nat,
            factors[n - 1]@,
        )
    }
}

/// The power, in nanowatts, of all `arrays` together.
pub open spec fn total_output(arrays: Seq<SolarPanelArray>, factors: Seq<IntensityFactor>) -> nat {
    output_sum(arrays, factors, arrays.len())
}

/// What a tick's readings give for `arrays`: their total power in nanowatts,
/// unless the readings do not match the arrays one for one or the total
/// exceeds 128 bits.
pub open spec fn supply_outcome(
    arrays: Seq<SolarPanelArray>,
    factors: Seq<IntensityFactor>,
) -> Result<u128, DomainError> {
    if arrays.len() != factors.len() {
        Err(DomainError::ReadingCountMismatch)
    } else if total_output(arrays, factors) > u128::MAX {
        Err(DomainError::Overflow)
    } else {
        Ok(total_output(arrays, factors) as u128)
    }
}

/// The arrays of all solar supplies, in order: those for which a tick needs a
/// reading.
pub fn collect_solar_arrays(supplies: &Vec<Supply>) -> (arrays: Vec<SolarPanelArray>)
    ensures
        arrays@ == solar_arrays(supplies@),
{
    let mut arrays: Vec<SolarPanelArray> = Vec::new();
    let mut i: usize = 0;
    while i < supplies.len()
        invariant
            i <= supplies.len(),
            arrays@ == solar_arrays(supplies@.take(i as int)),
        decreases supplies.len() - i,
    {
        proof {
            assert(supplies@.take(i + 1).drop_last() =~= supplies@.take(i as int));
        }
        match &supplies[i] {
            Supply::Solar { panels } => {
                let ghost before = arrays@;
                let mut j: usize = 0;
                while j < panels.len()
                    invariant
                        j <= panels.len(),
                        arrays@ == before + panels@.take(j as int),
                    decreases panels.len() - j,
                {
                    arrays.push(panels[j]);
                    proof {
                        assert(arrays@ =~= before + panels@.take(j + 1));
                    }
                    j = j + 1;
                }
                proof {
                    assert(panels@.take(j as int) =~= panels@);
                }
            },
            Supply::Wind => {
                proof {
                    assert(arrays@ + Seq::<SolarPanelArray>::empty() =~= arrays@);
                }
            },
            Supply::Grid => {
                proof {
                    assert(arrays@ + Seq::<SolarPanelArray>::empty() =~= arrays@);
                }
            },
        }
        i = i + 1;
    }
    proof {
        assert(supplies@.take(i as int) =~= supplies@);
    }
    arrays
}

/// The total power of `arrays`, in nanowatts, the array at each index under
/// the factor at the same index.
pub fn total_power(
    weather: &Weather,
    arrays: &Vec<SolarPanelArray>,
    factors: &Vec<IntensityFactor>,
) -> (power: Result<u128, DomainError>)
    ensures
        power == supply_outcome(arrays@, factors@),
{
    if arrays.len() != factors.len() {
        return Err(DomainError::ReadingCountMismatch);
    }
    let mut total: u128 = 0;
    let mut i: usize = 0;
    while i < arrays.len()
        invariant
            i <= arrays.len(),
            arrays.len() == factors.len(),
            total == output_sum(arrays@, factors@, i as nat),
        decreases arrays.len() - i,
    {
        let output: u128 = arrays[i].output(factors[i], weather);
        match total.checked_add(output) {
            Some(sum) => {
                total = sum;
            },
            None => {
                proof {
                    lemma_output_sum_grows(arrays@, factors@, (i + 1) as nat, arrays@.len());
                }
                return Err(DomainError::Overflow);
            },
        }
        i = i + 1;
    }
    Ok(total)
}

/// The power that `supplies` deliver together at one tick, in nanowatts.
/// `factors` holds the tick's readings, one for each array of
/// `solar_arrays(supplies)`, in that order.
pub fn calculate_supply(
    weather: &Weather,
    supplies: &Vec<Supply>,
    factors: &Vec<IntensityFactor>,
) -> (power: Result<u128, DomainError>)
    ensures
        power == supply_outcome(solar_arrays(supplies@), factors@),
{
    let arrays: Vec<SolarPanelArray> = collect_solar_arrays(supplies);
    total_power(weather, &arrays, factors)
}

/// The power of the first `n` arrays never exceeds that of the first `m`,
/// where `n <= m`.
pub proof fn lemma_output_sum_grows(
    arrays: Seq<SolarPanelArray>,
    factors: Seq<IntensityFactor>,
    n: nat,
    m: nat,
)
    requires
        n <= m,
    ensures
        output_sum(arrays, factors, n) <= output_sum(arrays, factors, m),
    decreases m,
{
    if n < m {
        lemma_output_sum_grows(arrays, factors, n, (m - 1) as nat);
    }
}

/// The first `n` arrays deliver the same whatever follows them, and whatever
/// follows their readings.
pub proof fn lemma_output_sum_of_prefix(
    arrays: Seq<SolarPanelArray>,
    factors: Seq<IntensityFactor>,
    more_arrays: Seq<SolarPanelArray>,
    more_factors: Seq<IntensityFactor>,
    n: nat,
)
    requires
        n <= arrays.len(),
        n <= factors.len(),
    ensures
        output_sum(arrays + more_arrays, factors + more_factors, n) == output_sum(
            arrays,
            factors,
            n,
        ),
    decreases n,
{
    if n > 0 {
        lemma_output_sum_of_prefix(arrays, factors, more_arrays, more_factors, (n - 1) as nat);
    }
}

/// Two groups of arrays, each with its own readings, deliver together the sum
/// of what each delivers alone.
pub proof fn lemma_total_output_is_additive(
    arrays: Seq<SolarPanelArray>,
    factors: Seq<IntensityFactor>,
    more_arrays: Seq<SolarPanelArray>,
    more_factors: Seq<IntensityFactor>,
)
    requires
        arrays.len() == factors.len(),
        more_arrays.len() == more_factors.len(),
    ensures
        total_output(arrays + more_arrays, factors + more_factors) == total_output(arrays, factors)
            + total_output(more_arrays, more_factors),
    decreases more_arrays.len(),
{
    if more_arrays.len() == 0 {
        assert(arrays + more_arrays =~= arrays);
        assert(factors + more_factors =~= factors);
    } else {
        let fewer_arrays = more_arrays.drop_last();
        let fewer_factors = more_factors.drop_last();
        lemma_total_output_is_additive(arrays, factors, fewer_arrays, fewer_factors);
        let all_arrays = arrays + more_arrays;
        let all_factors = factors + more_factors;
        let m = (all_arrays.len() - 1) as nat;
        assert(all_arrays =~= (arrays + fewer_arrays).push(more_arrays.last()));
        assert(all_factors =~= (factors + fewer_factors).push(more_factors.last()));
        lemma_output_sum_of_prefix(
            arrays + fewer_arrays,
            factors + fewer_factors,
            seq![more_arrays.last()],
            seq![more_factors.last()],
            m,
        );
        assert((arrays + fewer_arrays) + seq![more_arrays.last()] =~= all_arrays);
        assert((factors + fewer_factors) + seq![more_factors.last()] =~= all_factors);
        lemma_output_sum_of_prefix(
            fewer_arrays,
            fewer_factors,
            seq![more_arrays.last()],
            seq![more_factors.last()],
            fewer_arrays.len(),
        );
        assert(fewer_arrays + seq![more_arrays.last()] =~= more_arrays);
        assert(fewer_factors + seq![more_factors.last()] =~= more_factors);
    }
}

/// Adding a solar supply to the end of `supplies`, with a reading for each of
/// its panels, adds what its panels deliver to the total and so never
/// decreases it; a panel of the new supply with a positive output increases
/// it.
pub proof fn lemma_adding_solar_supply_never_decreases_total(
    supplies: Seq<Supply>,
    factors: Seq<IntensityFactor>,
    panels: Vec<SolarPanelArray>,
    panel_factors: Seq<IntensityFactor>,
)
    requires
        solar_arrays(supplies).len() == factors.len(),
        panels@.len() == panel_factors.len(),
    ensures
        solar_arrays(supplies.push(Supply::Solar { panels })) == solar_arrays(supplies) + panels@,
        total_output(
            solar_arrays(supplies.push(Supply::Solar { panels })),
            factors + panel_factors,
        ) == total_output(solar_arrays(supplies), factors) + total_output(panels@, panel_factors),
        total_output(
            solar_arrays(supplies.push(Supply::Solar { panels })),
            factors + panel_factors,
        ) >= total_output(solar_arrays(supplies), factors),
        forall|k: int|
            0 <= k < panels@.len() && array_output(
                panels@[k].nominal_power_mw as nat,
                #[trigger] panel_factors[k]@,
            ) > 0 ==> total_output(
                solar_arrays(supplies.push(Supply::Solar { panels })),
                factors + panel_factors,
            ) > total_output(solar_arrays(supplies), factors),
{
    let extended = supplies.push(Supply::Solar { panels });
    assert(extended.drop_last() =~= supplies);
    assert(extended.last() == Supply::Solar { panels });
    lemma_total_output_is_additive(solar_arrays(supplies), factors, panels@, panel_factors);
    assert forall|k: int|
        0 <= k < panels@.len() && array_output(
            panels@[k].nominal_power_mw as nat,
            #[trigger] panel_factors[k]@,
        ) > 0 implies total_output(panels@, panel_factors) > 0 by {
        lemma_output_sum_grows(panels@, panel_factors, (k + 1) as nat, panels@.len());
    }
}

/// A wind or grid supply changes neither the arrays that need a reading nor
/// the total.
pub proof fn lemma_wind_and_grid_deliver_nothing(supplies: Seq<Supply>, supply: Supply)
    requires
        supply is Wind || supply is Grid,
    ensures
        solar_arrays(supplies.push(supply)) == solar_arrays(supplies),
{
    assert(supplies.push(supply).drop_last() =~= supplies);
    assert(solar_arrays(supplies) + Seq::<SolarPanelArray>::empty() =~= solar_arrays(supplies));
}

} // verus!
