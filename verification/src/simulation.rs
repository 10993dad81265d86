use vstd::prelude::*;
use crate::clock::collect_ticks;
use crate::clock::lemma_ticks_cover_run;
use crate::clock::run_end;
use crate::clock::tick_count;
use crate::clock::ticks;
use crate::clock::SimulationClock;
use crate::config::Configuration;
use crate::error::DomainError;
use crate::error::EvaluationError;
use crate::error::ValidationError;
use crate::irradiance::IntensityFactor;
use crate::panel::SolarPanelArray;
use crate::panel::Weather;
use crate::sample::sample_arrays;
use crate::sample::sample_at;
use crate::sample::SimulationSample;
use crate::supply::collect_solar_arrays;
use crate::supply::solar_arrays;
use crate::supply::supply_outcome;
use crate::time::Timestamp;

verus! {

/// The step between two ticks of a run where nothing else is asked for: two
/// minutes, in nanoseconds.
pub const DEFAULT_STEP_NANOS: i64 = 120_000_000_000;

/// Where a run stands.
#[derive(Clone, Copy, Debug, PartialEq, Eq, Structural)]
pub enum Phase {
    /// The run has not begun.
    Idle,
    /// A tick awaits its readings.
    Running,
    /// Every tick has its sample.
    Completed,
}

/// What a `Simulation` stands for.
pub struct SimulationState {
    pub phase: Phase,
    /// The arrays for which each tick needs a reading, in order.
    pub arrays: Seq<SolarPanelArray>,
    /// The ticks of the whole run, in nanoseconds since the Unix epoch.
    pub planned: Seq<int>,
    /// The samples of the ticks evaluated so far, earliest first.
    pub samples: Seq<SimulationSample>,
}

impl SimulationState {
    /// The state after the run is begun: an idle run is running, any other
    /// is as it was.
    pub open spec fn run(self) -> SimulationState {
        SimulationState {
            phase: if self.phase is Idle {
                Phase::Running
            } else {
                self.phase
            },
            ..self
        }
    }

    /// The state after `readings` are taken for the pending tick. A running
    /// run gains the sample of that tick, and is completed with its last
    /// tick; readings that give no total end it with their error. A run that
    /// is not running is as it was.
    pub open spec fn record(self, readings: Seq<IntensityFactor>) -> Result<
        SimulationState,
        EvaluationError,
    > {
        if !(self.phase is Running) {
            Ok(self)
        } else {
            match supply_outcome(self.arrays, readings) {
                Err(e) => Err(EvaluationError::Domain(e)),
                Ok(power) => Ok(
                    SimulationState {
                        phase: if self.samples.len() + 1 == self.planned.len() {
                            Phase::Completed
                        } else {
                            Phase::Running
                        },
                        samples: self.samples.push(
                            sample_at(self.planned[self.samples.len() as int], power),
                        ),
                        ..self
                    },
                ),
            }
        }
    }
}

/// A run in progress: it asks for the readings of one tick after the other
/// and collects the samples.
pub struct Simulation {
    cfg: Configuration,
    arrays: Vec<SolarPanelArray>,
    clock: SimulationClock,
    series: Vec<SimulationSample>,
    running: bool,
    planned: Ghost<Seq<int>>,
}

impl View for Simulation {
    type V = SimulationState;

    closed spec fn view(&self) -> SimulationState {
        SimulationState {
            phase: if !self.running {
                Phase::Idle
            } else if self.series@.len() < self.planned@.len() {
                Phase::Running
            } else {
                Phase::Completed
            },
            arrays: self.arrays@,
            planned: self.planned@,
            samples: self.series@,
        }
    }
}

impl Simulation {
    #[verifier::type_invariant]
    spec fn coherent(&self) -> bool {
        &&& self.arrays@ == solar_arrays(self.cfg.supplies@)
        &&& self.planned@.len() > 0
        &&& self.series@.len() <= self.planned@.len()
        &&& self.clock@ == self.planned@.skip(self.series@.len() as int)
        &&& !self.running ==> self.series@.len() == 0
        &&& forall|i: int, j: int|
            0 <= i < j < self.planned@.len() ==> #[trigger] self.planned@[i]
                < #[trigger] self.planned@[j]
        &&& forall|k: int|
            0 <= k < self.series@.len() ==> (#[trigger] self.series@[k]).timestamp@
                == self.planned@[k]
    }

    /// A run of `cfg` that begins at `start`, with ticks `step` nanoseconds
    /// apart, before its first tick.
    pub fn new(cfg: Configuration, start: Timestamp, step: i64) -> (simulation: Result<
        Simulation,
        ValidationError,
    >)
        ensures
            simulation is Ok <==> cfg.run_length_days > 0 && step > 0 && run_end(
                start@,
                cfg.run_length_days as int,
            ) <= i64::MAX,
            match simulation {
                Ok(s) => s@ == (SimulationState {
                    phase: Phase::Idle,
                    arrays: solar_arrays(cfg.supplies@),
                    planned: ticks(start@, run_end(start@, cfg.run_length_days as int), step as int),
                    samples: Seq::empty(),
                }),
                Err(e) => e == if cfg.run_length_days == 0 {
                    ValidationError::ZeroRunLength
                } else if step <= 0 {
                    ValidationError::NonPositiveStep
                } else {
                    ValidationError::HorizonOutOfRange
                },
            },
    {
        match SimulationClock::for_run(start, cfg.run_length_days, step) {
            Err(e) => Err(e),
            Ok(clock) => {
                let arrays: Vec<SolarPanelArray> = collect_solar_arrays(&cfg.supplies);
                let ghost end = run_end(start@, cfg.run_length_days as int);
                proof {
                    assert(start@ <= end) by (nonlinear_arith)
                        requires
                            end == start@ + cfg.run_length_days * crate::time::NANOS_PER_DAY,
                            cfg.run_length_days > 0,
                    ;
                    lemma_ticks_cover_run(start@, end, step as int);
                    assert(clock@.skip(0) =~= clock@);
                }
                Ok(
                    Simulation {
                        cfg,
                        arrays,
                        clock,
                        series: Vec::new(),
                        running: false,
                        planned: Ghost(ticks(start@, end, step as int)),
                    },
                )
            },
        }
    }

    /// Where the run stands. Whatever the phase, the samples taken so far
    /// stand for the first of the planned ticks, in order, and a run that is
    /// idle has none.
    pub fn phase(&self) -> (phase: Phase)
        ensures
            phase == self@.phase,
            self@.planned.len() > 0,
            self@.samples.len() <= self@.planned.len(),
            phase is Idle ==> self@.samples.len() == 0,
            phase is Running ==> self@.samples.len() < self@.planned.len(),
            phase is Completed ==> self@.samples.len() == self@.planned.len(),
            forall|k: int|
                0 <= k < self@.samples.len() ==> (#[trigger] self@.samples[k]).timestamp@
                    == self@.planned[k],
            forall|i: int, j: int|
                0 <= i < j < self@.samples.len() ==> (#[trigger] self@.samples[i]).timestamp@ < (
                #[trigger] self@.samples[j]).timestamp@,
    {
        proof {
            use_type_invariant(self);
        }
        if !self.running {
            Phase::Idle
        } else if self.clock.peek().is_some() {
            Phase::Running
        } else {
            Phase::Completed
        }
    }

    /// Begins the run: an idle run now awaits the readings of its first
    /// tick. A run that has begun is left as it is.
    pub fn run(self) -> (begun: Simulation)
        ensures
            begun@ == self@.run(),
    {
        proof {
            use_type_invariant(&self);
        }
        let Simulation { cfg, arrays, clock, series, running, planned } = self;
        Simulation { cfg, arrays, clock, series, running: true, planned }
    }

    /// The tick that awaits its readings, while the run is running.
    pub fn pending(&self) -> (tick: Option<Timestamp>)
        ensures
            match tick {
                Some(t) => self@.phase is Running && t@ == self@.planned[self@.samples.len() as int],
                None => !(self@.phase is Running),
            },
    {
        proof {
            use_type_invariant(self);
        }
        if self.running {
            self.clock.peek()
        } else {
            None
        }
    }

    /// How many ticks have no sample yet.
    pub fn remaining(&self) -> (count: u128)
        ensures
            count == self@.planned.len() - self@.samples.len(),
    {
        proof {
            use_type_invariant(self);
        }
        self.clock.remaining()
    }

    /// Takes the readings of the pending tick, one for each array in order,
    /// and adds the sample of that tick; with the last tick the run is
    /// completed. Readings that give no total end the run. A run that is not
    /// running is left as it is.
    pub fn record(self, readings: &Vec<IntensityFactor>) -> (next: Result<
        Simulation,
        EvaluationError,
    >)
        ensures
            match next {
                Ok(after) => self@.record(readings@) == Ok::<SimulationState, EvaluationError>(
                    after@,
                ),
                Err(e) => self@.record(readings@) == Err::<SimulationState, EvaluationError>(e),
            },
    {
        proof {
            use_type_invariant(&self);
        }
        if !self.running {
            return Ok(self);
        }
        let Simulation { cfg, arrays, mut clock, mut series, running, planned } = self;
        let ghost before = clock@;
        match clock.next() {
            None => Ok(Simulation { cfg, arrays, clock, series, running, planned }),
            Some(time_point) => {
                let weather = Weather {  };
                match sample_arrays(
                    time_point,
                    &weather,
                    &arrays,
                    &cfg.loads,
                    &cfg.stores,
                    readings,
                ) {
                    Err(e) => Err(e),
                    Ok(sample) => {
                        proof {
                            assert(before.drop_first() =~= planned@.skip(series@.len() as int + 1));
                        }
                        series.push(sample);
                        Ok(Simulation { cfg, arrays, clock, series, running, planned })
                    },
                }
            },
        }
    }

    /// The samples of the run, one for each planned tick and earliest first,
    /// once it is completed.
    pub fn finish(self) -> (samples: Option<Vec<SimulationSample>>)
        ensures
            match samples {
                Some(series) => {
                    &&& self@.phase is Completed
                    &&& series@ == self@.samples
                    &&& series@.len() == self@.planned.len()
                    &&& forall|k: int|
                        0 <= k < series@.len() ==> (#[trigger] series@[k]).timestamp@
                            == self@.planned[k]
                },
                None => !(self@.phase is Completed),
            },
    {
        proof {
            use_type_invariant(&self);
        }
        if self.running && self.clock.peek().is_none() {
            Some(self.series)
        } else {
            None
        }
    }
}

/// The samples of the first `n` ticks of a run that begins at `start` with
/// ticks `step` apart, where row `k` of `table` holds the readings of tick
/// `k`; or the error of the earliest of these ticks that has one.
pub open spec fn run_samples(
    start: int,
    step: int,
    arrays: Seq<SolarPanelArray>,
    table: Seq<Vec<IntensityFactor>>,
    n: nat,
) -> Result<Seq<SimulationSample>, DomainError>
    decreases n,
{
    if n == 0 {
        Ok(Seq::empty())
    } else {
        match run_samples(start, step, arrays, table, (n - 1) as nat) {
            Err(e) => Err(e),
            Ok(earlier) => match supply_outcome(arrays, table[n - 1]@) {
                Err(e) => Err(e),
                Ok(power) => Ok(earlier.push(sample_at(start + (n - 1) * step, power))),
            },
        }
    }
}

/// What a run gives. The run is refused where it covers no day, where its
/// step is not positive, or where its end is no timestamp; then where `table`
/// does not hold one row for each tick; then the ticks are sampled in order.
pub open spec fn run_outcome(
    cfg: Configuration,
    start: int,
    step: int,
    table: Seq<Vec<IntensityFactor>>,
) -> Result<Seq<SimulationSample>, EvaluationError> {
    let end = run_end(start, cfg.run_length_days as int);
    if cfg.run_length_days == 0 {
        Err(EvaluationError::Validation(ValidationError::ZeroRunLength))
    } else if step <= 0 {
        Err(EvaluationError::Validation(ValidationError::NonPositiveStep))
    } else if end > i64::MAX {
        Err(EvaluationError::Validation(ValidationError::HorizonOutOfRange))
    } else if table.len() != tick_count(start, end, step) {
        Err(EvaluationError::Domain(DomainError::ReadingCountMismatch))
    } else {
        match run_samples(start, step, solar_arrays(cfg.supplies@), table, table.len()) {
            Ok(samples) => Ok(samples),
            Err(e) => Err(EvaluationError::Domain(e)),
        }
    }
}

/// The instants at which a run of `cfg` that begins at `start` is sampled,
/// earliest first: those for which `evaluate` needs a row of readings.
pub fn schedule(cfg: &Configuration, start: Timestamp, step: i64) -> (instants: Result<
    Vec<Timestamp>,
    ValidationError,
>)
    ensures
        instants is Ok <==> cfg.run_length_days > 0 && step > 0 && run_end(
            start@,
            cfg.run_length_days as int,
        ) <= i64::MAX,
        match instants {
            Ok(all) => {
                let planned = ticks(start@, run_end(start@, cfg.run_length_days as int), step as int);
                &&& all@.len() == planned.len()
                &&& forall|k: int| 0 <= k < all@.len() ==> all@[k]@ == planned[k]
            },
            Err(e) => e == if cfg.run_length_days == 0 {
                ValidationError::ZeroRunLength
            } else if step <= 0 {
                ValidationError::NonPositiveStep
            } else {
                ValidationError::HorizonOutOfRange
            },
        },
{
    match SimulationClock::for_run(start, cfg.run_length_days, step) {
        Ok(clock) => Ok(collect_ticks(clock)),
        Err(e) => Err(e),
    }
}

/// Runs `cfg` from `start` with ticks `step` nanoseconds apart and returns one
/// sample for each tick, earliest first. Row `k` of `irradiance` holds the
/// readings of tick `k`, one for each array of `solar_arrays(cfg.supplies)`,
/// in that order.
pub fn evaluate(
    cfg: Configuration,
    start: Timestamp,
    step: i64,
    irradiance: &Vec<Vec<IntensityFactor>>,
) -> (samples: Result<Vec<SimulationSample>, EvaluationError>)
    ensures
        match samples {
            Ok(series) => run_outcome(cfg, start@, step as int, irradiance@) == Ok::<
                Seq<SimulationSample>,
                EvaluationError,
            >(series@),
            Err(e) => run_outcome(cfg, start@, step as int, irradiance@) == Err::<
                Seq<SimulationSample>,
                EvaluationError,
            >(e),
        },
{
    let idle: Simulation = match Simulation::new(cfg, start, step) {
        Ok(simulation) => simulation,
        Err(e) => {
            return Err(EvaluationError::Validation(e));
        },
    };
    if idle.remaining() != irradiance.len() as u128 {
        return Err(EvaluationError::Domain(DomainError::ReadingCountMismatch));
    }
    let ghost end = run_end(start@, cfg.run_length_days as int);
    let ghost planned = ticks(start@, end, step as int);
    let ghost arrays = solar_arrays(cfg.supplies@);
    let mut simulation: Simulation = idle.run();
    let mut k: usize = 0;
    while k < irradiance.len()
        invariant
            k <= irradiance.len(),
            cfg.run_length_days > 0,
            step > 0,
            end == run_end(start@, cfg.run_length_days as int),
            end <= i64::MAX,
            planned == ticks(start@, end, step as int),
            planned.len() == irradiance.len(),
            arrays == solar_arrays(cfg.supplies@),
            simulation@.arrays == arrays,
            simulation@.planned == planned,
            simulation@.samples.len() == k,
            !(simulation@.phase is Idle),
            simulation@.phase is Running <==> k < planned.len(),
            run_samples(start@, step as int, arrays, irradiance@, k as nat) == Ok::<
                Seq<SimulationSample>,
                DomainError,
            >(simulation@.samples),
        decreases irradiance.len() - k,
    {
        proof {
            assert(planned[k as int] == start@ + k * step);
        }
        match simulation.record(&irradiance[k]) {
            Ok(next) => {
                simulation = next;
            },
            Err(e) => {
                proof {
                    assert(run_samples(start@, step as int, arrays, irradiance@, (k + 1) as nat)
                        is Err);
                    lemma_run_samples_fail_for_good(
                        start@,
                        step as int,
                        arrays,
                        irradiance@,
                        (k + 1) as nat,
                        irradiance@.len(),
                    );
                }
                return Err(e);
            },
        }
        k = k + 1;
    }
    match simulation.finish() {
        Some(series) => Ok(series),
        None => Err(EvaluationError::Domain(DomainError::ReadingCountMismatch)),
    }
}

/// The samples of a run, where there are any, are one for each tick: sample
/// `k` is taken at `start + k * step` and holds what the supplies deliver
/// under row `k` of the table, while loads and stores hold nothing.
pub proof fn lemma_run_samples_follow_ticks(
    start: int,
    step: int,
    arrays: Seq<SolarPanelArray>,
    table: Seq<Vec<IntensityFactor>>,
    n: nat,
)
    requires
        run_samples(start, step, arrays, table, n) is Ok,
    ensures
        run_samples(start, step, arrays, table, n).unwrap().len() == n,
        forall|k: int|
            0 <= k < n ==> supply_outcome(arrays, #[trigger] table[k]@) is Ok && run_samples(
                start,
                step,
                arrays,
                table,
                n,
            ).unwrap()[k] == sample_at(start + k * step, supply_outcome(arrays, table[k]@).unwrap()),
    decreases n,
{
    if n > 0 {
        lemma_run_samples_follow_ticks(start, step, arrays, table, (n - 1) as nat);
    }
}

/// The samples of a run are in the order of time: where the ticks are
/// timestamps and the step is positive, each sample is taken strictly later
/// than the one before it.
pub proof fn lemma_run_samples_in_time_order(
    start: int,
    step: int,
    arrays: Seq<SolarPanelArray>,
    table: Seq<Vec<IntensityFactor>>,
    n: nat,
)
    requires
        run_samples(start, step, arrays, table, n) is Ok,
        step > 0,
        i64::MIN <= start,
        n > 0 ==> start + (n - 1) * step <= i64::MAX,
    ensures
        forall|i: int, j: int|
            0 <= i < j < n ==> #[trigger] run_samples(
                start,
                step,
                arrays,
                table,
                n,
            ).unwrap()[i].timestamp@ < #[trigger] run_samples(
                start,
                step,
                arrays,
                table,
                n,
            ).unwrap()[j].timestamp@,
{
    lemma_run_samples_follow_ticks(start, step, arrays, table, n);
    let series = run_samples(start, step, arrays, table, n).unwrap();
    assert forall|i: int, j: int| 0 <= i < j < n implies #[trigger] series[i].timestamp@
        < #[trigger] series[j].timestamp@ by {
        assert(supply_outcome(arrays, table[i]@) is Ok);
        assert(supply_outcome(arrays, table[j]@) is Ok);
        assert(0 <= i * step < j * step <= (n - 1) * step) by (nonlinear_arith)
            requires
                0 <= i < j < n,
                step > 0,
        ;
    }
}

/// Once one of the first `n` ticks has an error, a longer run reports the
/// same error.
pub proof fn lemma_run_samples_fail_for_good(
    start: int,
    step: int,
    arrays: Seq<SolarPanelArray>,
    table: Seq<Vec<IntensityFactor>>,
    n: nat,
    m: nat,
)
    requires
        n <= m,
        run_samples(start, step, arrays, table, n) is Err,
    ensures
        run_samples(start, step, arrays, table, m) == run_samples(start, step, arrays, table, n),
    decreases m,
{
    if n < m {
        lemma_run_samples_fail_for_good(start, step, arrays, table, n, (m - 1) as nat);
    }
}

} // verus!
