use vstd::prelude::*;
use crate::error::ValidationError;
use crate::time::Timestamp;
use crate::time::NANOS_PER_DAY;

verus! {

/// How many ticks lie in `[start, end]` when they begin at `start` and follow
/// each other `step` apart.
pub open spec fn tick_count(start: int, end: int, step: int) -> nat {
    if step > 0 && start <= end {
        ((end - start) / step + 1) as nat
    } else {
        0
    }
}

/// The ticks of `[start, end]`, in nanoseconds since the Unix epoch: the first
/// is `start`, each later one lies `step` after the one before it, and none
/// lies after `end`.
pub open spec fn ticks(start: int, end: int, step: int) -> Seq<int> {
    Seq::new(tick_count(start, end, step), |k: int| start + k * step)
}

/// The instant at which a run of `days` days that begins at `start` ends.
pub open spec fn run_end(start: int, days: int) -> int {
    start + days * NANOS_PER_DAY
}

/// A finite, evenly spaced sequence of timestamps, handed out one at a time.
pub struct SimulationClock {
    cursor: Option<i64>,
    end: i64,
    step: i64,
}

impl View for SimulationClock {
    type V = Seq<int>;

    /// The ticks that have not been handed out yet, earliest first.
    closed spec fn view(&self) -> Seq<int> {
        match self.cursor {
            Some(c) => ticks(c as int, self.end as int, self.step as int),
            None => Seq::empty(),
        }
    }
}

impl SimulationClock {
    #[verifier::type_invariant]
    spec fn advances(&self) -> bool {
        self.step > 0
    }

    /// The clock whose ticks are `ticks(start, end, step)`.
    pub fn new(start: Timestamp, end: Timestamp, step: i64) -> (clock: Result<
        SimulationClock,
        ValidationError,
    >)
        ensures
            match clock {
                Ok(c) => step > 0 && c@ == ticks(start@, end@, step as int),
                Err(e) => step <= 0 && e == ValidationError::NonPositiveStep,
            },
    {
        if step <= 0 {
            Err(ValidationError::NonPositiveStep)
        } else {
            Ok(SimulationClock { cursor: Some(start.nanos), end: end.nanos, step })
        }
    }

    /// The clock of a run of `run_length_days` days that begins at `start`.
    pub fn for_run(start: Timestamp, run_length_days: u64, step: i64) -> (clock: Result<
        SimulationClock,
        ValidationError,
    >)
        ensures
            clock is Ok <==> run_length_days > 0 && step > 0 && run_end(
                start@,
                run_length_days as int,
            ) <= i64::MAX,
            match clock {
                Ok(c) => c@ == ticks(start@, run_end(start@, run_length_days as int), step as int),
                Err(e) => e == if run_length_days == 0 {
                    ValidationError::ZeroRunLength
                } else if step <= 0 {
                    ValidationError::NonPositiveStep
                } else {
                    ValidationError::HorizonOutOfRange
                },
            },
    {
        if run_length_days == 0 {
            return Err(ValidationError::ZeroRunLength);
        }
        if step <= 0 {
            return Err(ValidationError::NonPositiveStep);
        }
        assert(0 <= run_length_days * NANOS_PER_DAY <= u64::MAX * NANOS_PER_DAY) by (nonlinear_arith);
        let end: i128 = start.nanos as i128 + run_length_days as i128 * NANOS_PER_DAY as i128;
        if end > i64::MAX as i128 {
            return Err(ValidationError::HorizonOutOfRange);
        }
        Ok(SimulationClock { cursor: Some(start.nanos), end: end as i64, step })
    }

    /// How many ticks have not been handed out yet.
    pub fn remaining(&self) -> (count: u128)
        ensures
            count == self@.len(),
    {
        proof {
            use_type_invariant(self);
        }
        match self.cursor {
            None => 0,
            Some(c) => {
                if c <= self.end {
                    let span: i128 = self.end as i128 - c as i128;
                    let whole: i128 = span / self.step as i128;
                    assert(0 <= whole <= span) by (nonlinear_arith)
                        requires
                            whole == (span as int) / (self.step as int),
                            span >= 0,
                            self.step > 0,
                    ;
                    (whole + 1) as u128
                } else {
                    0
                }
            },
        }
    }

    /// The earliest remaining tick, if there is one; it stays in the clock.
    pub fn peek(&self) -> (tick: Option<Timestamp>)
        ensures
            match tick {
                Some(t) => self@.len() > 0 && t@ == self@[0],
                None => self@.len() == 0,
            },
    {
        proof {
            use_type_invariant(self);
        }
        match self.cursor {
            None => None,
            Some(c) => {
                if c <= self.end {
                    proof {
                        lemma_ticks_unfold(c as int, self.end as int, self.step as int);
                    }
                    Some(Timestamp { nanos: c })
                } else {
                    None
                }
            },
        }
    }

    /// Hands out the earliest remaining tick, if there is one.
    pub fn next(&mut self) -> (tick: Option<Timestamp>)
        ensures
            match tick {
                Some(t) => old(self)@.len() > 0 && t@ == old(self)@[0] && final(self)@ == old(
                    self,
                )@.drop_first(),
                None => old(self)@.len() == 0 && final(self)@ == old(self)@,
            },
    {
        proof {
            use_type_invariant(&*self);
        }
        match self.cursor {
            None => None,
            Some(c) => {
                if c <= self.end {
                    let next: Option<i64> = c.checked_add(self.step);
                    proof {
                        lemma_ticks_unfold(c as int, self.end as int, self.step as int);
                        if next.is_none() {
                            assert(ticks(c as int, self.end as int, self.step as int).drop_first()
                                =~= Seq::<int>::empty());
                        }
                    }
                    self.cursor = next;
                    Some(Timestamp { nanos: c })
                } else {
                    None
                }
            },
        }
    }
}

/// Every remaining tick of `clock`, earliest first.
pub fn collect_ticks(clock: SimulationClock) -> (all: Vec<Timestamp>)
    ensures
        all@.len() == clock@.len(),
        forall|k: int| 0 <= k < all@.len() ==> all@[k]@ == clock@[k],
{
    let mut clock = clock;
    let mut all: Vec<Timestamp> = Vec::new();
    let ghost whole = clock@;
    loop
        invariant
            all@.len() + clock@.len() == whole.len(),
            clock@ == whole.skip(all@.len() as int),
            forall|k: int| 0 <= k < all@.len() ==> all@[k]@ == whole[k],
        ensures
            all@.len() == whole.len(),
            forall|k: int| 0 <= k < all@.len() ==> all@[k]@ == whole[k],
        decreases clock@.len(),
    {
        let ghost before = clock@;
        match clock.next() {
            None => {
                break ;
            },
            Some(t) => {
                proof {
                    assert(before.drop_first() =~= whole.skip(all@.len() as int + 1));
                }
                all.push(t);
            },
        }
    }
    all
}

/// A non-empty tick sequence is its first tick followed by the ticks that
/// begin one step later.
pub proof fn lemma_ticks_unfold(start: int, end: int, step: int)
    requires
        step > 0,
        start <= end,
    ensures
        ticks(start, end, step).len() > 0,
        ticks(start, end, step)[0] == start,
        ticks(start, end, step).drop_first() == ticks(start + step, end, step),
        start + step > end ==> ticks(start, end, step).len() == 1,
{
    let n = tick_count(start, end, step);
    let m = tick_count(start + step, end, step);
    assert((end - start) / step >= 0 && (start + step <= end ==> (end - start - step) / step == (end
        - start) / step - 1) && (start + step > end ==> (end - start) / step == 0))
        by (nonlinear_arith)
        requires
            step > 0,
            start <= end,
    ;
    assert(n == m + 1);
    assert(start + 0 * step == start);
    assert forall|k: int| 0 <= k < m implies #[trigger] ticks(start, end, step).drop_first()[k]
        == ticks(start + step, end, step)[k] by {
        assert(start + (k + 1) * step == start + step + k * step) by (nonlinear_arith);
    }
    assert(ticks(start, end, step).drop_first() =~= ticks(start + step, end, step));
}

/// From `start` to `end` inclusive there are `floor((end - start) / step) + 1`
/// ticks; the first is `start`, consecutive ticks lie exactly `step` apart, the
/// sequence is strictly increasing and stays within `[start, end]`, no further
/// tick would fit before `end`, and a tick that falls exactly on `end` is
/// included.
pub proof fn lemma_ticks_cover_run(start: int, end: int, step: int)
    requires
        step > 0,
        start <= end,
    ensures
        ticks(start, end, step).len() == (end - start) / step + 1,
        ticks(start, end, step)[0] == start,
        forall|k: int|
            0 <= k < ticks(start, end, step).len() - 1 ==> #[trigger] ticks(start, end, step)[k
                + 1] - ticks(start, end, step)[k] == step,
        forall|i: int, j: int|
            0 <= i < j < ticks(start, end, step).len() ==> #[trigger] ticks(start, end, step)[i]
                < #[trigger] ticks(start, end, step)[j],
        forall|k: int|
            0 <= k < ticks(start, end, step).len() ==> start <= #[trigger] ticks(
                start,
                end,
                step,
            )[k] <= end,
        end < ticks(start, end, step).last() + step,
        (end - start) % step == 0 ==> ticks(start, end, step).last() == end,
{
    let n = (end - start) / step + 1;
    assert((end - start) / step >= 0 && (end - start) == step * ((end - start) / step) + (end
        - start) % step && 0 <= (end - start) % step < step) by (nonlinear_arith)
        requires
            step > 0,
            start <= end,
    ;
    assert(start + 0 * step == start);
    assert forall|k: int| 0 <= k < n - 1 implies #[trigger] ticks(start, end, step)[k + 1] - ticks(
        start,
        end,
        step,
    )[k] == step by {
        assert(start + (k + 1) * step - (start + k * step) == step) by (nonlinear_arith);
    }
    assert forall|i: int, j: int| 0 <= i < j < n implies #[trigger] ticks(start, end, step)[i]
        < #[trigger] ticks(start, end, step)[j] by {
        assert(start + i * step < start + j * step) by (nonlinear_arith)
            requires
                i < j,
                step > 0,
        ;
    }
    assert forall|k: int| 0 <= k < n implies start <= #[trigger] ticks(start, end, step)[k]
        <= end by {
        assert(0 <= k * step <= (n - 1) * step) by (nonlinear_arith)
            requires
                0 <= k <= n - 1,
                step > 0,
        ;
        assert((n - 1) * step == step * ((end - start) / step)) by (nonlinear_arith)
            requires
                n - 1 == (end - start) / step,
        ;
    }
    assert((n - 1) * step == step * ((end - start) / step)) by (nonlinear_arith)
        requires
            n - 1 == (end - start) / step,
    ;
}

} // verus!

