//! A repeating interval timer, and the notifier that reports the time each
//! time the timer fires. All times are whole nanoseconds.

use vstd::prelude::*;

verus! {

/// Sum of an accumulated time and a step, held at the largest `u64`.
pub open spec fn accumulate(time: u64, delta: u64) -> u64 {
    if time + delta <= u64::MAX {
        (time + delta) as u64
    } else {
        u64::MAX
    }
}

/// Sum of all the steps.
pub open spec fn total(deltas: Seq<u64>) -> nat
    decreases deltas.len(),
{
    if deltas.len() == 0 {
        0
    } else {
        total(deltas.drop_last()) + deltas.last() as nat
    }
}

/// A repeating timer as numbers.
pub struct TimerState {
    /// Length of one interval.
    pub duration: u64,
    /// Time accumulated since the timer last fired.
    pub elapsed: u64,
    /// Whether the last step made the timer fire.
    pub just_fired: bool,
}

impl TimerState {
    /// Whether a step of `delta` makes the timer fire.
    pub open spec fn fires(self, delta: u64) -> bool {
        accumulate(self.elapsed, delta) >= self.duration
    }

    /// The timer after a step of `delta`: when it fires, one interval is
    /// taken from the accumulated time and the rest is kept.
    pub open spec fn tick(self, delta: u64) -> TimerState {
        let time = accumulate(self.elapsed, delta);
        TimerState {
            duration: self.duration,
            elapsed: if time >= self.duration {
                (time - self.duration) as u64
            } else {
                time
            },
            just_fired: time >= self.duration,
        }
    }
}

/// A timer that fires each time its interval has passed, and goes on.
#[derive(Clone, Copy, Debug, PartialEq, Eq, Structural)]
pub struct IntervalTimer {
    duration: u64,
    elapsed: u64,
    just_fired: bool,
}

impl View for IntervalTimer {
    type V = TimerState;

    closed spec fn view(&self) -> TimerState {
        TimerState {
            duration: self.duration,
            elapsed: self.elapsed,
            just_fired: self.just_fired,
        }
    }
}

impl IntervalTimer {
    /// A timer of the given interval that has accumulated no time yet.
    pub fn new(duration: u64) -> (timer: IntervalTimer)
        ensures
            timer@ == (TimerState { duration, elapsed: 0, just_fired: false }),
    {
        IntervalTimer { duration, elapsed: 0, just_fired: false }
    }

    /// Adds `delta` to the accumulated time and says whether the interval
    /// has been reached. If so, the interval is taken off again.
    pub fn tick(&mut self, delta: u64) -> (fired: bool)
        ensures
            fired == old(self)@.fires(delta),
            final(self)@ == old(self)@.tick(delta),
    {
        let time: u64 = self.elapsed.saturating_add(delta);
        if time >= self.duration {
            self.elapsed = time - self.duration;
            self.just_fired = true;
        } else {
            self.elapsed = time;
            self.just_fired = false;
        }
        self.just_fired
    }

    /// Length of one interval.
    pub fn duration(&self) -> (duration: u64)
        ensures
            duration == self@.duration,
    {
        self.duration
    }

    /// Time accumulated since the timer last fired.
    pub fn elapsed(&self) -> (elapsed: u64)
        ensures
            elapsed == self@.elapsed,
    {
        self.elapsed
    }

    /// Whether the last step made the timer fire.
    pub fn just_finished(&self) -> (fired: bool)
        ensures
            fired == self@.just_fired,
    {
        self.just_fired
    }
}

/// A notifier as numbers: its timer and the time since it was started.
pub struct NotifierState {
    pub timer: TimerState,
    /// Time since the notifier was started.
    pub now: u64,
}

impl NotifierState {
    /// The notifier after a step of `delta`.
    pub open spec fn advance(self, delta: u64) -> NotifierState {
        NotifierState { timer: self.timer.tick(delta), now: accumulate(self.now, delta) }
    }

    /// What a step of `delta` reports: the time after the step if the timer
    /// fires, nothing if it does not.
    pub open spec fn report(self, delta: u64) -> Option<u64> {
        if self.timer.fires(delta) {
            Some(accumulate(self.now, delta))
        } else {
            None
        }
    }

    /// The notifier after all the steps, in their order.
    pub open spec fn run(self, deltas: Seq<u64>) -> NotifierState
        decreases deltas.len(),
    {
        if deltas.len() == 0 {
            self
        } else {
            self.run(deltas.drop_last()).advance(deltas.last())
        }
    }

    /// The times reported during the steps, in their order.
    pub open spec fn reports(self, deltas: Seq<u64>) -> Seq<u64>
        decreases deltas.len(),
    {
        if deltas.len() == 0 {
            Seq::empty()
        } else {
            let earlier = self.reports(deltas.drop_last());
            match self.run(deltas.drop_last()).report(deltas.last()) {
                Some(time) => earlier.push(time),
                None => earlier,
            }
        }
    }
}

/// Reports the time since its start each time its interval has passed.
#[derive(Clone, Copy, Debug, PartialEq, Eq, Structural)]
pub struct PeriodicNotifier {
    timer: IntervalTimer,
    now: u64,
}

impl View for PeriodicNotifier {
    type V = NotifierState;

    closed spec fn view(&self) -> NotifierState {
        NotifierState { timer: self.timer@, now: self.now }
    }
}

impl PeriodicNotifier {
    /// A notifier of the given interval, started now.
    pub fn new(duration: u64) -> (notifier: PeriodicNotifier)
        ensures
            notifier@ == (NotifierState {
                timer: TimerState { duration, elapsed: 0, just_fired: false },
                now: 0,
            }),
    {
        PeriodicNotifier { timer: IntervalTimer::new(duration), now: 0 }
    }

    /// One step of `delta`: hands back the time to report, if the timer
    /// fired.
    pub fn update(&mut self, delta: u64) -> (report: Option<u64>)
        ensures
            final(self)@ == old(self)@.advance(delta),
            report == old(self)@.report(delta),
    {
        self.now = self.now.saturating_add(delta);
        if self.timer.tick(delta) {
            Some(self.now)
        } else {
            None
        }
    }

    /// The steps in their order: hands back the times reported.
    pub fn run(&mut self, deltas: &[u64]) -> (reports: Vec<u64>)
        ensures
            final(self)@ == old(self)@.run(deltas@),
            reports@ == old(self)@.reports(deltas@),
    {
        let ghost start = self@;
        let mut reports: Vec<u64> = Vec::new();
        let mut done: usize = 0;
        while done < deltas.len()
            invariant
                done <= deltas@.len(),
                self@ == start.run(deltas@.take(done as int)),
                reports@ == start.reports(deltas@.take(done as int)),
            decreases deltas@.len() - done,
        {
            proof {
                assert(deltas@.take(done + 1).drop_last() =~= deltas@.take(done as int));
            }
            match self.update(deltas[done]) {
                Some(time) => {
                    reports.push(time);
                },
                None => {},
            }
            done += 1;
        }
        proof {
            assert(deltas@.take(done as int) =~= deltas@);
        }
        reports
    }

    /// Time since the notifier was started.
    pub fn now(&self) -> (now: u64)
        ensures
            now == self@.now,
    {
        self.now
    }

    /// The timer as it stands.
    pub fn timer(&self) -> (timer: IntervalTimer)
        ensures
            timer@ == self@.timer,
    {
        self.timer
    }
}

/// A run keeps the interval, and neither the timer nor the clock holds more
/// than was there at the start plus the steps.
pub proof fn lemma_run_bounds(s: NotifierState, deltas: Seq<u64>)
    ensures
        s.run(deltas).timer.duration == s.timer.duration,
        s.run(deltas).timer.elapsed <= s.timer.elapsed + total(deltas),
        s.now <= s.run(deltas).now <= s.now + total(deltas),
    decreases deltas.len(),
{
    if deltas.len() > 0 {
        lemma_run_bounds(s, deltas.drop_last());
    }
}

/// No time is lost: as long as nothing reaches the largest `u64`, one
/// interval for each time the timer fired and the time still accumulated
/// add up to the time accumulated at the start and all the steps.
pub proof fn lemma_run_conserves_time(s: NotifierState, deltas: Seq<u64>)
    requires
        s.timer.elapsed + total(deltas) <= u64::MAX,
    ensures
        s.reports(deltas).len() * s.timer.duration + s.run(deltas).timer.elapsed
            == s.timer.elapsed + total(deltas),
    decreases deltas.len(),
{
    if deltas.len() > 0 {
        let earlier = deltas.drop_last();
        lemma_run_conserves_time(s, earlier);
        lemma_run_bounds(s, earlier);
        let fired = s.reports(earlier).len();
        let d = s.timer.duration;
        assert((fired + 1) * d == fired * d + d) by (nonlinear_arith);
    } else {
        assert(0 * s.timer.duration == 0) by (nonlinear_arith);
    }
}

/// A timer that starts below its interval and is stepped by no more than the
/// interval at a time stays below it.
pub proof fn lemma_run_keeps_up(s: NotifierState, deltas: Seq<u64>)
    requires
        s.timer.elapsed < s.timer.duration,
        forall|i: int| 0 <= i < deltas.len() ==> deltas[i] <= s.timer.duration,
        s.timer.elapsed + total(deltas) <= u64::MAX,
    ensures
        s.run(deltas).timer.elapsed < s.timer.duration,
    decreases deltas.len(),
{
    if deltas.len() > 0 {
        let earlier = deltas.drop_last();
        lemma_run_keeps_up(s, earlier);
        lemma_run_bounds(s, earlier);
    }
}

/// A fresh timer of interval `D` above zero, run over steps that add up to
/// `k` times `D`, fires at most `k` times, and exactly `k` times if and only
/// if it has caught up at the end, that is, holds less than one interval.
/// It then holds nothing at all.
pub proof fn lemma_fires_once_per_interval(s: NotifierState, deltas: Seq<u64>, k: nat)
    requires
        s.timer.duration > 0,
        s.timer.elapsed == 0,
        total(deltas) == k * s.timer.duration,
        total(deltas) <= u64::MAX,
    ensures
        s.reports(deltas).len() <= k,
        s.reports(deltas).len() == k <==> s.run(deltas).timer.elapsed < s.timer.duration,
        s.reports(deltas).len() == k <==> s.run(deltas).timer.elapsed == 0,
{
    lemma_run_conserves_time(s, deltas);
    let fired = s.reports(deltas).len();
    let d = s.timer.duration;
    let rest = s.run(deltas).timer.elapsed;
    assert(fired <= k && (fired == k <==> rest < d) && (fired == k <==> rest == 0))
        by (nonlinear_arith)
        requires
            fired * d + rest == k * d,
            0 <= rest,
            0 < d,
    ;
}

/// A fresh timer of interval `D` above zero, stepped by no more than `D` at
/// a time over steps that add up to `k` times `D`, fires exactly `k` times.
pub proof fn lemma_fires_once_per_interval_in_short_steps(
    s: NotifierState,
    deltas: Seq<u64>,
    k: nat,
)
    requires
        s.timer.duration > 0,
        s.timer.elapsed == 0,
        forall|i: int| 0 <= i < deltas.len() ==> deltas[i] <= s.timer.duration,
        total(deltas) == k * s.timer.duration,
        total(deltas) <= u64::MAX,
    ensures
        s.reports(deltas).len() == k,
        s.run(deltas).timer.elapsed == 0,
{
    lemma_run_keeps_up(s, deltas);
    lemma_fires_once_per_interval(s, deltas, k);
}

/// No report is later than the clock after the run.
pub proof fn lemma_reports_not_after_now(s: NotifierState, deltas: Seq<u64>)
    ensures
        forall|i: int|
            0 <= i < s.reports(deltas).len() ==> s.now <= #[trigger] s.reports(deltas)[i]
                <= s.run(deltas).now,
    decreases deltas.len(),
{
    if deltas.len() > 0 {
        let earlier = deltas.drop_last();
        lemma_reports_not_after_now(s, earlier);
        lemma_run_bounds(s, earlier);
        let before = s.reports(earlier);
        assert forall|i: int| 0 <= i < s.reports(deltas).len() implies s.now
            <= #[trigger] s.reports(deltas)[i] <= s.run(deltas).now by {
            if i < before.len() {
                assert(s.reports(deltas)[i] == before[i]);
            }
        }
    }
}

/// The times reported never go back.
pub proof fn lemma_reports_never_decrease(s: NotifierState, deltas: Seq<u64>)
    ensures
        forall|i: int, j: int|
            0 <= i <= j < s.reports(deltas).len() ==> s.reports(deltas)[i] <= s.reports(
                deltas,
            )[j],
    decreases deltas.len(),
{
    if deltas.len() > 0 {
        let earlier = deltas.drop_last();
        lemma_reports_never_decrease(s, earlier);
        lemma_reports_not_after_now(s, earlier);
        lemma_run_bounds(s, earlier);
        let before = s.reports(earlier);
        assert forall|i: int, j: int| 0 <= i <= j < s.reports(deltas).len() implies s.reports(
            deltas,
        )[i] <= s.reports(deltas)[j] by {
            if i < before.len() {
                assert(s.reports(deltas)[i] == before[i]);
            }
            if j < before.len() {
                assert(s.reports(deltas)[j] == before[j]);
            }
        }
    }
}

} // verus!
