use crate::monitor::{DRIFT_WINDOW, FATAL_AVERAGE_DRIFT_MS};
use simple_moving_average::{SumTreeSMA, SMA};
use vstd::prelude::*;

verus! {

#[verifier::external_type_specification]
#[verifier::external_body]
#[verifier::reject_recursive_types(Sample)]
#[verifier::reject_recursive_types(Divisor)]
pub struct ExSumTreeSMA<Sample, Divisor, const WINDOW_SIZE: usize>(
    SumTreeSMA<Sample, Divisor, WINDOW_SIZE>,
);

/// Largest lag magnitude (in milliseconds) the rolling window accepts, so that
/// the sum of a full window fits in an `i64`.
pub const SAMPLE_BOUND: i64 = 1_000_000_000_000;

/// The samples a rolling window holds, oldest first.
pub uninterp spec fn window_samples(w: SumTreeSMA<i64, i64, 25000>) -> Seq<i64>;

/// The last `n` items of `s` (all of them when there are fewer).
pub open spec fn keep_last(s: Seq<i64>, n: nat) -> Seq<i64> {
    if s.len() > n {
        s.subrange(s.len() - n, s.len() as int)
    } else {
        s
    }
}

/// Sum of a sequence of samples.
pub open spec fn sum_of(s: Seq<i64>) -> int
    decreases s.len(),
{
    if s.len() == 0 {
        0
    } else {
        sum_of(s.drop_last()) + s.last() as int
    }
}

/// The window's average: the sum divided by the number of samples, rounded
/// toward zero; zero for an empty window.
pub open spec fn average_of(s: Seq<i64>) -> int {
    if s.len() == 0 {
        0
    } else if sum_of(s) >= 0 {
        sum_of(s) / (s.len() as int)
    } else {
        -((-sum_of(s)) / (s.len() as int))
    }
}

/// Every sample lies within `SAMPLE_BOUND`.
pub open spec fn bounded(s: Seq<i64>) -> bool {
    forall|i: int| 0 <= i < s.len() ==> -SAMPLE_BOUND <= #[trigger] s[i] <= SAMPLE_BOUND
}

/// Relies on `SumTreeSMA::new`: an empty window.
#[verifier::external_body]
fn window_new() -> (r: SumTreeSMA<i64, i64, 25000>)
    ensures
        window_samples(r) == Seq::<i64>::empty(),
{
    SumTreeSMA::new()
}

/// Relies on `SMA::add_sample` of `SumTreeSMA`: the sample joins the window and,
/// once the window is full, the oldest leaves. The sum tree adds samples of the
/// window, hence the bound.
#[verifier::external_body]
fn window_add(w: &mut SumTreeSMA<i64, i64, 25000>, x: i64)
    requires
        bounded(window_samples(*old(w))),
        window_samples(*old(w)).len() <= DRIFT_WINDOW,
        -SAMPLE_BOUND <= x <= SAMPLE_BOUND,
    ensures
        window_samples(*final(w)) == keep_last(
            window_samples(*old(w)).push(x),
            DRIFT_WINDOW as nat,
        ),
{
    w.add_sample(x)
}

/// Relies on `SMA::get_average` of `SumTreeSMA`: the sum of the window divided
/// by the number of samples (the sum itself, zero, when empty).
#[verifier::external_body]
fn window_average(w: &SumTreeSMA<i64, i64, 25000>) -> (r: i64)
    requires
        bounded(window_samples(*w)),
        window_samples(*w).len() <= DRIFT_WINDOW,
    ensures
        r as int == average_of(window_samples(*w)),
{
    w.get_average()
}

/// The rolling average of event lag over the last `DRIFT_WINDOW` events.
pub struct DriftMonitor {
    window: SumTreeSMA<i64, i64, 25000>,
}

impl DriftMonitor {
    /// The lags currently in the window, oldest first.
    pub closed spec fn samples(&self) -> Seq<i64> {
        window_samples(self.window)
    }

    /// The window holds at most `DRIFT_WINDOW` samples, each within bound.
    pub closed spec fn wf(&self) -> bool {
        bounded(self.samples()) && self.samples().len() <= DRIFT_WINDOW
    }

    /// An empty window.
    pub fn new() -> (r: DriftMonitor)
        ensures
            r.wf(),
            r.samples() == Seq::<i64>::empty(),
    {
        DriftMonitor { window: window_new() }
    }

    /// Adds one event's lag when it lies within `SAMPLE_BOUND`, and says
    /// whether it did; the oldest sample leaves a full window.
    pub fn record(&mut self, drift_ms: i64) -> (added: bool)
        requires
            old(self).wf(),
        ensures
            final(self).wf(),
            added == (-SAMPLE_BOUND <= drift_ms <= SAMPLE_BOUND),
            added ==> final(self).samples() == keep_last(
                old(self).samples().push(drift_ms),
                DRIFT_WINDOW as nat,
            ),
            !added ==> final(self).samples() == old(self).samples(),
    {
        if drift_ms < -SAMPLE_BOUND || drift_ms > SAMPLE_BOUND {
            return false;
        }
        window_add(&mut self.window, drift_ms);
        proof {
            let s = window_samples(self.window);
            let t = old(self).samples().push(drift_ms);
            assert forall|i: int| 0 <= i < s.len() implies -SAMPLE_BOUND <= #[trigger] s[i]
                <= SAMPLE_BOUND by {
                if t.len() > DRIFT_WINDOW {
                    assert(s[i] == t[i + t.len() - DRIFT_WINDOW]);
                } else {
                    assert(s[i] == t[i]);
                }
            }
        }
        true
    }

    /// The average lag over the window.
    pub fn average(&self) -> (r: i64)
        requires
            self.wf(),
        ensures
            r as int == average_of(self.samples()),
    {
        window_average(&self.window)
    }

    /// Whether the average lag is past what the process tolerates.
    pub fn is_fatal(&self) -> (r: bool)
        requires
            self.wf(),
        ensures
            r == (average_of(self.samples()) > FATAL_AVERAGE_DRIFT_MS as int),
    {
        self.average() > FATAL_AVERAGE_DRIFT_MS
    }
}

} // verus!
