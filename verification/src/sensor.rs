//! Line-sensor classification and transition history.
//!
//! A reflectance reading (0-100, lower over the line) is classified
//! against a fixed threshold; readings strictly below the threshold
//! count as "on the line".  A sensor may track a bounded history of
//! classification changes: an entry is recorded only when an
//! observation differs from the most recently recorded one, and the
//! oldest entry is dropped once ten are held.  The history is a
//! compact event log, not a sampled trace, and lets conditions ask
//! for repeated line crossings within a time window.
//!
//! Reading the reflectance device itself is the caller's job; every
//! function here takes the raw reading and the current time in
//! milliseconds as plain values.

use vstd::prelude::*;

verus! {

/// One recorded change of the on-line classification, with the moment
/// it was observed, in milliseconds.
#[derive(Clone, Copy, Debug, PartialEq, Eq, Structural)]
pub struct HistoryEntry {
    pub on_line: bool,
    pub at_ms: u64,
}

/// Whether a reflectance reading counts as "on the line": strictly
/// below the threshold does, the threshold itself does not.
pub open spec fn classifies_on_line(reflectance: int, threshold: int) -> bool {
    reflectance < threshold
}

/// The classification most recently recorded in the history, if any.
pub open spec fn latest_recorded(history: Seq<HistoryEntry>) -> Option<bool> {
    if history.len() == 0 {
        None
    } else {
        Some(history[0].on_line)
    }
}

/// How one observation changes the transition history: a tracking
/// sensor prepends the new classification exactly when it differs
/// from the most recently recorded one, dropping the oldest entry
/// once ten are held; in every other case the history stays as it is.
pub open spec fn updated_history(
    history: Seq<HistoryEntry>,
    track: bool,
    on_line: bool,
    at_ms: u64,
) -> Seq<HistoryEntry> {
    if track && latest_recorded(history) != Some(on_line) {
        seq![HistoryEntry { on_line, at_ms }] + history.take(
            if history.len() < 10 {
                history.len() as int
            } else {
                9
            },
        )
    } else {
        history
    }
}

/// Whether a history entry was recorded within the last `window_ms`
/// milliseconds before `now_ms`.  An entry with a timestamp in the
/// future does not count.
pub open spec fn is_recent(e: HistoryEntry, now_ms: u64, window_ms: u64) -> bool {
    e.at_ms <= now_ms && now_ms - e.at_ms < window_ms
}

/// The number of history entries recorded within the last `window_ms`
/// milliseconds before `now_ms`.
pub open spec fn recent_count(history: Seq<HistoryEntry>, now_ms: u64, window_ms: u64) -> nat {
    history.filter(|e: HistoryEntry| is_recent(e, now_ms, window_ms)).len()
}

/// One reflectance sensor with its classification threshold and,
/// when `has_history` is set, the bounded log of classification
/// changes, newest first.
pub struct LineSensor {
    pub threshold: i32,
    pub has_history: bool,
    pub history: Vec<HistoryEntry>,
}

impl LineSensor {
    /// The history never holds more than ten entries.
    pub open spec fn wf(&self) -> bool {
        self.history@.len() <= 10
    }

    pub fn new(threshold: i32, has_history: bool) -> (s: Self)
        ensures
            s.wf(),
            s.threshold == threshold,
            s.has_history == has_history,
            s.history@ == Seq::<HistoryEntry>::empty(),
    {
        let s = LineSensor { threshold, has_history, history: Vec::new() };
        proof {
            assert(s.history@ =~= Seq::<HistoryEntry>::empty());
        }
        s
    }

    /// Classify one reading and, on a tracking sensor, record the
    /// classification when it changed.
    pub fn on_line(&mut self, reflectance: i32, now_ms: u64) -> (r: bool)
        requires
            old(self).wf(),
        ensures
            final(self).wf(),
            r == classifies_on_line(reflectance as int, old(self).threshold as int),
            final(self).threshold == old(self).threshold,
            final(self).has_history == old(self).has_history,
            final(self).history@ == updated_history(
                old(self).history@,
                old(self).has_history,
                r,
                now_ms,
            ),
    {
        let r: bool = reflectance < self.threshold;
        let changed: bool = self.history.len() == 0 || self.history[0].on_line != r;
        if self.has_history && changed {
            if self.history.len() == 10 {
                self.history.truncate(9);
            }
            self.history.insert(0, HistoryEntry { on_line: r, at_ms: now_ms });
            proof {
                assert(self.history@ =~= updated_history(
                    old(self).history@,
                    old(self).has_history,
                    r,
                    now_ms,
                ));
            }
        }
        r
    }

    /// Classify one reading as "off the line"; the history records
    /// the on-line classification, exactly as `on_line` does.
    pub fn off_line(&mut self, reflectance: i32, now_ms: u64) -> (r: bool)
        requires
            old(self).wf(),
        ensures
            final(self).wf(),
            r == !classifies_on_line(reflectance as int, old(self).threshold as int),
            final(self).threshold == old(self).threshold,
            final(self).has_history == old(self).has_history,
            final(self).history@ == updated_history(
                old(self).history@,
                old(self).has_history,
                !r,
                now_ms,
            ),
    {
        let v: bool = self.on_line(reflectance, now_ms);
        !v
    }

    /// One poll of a bounded wait for the sensor to reach the wanted
    /// classification: done when the reading classifies as wanted or
    /// when the timeout has elapsed (a clock that jumped backwards
    /// counts as elapsed).  Timing out is a normal return, not an
    /// error.  The reading updates the history exactly as `on_line`.
    pub fn wait_for_line_step(
        &mut self,
        reflectance: i32,
        now_ms: u64,
        target_on_line: bool,
        started_ms: u64,
        timeout_ms: u64,
    ) -> (done: bool)
        requires
            old(self).wf(),
        ensures
            final(self).wf(),
            done == (classifies_on_line(reflectance as int, old(self).threshold as int)
                == target_on_line || now_ms < started_ms || now_ms - started_ms >= timeout_ms),
            final(self).threshold == old(self).threshold,
            final(self).has_history == old(self).has_history,
            final(self).history@ == updated_history(
                old(self).history@,
                old(self).has_history,
                classifies_on_line(reflectance as int, old(self).threshold as int),
                now_ms,
            ),
    {
        let r: bool = self.on_line(reflectance, now_ms);
        let timed_out: bool = now_ms < started_ms || now_ms - started_ms >= timeout_ms;
        r == target_on_line || timed_out
    }

    /// The number of history entries recorded within the last
    /// `window_ms` milliseconds before `now_ms`.
    pub fn recent_transition_count(&self, now_ms: u64, window_ms: u64) -> (n: usize)
        ensures
            n == recent_count(self.history@, now_ms, window_ms),
    {
        let ghost pred = |e: HistoryEntry| is_recent(e, now_ms, window_ms);
        let mut n: usize = 0;
        let mut i: usize = 0;
        proof {
            reveal_with_fuel(Seq::filter, 1);
            assert(self.history@.take(0) =~= Seq::<HistoryEntry>::empty());
        }
        while i < self.history.len()
            invariant
                0 <= i <= self.history@.len(),
                n == self.history@.take(i as int).filter(pred).len(),
                n <= i,
                pred == (|e: HistoryEntry| is_recent(e, now_ms, window_ms)),
            decreases self.history@.len() - i,
        {
            let e: HistoryEntry = self.history[i];
            proof {
                reveal(Seq::filter);
                assert(self.history@.take(i as int + 1).drop_last() =~= self.history@.take(
                    i as int,
                ));
                assert(self.history@.take(i as int + 1).last() == e);
            }
            if e.at_ms <= now_ms && now_ms - e.at_ms < window_ms {
                n = n + 1;
            }
            i = i + 1;
        }
        proof {
            assert(self.history@.take(self.history@.len() as int) =~= self.history@);
        }
        n
    }

    /// Whether strictly more than `count` transitions were recorded
    /// within the last `window_ms` milliseconds before `now_ms`; a
    /// negative `count` never holds.
    pub fn cond_lines(&self, now_ms: u64, window_ms: u64, count: i32) -> (b: bool)
        ensures
            b == (count >= 0 && recent_count(self.history@, now_ms, window_ms) > count),
    {
        let n: usize = self.recent_transition_count(now_ms, window_ms);
        count >= 0 && n > (count as usize)
    }
}

/// The history changes only on a transition: an untracked sensor and
/// an observation equal to the most recently recorded classification
/// leave it untouched; a differing observation prepends exactly one
/// entry and keeps the rest in order, dropping the oldest once ten
/// are held.
pub proof fn lemma_history_only_on_transition(
    history: Seq<HistoryEntry>,
    track: bool,
    on_line: bool,
    at_ms: u64,
)
    requires
        history.len() <= 10,
    ensures
        !track ==> updated_history(history, track, on_line, at_ms) == history,
        latest_recorded(history) == Some(on_line) ==> updated_history(
            history,
            track,
            on_line,
            at_ms,
        ) == history,
        track && latest_recorded(history) != Some(on_line) ==> ({
            let updated = updated_history(history, track, on_line, at_ms);
            &&& updated.len() == if history.len() < 10 {
                (history.len() + 1) as int
            } else {
                10int
            }
            &&& updated[0] == (HistoryEntry { on_line, at_ms })
            &&& forall|i: int| 1 <= i < updated.len() ==> updated[i] == history[i - 1]
        }),
{
}

/// A threshold midway between the average reflectance seen on the
/// line and the average seen off it.
pub fn calibration_threshold(line_samples: &Vec<i32>, floor_samples: &Vec<i32>) -> (t: i32)
    requires
        0 < line_samples@.len() <= 1000000,
        0 < floor_samples@.len() <= 1000000,
        forall|i: int| 0 <= i < line_samples@.len() ==> 0 <= #[trigger] line_samples@[i] <= 100,
        forall|i: int| 0 <= i < floor_samples@.len() ==> 0 <= #[trigger] floor_samples@[i] <= 100,
    ensures
        t == (sample_sum(line_samples@) / (line_samples@.len() as int) + sample_sum(
            floor_samples@,
        ) / (floor_samples@.len() as int)) / 2,
{
    let line_avg: u32 = sample_average(line_samples);
    let floor_avg: u32 = sample_average(floor_samples);
    ((line_avg + floor_avg) / 2) as i32
}

/// The sum of a batch of reflectance samples.
pub open spec fn sample_sum(s: Seq<i32>) -> int
    decreases s.len(),
{
    if s.len() == 0 {
        0
    } else {
        sample_sum(s.drop_last()) + s.last()
    }
}

/// The average of a batch of reflectance samples, rounded down.
fn sample_average(samples: &Vec<i32>) -> (avg: u32)
    requires
        0 < samples@.len() <= 1000000,
        forall|i: int| 0 <= i < samples@.len() ==> 0 <= #[trigger] samples@[i] <= 100,
    ensures
        avg == sample_sum(samples@) / (samples@.len() as int),
        avg <= 100,
{
    let mut sum: u32 = 0;
    let mut i: usize = 0;
    while i < samples.len()
        invariant
            0 <= i <= samples@.len(),
            samples@.len() <= 1000000,
            forall|j: int| 0 <= j < samples@.len() ==> 0 <= #[trigger] samples@[j] <= 100,
            sum == sample_sum(samples@.take(i as int)),
            sum <= 100 * i,
        decreases samples@.len() - i,
    {
        proof {
            assert(samples@.take(i as int + 1).drop_last() =~= samples@.take(i as int));
            assert(samples@.take(i as int + 1).last() == samples@[i as int]);
        }
        sum = sum + (samples[i] as u32);
        i = i + 1;
    }
    proof {
        assert(samples@.take(samples@.len() as int) =~= samples@);
        vstd::arithmetic::div_mod::lemma_div_is_ordered(
            sum as int,
            100 * samples@.len() as int,
            samples@.len() as int,
        );
        vstd::arithmetic::div_mod::lemma_div_multiples_vanish(100, samples@.len() as int);
        assert(100 * samples@.len() as int == samples@.len() as int * 100) by (nonlinear_arith);
    }
    sum / (samples.len() as u32)
}

} // verus!
