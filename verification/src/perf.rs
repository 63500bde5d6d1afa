//! Frame statistics.
use vstd::prelude::*;
use crate::time;
use crate::time::NANOS_PER_MILLI;

verus! {

/// Counts frames and the time that painting takes, and sums them up now and then. Times
/// are nanoseconds on a clock that the caller reads.
#[derive(Debug)]
pub struct FramePerfTracker {
    /// What is counted.
    pub label: &'static str,
    /// Frames since the last summary.
    pub frames_since_report: usize,
    /// When the last frame came.
    pub last_frame: Option<u128>,
    /// When the last summary was made.
    pub last_report: u128,
    /// After how many frames a summary is made.
    pub report_every: usize,
    /// A frame that took longer than this many milliseconds is slow.
    pub slow_threshold_ms: u32,
    /// Slow frames since the last summary.
    pub slow_frames_since_report: usize,
    /// The time that painting took since the last summary, in microseconds.
    pub paint_total_us: u128,
    /// The longest painting since the last summary, in microseconds.
    pub paint_max_us: u128,
    /// Paintings since the last summary.
    pub paint_count: usize,
}

/// A summary of frames.
#[derive(Clone, Copy, Debug, PartialEq, Eq, Structural)]
pub struct FrameReport {
    /// How many frames came.
    pub frames: usize,
    /// How many of them were slow.
    pub slow_frames: usize,
    /// Over how long, in nanoseconds.
    pub elapsed_nanos: u128,
    /// The time that painting took, in microseconds.
    pub paint_total_us: u128,
    /// The longest painting, in microseconds.
    pub paint_max_us: u128,
    /// How many paintings there were.
    pub paint_count: usize,
}

/// Something that is counted.
pub enum PerfEvent {
    /// A frame.
    Frame {
        /// When it came.
        now: u128,
        /// When the summary was made, if one was.
        reported_at: u128,
    },
    /// A painting.
    Paint {
        /// How long it took, in microseconds.
        us: u128,
    },
}

/// How many of the events are frames.
pub open spec fn frames_in(events: Seq<PerfEvent>) -> nat
    decreases events.len(),
{
    if events.len() == 0 {
        0
    } else {
        frames_in(events.drop_last()) + if events.last() is Frame {
            1nat
        } else {
            0nat
        }
    }
}

/// The times that the paintings among the events took, in microseconds.
pub open spec fn paint_times(events: Seq<PerfEvent>) -> Seq<u128>
    decreases events.len(),
{
    if events.len() == 0 {
        Seq::empty()
    } else {
        match events.last() {
            PerfEvent::Frame { .. } => paint_times(events.drop_last()),
            PerfEvent::Paint { us } => paint_times(events.drop_last()).push(us),
        }
    }
}

/// The sum of some times.
pub open spec fn total(times: Seq<u128>) -> int
    decreases times.len(),
{
    if times.len() == 0 {
        0
    } else {
        total(times.drop_last()) + times.last()
    }
}

/// The longest of some times; 0 if there is none.
pub open spec fn longest(times: Seq<u128>) -> u128
    decreases times.len(),
{
    if times.len() == 0 {
        0
    } else if times.last() > longest(times.drop_last()) {
        times.last()
    } else {
        longest(times.drop_last())
    }
}

/// When a frame is slow: later than one and a half times the expected delay and 16
/// milliseconds more, but never below 33 milliseconds.
pub open spec fn slow_threshold(expected_delay_ms: u32) -> int {
    let t = expected_delay_ms + expected_delay_ms / 2 + 16;
    if t < 33 {
        33
    } else {
        t
    }
}

/// The time between two frames in whole milliseconds.
pub open spec fn interval_ms(now: u128, last: u128) -> int {
    time::spec_elapsed(now, last) / NANOS_PER_MILLI as int
}

impl FramePerfTracker {
    /// A summary is made before the count reaches its limit, and slow frames are frames.
    pub open spec fn wf(self) -> bool {
        &&& self.frames_since_report == 0 || self.frames_since_report < self.report_every
        &&& self.slow_frames_since_report <= self.frames_since_report
    }

    /// The frame at `now` is slow.
    pub open spec fn is_slow(self, now: u128) -> bool {
        self.last_frame matches Some(last) && interval_ms(now, last) > self.slow_threshold_ms
    }

    /// The tracker with one more frame.
    pub open spec fn counted(self, now: u128) -> FramePerfTracker {
        FramePerfTracker {
            last_frame: Some(now),
            frames_since_report: (self.frames_since_report + 1) as usize,
            slow_frames_since_report: (self.slow_frames_since_report + if self.is_slow(now) {
                1int
            } else {
                0
            }) as usize,
            ..self
        }
    }

    /// The summary at `now`.
    pub open spec fn summary(self, now: u128) -> FrameReport {
        FrameReport {
            frames: self.frames_since_report,
            slow_frames: self.slow_frames_since_report,
            elapsed_nanos: time::spec_elapsed(now, self.last_report) as u128,
            paint_total_us: self.paint_total_us,
            paint_max_us: self.paint_max_us,
            paint_count: self.paint_count,
        }
    }

    /// The tracker with all counts at zero.
    pub open spec fn cleared(self, now: u128) -> FramePerfTracker {
        FramePerfTracker {
            frames_since_report: 0,
            slow_frames_since_report: 0,
            paint_total_us: 0,
            paint_max_us: 0,
            paint_count: 0,
            last_report: now,
            ..self
        }
    }

    /// The tracker after the frame at `now`, for which a summary would be made at
    /// `reported_at`.
    pub open spec fn framed(self, now: u128, reported_at: u128) -> FramePerfTracker {
        if self.frames_since_report + 1 >= self.report_every {
            self.counted(now).cleared(reported_at)
        } else {
            self.counted(now)
        }
    }

    /// The tracker after a painting that took `us` microseconds.
    pub open spec fn painted(self, us: u128) -> FramePerfTracker {
        FramePerfTracker {
            paint_total_us: (self.paint_total_us + us) as u128,
            paint_max_us: if us > self.paint_max_us {
                us
            } else {
                self.paint_max_us
            },
            paint_count: (self.paint_count + 1) as usize,
            ..self
        }
    }

    /// The tracker after some events, one after the other.
    pub open spec fn after(self, events: Seq<PerfEvent>) -> FramePerfTracker
        decreases events.len(),
    {
        if events.len() == 0 {
            self
        } else {
            let before = self.after(events.drop_last());
            match events.last() {
                PerfEvent::Frame { now, reported_at } => before.framed(now, reported_at),
                PerfEvent::Paint { us } => before.painted(us),
            }
        }
    }

    /// A tracker that starts at `now`, makes a summary every `report_every` frames, and
    /// expects a frame every `expected_delay_ms` milliseconds.
    pub fn new(
        label: &'static str,
        report_every: usize,
        expected_delay_ms: u32,
        now: u128,
    ) -> (r: Self)
        requires
            slow_threshold(expected_delay_ms) <= u32::MAX,
        ensures
            r.wf(),
            r == (FramePerfTracker {
                label,
                frames_since_report: 0,
                last_frame: None,
                last_report: now,
                report_every,
                slow_threshold_ms: slow_threshold(expected_delay_ms) as u32,
                slow_frames_since_report: 0,
                paint_total_us: 0,
                paint_max_us: 0,
                paint_count: 0,
            }),
    {
        let t: u32 = expected_delay_ms + expected_delay_ms / 2 + 16;
        FramePerfTracker {
            label,
            frames_since_report: 0,
            last_frame: None,
            last_report: now,
            report_every,
            slow_threshold_ms: if t < 33 {
                33
            } else {
                t
            },
            slow_frames_since_report: 0,
            paint_total_us: 0,
            paint_max_us: 0,
            paint_count: 0,
        }
    }

    /// Counts the frame at `now`. Once enough frames came, gives the summary, made at
    /// `reported_at`, and starts anew.
    pub fn record_frame(&mut self, now: u128, reported_at: u128) -> (r: Option<FrameReport>)
        requires
            old(self).wf(),
        ensures
            final(self).wf(),
            *final(self) == old(self).framed(now, reported_at),
            r == if old(self).frames_since_report + 1 >= old(self).report_every {
                Some(old(self).counted(now).summary(reported_at))
            } else {
                None
            },
    {
        if let Some(last) = self.last_frame {
            let ms: u128 = time::elapsed(now, last) / NANOS_PER_MILLI;
            if ms > self.slow_threshold_ms as u128 {
                self.slow_frames_since_report = self.slow_frames_since_report + 1;
            }
        }
        self.last_frame = Some(now);
        self.frames_since_report = self.frames_since_report + 1;
        if self.frames_since_report >= self.report_every {
            return Some(self.report(reported_at));
        }
        None
    }

    /// Counts a painting that took `us` microseconds.
    pub fn record_paint(&mut self, us: u128)
        requires
            old(self).paint_total_us + us <= u128::MAX,
            old(self).paint_count < usize::MAX,
        ensures
            *final(self) == old(self).painted(us),
    {
        self.paint_total_us = self.paint_total_us + us;
        if us > self.paint_max_us {
            self.paint_max_us = us;
        }
        self.paint_count = self.paint_count + 1;
    }

    /// Gives the summary at `now` and starts anew.
    fn report(&mut self, now: u128) -> (r: FrameReport)
        ensures
            r == old(self).summary(now),
            *final(self) == old(self).cleared(now),
    {
        let r = FrameReport {
            frames: self.frames_since_report,
            slow_frames: self.slow_frames_since_report,
            elapsed_nanos: time::elapsed(now, self.last_report),
            paint_total_us: self.paint_total_us,
            paint_max_us: self.paint_max_us,
            paint_count: self.paint_count,
        };
        self.frames_since_report = 0;
        self.slow_frames_since_report = 0;
        self.paint_total_us = 0;
        self.paint_max_us = 0;
        self.paint_count = 0;
        self.last_report = now;
        r
    }

    /// Starts anew at `now`, as after a pause: the time until the next frame does not count.
    pub fn reset(&mut self, now: u128)
        ensures
            final(self).wf(),
            *final(self) == (FramePerfTracker { last_frame: None, ..old(self).cleared(now) }),
    {
        self.frames_since_report = 0;
        self.slow_frames_since_report = 0;
        self.last_frame = None;
        self.last_report = now;
        self.paint_total_us = 0;
        self.paint_max_us = 0;
        self.paint_count = 0;
    }
}

/// A summary is made on every `report_every`-th frame exactly, whatever is painted between
/// them: after so many frames without a pause, the count is what is left of their number
/// when `report_every` is taken off as often as possible.
pub proof fn law_frames_counted(start: FramePerfTracker, events: Seq<PerfEvent>)
    requires
        start.report_every >= 1,
        start.frames_since_report == 0,
    ensures
        start.after(events).frames_since_report == frames_in(events) % start.report_every as nat,
        start.after(events).report_every == start.report_every,
    decreases events.len(),
{
    if events.len() > 0 {
        law_frames_counted(start, events.drop_last());
        let n = start.report_every as int;
        let k = frames_in(events.drop_last()) as int;
        if events.last() is Frame {
            if k % n + 1 >= n {
                assert((k + 1) % n == 0) by (nonlinear_arith)
                    requires
                        n >= 1,
                        k >= 0,
                        k % n + 1 >= n,
                {
                    vstd::arithmetic::div_mod::lemma_fundamental_div_mod(k, n);
                    vstd::arithmetic::div_mod::lemma_mod_bound(k, n);
                    vstd::arithmetic::div_mod::lemma_fundamental_div_mod_converse(
                        k + 1,
                        n,
                        k / n + 1,
                        0,
                    );
                }
            } else {
                assert((k + 1) % n == k % n + 1) by (nonlinear_arith)
                    requires
                        n >= 1,
                        k >= 0,
                        k % n + 1 < n,
                {
                    vstd::arithmetic::div_mod::lemma_fundamental_div_mod(k, n);
                    vstd::arithmetic::div_mod::lemma_mod_bound(k, n);
                    vstd::arithmetic::div_mod::lemma_fundamental_div_mod_converse(
                        k + 1,
                        n,
                        k / n,
                        k % n + 1,
                    );
                }
            }
        }
    } else {
        vstd::arithmetic::div_mod::lemma_small_mod(0, start.report_every as nat);
    }
}

/// Paintings add up as long as no summary is made: there are as many as were counted, they
/// took their times together, and the longest is kept. Nothing else changes by them.
pub proof fn law_paintings_add_up(start: FramePerfTracker, events: Seq<PerfEvent>)
    requires
        start.paint_count == 0,
        start.paint_total_us == 0,
        start.paint_max_us == 0,
        frames_in(events) == 0 || start.frames_since_report + frames_in(events)
            < start.report_every,
        paint_times(events).len() <= usize::MAX,
        total(paint_times(events)) <= u128::MAX,
    ensures
        ({
            let times = paint_times(events);
            let after = start.after(events);
            &&& after.paint_count == times.len()
            &&& after.paint_total_us == total(times)
            &&& after.paint_max_us == longest(times)
            &&& after.frames_since_report == start.frames_since_report + frames_in(events)
            &&& after.report_every == start.report_every
            &&& frames_in(events) == 0 ==> after == (FramePerfTracker {
                paint_count: after.paint_count,
                paint_total_us: after.paint_total_us,
                paint_max_us: after.paint_max_us,
                ..start
            })
        }),
    decreases events.len(),
{
    if events.len() > 0 {
        let times = paint_times(events);
        if events.last() is Paint {
            assert(times.drop_last() =~= paint_times(events.drop_last()));
        }
        lemma_total_grows(paint_times(events.drop_last()));
        law_paintings_add_up(start, events.drop_last());
    }
}

/// Times do not add up to less than nothing.
proof fn lemma_total_grows(times: Seq<u128>)
    ensures
        total(times) >= 0,
    decreases times.len(),
{
    if times.len() > 0 {
        lemma_total_grows(times.drop_last());
    }
}

/// The sum and the longest of some times, taken apart at place `i`.
proof fn lemma_taken_out(times: Seq<u128>, i: int)
    requires
        0 <= i < times.len(),
    ensures
        total(times) == total(times.remove(i)) + times[i],
        longest(times) == if times[i] > longest(times.remove(i)) {
            times[i]
        } else {
            longest(times.remove(i))
        },
    decreases times.len(),
{
    let rest = times.remove(i);
    if i == times.len() - 1 {
        assert(rest =~= times.drop_last());
    } else {
        lemma_taken_out(times.drop_last(), i);
        assert(rest.drop_last() =~= times.drop_last().remove(i));
        assert(rest.last() == times.last());
    }
}

/// The order of paintings makes no difference, nor how they stand to frames, as long as no
/// summary is made.
pub proof fn law_order_of_paintings(
    start: FramePerfTracker,
    a: Seq<PerfEvent>,
    b: Seq<PerfEvent>,
)
    requires
        start.paint_count == 0,
        start.paint_total_us == 0,
        start.paint_max_us == 0,
        frames_in(a) == 0 || start.frames_since_report + frames_in(a) < start.report_every,
        frames_in(b) == 0 || start.frames_since_report + frames_in(b) < start.report_every,
        paint_times(a).len() <= usize::MAX,
        total(paint_times(a)) <= u128::MAX,
        paint_times(a).to_multiset() == paint_times(b).to_multiset(),
    ensures
        start.after(a).paint_count == start.after(b).paint_count,
        start.after(a).paint_total_us == start.after(b).paint_total_us,
        start.after(a).paint_max_us == start.after(b).paint_max_us,
{
    lemma_same_sums(paint_times(a), paint_times(b));
    law_paintings_add_up(start, a);
    law_paintings_add_up(start, b);
}

/// The same times in another order have the same number, sum and longest.
proof fn lemma_same_sums(a: Seq<u128>, b: Seq<u128>)
    requires
        a.to_multiset() == b.to_multiset(),
    ensures
        a.len() == b.len(),
        total(a) == total(b),
        longest(a) == longest(b),
    decreases a.len(),
{
    a.to_multiset_ensures();
    b.to_multiset_ensures();
    if a.len() > 0 {
        let x = a.last();
        assert(a.contains(x));
        assert(b.to_multiset().count(x) > 0);
        assert(b.contains(x));
        let i = choose|i: int| 0 <= i < b.len() && b[i] == x;
        let rest = a.remove(a.len() - 1);
        assert(rest.to_multiset() =~= b.remove(i).to_multiset());
        lemma_same_sums(rest, b.remove(i));
        lemma_taken_out(a, a.len() - 1);
        lemma_taken_out(b, i);
    }
}

/// No frame is slow before 33 milliseconds, and none within its expected delay.
pub proof fn law_slow_threshold(expected_delay_ms: u32)
    ensures
        slow_threshold(expected_delay_ms) >= 33,
        slow_threshold(expected_delay_ms) > expected_delay_ms,
{
}

/// A frame is slow exactly if it comes more than the threshold after the one before, however
/// much more that is.
pub proof fn law_slow_frames(tracker: FramePerfTracker, last: u128, now: u128)
    requires
        tracker.last_frame == Some(last),
    ensures
        tracker.is_slow(now) <==> now - last >= (tracker.slow_threshold_ms + 1) * NANOS_PER_MILLI,
{
}

/// The first frame after a pause is never slow.
pub proof fn law_first_frame_not_slow(tracker: FramePerfTracker, paused_at: u128, now: u128)
    ensures
        !(FramePerfTracker { last_frame: None, ..tracker.cleared(paused_at) }).is_slow(now),
{
}

/// When frames are slow: from half as much again as expected and 16 milliseconds on top,
/// rounded down, but not before 33 milliseconds.
pub proof fn law_slow_threshold_value(expected_delay_ms: u32)
    ensures
        ({
            let t = slow_threshold(expected_delay_ms);
            &&& t >= 33
            &&& 2 * t <= 3 * expected_delay_ms + 32 || t == 33
            &&& 3 * expected_delay_ms + 32 < 2 * (t + 1)
        }),
{
}

/// What a frame leads to: it is counted, also as slow exactly if at least one millisecond more
/// than the threshold has passed since the frame before. The summary holds what was counted
/// since the last one, this frame included, and starts all counts anew.
pub proof fn law_frame_counts(t: FramePerfTracker, now: u128, reported_at: u128)
    requires
        t.wf(),
        t.frames_since_report < usize::MAX,
    ensures
        ({
            let slow: int = if t.last_frame is Some && now - (t.last_frame->0) >= (
            t.slow_threshold_ms + 1) * 1_000_000 {
                1
            } else {
                0
            };
            let report = t.counted(now).summary(reported_at);
            let next = t.framed(now, reported_at);
            &&& report.frames == t.frames_since_report + 1
            &&& report.slow_frames == t.slow_frames_since_report + slow
            &&& report.paint_total_us == t.paint_total_us
            &&& report.paint_max_us == t.paint_max_us
            &&& report.paint_count == t.paint_count
            &&& reported_at >= t.last_report ==> report.elapsed_nanos == reported_at - t.last_report
            &&& reported_at < t.last_report ==> report.elapsed_nanos == 0
            &&& next.last_frame == Some(now)
            &&& next.report_every == t.report_every
            &&& next.slow_threshold_ms == t.slow_threshold_ms
            &&& t.frames_since_report + 1 < t.report_every ==> {
                &&& next.frames_since_report == t.frames_since_report + 1
                &&& next.slow_frames_since_report == t.slow_frames_since_report + slow
                &&& next.paint_total_us == t.paint_total_us
                &&& next.paint_max_us == t.paint_max_us
                &&& next.paint_count == t.paint_count
                &&& next.last_report == t.last_report
            }
            &&& t.frames_since_report + 1 >= t.report_every ==> {
                &&& next.frames_since_report == 0 && next.slow_frames_since_report == 0
                &&& next.paint_total_us == 0 && next.paint_max_us == 0 && next.paint_count == 0
                &&& next.last_report == reported_at
            }
        }),
{
    if t.last_frame is Some {
        law_slow_frames(t, t.last_frame->0, now);
    }
}

/// A painting adds its time to the total, is counted once, and is the longest if none before
/// took longer. Nothing is changed about frames.
pub proof fn law_painting_counts(t: FramePerfTracker, us: u128)
    requires
        t.paint_total_us + us <= u128::MAX,
        t.paint_count < usize::MAX,
    ensures
        ({
            let next = t.painted(us);
            &&& next.paint_total_us == t.paint_total_us + us
            &&& next.paint_count == t.paint_count + 1
            &&& next.paint_max_us >= us && next.paint_max_us >= t.paint_max_us
            &&& next.paint_max_us == us || next.paint_max_us == t.paint_max_us
            &&& next == (FramePerfTracker {
                paint_total_us: next.paint_total_us,
                paint_count: next.paint_count,
                paint_max_us: next.paint_max_us,
                ..t
            })
        }),
{
}

} // verus!
