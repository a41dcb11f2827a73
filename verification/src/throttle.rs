//! Rate limiting of the notifications sent to the interface: live
//! recording statistics and replay progress are sent at most once per
//! interval.
use vstd::prelude::*;

verus! {

/// The shortest time between two recording-statistics notifications
/// (300 ms), in nanoseconds.
pub const STATS_EMIT_INTERVAL_NS: u64 = 300_000_000;

/// The shortest time between two replay-progress notifications (200 ms), in
/// nanoseconds.
pub const PROGRESS_EMIT_INTERVAL_NS: u64 = 200_000_000;

/// Lets a notification through when at least `interval_ns` have passed since
/// the last one let through (or since the start).
pub struct Throttle {
    pub interval_ns: u64,
    /// When the last notification was let through, in nanoseconds on the
    /// caller's monotonic clock.
    pub last_ns: u64,
}

/// Whether a notification at `now_ns` is let through after one at
/// `last_ns`: the time since then, zero if the clock reads earlier, is at
/// least `interval_ns`.
pub open spec fn emit_due(last_ns: u64, now_ns: u64, interval_ns: u64) -> bool {
    (if now_ns >= last_ns {
        now_ns - last_ns
    } else {
        0
    }) >= interval_ns
}

impl Throttle {
    /// A throttle started at `start_ns`: the first notification waits a full
    /// interval.
    pub fn new(interval_ns: u64, start_ns: u64) -> (t: Self)
        ensures
            t.interval_ns == interval_ns,
            t.last_ns == start_ns,
    {
        Throttle { interval_ns, last_ns: start_ns }
    }

    /// Whether the notification at `now_ns` goes out; when it does, the
    /// interval starts again from `now_ns`.
    pub fn due(&mut self, now_ns: u64) -> (r: bool)
        ensures
            r == emit_due(old(self).last_ns, now_ns, old(self).interval_ns),
            final(self).interval_ns == old(self).interval_ns,
            final(self).last_ns == (if r {
                now_ns
            } else {
                old(self).last_ns
            }),
    {
        let elapsed = now_ns.saturating_sub(self.last_ns);
        if elapsed >= self.interval_ns {
            self.last_ns = now_ns;
            true
        } else {
            false
        }
    }
}

/// Two notifications let through by a throttle are at least an interval
/// apart: after one goes out at `now_ns`, none goes out before
/// `now_ns + interval_ns`.
pub proof fn lemma_throttle_spaces_notifications(
    now_ns: u64,
    later_ns: u64,
    interval_ns: u64,
)
    requires
        now_ns <= later_ns,
        emit_due(now_ns, later_ns, interval_ns),
    ensures
        later_ns >= now_ns + interval_ns,
{
}

} // verus!
