//! The frame-rate counter: frames are counted, and once more than a second
//! has passed since the last measure, the frames drawn since become the rate.
use vstd::prelude::*;

verus! {

/// Nanoseconds in a second.
pub const NANOS_PER_SECOND: u64 = 1_000_000_000;

/// The frame counter's state. Times are nanoseconds on a monotonic clock.
#[derive(Debug, Clone, Copy, PartialEq, Eq, Structural)]
pub struct FrameRateMeter {
    pub frame_rate: i64,
    pub frame_count: i64,
    pub last_measure_frame_count: i64,
    pub last_frame_measure_time: u64,
}

impl FrameRateMeter {
    /// A meter that has measured nothing, started at `now`.
    pub fn new(now: u64) -> (m: FrameRateMeter)
        ensures
            m == (FrameRateMeter { frame_rate: 0, frame_count: 0, last_measure_frame_count: 0, last_frame_measure_time: now }),
    {
        FrameRateMeter { frame_rate: 0, frame_count: 0, last_measure_frame_count: 0, last_frame_measure_time: now }
    }

    /// Records that frame `frame_count` is drawn at `now`; more than a
    /// second after the last measure, the frames drawn since become the
    /// rate and a new measure starts. A clock reading before the last
    /// measure counts as no time passed.
    pub fn frame(&mut self, now: u64, frame_count: i64)
        requires
            i64::MIN <= frame_count - old(self).last_measure_frame_count <= i64::MAX,
        ensures
            final(self).frame_count == frame_count,
            now > old(self).last_frame_measure_time && now - old(self).last_frame_measure_time > NANOS_PER_SECOND
                ==> final(self).frame_rate == frame_count - old(self).last_measure_frame_count
                && final(self).last_frame_measure_time == now && final(self).last_measure_frame_count
                == frame_count,
            !(now > old(self).last_frame_measure_time && now - old(self).last_frame_measure_time
                > NANOS_PER_SECOND) ==> final(self).frame_rate == old(self).frame_rate
                && final(self).last_frame_measure_time == old(self).last_frame_measure_time
                && final(self).last_measure_frame_count == old(self).last_measure_frame_count,
    {
        self.frame_count = frame_count;

        let dt = if now > self.last_frame_measure_time {
            now - self.last_frame_measure_time
        } else {
            0
        };

        if dt > NANOS_PER_SECOND {
            let frame_rate = frame_count - self.last_measure_frame_count;

            self.frame_rate = frame_rate;
            self.last_frame_measure_time = now;
            self.last_measure_frame_count = frame_count;
        }
    }
}

} // verus!
