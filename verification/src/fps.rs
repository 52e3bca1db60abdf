//! Frame counting for the frames-per-second statistics.
//!
//! The counter remembers when the previous frame began; the application turns
//! the time between two frames into the averaged statistics.
use std::time::Instant;
use vstd::prelude::*;

verus! {

/// A moment in time, as the standard library's monotonic clock gives it.
#[verifier::external_type_specification]
#[verifier::external_body]
pub struct ExInstant(Instant);

/// Counts frames and remembers when the previous one began.
#[derive(Debug, Default)]
pub struct Counter {
    frames: u64,
    prev_time: Option<Instant>,
}

impl Counter {
    /// A counter that has seen no frame.
    pub fn new() -> (c: Counter)
        ensures
            c.frames() == 0,
            c.prev_time() is None,
    {
        Counter { frames: 0, prev_time: None }
    }

    /// Number of frames counted.
    pub closed spec fn frames(&self) -> nat {
        self.frames as nat
    }

    /// When the previous frame began, if a frame was counted.
    pub closed spec fn prev_time(&self) -> Option<Instant> {
        self.prev_time
    }

    /// Number of frames counted.
    pub fn frame_count(&self) -> (n: u64)
        ensures
            n == self.frames(),
    {
        self.frames
    }

    /// Counts a frame that begins at `now`, and returns when the previous
    /// frame began (`None` for the first frame).
    pub fn record_frame(&mut self, now: Instant) -> (prev: Option<Instant>)
        requires
            old(self).frames() < u64::MAX,
        ensures
            prev == old(self).prev_time(),
            final(self).prev_time() == Some(now),
            final(self).frames() == old(self).frames() + 1,
    {
        let prev = self.prev_time.take();
        self.prev_time = Some(now);
        self.frames = self.frames + 1;
        prev
    }
}

} // verus!
