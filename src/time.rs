use vstd::prelude::*;

verus! {

/// What to do at the end of a frame to keep the frame rate.
#[derive(Debug, Clone, Copy, PartialEq, Eq, Structural)]
pub enum FramePacing {
    /// No frame rate is set: go on at once.
    Unpaced,
    /// Wait until this many microseconds have passed since the schedule started.
    WaitUntil(u64),
    /// The frame ended this many microseconds after its deadline, or the
    /// frame counter ran out: the schedule starts again now.
    Restart(u64),
}

/// A frame schedule at a fixed frame rate; the embedding program measures
/// the time since the schedule started.
#[derive(Debug)]
pub struct Time {
    frame_count: u32,
    fps: u32,
}

impl Time {
    /// The frames counted since the schedule started.
    pub closed spec fn frame_count(&self) -> u32 {
        self.frame_count
    }

    /// The frame rate; `0` for none.
    pub closed spec fn fps(&self) -> u32 {
        self.fps
    }

    /// The deadline of frame `n` at `fps` frames per second, in microseconds:
    /// `n` whole frame periods of `1_000_000 / fps` microseconds.
    pub open spec fn deadline(fps: u32, n: int) -> int {
        (1_000_000int / (fps as int)) * n
    }

    /// A schedule at `fps` frames per second, starting now.
    pub fn new(fps: u32) -> (r: Self)
        ensures
            r.fps() == fps,
            r.frame_count() == 0,
    {
        Self { frame_count: 0, fps }
    }

    /// Starts the schedule again, useful after loading a new scene.
    pub fn restart(&mut self)
        ensures
            final(self).frame_count() == 0,
            final(self).fps() == old(self).fps(),
    {
        self.frame_count = 0;
    }

    /// The frame rate.
    pub fn framerate(&self) -> (r: u32)
        ensures
            r == self.fps(),
    {
        self.fps
    }

    /// Ends a frame, `elapsed` microseconds after the schedule started: counts
    /// it, and says whether to wait for its deadline or, where it is late,
    /// to start the schedule again.
    pub fn frame(&mut self, elapsed: u64) -> (r: FramePacing)
        ensures
            final(self).fps() == old(self).fps(),
            old(self).fps() == 0 ==> r == FramePacing::Unpaced && final(self).frame_count()
                == old(self).frame_count(),
            old(self).fps() != 0 && old(self).frame_count() == u32::MAX ==> r
                == FramePacing::Restart(0) && final(self).frame_count() == 0,
            old(self).fps() != 0 && old(self).frame_count() < u32::MAX ==> ({
                let deadline = Time::deadline(old(self).fps(), old(self).frame_count() + 1);
                &&& elapsed < deadline ==> r == FramePacing::WaitUntil(deadline as u64)
                    && final(self).frame_count() == old(self).frame_count() + 1
                &&& elapsed >= deadline ==> r == FramePacing::Restart((elapsed - deadline) as u64)
                    && final(self).frame_count() == 0
            }),
    {
        if self.fps == 0 {
            return FramePacing::Unpaced;
        }
        if self.frame_count == u32::MAX {
            self.restart();
            return FramePacing::Restart(0);
        }
        let count = self.frame_count + 1;
        let period = 1_000_000 / (self.fps as u64);
        assert(period * (count as u64) <= 1_000_000 * 0x1_0000_0000) by (nonlinear_arith)
            requires
                period <= 1_000_000,
                count <= 0x1_0000_0000,
        ;
        let deadline = period * (count as u64);
        if elapsed < deadline {
            self.frame_count = count;
            FramePacing::WaitUntil(deadline)
        } else {
            self.restart();
            FramePacing::Restart(elapsed - deadline)
        }
    }
}

} // verus!
