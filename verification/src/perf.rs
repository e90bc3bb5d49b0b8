use vstd::prelude::*;

verus! {

/// Length of a measurement window for the frame, point and data rates.
pub const PERF_WINDOW_NANOS: u64 = 1_000_000_000;

/// Totals of a closed measurement window, from which the rates are shown.
#[derive(PartialEq, Eq, Structural, Clone, Copy, Debug)]
pub struct PerfWindow {
    pub frames: u32,
    pub points: usize,
    pub bytes: usize,
    pub elapsed_nanos: u64,
}

/// Counters of the current measurement window.
#[derive(PartialEq, Eq, Structural, Clone, Copy, Debug)]
pub struct PerfCounters {
    pub frames: u32,
    pub points: usize,
    pub bytes: usize,
}

impl PerfCounters {
    /// All counters at zero.
    pub fn new() -> (r: PerfCounters)
        ensures
            r == (PerfCounters { frames: 0, points: 0, bytes: 0 }),
    {
        PerfCounters { frames: 0, points: 0, bytes: 0 }
    }

    /// Counts points decoded in this window.
    pub fn add_points(&mut self, n: usize)
        requires
            old(self).points + n <= usize::MAX,
        ensures
            *final(self) == (PerfCounters { points: (old(self).points + n) as usize, ..*old(self) }),
    {
        self.points = self.points + n;
    }

    /// Counts bytes received in this window.
    pub fn add_bytes(&mut self, n: usize)
        requires
            old(self).bytes + n <= usize::MAX,
        ensures
            *final(self) == (PerfCounters { bytes: (old(self).bytes + n) as usize, ..*old(self) }),
    {
        self.bytes = self.bytes + n;
    }

    /// Counts a frame.  Once a full second has passed since the window
    /// began, returns the window's totals (this frame included) and starts a
    /// new window with every counter at zero.
    pub fn end_frame(&mut self, elapsed_nanos: u64) -> (r: Option<PerfWindow>)
        requires
            old(self).frames < u32::MAX,
        ensures
            elapsed_nanos >= PERF_WINDOW_NANOS ==> {
                &&& r == Some(
                    PerfWindow {
                        frames: (old(self).frames + 1) as u32,
                        points: old(self).points,
                        bytes: old(self).bytes,
                        elapsed_nanos,
                    },
                )
                &&& *final(self) == (PerfCounters { frames: 0, points: 0, bytes: 0 })
            },
            elapsed_nanos < PERF_WINDOW_NANOS ==> {
                &&& r == None::<PerfWindow>
                &&& *final(self) == (PerfCounters {
                    frames: (old(self).frames + 1) as u32,
                    ..*old(self)
                })
            },
    {
        self.frames = self.frames + 1;
        if elapsed_nanos >= PERF_WINDOW_NANOS {
            let w = PerfWindow {
                frames: self.frames,
                points: self.points,
                bytes: self.bytes,
                elapsed_nanos,
            };
            self.frames = 0;
            self.points = 0;
            self.bytes = 0;
            Some(w)
        } else {
            None
        }
    }
}

} // verus!
