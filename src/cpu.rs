use vstd::prelude::*;

verus! {

/// Emulated cycles credited to the host processor for each frame.
pub const CYCLES_PER_FRAME: u64 = 300_000;

/// Cycle counter of the host processor.
pub struct EmotionEngine {
    pub cycles: u64,
}

impl EmotionEngine {
    pub fn new() -> (r: Self)
        ensures
            r.cycles == 0,
    {
        EmotionEngine { cycles: 0 }
    }

    /// Credits one frame's worth of cycles and returns how many were added.
    pub fn step(&mut self) -> (r: u64)
        requires
            old(self).cycles + CYCLES_PER_FRAME <= u64::MAX,
        ensures
            r == CYCLES_PER_FRAME,
            final(self).cycles == old(self).cycles + CYCLES_PER_FRAME,
    {
        self.cycles = self.cycles + CYCLES_PER_FRAME;
        CYCLES_PER_FRAME
    }
}

} // verus!
