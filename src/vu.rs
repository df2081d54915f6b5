use vstd::prelude::*;

verus! {

/// Frame index and cumulative matrix-operation count of the vector unit.
pub struct Vu1State {
    pub frame: u64,
    pub mat_ops: u64,
}

impl Vu1State {
    pub fn new() -> (r: Self)
        ensures
            r.frame == 0,
            r.mat_ops == 0,
    {
        Vu1State { frame: 0, mat_ops: 0 }
    }
}

} // verus!
