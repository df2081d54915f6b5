use std::collections::VecDeque;
use vstd::prelude::*;
use crate::quad::{qw_at, read_qw_le, QW_BYTES};

verus! {

/// Start bit of the channel control register.
pub const CHCR_STR: u32 = 0x100;

/// Control word written by a kick: start bit and direction towards the peripheral.
pub const CHCR_KICK: u32 = 0x101;

/// Channel that moves quadwords from main memory into the packet parser's queue.
pub struct Dmac {
    /// Source byte address.
    pub d1_madr: u32,
    /// Number of quadwords to move.
    pub d1_qwc: u32,
    /// Channel control; bit 8 is the start (busy) bit.
    pub d1_chcr: u32,
}

/// The `count` quadwords that start at byte `base` of `mem`, in ascending address order.
pub open spec fn quadwords(mem: Seq<u8>, base: int, count: int) -> Seq<u128> {
    Seq::new(count as nat, |i: int| qw_at(mem, base + i * QW_BYTES as int))
}

/// Whether the byte range of the programmed transfer lies inside a memory of `len` bytes.
pub open spec fn range_fits(madr: u32, qwc: u32, len: int) -> bool {
    madr as int + qwc as int * QW_BYTES as int <= len
}

impl Dmac {
    pub open spec fn busy(&self) -> bool {
        self.d1_chcr & CHCR_STR != 0
    }

    pub fn new() -> (r: Self)
        ensures
            r.d1_madr == 0,
            r.d1_qwc == 0,
            r.d1_chcr == 0,
    {
        Dmac { d1_madr: 0, d1_qwc: 0, d1_chcr: 0 }
    }

    /// Programs the source address and quadword count and sets the start bit.
    pub fn kick(&mut self, madr: u32, qwc: u32)
        ensures
            final(self).d1_madr == madr,
            final(self).d1_qwc == qwc,
            final(self).d1_chcr == CHCR_KICK,
            final(self).busy(),
    {
        self.d1_madr = madr;
        self.d1_qwc = qwc;
        self.d1_chcr = CHCR_KICK;
        assert(CHCR_KICK & CHCR_STR != 0) by (bit_vector);
    }

    /// Moves the programmed quadwords from `ram` to the back of `fifo`, all or
    /// nothing, and clears the start bit. Does nothing while the channel is idle.
    pub fn transfer(&mut self, ram: &[u8], fifo: &mut VecDeque<u128>)
        ensures
            !old(self).busy() ==> *final(self) == *old(self) && final(fifo)@ == old(fifo)@,
            old(self).busy() ==> {
                &&& final(self).d1_madr == old(self).d1_madr
                &&& final(self).d1_qwc == old(self).d1_qwc
                &&& final(self).d1_chcr == old(self).d1_chcr & !CHCR_STR
                &&& !final(self).busy()
                &&& final(fifo)@ == if range_fits(old(self).d1_madr, old(self).d1_qwc, ram@.len() as int) {
                    old(fifo)@ + quadwords(ram@, old(self).d1_madr as int, old(self).d1_qwc as int)
                } else {
                    old(fifo)@
                }
            },
    {
        if self.d1_chcr & CHCR_STR == 0 {
            return;
        }
        let ghost chcr0 = self.d1_chcr;
        let ghost start = fifo@;
        let base = self.d1_madr as u64;
        let qwc = self.d1_qwc as u64;
        let end = base + qwc * 16;
        let len = ram.len() as u64;
        self.d1_chcr = self.d1_chcr & !CHCR_STR;
        assert(chcr0 & !CHCR_STR & CHCR_STR == 0) by (bit_vector);
        if end > len {
            return;
        }
        let ghost src = quadwords(ram@, base as int, qwc as int);
        let base = self.d1_madr as usize;
        let qwc = self.d1_qwc as usize;
        let mut i: usize = 0;
        while i < qwc
            invariant
                i <= qwc,
                base + qwc * 16 <= ram@.len(),
                ram@.len() == len,
                len == ram.len(),
                src == quadwords(ram@, base as int, qwc as int),
                fifo@ == start + src.subrange(0, i as int),
            decreases qwc - i,
        {
            let off = base + i * QW_BYTES;
            let qw = read_qw_le(ram, off);
            fifo.push_back(qw);
            assert(src[i as int] == qw);
            assert(src.subrange(0, i + 1) =~= src.subrange(0, i as int).push(qw));
            i = i + 1;
        }
        assert(src.subrange(0, qwc as int) =~= src);
    }
}

} // verus!
