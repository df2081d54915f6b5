use std::collections::VecDeque;
use vstd::prelude::*;
use crate::lanes::{qw_lanes, split_lanes, Quad, VU_MEM_QWS};

verus! {

/// Command code of the set-cycle tag.
pub const CMD_STCYCL: u32 = 0x01;
/// Command code of the unpack tag (four 32-bit lanes per quadword).
pub const CMD_UNPACK: u32 = 0x6C;
/// Command code of the micro-call tag.
pub const CMD_MSCAL: u32 = 0x14;
/// Command code of the flush tag.
pub const CMD_FLUSH: u32 = 0x11;

/// Packet parser in front of the vector unit.
pub struct Vif1 {
    /// Quadwords waiting to be parsed.
    pub fifo: VecDeque<u128>,
    /// Cycle length set by the set-cycle tag.
    pub cl: u8,
    /// Write length set by the set-cycle tag.
    pub wl: u8,
    /// Whether data quadwords of an unpack are being consumed.
    pub unpack_active: bool,
    /// Data-memory slot the next unpacked quadword goes to.
    pub unpack_addr: u16,
    /// Data quadwords still owed to the active unpack.
    pub unpack_count: u16,
    /// Start address requested by the last micro-call tag.
    pub mscal_addr: Option<u16>,
}

/// The parser's registers together with the data memory it writes.
pub struct VifState {
    pub cl: u8,
    pub wl: u8,
    pub unpack_active: bool,
    pub unpack_addr: u16,
    pub unpack_count: u16,
    pub mscal_addr: Option<u16>,
    pub mem: Seq<Quad>,
}

/// The tag held in the low 32 bits of a quadword.
pub open spec fn tag_of(qw: u128) -> u32 {
    (qw & 0xFFFF_FFFF) as u32
}

/// The command code in the top byte of a tag.
pub open spec fn tag_cmd(tag: u32) -> u32 {
    (tag >> 24) & 0xFF
}

/// Quadword count of an unpack tag.
pub open spec fn unpack_num(tag: u32) -> u16 {
    ((tag >> 16) & 0xFF) as u16
}

/// Destination slot of an unpack tag.
pub open spec fn unpack_dest(tag: u32) -> u16 {
    (tag & 0x3FF) as u16
}

/// The slot after `a`, wrapping at the 16-bit boundary.
pub open spec fn next_addr(a: u16) -> u16 {
    if a == u16::MAX {
        0
    } else {
        (a + 1) as u16
    }
}

/// Effect of one quadword on the parser.
pub open spec fn vif_step(s: VifState, qw: u128) -> VifState {
    if s.unpack_active {
        let mem = if (s.unpack_addr as int) < s.mem.len() {
            s.mem.update(s.unpack_addr as int, qw_lanes(qw))
        } else {
            s.mem
        };
        let count = (s.unpack_count - 1) as u16;
        VifState {
            mem,
            unpack_addr: next_addr(s.unpack_addr),
            unpack_count: count,
            unpack_active: count != 0,
            ..s
        }
    } else {
        let tag = tag_of(qw);
        let cmd = tag_cmd(tag);
        if cmd == CMD_STCYCL {
            VifState { wl: ((tag >> 8) & 0xFF) as u8, cl: (tag & 0xFF) as u8, ..s }
        } else if cmd == CMD_UNPACK {
            if unpack_num(tag) > 0 {
                VifState {
                    unpack_active: true,
                    unpack_addr: unpack_dest(tag),
                    unpack_count: unpack_num(tag),
                    ..s
                }
            } else {
                s
            }
        } else if cmd == CMD_MSCAL {
            VifState { mscal_addr: Some((tag & 0xFFFF) as u16), ..s }
        } else {
            s
        }
    }
}

/// Effect of a run of quadwords on the parser, first to last.
pub open spec fn vif_run(s: VifState, qws: Seq<u128>) -> VifState
    decreases qws.len(),
{
    if qws.len() == 0 {
        s
    } else {
        vif_step(vif_run(s, qws.drop_last()), qws.last())
    }
}

/// Parsing `a` then `b` is parsing `a + b`.
pub proof fn lemma_vif_run_append(s: VifState, a: Seq<u128>, b: Seq<u128>)
    ensures
        vif_run(s, a + b) == vif_run(vif_run(s, a), b),
    decreases b.len(),
{
    if b.len() == 0 {
        assert(a + b =~= a);
    } else {
        lemma_vif_run_append(s, a, b.drop_last());
        assert((a + b).drop_last() =~= a + b.drop_last());
        assert((a + b).last() == b.last());
    }
}

/// Parsing one quadword is one parser step.
pub proof fn lemma_vif_run_single(s: VifState, qw: u128)
    ensures
        vif_run(s, seq![qw]) == vif_step(s, qw),
{
    assert(seq![qw].drop_last() =~= Seq::<u128>::empty());
    assert(vif_run(s, Seq::<u128>::empty()) == s);
    assert(seq![qw].last() == qw);
}

proof fn lemma_unpack_prefix(s: VifState, tag: u128, payload: Seq<u128>, k: int)
    requires
        !s.unpack_active,
        s.mem.len() == VU_MEM_QWS,
        tag_cmd(tag_of(tag)) == CMD_UNPACK,
        payload.len() == unpack_num(tag_of(tag)),
        payload.len() > 0,
        unpack_dest(tag_of(tag)) + payload.len() <= VU_MEM_QWS,
        0 <= k <= payload.len(),
    ensures
        ({
            let r = vif_run(s, seq![tag] + payload.subrange(0, k));
            let dest = unpack_dest(tag_of(tag)) as int;
            &&& r.unpack_active == (k < payload.len())
            &&& r.unpack_addr == dest + k
            &&& r.unpack_count == payload.len() - k
            &&& r.mem.len() == s.mem.len()
            &&& r.mscal_addr == s.mscal_addr
            &&& r.wl == s.wl
            &&& r.cl == s.cl
            &&& forall|i: int| 0 <= i < k ==> #[trigger] r.mem[dest + i] == qw_lanes(payload[i])
            &&& forall|j: int|
                0 <= j < s.mem.len() && !(dest <= j < dest + k) ==> #[trigger] r.mem[j] == s.mem[j]
        }),
    decreases k,
{
    let dest = unpack_dest(tag_of(tag)) as int;
    if k == 0 {
        let q = seq![tag] + payload.subrange(0, 0);
        assert(q.drop_last() =~= Seq::<u128>::empty());
        assert(q.last() == tag);
        assert(vif_run(s, q.drop_last()) == s);
    } else {
        lemma_unpack_prefix(s, tag, payload, k - 1);
        let q = seq![tag] + payload.subrange(0, k);
        assert(q.drop_last() =~= seq![tag] + payload.subrange(0, k - 1));
        assert(q.last() == payload[k - 1]);
        let p = vif_run(s, q.drop_last());
        let r = vif_run(s, q);
        assert(r == vif_step(p, payload[k - 1]));
        assert(p.unpack_addr < u16::MAX);
        assert forall|i: int| 0 <= i < k implies #[trigger] r.mem[dest + i] == qw_lanes(payload[i]) by {
            if i < k - 1 {
                assert(p.mem[dest + i] == qw_lanes(payload[i]));
            }
        }
        assert forall|j: int| 0 <= j < s.mem.len() && !(dest <= j < dest + k) implies #[trigger] r.mem[j]
            == s.mem[j] by {
            assert(p.mem[j] == s.mem[j]);
        }
    }
}

/// An unpack tag for `n > 0` quadwords at slot `a`, followed by its `n` data
/// quadwords, stores the lanes of the `i`-th data quadword in slot `a + i`,
/// leaves every other slot as it was, and returns the parser to reading tags.
pub proof fn lemma_unpack_addressing(s: VifState, tag: u128, payload: Seq<u128>)
    requires
        !s.unpack_active,
        s.mem.len() == VU_MEM_QWS,
        tag_cmd(tag_of(tag)) == CMD_UNPACK,
        payload.len() == unpack_num(tag_of(tag)),
        payload.len() > 0,
        unpack_dest(tag_of(tag)) + payload.len() <= VU_MEM_QWS,
    ensures
        ({
            let r = vif_run(s, seq![tag] + payload);
            let dest = unpack_dest(tag_of(tag)) as int;
            &&& !r.unpack_active
            &&& r.mem.len() == s.mem.len()
            &&& r.mscal_addr == s.mscal_addr
            &&& r.wl == s.wl
            &&& r.cl == s.cl
            &&& forall|i: int| 0 <= i < payload.len() ==> #[trigger] r.mem[dest + i] == qw_lanes(payload[i])
            &&& forall|j: int|
                0 <= j < s.mem.len() && !(dest <= j < dest + payload.len()) ==> #[trigger] r.mem[j]
                    == s.mem[j]
        }),
{
    lemma_unpack_prefix(s, tag, payload, payload.len() as int);
    assert(payload.subrange(0, payload.len() as int) =~= payload);
}

impl Vif1 {
    /// An unpack in progress is always owed at least one quadword.
    pub open spec fn wf(&self) -> bool {
        self.unpack_active ==> self.unpack_count > 0
    }

    /// The parser's registers, with `mem` as the data memory.
    pub open spec fn state(&self, mem: Seq<Quad>) -> VifState {
        VifState {
            cl: self.cl,
            wl: self.wl,
            unpack_active: self.unpack_active,
            unpack_addr: self.unpack_addr,
            unpack_count: self.unpack_count,
            mscal_addr: self.mscal_addr,
            mem,
        }
    }

    pub fn new() -> (r: Self)
        ensures
            r.wf(),
            r.fifo@.len() == 0,
            r.cl == 1,
            r.wl == 1,
            !r.unpack_active,
            r.unpack_addr == 0,
            r.unpack_count == 0,
            r.mscal_addr.is_none(),
    {
        Vif1 {
            fifo: VecDeque::new(),
            cl: 1,
            wl: 1,
            unpack_active: false,
            unpack_addr: 0,
            unpack_count: 0,
            mscal_addr: None,
        }
    }

    /// Drains the whole queue, parsing tags and writing unpacked quadwords into `vu_mem`.
    pub fn process(&mut self, vu_mem: &mut Vec<Quad>)
        requires
            old(self).wf(),
            old(vu_mem)@.len() == VU_MEM_QWS,
        ensures
            final(self).wf(),
            final(self).fifo@.len() == 0,
            final(vu_mem)@.len() == VU_MEM_QWS,
            final(self).state(final(vu_mem)@) == vif_run(old(self).state(old(vu_mem)@), old(self).fifo@),
    {
        let ghost s0 = self.state(vu_mem@);
        let ghost all = self.fifo@;
        loop
            invariant
                self.wf(),
                vu_mem@.len() == VU_MEM_QWS,
                s0 == old(self).state(old(vu_mem)@),
                all == old(self).fifo@,
                all.len() >= self.fifo@.len(),
                all == all.subrange(0, all.len() - self.fifo@.len()) + self.fifo@,
                self.state(vu_mem@) == vif_run(s0, all.subrange(0, all.len() - self.fifo@.len())),
            decreases self.fifo@.len(),
        {
            let ghost done = all.subrange(0, all.len() - self.fifo@.len());
            let ghost pre = self.state(vu_mem@);
            match self.fifo.pop_front() {
                None => {
                    assert(done =~= all);
                    return;
                },
                Some(qw) => {
                    proof {
                        let d2 = all.subrange(0, all.len() - self.fifo@.len());
                        assert(d2 =~= done.push(qw));
                        assert(d2.drop_last() =~= done);
                        assert(all =~= d2 + self.fifo@);
                    }
                    self.step(vu_mem, qw);
                    assert(self.state(vu_mem@) == vif_step(pre, qw));
                },
            }
        }
    }

    /// Parses one quadword.
    fn step(&mut self, vu_mem: &mut Vec<Quad>, qw: u128)
        requires
            old(self).wf(),
            old(vu_mem)@.len() == VU_MEM_QWS,
        ensures
            final(self).wf(),
            final(vu_mem)@.len() == VU_MEM_QWS,
            final(self).fifo == old(self).fifo,
            final(self).state(final(vu_mem)@) == vif_step(old(self).state(old(vu_mem)@), qw),
    {
        if self.unpack_active {
            if (self.unpack_addr as usize) < VU_MEM_QWS {
                vu_mem[self.unpack_addr as usize] = split_lanes(qw);
            }
            self.unpack_addr = if self.unpack_addr == u16::MAX {
                0
            } else {
                self.unpack_addr + 1
            };
            self.unpack_count = self.unpack_count - 1;
            if self.unpack_count == 0 {
                self.unpack_active = false;
            }
        } else {
            let tag = (qw & 0xFFFF_FFFF) as u32;
            let cmd = (tag >> 24) & 0xFF;
            if cmd == CMD_STCYCL {
                self.wl = ((tag >> 8) & 0xFF) as u8;
                self.cl = (tag & 0xFF) as u8;
            } else if cmd == CMD_UNPACK {
                let num = ((tag >> 16) & 0xFF) as u16;
                let addr = (tag & 0x3FF) as u16;
                if num > 0 {
                    self.unpack_active = true;
                    self.unpack_addr = addr;
                    self.unpack_count = num;
                }
            } else if cmd == CMD_MSCAL {
                self.mscal_addr = Some((tag & 0xFFFF) as u16);
            }
            // A flush has nothing to wait for here; other codes are filler.
        }
    }
}

} // verus!
