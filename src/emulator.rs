use vstd::prelude::*;
use crate::cpu::CYCLES_PER_FRAME;
use crate::dmac::Dmac;
use crate::ee::{holds_qws, packet, EmotionEngine, SceneData, D1_MADR, D1_QWC, PACKET_BASE};
use crate::dmac::{quadwords, CHCR_STR};
use crate::lanes::VU_MEM_QWS;
use crate::vu1_program::micro_program;
use crate::gif::{gif_vertices, gif_yields, parse_gif_packet, GsPrimitive};
use crate::gs_rasterizer::{background, draw_triangles, rasterize_triangle, Framebuffer, FB_BACKGROUND, FB_H, FB_W};
use crate::vif1::{vif_run, Vif1};
use crate::vu1::{
    vu_run, FloatUnit, RunOutcome, Vu1, VuModel, FALLBACK_BASE, MAX_CYCLES, ONE_BITS, VF_REGS, VI_REGS,
};
use crate::lanes::Quad;

verus! {

/// Matrix operations credited to the vector unit per frame.
pub const MAT_OPS_PER_FRAME: u64 = 5;

/// Counters reported after each frame.
#[derive(Clone, Copy, Debug, PartialEq, Eq, Structural)]
pub struct FrameTelemetry {
    pub emulated_cycles: u64,
    pub vu1_mat_ops: u64,
    pub frame_count: u64,
}

/// The whole pipeline: memory, transfer engine, packet parser, vector unit
/// and pixel buffer, with the frame counters.
pub struct EmulatorCore {
    pub ee: EmotionEngine,
    pub dmac: Dmac,
    pub vif1: Vif1,
    pub vu1: Vu1,
    pub gs_fb: Framebuffer,
    pub frame_count: u64,
    pub emu_cycles: u64,
    pub vu1_mat_ops: u64,
}

impl EmulatorCore {
    pub open spec fn wf(&self) -> bool {
        &&& self.ee.wf()
        &&& self.vif1.wf()
        &&& self.vu1.wf()
        &&& self.gs_fb.wf()
    }

    /// A pipeline at frame 0 with the micro-program loaded.
    pub fn new() -> (r: Self)
        ensures
            r.wf(),
            r.frame_count == 0,
            r.emu_cycles == 0,
            r.vu1_mat_ops == 0,
            r.ee.frame == 0,
            !r.dmac.busy(),
            r.vif1.fifo@.len() == 0,
            !r.vif1.unpack_active,
            r.vif1.mscal_addr.is_none(),
            r.vu1.code_mem@ == micro_program(),
            forall|i: int| 1 <= i < VF_REGS ==> #[trigger] r.vu1.vf@[i] == [0u32, 0, 0, 0],
            forall|i: int| 0 <= i < VI_REGS ==> #[trigger] r.vu1.vi@[i] == 0,
            forall|i: int| 0 <= i < VU_MEM_QWS ==> #[trigger] r.vu1.data_mem@[i] == [0u32, 0, 0, 0],
            r.vu1.acc == [0u32, 0, 0, 0],
            r.vu1.q == ONE_BITS,
            r.vu1.pc == 0,
            r.vu1.div_busy == 0,
            r.gs_fb.pixels@ == background(),
    {
        assert(0u32 & CHCR_STR == 0) by (bit_vector);
        let gs_fb = Framebuffer::new();
        assert(gs_fb.pixels@ =~= background());
        EmulatorCore {
            ee: EmotionEngine::new(),
            dmac: Dmac::new(),
            vif1: Vif1::new(),
            vu1: Vu1::new(),
            gs_fb,
            frame_count: 0,
            emu_cycles: 0,
            vu1_mat_ops: 0,
        }
    }

    /// Runs one frame: writes the packet for `scene`, transfers it, parses it
    /// into the vector unit's data memory, runs the micro-program from the
    /// requested start address (0 if none was requested), decodes the
    /// primitives it emitted, clears the pixel buffer and draws every complete
    /// triangle of each primitive. Returns the updated counters.
    pub fn step_frame<F: FloatUnit>(&mut self, fpu: &F, scene: &SceneData) -> (r: FrameTelemetry)
        requires
            old(self).wf(),
            scene.wf(),
            old(self).ee.frame < u64::MAX,
            old(self).emu_cycles + CYCLES_PER_FRAME <= u64::MAX,
            old(self).vu1_mat_ops + MAT_OPS_PER_FRAME <= u64::MAX,
            old(self).frame_count < u64::MAX,
        ensures
            final(self).wf(),
            final(self).ee.frame == old(self).ee.frame + 1,
            final(self).emu_cycles == old(self).emu_cycles + CYCLES_PER_FRAME,
            final(self).vu1_mat_ops == old(self).vu1_mat_ops + MAT_OPS_PER_FRAME,
            final(self).frame_count == old(self).frame_count + 1,
            holds_qws(final(self).ee.ee_ram@, PACKET_BASE as int, packet(*scene)),
            final(self).dmac.d1_madr == D1_MADR,
            final(self).dmac.d1_qwc == D1_QWC,
            !final(self).dmac.busy(),
            final(self).vu1.code_mem == old(self).vu1.code_mem,
            final(self).vif1.fifo@.len() == 0,
            final(self).vif1.mscal_addr.is_none(),
            ({
                let fifo = old(self).vif1.fifo@ + quadwords(final(self).ee.ee_ram@, D1_MADR as int, D1_QWC as int);
                let parsed = vif_run(old(self).vif1.state(old(self).vu1.data_mem@), fifo);
                let start = match parsed.mscal_addr {
                    Some(a) => a,
                    None => 0u16,
                };
                let m0 = VuModel { mem: parsed.mem, pc: start, ..old(self).vu1.model() };
                let (m1, out) = vu_run(fpu, old(self).vu1.code_mem@, m0, MAX_CYCLES as nat, 0);
                let base = match out {
                    RunOutcome::Kicked { base, .. } => base,
                    _ => FALLBACK_BASE,
                };
                &&& final(self).vu1.model() == m1
                &&& final(self).gs_fb.pixels@ == frame_image(fpu, m1.mem, base as int)
            }),
            r == (FrameTelemetry {
                emulated_cycles: final(self).emu_cycles,
                vu1_mat_ops: final(self).vu1_mat_ops,
                frame_count: final(self).frame_count,
            }),
    {
        let ghost vif0 = self.vif1.state(self.vu1.data_mem@);
        let ghost fifo0 = self.vif1.fifo@;
        let ghost vu0 = self.vu1.model();
        let ghost vu0_code = self.vu1.code_mem@;
        let (madr, qwc) = self.ee.build_packet(scene);
        self.emu_cycles = self.emu_cycles + CYCLES_PER_FRAME;
        self.dmac.kick(madr, qwc);
        self.dmac.transfer(self.ee.ee_ram.as_slice(), &mut self.vif1.fifo);
        let ghost fifo = fifo0 + quadwords(self.ee.ee_ram@, D1_MADR as int, D1_QWC as int);
        assert(self.vif1.fifo@ == fifo);
        assert(self.vif1.state(self.vu1.data_mem@) == vif0);
        self.vif1.process(&mut self.vu1.data_mem);
        let ghost parsed = vif_run(vif0, fifo);
        let start = match self.vif1.mscal_addr {
            Some(a) => a,
            None => 0,
        };
        self.vif1.mscal_addr = None;
        self.vu1.pc = start;
        let ghost m0 = VuModel { mem: parsed.mem, pc: start, ..vu0 };
        assert(self.vu1.model() == m0);
        let base = self.vu1.run_until_xgkick(fpu);
        self.vu1_mat_ops = self.vu1_mat_ops + MAT_OPS_PER_FRAME;
        let prims = parse_gif_packet(fpu, &self.vu1.data_mem, base as usize);
        self.gs_fb.clear(FB_BACKGROUND);
        assert(self.gs_fb.pixels@ =~= background());
        draw_primitives(&mut self.gs_fb, &prims);
        proof {
            let (m1, out) = vu_run(fpu, vu0_code, m0, MAX_CYCLES as nat, 0);
            assert(self.vu1.model() == m1);
            if prims@.len() == 1 {
                assert(prims@.drop_last() =~= Seq::<GsPrimitive>::empty());
                assert(prims@.last() == prims@[0]);
                assert(draw_primitives_spec(background(), prims@.drop_last()) == background());
                assert(self.gs_fb.pixels@ == frame_image(fpu, m1.mem, base as int));
            } else {
                assert(prims@ =~= Seq::<GsPrimitive>::empty());
                assert(self.gs_fb.pixels@ == frame_image(fpu, m1.mem, base as int));
            }
        }
        self.frame_count = self.frame_count + 1;
        FrameTelemetry {
            emulated_cycles: self.emu_cycles,
            vu1_mat_ops: self.vu1_mat_ops,
            frame_count: self.frame_count,
        }
    }
}

/// The buffer `pixels` after drawing every primitive of `prims` in order.
pub open spec fn draw_primitives_spec(pixels: Seq<u32>, prims: Seq<GsPrimitive>) -> Seq<u32>
    decreases prims.len(),
{
    if prims.len() == 0 {
        pixels
    } else {
        let last = prims.last().vertices@;
        draw_triangles(draw_primitives_spec(pixels, prims.drop_last()), last, last.len() / 3)
    }
}

/// The picture of a frame: the primitive decoded at `base` of `mem`, drawn
/// over the background.
pub open spec fn frame_image<F: FloatUnit>(fpu: &F, mem: Seq<Quad>, base: int) -> Seq<u32> {
    if gif_yields(mem, base) {
        let v = gif_vertices(fpu, mem, base);
        draw_triangles(background(), v, v.len() / 3)
    } else {
        background()
    }
}

/// Draws consecutive, non-overlapping vertex triples of each primitive as
/// triangles; one or two trailing vertices are left out.
fn draw_primitives(fb: &mut Framebuffer, prims: &Vec<GsPrimitive>)
    requires
        old(fb).wf(),
    ensures
        final(fb).wf(),
        final(fb).pixels@ == draw_primitives_spec(old(fb).pixels@, prims@),
{
    let mut p: usize = 0;
    while p < prims.len()
        invariant
            fb.wf(),
            p <= prims@.len(),
            fb.pixels@ == draw_primitives_spec(old(fb).pixels@, prims@.subrange(0, p as int)),
        decreases prims@.len() - p,
    {
        let verts = &prims[p].vertices;
        let ghost start = fb.pixels@;
        let mut k: usize = 0;
        while 3 <= verts.len() - k
            invariant
                fb.wf(),
                k <= verts@.len(),
                k % 3 == 0,
                fb.pixels@ == draw_triangles(start, verts@, (k / 3) as nat),
            decreases verts@.len() - k,
        {
            rasterize_triangle(fb, &verts[k], &verts[k + 1], &verts[k + 2]);
            assert(3 * ((k + 3) / 3 - 1) == k);
            k = k + 3;
        }
        assert(k / 3 == verts@.len() / 3);
        proof {
            let pre = prims@.subrange(0, p + 1);
            assert(pre.drop_last() =~= prims@.subrange(0, p as int));
            assert(pre.last() == prims@[p as int]);
        }
        p = p + 1;
    }
    assert(prims@.subrange(0, prims@.len() as int) =~= prims@);
}

} // verus!
