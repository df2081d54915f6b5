use vstd::prelude::*;
use crate::dmac::quadwords;
use crate::lanes::{qw_lanes, Quad};
use crate::quad::{le_value, pow256, qw_at, QW_BYTES};
use crate::gif::{tag_eop, tag_flg, tag_iip, tag_nloop, tag_nreg, tag_reg, REG_RGBAQ, REG_XYZ2};
use crate::lanes::VU_MEM_QWS;
use crate::vif1::{
    lemma_unpack_addressing, lemma_vif_run_append, lemma_vif_run_single, tag_cmd, tag_of, unpack_dest, unpack_num,
    vif_run, VifState, CMD_FLUSH, CMD_MSCAL, CMD_STCYCL, CMD_UNPACK,
};

verus! {

/// Size of main memory in bytes.
pub const EE_RAM_SIZE: usize = 0x20_0000;
/// Byte address the per-frame packet is written to.
pub const PACKET_BASE: usize = 0x0010_0000;
/// Quadwords in the per-frame packet.
pub const PACKET_QWC: u32 = 125;
/// Source address handed to the transfer engine.
pub const D1_MADR: u32 = 0x0010_0000;
/// Quadword count handed to the transfer engine.
pub const D1_QWC: u32 = 125;
/// Vertices of the scene.
pub const SCENE_VERTS: usize = 36;

/// The host processor's side of a frame: main memory and the frame counter.
pub struct EmotionEngine {
    pub ee_ram: Vec<u8>,
    pub frame: u64,
}

/// Per-frame scene payload, every lane a single-precision bit pattern:
/// per-vertex positions `[x, y, z, 1]`, normals `[nx, ny, nz, 0]` and colours
/// `[r, g, b, 1]`, the four columns of the model-view-projection matrix, the
/// light direction with the ambient term in w, and the viewport scale.
pub struct SceneData {
    pub positions: Vec<Quad>,
    pub normals: Vec<Quad>,
    pub colors: Vec<Quad>,
    pub mvp: Vec<Quad>,
    pub light: Quad,
    pub viewport: Quad,
}

impl SceneData {
    pub open spec fn wf(&self) -> bool {
        &&& self.positions@.len() == SCENE_VERTS
        &&& self.normals@.len() == SCENE_VERTS
        &&& self.colors@.len() == SCENE_VERTS
        &&& self.mvp@.len() == 4
    }
}

/// The scene's descriptor decodes to 36 loops, end of packet, packed mode,
/// two registers per vertex (position, then colour) and a Gouraud-shaded
/// primitive.
pub proof fn lemma_scene_tag_decodes()
    ensures
        tag_nloop(gif_tag_spec()) == 36,
        tag_eop(gif_tag_spec()),
        tag_flg(gif_tag_spec()) == 0,
        tag_nreg(gif_tag_spec()) == 2,
        tag_reg(gif_tag_spec(), 0) == REG_XYZ2,
        tag_reg(gif_tag_spec(), 1) == REG_RGBAQ,
        tag_iip(gif_tag_spec()),
{
    let w0: u32 = 36u32 | (1u32 << 15u32);
    let w1: u32 = (1u32 << 14u32) | (0x00Bu32 << 15u32) | (2u32 << 28u32);
    let w2: u32 = 0x05u32 | (0x01u32 << 4u32);
    assert(w0 & 0x7FFF == 36 && (w0 >> 15) & 1 != 0 && (w1 >> 27) & 3 == 0 && (w1 >> 28) & 0xF == 2 && w2 & 0xF == 5
        && (w2 >> 4) & 0xF == 1 && (w1 >> 14) & 1 != 0 && ((w1 >> 15) & 0x7FF) >> 3 & 1 != 0) by (bit_vector)
        requires
            w0 == 36u32 | (1u32 << 15u32),
            w1 == (1u32 << 14u32) | (0x00Bu32 << 15u32) | (2u32 << 28u32),
            w2 == 0x05u32 | (0x01u32 << 4u32),
    ;
}

proof fn lemma_le_append(a: Seq<u8>, b: Seq<u8>)
    ensures
        le_value(a + b) == le_value(a) + pow256(a.len()) * le_value(b),
    decreases a.len(),
{
    if a.len() == 0 {
        assert(a + b =~= b);
        assert(le_value(a) == 0);
        assert(pow256(0) == 1);
    } else {
        let t = a.subrange(1, a.len() as int);
        lemma_le_append(t, b);
        assert((a + b).subrange(1, (a + b).len() as int) =~= t + b);
        let p = pow256(t.len());
        let (lt, lb) = (le_value(t), le_value(b));
        assert(256 * (lt + p * lb) == 256 * lt + (256 * p) * lb) by (nonlinear_arith);
        assert((a + b)[0] == a[0]);
        assert(pow256(a.len()) == 256 * p);
        assert(le_value(a + b) == a[0] as nat + 256 * le_value(t + b));
        assert(le_value(a) == a[0] as nat + 256 * lt);
        assert(pow256(a.len()) * lb == (256 * p) * lb);
    }
}

proof fn lemma_le_word(s: Seq<u8>, w: u32)
    requires
        s.len() == 4,
        forall|k: int| 0 <= k < 4 ==> #[trigger] s[k] == byte_of(w, k),
    ensures
        le_value(s) == w,
{
    let s1 = s.subrange(1, 4);
    let s2 = s1.subrange(1, 3);
    let s3 = s2.subrange(1, 2);
    let s4 = s3.subrange(1, 1);
    assert(le_value(s4) == 0);
    assert(le_value(s3) == s3[0] as nat + 256 * le_value(s4));
    assert(le_value(s2) == s2[0] as nat + 256 * le_value(s3));
    assert(le_value(s1) == s1[0] as nat + 256 * le_value(s2));
    assert(le_value(s) == s[0] as nat + 256 * le_value(s1));
    assert(s1[0] == s[1] && s2[0] == s[2] && s3[0] == s[3]);
    let (b0, b1, b2, b3) = (byte_of(w, 0), byte_of(w, 1), byte_of(w, 2), byte_of(w, 3));
    assert(b0 as u32 + 256 * (b1 as u32 + 256 * (b2 as u32 + 256 * b3 as u32)) == w) by (bit_vector)
        requires
            b0 == ((w >> 0u32) & 0xFF) as u8,
            b1 == ((w >> 8u32) & 0xFF) as u8,
            b2 == ((w >> 16u32) & 0xFF) as u8,
            b3 == ((w >> 24u32) & 0xFF) as u8,
    ;
}

proof fn lemma_lanes_of_sum(q: Quad, v: u128)
    requires
        v as int == q[0] as int + 0x1_0000_0000 * (q[1] as int + 0x1_0000_0000 * (q[2] as int + 0x1_0000_0000
            * q[3] as int)),
    ensures
        qw_lanes(v) == q,
{
    let (q0, q1, q2, q3) = (q[0], q[1], q[2], q[3]);
    assert(v == q0 as u128 + 0x1_0000_0000u128 * (q1 as u128 + 0x1_0000_0000u128 * (q2 as u128 + 0x1_0000_0000u128
        * q3 as u128)));
    assert((v & 0xFFFF_FFFF) as u32 == q0 && ((v >> 32) & 0xFFFF_FFFF) as u32 == q1 && ((v >> 64) & 0xFFFF_FFFF) as u32
        == q2 && ((v >> 96) & 0xFFFF_FFFF) as u32 == q3) by (bit_vector)
        requires
            v == q0 as u128 + 0x1_0000_0000u128 * (q1 as u128 + 0x1_0000_0000u128 * (q2 as u128 + 0x1_0000_0000u128
                * q3 as u128)),
    ;
    assert(qw_lanes(v) =~= q);
}

/// Sixteen bytes holding the four words of `q` little-endian read back, as one
/// little-endian quadword, with lanes equal to `q`: what the packet writer
/// stores is what the transfer engine and the packet parser see.
pub proof fn lemma_written_qw_lanes(ram: Seq<u8>, off: int, q: Quad)
    requires
        0 <= off,
        off + QW_BYTES <= ram.len(),
        forall|j: int, k: int| 0 <= j < 4 && 0 <= k < 4 ==> #[trigger] ram[off + 4 * j + k] == byte_of(q[j], k),
    ensures
        qw_lanes(qw_at(ram, off)) == q,
{
    let s = ram.subrange(off, off + 16);
    let w = |j: int| s.subrange(4 * j, 4 * j + 4);
    assert forall|j: int| 0 <= j < 4 implies le_value(#[trigger] w(j)) == q[j] by {
        assert forall|k: int| 0 <= k < 4 implies #[trigger] w(j)[k] == byte_of(q[j], k) by {
            assert(w(j)[k] == ram[off + 4 * j + k]);
        }
        lemma_le_word(w(j), q[j]);
    }
    assert(s =~= w(0) + (w(1) + (w(2) + w(3))));
    lemma_le_append(w(2), w(3));
    lemma_le_append(w(1), w(2) + w(3));
    lemma_le_append(w(0), w(1) + (w(2) + w(3)));
    reveal_with_fuel(pow256, 5);
    assert(pow256(4) == 0x1_0000_0000);
    assert(le_value(s) < 0x1_0000_0000_0000_0000_0000_0000_0000_0000) by {
        assert(q[0] as int + 0x1_0000_0000 * (q[1] as int + 0x1_0000_0000 * (q[2] as int + 0x1_0000_0000 * q[3] as int))
            < 0x1_0000_0000_0000_0000_0000_0000_0000_0000) by (nonlinear_arith)
            requires
                q[0] < 0x1_0000_0000,
                q[1] < 0x1_0000_0000,
                q[2] < 0x1_0000_0000,
                q[3] < 0x1_0000_0000,
        ;
    }
    lemma_lanes_of_sum(q, qw_at(ram, off));
}

/// After a packet is written, the quadwords the transfer engine reads from
/// `PACKET_BASE` carry, lane for lane, the packet's quadwords.
pub proof fn lemma_packet_reads_back(ram: Seq<u8>, qws: Seq<Quad>)
    requires
        PACKET_BASE + QW_BYTES * qws.len() <= ram.len(),
        holds_qws(ram, PACKET_BASE as int, qws),
    ensures
        forall|i: int| 0 <= i < qws.len() ==> qw_lanes(#[trigger] quadwords(ram, PACKET_BASE as int, qws.len() as int)[i]) == qws[i],
{
    assert forall|i: int| 0 <= i < qws.len() implies qw_lanes(#[trigger] quadwords(ram, PACKET_BASE as int, qws.len() as int)[i])
        == qws[i] by {
        let off = PACKET_BASE + QW_BYTES * i;
        assert(off + QW_BYTES <= ram.len()) by (nonlinear_arith)
            requires
                off == PACKET_BASE + QW_BYTES * i,
                0 <= i < qws.len(),
                PACKET_BASE + QW_BYTES * qws.len() <= ram.len(),
        ;
        assert forall|j: int, k: int| 0 <= j < 4 && 0 <= k < 4 implies #[trigger] ram[off + 4 * j + k] == byte_of(qws[i][j], k) by {
            assert(ram[PACKET_BASE + QW_BYTES * i + 4 * j + k] == byte_of(qws[i][j], k));
        }
        lemma_written_qw_lanes(ram, off, qws[i]);
        assert(i * QW_BYTES == QW_BYTES * i);
    }
}

proof fn lemma_unpack_tag(num: u32, addr: u32)
    by (bit_vector)
    requires
        num < 256,
        addr < 1024,
    ensures
        tag_cmd(vif_tag_spec(CMD_UNPACK, (num << 16) | addr)) == CMD_UNPACK,
        unpack_num(vif_tag_spec(CMD_UNPACK, (num << 16) | addr)) == num as u16,
        unpack_dest(vif_tag_spec(CMD_UNPACK, (num << 16) | addr)) == addr as u16,
{
}

proof fn lemma_other_tags()
    by (bit_vector)
    ensures
        tag_cmd(vif_tag_spec(CMD_STCYCL, 0x0101)) == CMD_STCYCL,
        (vif_tag_spec(CMD_STCYCL, 0x0101) >> 8) & 0xFF == 1,
        vif_tag_spec(CMD_STCYCL, 0x0101) & 0xFF == 1,
        tag_cmd(vif_tag_spec(CMD_MSCAL, 0)) == CMD_MSCAL,
        vif_tag_spec(CMD_MSCAL, 0) & 0xFFFF == 0,
        tag_cmd(vif_tag_spec(CMD_FLUSH, 0)) == CMD_FLUSH,
{
}

/// Parses the unpack at position `at` of `fifo`: its tag and `num` data quadwords.
proof fn lemma_unpack_segment(st: VifState, fifo: Seq<u128>, qws: Seq<Quad>, at: int, num: u32, addr: u32)
    requires
        !st.unpack_active,
        st.mem.len() == VU_MEM_QWS,
        0 < num < 256,
        addr + num <= VU_MEM_QWS,
        0 <= at,
        at + 1 + num <= fifo.len(),
        fifo.len() == qws.len(),
        forall|i: int| 0 <= i < fifo.len() ==> qw_lanes(#[trigger] fifo[i]) == qws[i],
        qws[at] == unpack_qw(num, addr),
    ensures
        ({
            let r = vif_run(st, fifo.subrange(at, at + 1 + num));
            &&& !r.unpack_active
            &&& r.mem.len() == VU_MEM_QWS
            &&& r.mscal_addr == st.mscal_addr
            &&& r.wl == st.wl
            &&& r.cl == st.cl
            &&& forall|i: int| 0 <= i < num ==> #[trigger] r.mem[addr + i] == qws[at + 1 + i]
            &&& forall|j: int| 0 <= j < VU_MEM_QWS && !(addr <= j < addr + num) ==> #[trigger] r.mem[j] == st.mem[j]
        }),
{
    let tag = fifo[at];
    let payload = fifo.subrange(at + 1, at + 1 + num);
    assert(fifo.subrange(at, at + 1 + num) =~= seq![tag] + payload);
    assert(qw_lanes(tag) == qws[at]);
    assert(tag_of(tag) == vif_tag_spec(CMD_UNPACK, (num << 16) | addr));
    lemma_unpack_tag(num, addr);
    lemma_unpack_addressing(st, tag, payload);
    assert forall|i: int| 0 <= i < num implies qw_lanes(#[trigger] payload[i]) == qws[at + 1 + i] by {
        assert(payload[i] == fifo[at + 1 + i]);
    }
}

proof fn lemma_run_split(st: VifState, fifo: Seq<u128>, a: int, b: int)
    requires
        0 <= a <= b <= fifo.len(),
    ensures
        vif_run(st, fifo.subrange(0, b)) == vif_run(vif_run(st, fifo.subrange(0, a)), fifo.subrange(a, b)),
{
    assert(fifo.subrange(0, b) =~= fifo.subrange(0, a) + fifo.subrange(a, b));
    lemma_vif_run_append(st, fifo.subrange(0, a), fifo.subrange(a, b));
}

/// Parsing the transferred packet of a frame loads the scene into data
/// memory: the primitive descriptor at 108, positions at 0..36, normals at
/// 36..72, colours at 72..108, matrix columns at 182..186, light at 186 and
/// viewport at 187; it sets both cycle parameters to 1, requests the
/// micro-program at address 0, and leaves the parser reading tags.
pub proof fn lemma_frame_packet_loads_scene(st: VifState, fifo: Seq<u128>, scene: SceneData)
    requires
        scene.wf(),
        !st.unpack_active,
        st.mem.len() == VU_MEM_QWS,
        fifo.len() == PACKET_QWC,
        forall|i: int| 0 <= i < fifo.len() ==> qw_lanes(#[trigger] fifo[i]) == packet(scene)[i],
    ensures
        ({
            let r = vif_run(st, fifo);
            &&& !r.unpack_active
            &&& r.mem.len() == VU_MEM_QWS
            &&& r.mscal_addr == Some(0u16)
            &&& r.wl == 1 && r.cl == 1
            &&& r.mem[108] == gif_tag_spec()
            &&& forall|i: int| 0 <= i < SCENE_VERTS ==> #[trigger] r.mem[i] == scene.positions@[i]
            &&& forall|i: int| 0 <= i < SCENE_VERTS ==> #[trigger] r.mem[36 + i] == scene.normals@[i]
            &&& forall|i: int| 0 <= i < SCENE_VERTS ==> #[trigger] r.mem[72 + i] == scene.colors@[i]
            &&& forall|i: int| 0 <= i < 4 ==> #[trigger] r.mem[182 + i] == scene.mvp@[i]
            &&& r.mem[186] == scene.light
            &&& r.mem[187] == scene.viewport
        }),
{
    let p = packet(scene);
    assert(p.len() == 125);
    assert(p[0] == tag_qw(vif_tag_spec(CMD_STCYCL, 0x0101)));
    assert(p[1] == unpack_qw(1, 108));
    assert(p[2] == gif_tag_spec());
    assert(p[3] == unpack_qw(36, 0));
    assert(p[40] == unpack_qw(36, 36));
    assert(p[77] == unpack_qw(36, 72));
    assert(p[114] == unpack_qw(4, 182));
    assert(p[119] == unpack_qw(1, 186));
    assert(p[120] == scene.light);
    assert(p[121] == unpack_qw(1, 187));
    assert(p[122] == scene.viewport);
    assert(p[123] == tag_qw(vif_tag_spec(CMD_MSCAL, 0)));
    assert(p[124] == tag_qw(vif_tag_spec(CMD_FLUSH, 0)));
    assert forall|i: int| 0 <= i < SCENE_VERTS implies #[trigger] p[4 + i] == scene.positions@[i] && p[41 + i]
        == scene.normals@[i] && p[78 + i] == scene.colors@[i] by {}
    assert forall|i: int| 0 <= i < 4 implies #[trigger] p[115 + i] == scene.mvp@[i] by {}
    lemma_other_tags();

    let s0 = vif_run(st, fifo.subrange(0, 0));
    assert(fifo.subrange(0, 0) =~= Seq::<u128>::empty());
    assert(s0 == st);
    // Set-cycle.
    lemma_run_split(st, fifo, 0, 1);
    assert(fifo.subrange(0, 1) =~= seq![fifo[0]]);
    lemma_vif_run_single(s0, fifo[0]);
    assert(qw_lanes(fifo[0]) == p[0]);
    let s1 = vif_run(st, fifo.subrange(0, 1));
    assert(s1.mem == st.mem && !s1.unpack_active && s1.wl == 1 && s1.cl == 1);
    // The unpacks.
    lemma_run_split(st, fifo, 1, 3);
    lemma_unpack_segment(s1, fifo, p, 1, 1, 108);
    let s2 = vif_run(st, fifo.subrange(0, 3));
    lemma_run_split(st, fifo, 3, 40);
    lemma_unpack_segment(s2, fifo, p, 3, 36, 0);
    let s3 = vif_run(st, fifo.subrange(0, 40));
    lemma_run_split(st, fifo, 40, 77);
    lemma_unpack_segment(s3, fifo, p, 40, 36, 36);
    let s4 = vif_run(st, fifo.subrange(0, 77));
    lemma_run_split(st, fifo, 77, 114);
    lemma_unpack_segment(s4, fifo, p, 77, 36, 72);
    let s5 = vif_run(st, fifo.subrange(0, 114));
    lemma_run_split(st, fifo, 114, 119);
    lemma_unpack_segment(s5, fifo, p, 114, 4, 182);
    let s6 = vif_run(st, fifo.subrange(0, 119));
    lemma_run_split(st, fifo, 119, 121);
    lemma_unpack_segment(s6, fifo, p, 119, 1, 186);
    let s7 = vif_run(st, fifo.subrange(0, 121));
    lemma_run_split(st, fifo, 121, 123);
    lemma_unpack_segment(s7, fifo, p, 121, 1, 187);
    let s8 = vif_run(st, fifo.subrange(0, 123));
    // Micro-call, then flush.
    lemma_run_split(st, fifo, 123, 124);
    assert(fifo.subrange(123, 124) =~= seq![fifo[123]]);
    lemma_vif_run_single(s8, fifo[123]);
    assert(qw_lanes(fifo[123]) == p[123]);
    let s9 = vif_run(st, fifo.subrange(0, 124));
    assert(s9.mem == s8.mem && s9.mscal_addr == Some(0u16) && !s9.unpack_active);
    lemma_run_split(st, fifo, 124, 125);
    assert(fifo.subrange(124, 125) =~= seq![fifo[124]]);
    lemma_vif_run_single(s9, fifo[124]);
    assert(qw_lanes(fifo[124]) == p[124]);
    let s10 = vif_run(st, fifo.subrange(0, 125));
    assert(fifo.subrange(0, 125) =~= fifo);
    assert(s10 == s9);
    assert(s9.mem == s8.mem && s10.mem == s8.mem);
    assert(s2.mem[108int + 0] == p[2]);
    assert(s3.mem[108] == s2.mem[108] && s4.mem[108] == s3.mem[108] && s5.mem[108] == s4.mem[108]);
    assert(s6.mem[108] == s5.mem[108] && s7.mem[108] == s6.mem[108] && s8.mem[108] == s7.mem[108]);
    assert forall|i: int| 0 <= i < SCENE_VERTS implies #[trigger] s10.mem[i] == scene.positions@[i] by {
        assert(s3.mem[0 + i] == p[3 + 1 + i]);
        assert(s4.mem[i] == s3.mem[i] && s5.mem[i] == s4.mem[i] && s6.mem[i] == s5.mem[i]);
        assert(s7.mem[i] == s6.mem[i] && s8.mem[i] == s7.mem[i]);
    }
    assert forall|i: int| 0 <= i < SCENE_VERTS implies #[trigger] s10.mem[36 + i] == scene.normals@[i] by {
        assert(s4.mem[36 + i] == p[40 + 1 + i]);
        assert(s5.mem[36 + i] == s4.mem[36 + i] && s6.mem[36 + i] == s5.mem[36 + i]);
        assert(s7.mem[36 + i] == s6.mem[36 + i] && s8.mem[36 + i] == s7.mem[36 + i]);
    }
    assert forall|i: int| 0 <= i < SCENE_VERTS implies #[trigger] s10.mem[72 + i] == scene.colors@[i] by {
        assert(s5.mem[72 + i] == p[77 + 1 + i]);
        assert(s6.mem[72 + i] == s5.mem[72 + i]);
        assert(s7.mem[72 + i] == s6.mem[72 + i] && s8.mem[72 + i] == s7.mem[72 + i]);
    }
    assert forall|i: int| 0 <= i < 4 implies #[trigger] s10.mem[182 + i] == scene.mvp@[i] by {
        assert(s6.mem[182 + i] == p[114 + 1 + i]);
        assert(s7.mem[182 + i] == s6.mem[182 + i] && s8.mem[182 + i] == s7.mem[182 + i]);
    }
    assert(s7.mem[186int + 0] == p[119int + 1 + 0]);
    assert(s8.mem[186] == s7.mem[186]);
    assert(s8.mem[187int + 0] == p[121int + 1 + 0]);
}

/// What the transfer engine reads from main memory holding a frame's packet,
/// once parsed, loads the scene into data memory as the packet lays it out.
pub proof fn lemma_front_end_loads_scene(ram: Seq<u8>, st: VifState, scene: SceneData)
    requires
        scene.wf(),
        ram.len() == EE_RAM_SIZE,
        holds_qws(ram, PACKET_BASE as int, packet(scene)),
        !st.unpack_active,
        st.mem.len() == VU_MEM_QWS,
    ensures
        ({
            let r = vif_run(st, quadwords(ram, D1_MADR as int, D1_QWC as int));
            &&& !r.unpack_active
            &&& r.mscal_addr == Some(0u16)
            &&& r.mem[108] == gif_tag_spec()
            &&& forall|i: int| 0 <= i < SCENE_VERTS ==> #[trigger] r.mem[i] == scene.positions@[i]
            &&& forall|i: int| 0 <= i < SCENE_VERTS ==> #[trigger] r.mem[36 + i] == scene.normals@[i]
            &&& forall|i: int| 0 <= i < SCENE_VERTS ==> #[trigger] r.mem[72 + i] == scene.colors@[i]
            &&& forall|i: int| 0 <= i < 4 ==> #[trigger] r.mem[182 + i] == scene.mvp@[i]
            &&& r.mem[186] == scene.light
            &&& r.mem[187] == scene.viewport
        }),
{
    let qws = packet(scene);
    assert(qws.len() == PACKET_QWC);
    lemma_packet_reads_back(ram, qws);
    lemma_frame_packet_loads_scene(st, quadwords(ram, D1_MADR as int, D1_QWC as int), scene);
}

/// A packet-parser tag with command `cmd` and 24 bits of `data`.
pub open spec fn vif_tag_spec(cmd: u32, data: u32) -> u32 {
    (cmd << 24) | (data & 0x00FF_FFFF)
}

/// A quadword holding only a tag in its low word.
pub open spec fn tag_qw(tag: u32) -> Quad {
    [tag, 0, 0, 0]
}

/// The packed-primitive descriptor of the scene: 36 loops, end of packet,
/// a Gouraud-shaded triangle list, packed mode, two registers per vertex
/// (position first, then colour).
pub open spec fn gif_tag_spec() -> Quad {
    [36u32 | (1u32 << 15u32), (1u32 << 14u32) | (0x00Bu32 << 15u32) | (2u32 << 28u32), 0x05u32 | (0x01u32 << 4u32), 0u32]
}

/// Unpack tag for `num` quadwords to slot `addr`.
pub open spec fn unpack_qw(num: u32, addr: u32) -> Quad {
    tag_qw(vif_tag_spec(CMD_UNPACK, (num << 16) | addr))
}

/// The per-frame packet, quadword by quadword.
pub open spec fn packet(s: SceneData) -> Seq<Quad> {
    seq![tag_qw(vif_tag_spec(CMD_STCYCL, 0x0101)), unpack_qw(1, 108), gif_tag_spec(), unpack_qw(36, 0)]
        + s.positions@ + seq![unpack_qw(36, 36)] + s.normals@ + seq![unpack_qw(36, 72)] + s.colors@
        + seq![unpack_qw(4, 182)] + s.mvp@ + seq![unpack_qw(1, 186), s.light, unpack_qw(1, 187), s.viewport]
        + seq![tag_qw(vif_tag_spec(CMD_MSCAL, 0)), tag_qw(vif_tag_spec(CMD_FLUSH, 0))]
}

/// Byte `k` (little-endian) of the word `w`.
pub open spec fn byte_of(w: u32, k: int) -> u8 {
    ((w >> (8 * k) as u32) & 0xFF) as u8
}

/// Whether `ram` holds the quadwords `qws` little-endian from byte `base` on.
pub open spec fn holds_qws(ram: Seq<u8>, base: int, qws: Seq<Quad>) -> bool {
    forall|i: int, j: int, k: int|
        0 <= i < qws.len() && 0 <= j < 4 && 0 <= k < 4 ==> #[trigger] ram[base + QW_BYTES * i + 4 * j + k]
            == byte_of(qws[i][j], k)
}

/// Builds a packet-parser tag.
pub fn vif_tag(cmd: u32, data: u32) -> (r: u32)
    ensures
        r == vif_tag_spec(cmd, data),
{
    (cmd << 24) | (data & 0x00FF_FFFF)
}

/// The scene's packed-primitive descriptor.
pub fn gif_tag() -> (r: Quad)
    ensures
        r == gif_tag_spec(),
{
    let word0: u32 = 36 | (1 << 15);
    let word1: u32 = (1 << 14) | (0x00B << 15) | (2 << 28);
    let word2: u32 = 0x05 | (0x01 << 4);
    [word0, word1, word2, 0]
}

fn tag_quad(tag: u32) -> (r: Quad)
    ensures
        r == tag_qw(tag),
{
    [tag, 0, 0, 0]
}

fn unpack_quad(num: u32, addr: u32) -> (r: Quad)
    ensures
        r == unpack_qw(num, addr),
{
    tag_quad(vif_tag(CMD_UNPACK, (num << 16) | addr))
}

fn push_all(out: &mut Vec<Quad>, src: &Vec<Quad>)
    ensures
        final(out)@ == old(out)@ + src@,
{
    let mut i: usize = 0;
    while i < src.len()
        invariant
            i <= src@.len(),
            out@ == old(out)@ + src@.subrange(0, i as int),
        decreases src@.len() - i,
    {
        out.push(src[i]);
        assert(src@.subrange(0, i + 1) =~= src@.subrange(0, i as int).push(src@[i as int]));
        i = i + 1;
    }
    assert(src@.subrange(0, src@.len() as int) =~= src@);
}

/// Lays the per-frame packet out as quadwords.
pub fn assemble_packet(scene: &SceneData) -> (r: Vec<Quad>)
    requires
        scene.wf(),
    ensures
        r@ == packet(*scene),
        r@.len() == PACKET_QWC,
{
    let mut p: Vec<Quad> = Vec::new();
    p.push(tag_quad(vif_tag(CMD_STCYCL, 0x0101)));
    p.push(unpack_quad(1, 108));
    p.push(gif_tag());
    p.push(unpack_quad(36, 0));
    push_all(&mut p, &scene.positions);
    p.push(unpack_quad(36, 36));
    push_all(&mut p, &scene.normals);
    p.push(unpack_quad(36, 72));
    push_all(&mut p, &scene.colors);
    p.push(unpack_quad(4, 182));
    push_all(&mut p, &scene.mvp);
    p.push(unpack_quad(1, 186));
    p.push(scene.light);
    p.push(unpack_quad(1, 187));
    p.push(scene.viewport);
    p.push(tag_quad(vif_tag(CMD_MSCAL, 0)));
    p.push(tag_quad(vif_tag(CMD_FLUSH, 0)));
    assert(p@ =~= packet(*scene));
    p
}

/// Writes the word `w` little-endian at byte `off`.
fn write_word(ram: &mut Vec<u8>, off: usize, w: u32)
    requires
        off + 4 <= old(ram).len(),
    ensures
        final(ram)@.len() == old(ram)@.len(),
        forall|k: int| 0 <= k < 4 ==> #[trigger] final(ram)@[off + k] == byte_of(w, k),
        forall|i: int| 0 <= i < old(ram)@.len() && !(off <= i < off + 4) ==> #[trigger] final(ram)@[i] == old(ram)@[i],
{
    ram[off] = (w & 0xFF) as u8;
    ram[off + 1] = ((w >> 8) & 0xFF) as u8;
    ram[off + 2] = ((w >> 16) & 0xFF) as u8;
    ram[off + 3] = ((w >> 24) & 0xFF) as u8;
    assert(byte_of(w, 0) == (w & 0xFF) as u8 && byte_of(w, 1) == ((w >> 8) & 0xFF) as u8 && byte_of(w, 2) == ((w
        >> 16) & 0xFF) as u8 && byte_of(w, 3) == ((w >> 24) & 0xFF) as u8) by {
        assert((w >> 0u32) & 0xFF == w & 0xFF) by (bit_vector);
    }
}

impl EmotionEngine {
    pub open spec fn wf(&self) -> bool {
        self.ee_ram@.len() == EE_RAM_SIZE
    }

    /// Zeroed main memory at frame 0.
    pub fn new() -> (r: Self)
        ensures
            r.wf(),
            r.frame == 0,
            forall|i: int| 0 <= i < EE_RAM_SIZE ==> #[trigger] r.ee_ram@[i] == 0,
    {
        EmotionEngine { ee_ram: vec![0u8; EE_RAM_SIZE], frame: 0 }
    }

    /// Writes the frame's packet for `scene` into main memory at `PACKET_BASE`,
    /// advances the frame counter, and returns the source address and
    /// quadword count to program the transfer engine with.
    pub fn build_packet(&mut self, scene: &SceneData) -> (r: (u32, u32))
        requires
            old(self).wf(),
            scene.wf(),
            old(self).frame < u64::MAX,
        ensures
            final(self).wf(),
            final(self).frame == old(self).frame + 1,
            r == (D1_MADR, D1_QWC),
            holds_qws(final(self).ee_ram@, PACKET_BASE as int, packet(*scene)),
            forall|i: int|
                0 <= i < EE_RAM_SIZE && !(PACKET_BASE <= i < PACKET_BASE + QW_BYTES * PACKET_QWC) ==> #[trigger] final(self).ee_ram@[i]
                    == old(self).ee_ram@[i],
    {
        self.frame = self.frame + 1;
        let qws = assemble_packet(scene);
        let ghost start = self.ee_ram@;
        let mut i: usize = 0;
        while i < qws.len()
            invariant
                self.wf(),
                self.frame == old(self).frame + 1,
                qws@ == packet(*scene),
                qws@.len() == PACKET_QWC,
                i <= qws@.len(),
                holds_qws(self.ee_ram@, PACKET_BASE as int, qws@.subrange(0, i as int)),
                forall|b: int|
                    0 <= b < EE_RAM_SIZE && !(PACKET_BASE <= b < PACKET_BASE + QW_BYTES * i) ==> #[trigger] self.ee_ram@[b]
                        == start[b],
            decreases qws@.len() - i,
        {
            let q = qws[i];
            let off = PACKET_BASE + QW_BYTES * i;
            let ghost before = self.ee_ram@;
            write_word(&mut self.ee_ram, off, q[0]);
            let ghost m1 = self.ee_ram@;
            write_word(&mut self.ee_ram, off + 4, q[1]);
            let ghost m2 = self.ee_ram@;
            write_word(&mut self.ee_ram, off + 8, q[2]);
            let ghost m3 = self.ee_ram@;
            write_word(&mut self.ee_ram, off + 12, q[3]);
            proof {
                let done = qws@.subrange(0, i + 1);
                assert forall|ii: int, j: int, k: int|
                    0 <= ii < done.len() && 0 <= j < 4 && 0 <= k < 4 implies #[trigger] self.ee_ram@[PACKET_BASE
                    + QW_BYTES * ii + 4 * j + k] == byte_of(done[ii][j], k) by {
                    if ii < i {
                        assert(qws@.subrange(0, i as int)[ii] == done[ii]);
                        assert(before[PACKET_BASE + QW_BYTES * ii + 4 * j + k] == byte_of(done[ii][j], k));
                    } else {
                        if j == 0 {
                            assert(m1[off + k] == byte_of(q[0], k));
                        } else if j == 1 {
                            assert(m2[off + 4 + k] == byte_of(q[1], k));
                        } else if j == 2 {
                            assert(m3[off + 8 + k] == byte_of(q[2], k));
                        }
                    }
                }
            }
            i = i + 1;
        }
        assert(qws@.subrange(0, qws@.len() as int) =~= qws@);
        (D1_MADR, D1_QWC)
    }
}

} // verus!
