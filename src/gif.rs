use vstd::prelude::*;
use crate::lanes::{Quad, VU_MEM_QWS};
use crate::vu1::FloatUnit;

verus! {

/// Register type code of a colour register (four channels in [0, 1]).
pub const REG_RGBAQ: u32 = 0x01;
/// Register type code of a position register (fixed-point x and y).
pub const REG_XYZ2: u32 = 0x05;

/// A vertex ready for the rasterizer.
#[derive(Clone, Copy, Debug, PartialEq, Eq, Structural)]
pub struct GifVertex {
    pub r: u8,
    pub g: u8,
    pub b: u8,
    pub a: u8,
    /// Pixel-space x (the fixed-point value shifted right by four).
    pub x: i32,
    /// Pixel-space y (the fixed-point value shifted right by four).
    pub y: i32,
}

/// A decoded primitive: its vertices in order, and whether it is Gouraud shaded.
pub struct GsPrimitive {
    pub iip: bool,
    pub vertices: Vec<GifVertex>,
}

/// Loop count: bits 14..0 of the descriptor.
pub open spec fn tag_nloop(t: Quad) -> u32 {
    t[0] & 0x7FFF
}

/// End-of-packet flag: bit 15.
pub open spec fn tag_eop(t: Quad) -> bool {
    (t[0] >> 15) & 1 != 0
}

/// Primitive-valid flag: bit 46.
pub open spec fn tag_pre(t: Quad) -> bool {
    (t[1] >> 14) & 1 != 0
}

/// Primitive-type code: bits 57..47.
pub open spec fn tag_prim(t: Quad) -> u32 {
    (t[1] >> 15) & 0x7FF
}

/// Packing mode: bits 60..59.
pub open spec fn tag_flg(t: Quad) -> u32 {
    (t[1] >> 27) & 3
}

/// Register count: bits 63..60, at least one.
pub open spec fn tag_nreg(t: Quad) -> u32 {
    let n = (t[1] >> 28) & 0xF;
    if n == 0 {
        1
    } else {
        n
    }
}

/// Type code of the `j`-th register of each vertex: register 0 has its own
/// code, every later one takes register 1's.
pub open spec fn tag_reg(t: Quad, j: int) -> u32 {
    if j == 0 {
        t[2] & 0xF
    } else {
        (t[2] >> 4) & 0xF
    }
}

/// Whether the primitive is Gouraud shaded.
pub open spec fn tag_iip(t: Quad) -> bool {
    tag_pre(t) && (tag_prim(t) >> 3) & 1 != 0
}

/// Whether the descriptor yields no primitive.
pub open spec fn tag_empty(t: Quad) -> bool {
    tag_nloop(t) == 0 || tag_flg(t) != 0
}

/// Pixel coordinate of a lane that holds a fixed-point value with four fractional bits.
pub open spec fn fixed_to_pixel(bits: u32) -> i32 {
    (bits as i32) >> 4
}

/// Position of a vertex whose registers start at slot `start`, after its first
/// `j` registers: the last position register read wins; slots past the end of
/// memory are not read.
pub open spec fn vertex_pos(mem: Seq<Quad>, t: Quad, start: int, j: int) -> (i32, i32)
    decreases j,
{
    if j <= 0 {
        (0, 0)
    } else {
        let slot = start + j - 1;
        if slot < mem.len() && tag_reg(t, j - 1) == REG_XYZ2 {
            (fixed_to_pixel(mem[slot][0]), fixed_to_pixel(mem[slot][1]))
        } else {
            vertex_pos(mem, t, start, j - 1)
        }
    }
}

/// Colour channels (r, g, b, a) of a vertex whose registers start at slot
/// `start`, after its first `j` registers: the last colour register read wins,
/// its four lanes converted by the host; without one, (0, 0, 0, 255).
pub open spec fn vertex_color<F: FloatUnit>(fpu: &F, mem: Seq<Quad>, t: Quad, start: int, j: int) -> (u8, u8, u8, u8)
    decreases j,
{
    if j <= 0 {
        (0, 0, 0, 255)
    } else {
        let slot = start + j - 1;
        if slot < mem.len() && tag_reg(t, j - 1) == REG_RGBAQ {
            let q = mem[slot];
            (fpu.to_channel_spec(q[0]), fpu.to_channel_spec(q[1]), fpu.to_channel_spec(q[2]), fpu.to_channel_spec(q[3]))
        } else {
            vertex_color(fpu, mem, t, start, j - 1)
        }
    }
}

/// The vertex whose `nreg` registers start at slot `start`.
pub open spec fn gif_vertex<F: FloatUnit>(fpu: &F, mem: Seq<Quad>, t: Quad, start: int, nreg: int) -> GifVertex {
    let (x, y) = vertex_pos(mem, t, start, nreg);
    let (r, g, b, a) = vertex_color(fpu, mem, t, start, nreg);
    GifVertex { r, g, b, a, x, y }
}

/// Whether the descriptor at slot `base` yields a primitive.
pub open spec fn gif_yields(mem: Seq<Quad>, base: int) -> bool {
    0 <= base < mem.len() && !tag_empty(mem[base])
}

/// The vertices of the packet whose descriptor is at slot `base`.
pub open spec fn gif_vertices<F: FloatUnit>(fpu: &F, mem: Seq<Quad>, base: int) -> Seq<GifVertex> {
    let t = mem[base];
    let nreg = tag_nreg(t) as int;
    Seq::new(tag_nloop(t) as nat, |k: int| gif_vertex(fpu, mem, t, vertex_start(base, nreg, k), nreg))
}

/// First register slot of vertex `k` of the packet whose descriptor is at `base`.
pub open spec fn vertex_start(base: int, nreg: int, k: int) -> int {
    base + 1 + k * nreg
}

proof fn lemma_tag_fields(w0: u32, w1: u32, w2: u32)
    by (bit_vector)
    ensures
        w0 & 0x7FFF <= 0x7FFF,
        (w1 >> 28) & 0xF <= 15,
        w2 & 0xF < 16,
        (w2 >> 4) & 0xF < 16,
{
}

/// Decoding a lane that a float-to-fixed conversion filled with the integer `n`
/// gives `n / 16` rounded down: the pixel coordinate is within one unit of `n / 16`.
pub proof fn lemma_fixed_round_trip(n: i32)
    ensures
        16 * fixed_to_pixel(n as u32) <= n < 16 * fixed_to_pixel(n as u32) + 16,
{
    assert(((n as u32) as i32) >> 4 == n >> 4 && (n >> 4) * 16 <= n && n - (n >> 4) * 16 < 16) by (bit_vector);
}

/// Decodes the packed-primitive descriptor at slot `base_qw` of `vu_mem` and the
/// vertices that follow it. The result is empty when the descriptor's slot is
/// outside memory, its loop count is 0 or its packing mode is not packed;
/// otherwise it is one primitive with one vertex per loop. Colour channels are
/// converted by `fpu`.
pub fn parse_gif_packet<F: FloatUnit>(fpu: &F, vu_mem: &Vec<Quad>, base_qw: usize) -> (r: Vec<GsPrimitive>)
    requires
        vu_mem@.len() == VU_MEM_QWS,
    ensures
        r@.len() == if gif_yields(vu_mem@, base_qw as int) { 1int } else { 0 },
        gif_yields(vu_mem@, base_qw as int) ==> {
            &&& r@[0].iip == tag_iip(vu_mem@[base_qw as int])
            &&& r@[0].vertices@ == gif_vertices(fpu, vu_mem@, base_qw as int)
        },
{
    if base_qw >= VU_MEM_QWS {
        return Vec::new();
    }
    let t = vu_mem[base_qw];
    let w0 = t[0];
    let w1 = t[1];
    let w2 = t[2];
    proof {
        lemma_tag_fields(w0, w1, w2);
    }
    let nloop = (w0 & 0x7FFF) as usize;
    let pre = (w1 >> 14) & 1 != 0;
    let prim = (w1 >> 15) & 0x7FF;
    let flg = (w1 >> 27) & 3;
    let nreg_raw = (w1 >> 28) & 0xF;
    let nreg: usize = if nreg_raw == 0 { 1 } else { nreg_raw as usize };
    let reg0 = w2 & 0xF;
    let reg1 = (w2 >> 4) & 0xF;
    if nloop == 0 || flg != 0 {
        return Vec::new();
    }
    let iip = pre && (prim >> 3) & 1 != 0;
    let ghost mem = vu_mem@;
    let mut vertices: Vec<GifVertex> = Vec::new();
    let mut k: usize = 0;
    while k < nloop
        invariant
            mem == vu_mem@,
            t == mem[base_qw as int],
            base_qw < VU_MEM_QWS,
            nloop == tag_nloop(t),
            nreg == tag_nreg(t),
            1 <= nreg <= 15,
            nloop <= 0x7FFF,
            reg0 == tag_reg(t, 0),
            reg1 == tag_reg(t, 1),
            k <= nloop,
            vertices@.len() == k,
            forall|kk: int| 0 <= kk < k ==> #[trigger] vertices@[kk] == gif_vertex(
                fpu,
                mem,
                t,
                vertex_start(base_qw as int, nreg as int, kk),
                nreg as int,
            ),
        decreases nloop - k,
    {
        assert(k * nreg <= 0x7FFF * 15) by (nonlinear_arith)
            requires
                k < 0x8000,
                nreg <= 15,
        ;
        let start = base_qw + 1 + k * nreg;
        let v = read_vertex(fpu, vu_mem, t, reg0, reg1, nreg, start);
        vertices.push(v);
        k = k + 1;
    }
    assert(vertices@ =~= gif_vertices(fpu, mem, base_qw as int));
    let mut out: Vec<GsPrimitive> = Vec::new();
    out.push(GsPrimitive { iip, vertices });
    out
}

/// Reads the `nreg` registers of one vertex starting at slot `start`.
fn read_vertex<F: FloatUnit>(
    fpu: &F,
    vu_mem: &Vec<Quad>,
    t: Quad,
    reg0: u32,
    reg1: u32,
    nreg: usize,
    start: usize,
) -> (v: GifVertex)
    requires
        reg0 == tag_reg(t, 0),
        reg1 == tag_reg(t, 1),
        nreg <= 15,
        start < 0x10_0000,
    ensures
        v == gif_vertex(fpu, vu_mem@, t, start as int, nreg as int),
{
    let mut v = GifVertex { r: 0, g: 0, b: 0, a: 255, x: 0, y: 0 };
    let mut j: usize = 0;
    while j < nreg
        invariant
            reg0 == tag_reg(t, 0),
            reg1 == tag_reg(t, 1),
            j <= nreg <= 15,
            start < 0x10_0000,
            (v.x, v.y) == vertex_pos(vu_mem@, t, start as int, j as int),
            (v.r, v.g, v.b, v.a) == vertex_color(fpu, vu_mem@, t, start as int, j as int),
        decreases nreg - j,
    {
        let slot = start + j;
        let reg_id = if j == 0 { reg0 } else { reg1 };
        if slot < vu_mem.len() {
            let qw = vu_mem[slot];
            if reg_id == REG_RGBAQ {
                v.r = fpu.to_channel(qw[0]);
                v.g = fpu.to_channel(qw[1]);
                v.b = fpu.to_channel(qw[2]);
                v.a = fpu.to_channel(qw[3]);
            } else if reg_id == REG_XYZ2 {
                v.x = (qw[0] as i32) >> 4;
                v.y = (qw[1] as i32) >> 4;
            }
        }
        j = j + 1;
    }
    v
}

} // verus!
