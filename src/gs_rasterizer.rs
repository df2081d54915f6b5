use vstd::prelude::*;
use crate::gif::GifVertex;

verus! {

/// Width of the pixel buffer.
pub const FB_W: usize = 640;
/// Height of the pixel buffer.
pub const FB_H: usize = 448;
/// Colour a new pixel buffer starts with.
pub const FB_BACKGROUND: u32 = 0xFF08_0A14;

/// Off-screen pixel buffer, row-major, one packed pixel (0xAABBGGRR) per entry.
pub struct Framebuffer {
    pub pixels: Vec<u32>,
}

/// Index of pixel (`x`, `y`).
pub open spec fn px_index(x: int, y: int) -> int {
    y * FB_W as int + x
}

/// Signed edge function of point `p` against the directed edge `a -> b`.
pub open spec fn edge(ax: int, ay: int, bx: int, by: int, px: int, py: int) -> int {
    (bx - ax) * (py - ay) - (by - ay) * (px - ax)
}

/// Twice the signed area of the triangle; front faces have it negative.
pub open spec fn area2(v0: GifVertex, v1: GifVertex, v2: GifVertex) -> int {
    edge(v0.x as int, v0.y as int, v1.x as int, v1.y as int, v2.x as int, v2.y as int)
}

/// Edge value of pixel (`px`, `py`) against the edge opposite `v0`.
pub open spec fn w0_of(v0: GifVertex, v1: GifVertex, v2: GifVertex, px: int, py: int) -> int {
    edge(v1.x as int, v1.y as int, v2.x as int, v2.y as int, px, py)
}

/// Edge value against the edge opposite `v1`.
pub open spec fn w1_of(v0: GifVertex, v1: GifVertex, v2: GifVertex, px: int, py: int) -> int {
    edge(v2.x as int, v2.y as int, v0.x as int, v0.y as int, px, py)
}

/// Edge value against the edge opposite `v2`.
pub open spec fn w2_of(v0: GifVertex, v1: GifVertex, v2: GifVertex, px: int, py: int) -> int {
    edge(v0.x as int, v0.y as int, v1.x as int, v1.y as int, px, py)
}

pub open spec fn min3(a: i32, b: i32, c: i32) -> int {
    if a <= b && a <= c {
        a as int
    } else if b <= c {
        b as int
    } else {
        c as int
    }
}

pub open spec fn max3(a: i32, b: i32, c: i32) -> int {
    if a >= b && a >= c {
        a as int
    } else if b >= c {
        b as int
    } else {
        c as int
    }
}

/// Whether pixel (`px`, `py`) is drawn: the triangle faces front, the pixel is in
/// its bounding box, and no edge value is positive.
pub open spec fn covers(v0: GifVertex, v1: GifVertex, v2: GifVertex, px: int, py: int) -> bool {
    &&& area2(v0, v1, v2) < 0
    &&& min3(v0.x, v1.x, v2.x) <= px <= max3(v0.x, v1.x, v2.x)
    &&& min3(v0.y, v1.y, v2.y) <= py <= max3(v0.y, v1.y, v2.y)
    &&& w0_of(v0, v1, v2, px, py) <= 0
    &&& w1_of(v0, v1, v2, px, py) <= 0
    &&& w2_of(v0, v1, v2, px, py) <= 0
}

/// Barycentric interpolation of one channel, rounded down:
/// `(w0 * c0 + w1 * c1 + w2 * c2) / area` with the (non-positive) edge values
/// and the (negative) doubled area both negated.
pub open spec fn interp(c0: u8, c1: u8, c2: u8, w0: int, w1: int, w2: int, area: int) -> int {
    ((-w0) * c0 + (-w1) * c1 + (-w2) * c2) / (-area)
}

/// Opaque packed pixel with channels `r`, `g`, `b`.
pub open spec fn pack_opaque(r: int, g: int, b: int) -> u32 {
    (0xFF00_0000 + b * 0x1_0000 + g * 0x100 + r) as u32
}

/// The colour the triangle gives pixel (`px`, `py`).
pub open spec fn shade(v0: GifVertex, v1: GifVertex, v2: GifVertex, px: int, py: int) -> u32 {
    let w0 = w0_of(v0, v1, v2, px, py);
    let w1 = w1_of(v0, v1, v2, px, py);
    let w2 = w2_of(v0, v1, v2, px, py);
    let a = area2(v0, v1, v2);
    pack_opaque(
        interp(v0.r, v1.r, v2.r, w0, w1, w2, a),
        interp(v0.g, v1.g, v2.g, w0, w1, w2, a),
        interp(v0.b, v1.b, v2.b, w0, w1, w2, a),
    )
}

/// The three edge values of any point add up to the doubled area.
pub proof fn lemma_edge_sum(v0: GifVertex, v1: GifVertex, v2: GifVertex, px: int, py: int)
    ensures
        w0_of(v0, v1, v2, px, py) + w1_of(v0, v1, v2, px, py) + w2_of(v0, v1, v2, px, py) == area2(v0, v1, v2),
{
    let (x0, y0, x1, y1, x2, y2) = (v0.x as int, v0.y as int, v1.x as int, v1.y as int, v2.x as int, v2.y as int);
    lemma_mul_expand(x2, x1, py, y1);
    lemma_mul_expand(y2, y1, px, x1);
    lemma_mul_expand(x0, x2, py, y2);
    lemma_mul_expand(y0, y2, px, x2);
    lemma_mul_expand(x1, x0, py, y0);
    lemma_mul_expand(y1, y0, px, x0);
    lemma_mul_expand(x1, x0, y2, y0);
    lemma_mul_expand(y1, y0, x2, x0);
}

proof fn lemma_mul_expand(a: int, b: int, c: int, d: int)
    ensures
        (a - b) * (c - d) == a * c - a * d - b * c + b * d,
{
    assert((a - b) * (c - d) == a * c - a * d - b * c + b * d) by (nonlinear_arith);
}

proof fn lemma_mul_bound(a: int, b: int)
    requires
        -0x1_0000_0000 <= a <= 0x1_0000_0000,
        -0x1_0000_0000 <= b <= 0x1_0000_0000,
    ensures
        -0x1_0000_0000_0000_0000 <= a * b <= 0x1_0000_0000_0000_0000,
{
    assert(-0x1_0000_0000_0000_0000 <= a * b <= 0x1_0000_0000_0000_0000) by (nonlinear_arith)
        requires
            -0x1_0000_0000 <= a <= 0x1_0000_0000,
            -0x1_0000_0000 <= b <= 0x1_0000_0000,
    ;
}

proof fn lemma_scale(w: int, c: int)
    requires
        w >= 0,
        0 <= c <= 255,
    ensures
        0 <= w * c <= 255 * w,
{
    assert(0 <= w * c <= 255 * w) by (nonlinear_arith)
        requires
            w >= 0,
            0 <= c <= 255,
    ;
}

/// An interpolated channel of a drawn pixel lies between 0 and 255.
proof fn lemma_interp_bounds(c0: u8, c1: u8, c2: u8, w0: int, w1: int, w2: int, area: int)
    requires
        w0 <= 0,
        w1 <= 0,
        w2 <= 0,
        w0 + w1 + w2 == area,
        area < 0,
    ensures
        0 <= interp(c0, c1, c2, w0, w1, w2, area) <= 255,
{
    let n = (-w0) * c0 + (-w1) * c1 + (-w2) * c2;
    lemma_scale(-w0, c0 as int);
    lemma_scale(-w1, c1 as int);
    lemma_scale(-w2, c2 as int);
    assert(0 <= n / (-area) <= 255) by (nonlinear_arith)
        requires
            0 <= n <= 255 * (-area),
            -area > 0,
    ;
}

/// A front-facing triangle whose three vertices share one colour paints every
/// pixel it covers in exactly that colour, fully opaque.
pub proof fn lemma_solid_triangle(v0: GifVertex, v1: GifVertex, v2: GifVertex, px: int, py: int)
    requires
        covers(v0, v1, v2, px, py),
        v0.r == v1.r == v2.r,
        v0.g == v1.g == v2.g,
        v0.b == v1.b == v2.b,
    ensures
        shade(v0, v1, v2, px, py) == pack_opaque(v0.r as int, v0.g as int, v0.b as int),
{
    lemma_edge_sum(v0, v1, v2, px, py);
    let w0 = w0_of(v0, v1, v2, px, py);
    let w1 = w1_of(v0, v1, v2, px, py);
    let w2 = w2_of(v0, v1, v2, px, py);
    let a = area2(v0, v1, v2);
    assert forall|c: u8| interp(c, c, c, w0, w1, w2, a) == c as int by {
        assert((-w0) * c + (-w1) * c + (-w2) * c == (-a) * c) by (nonlinear_arith)
            requires
                w0 + w1 + w2 == a,
        ;
        assert(((-a) * c) / (-a) == c as int) by (nonlinear_arith)
            requires
                -a > 0,
        ;
    }
}

proof fn lemma_index_distinct(x1: int, y1: int, x2: int, y2: int)
    requires
        0 <= x1 < FB_W,
        0 <= x2 < FB_W,
        0 <= y1,
        0 <= y2,
        !(x1 == x2 && y1 == y2),
    ensures
        px_index(x1, y1) != px_index(x2, y2),
{
    assert(y1 * 640 + x1 != y2 * 640 + x2) by (nonlinear_arith)
        requires
            0 <= x1 < 640,
            0 <= x2 < 640,
            !(x1 == x2 && y1 == y2),
    ;
}

proof fn lemma_index_bound(x: int, y: int)
    requires
        0 <= x < FB_W,
        0 <= y < FB_H,
    ensures
        0 <= px_index(x, y) < FB_W * FB_H,
{
    assert(0 <= y * 640 + x < 640 * 448) by (nonlinear_arith)
        requires
            0 <= x < 640,
            0 <= y < 448,
    ;
}

impl Framebuffer {
    pub open spec fn wf(&self) -> bool {
        self.pixels@.len() == FB_W * FB_H
    }

    /// A buffer filled with the background colour.
    pub fn new() -> (r: Self)
        ensures
            r.wf(),
            forall|i: int| 0 <= i < FB_W * FB_H ==> #[trigger] r.pixels@[i] == FB_BACKGROUND,
    {
        Framebuffer { pixels: vec![FB_BACKGROUND; FB_W * FB_H] }
    }

    /// Sets every pixel to `color`.
    pub fn clear(&mut self, color: u32)
        requires
            old(self).wf(),
        ensures
            final(self).wf(),
            forall|i: int| 0 <= i < FB_W * FB_H ==> #[trigger] final(self).pixels@[i] == color,
    {
        let n = self.pixels.len();
        let mut i: usize = 0;
        while i < n
            invariant
                n == FB_W * FB_H,
                self.pixels@.len() == n,
                i <= n,
                forall|j: int| 0 <= j < i ==> #[trigger] self.pixels@[j] == color,
            decreases n - i,
        {
            self.pixels[i] = color;
            i = i + 1;
        }
    }
}

/// The buffer `pixels` after drawing the triangle: each pixel the triangle
/// covers takes its shade, every other pixel keeps its value.
pub open spec fn raster(pixels: Seq<u32>, v0: GifVertex, v1: GifVertex, v2: GifVertex) -> Seq<u32> {
    Seq::new(
        pixels.len(),
        |i: int|
            if covers(v0, v1, v2, i % FB_W as int, i / FB_W as int) {
                shade(v0, v1, v2, i % FB_W as int, i / FB_W as int)
            } else {
                pixels[i]
            },
    )
}

/// The buffer `pixels` after drawing the first `n` consecutive vertex triples of `verts`.
pub open spec fn draw_triangles(pixels: Seq<u32>, verts: Seq<GifVertex>, n: nat) -> Seq<u32>
    decreases n,
{
    if n == 0 {
        pixels
    } else {
        let k = 3 * (n - 1);
        raster(draw_triangles(pixels, verts, (n - 1) as nat), verts[k], verts[k + 1], verts[k + 2])
    }
}

/// A buffer of `FB_W * FB_H` background pixels.
pub open spec fn background() -> Seq<u32> {
    Seq::new((FB_W * FB_H) as nat, |i: int| FB_BACKGROUND)
}

proof fn lemma_index_split(i: int)
    requires
        0 <= i < FB_W * FB_H,
    ensures
        0 <= (i % FB_W as int) < FB_W,
        0 <= (i / FB_W as int) < FB_H,
        px_index(i % FB_W as int, i / FB_W as int) == i,
{
    assert(0 <= i % 640 < 640 && 0 <= i / 640 < 448 && (i / 640) * 640 + i % 640 == i) by (nonlinear_arith)
        requires
            0 <= i < 640 * 448,
    ;
}

/// Draws one triangle into `fb` with signed edge functions and Gouraud
/// interpolation of the red, green and blue channels; alpha is not
/// interpolated and drawn pixels are opaque. Degenerate and back-facing
/// triangles (doubled area not negative) draw nothing. Drawn pixels overwrite
/// what was there.
pub fn rasterize_triangle(fb: &mut Framebuffer, v0: &GifVertex, v1: &GifVertex, v2: &GifVertex)
    requires
        old(fb).wf(),
    ensures
        final(fb).wf(),
        forall|x: int, y: int|
            0 <= x < FB_W && 0 <= y < FB_H ==> #[trigger] final(fb).pixels@[px_index(x, y)] == if covers(
                *v0,
                *v1,
                *v2,
                x,
                y,
            ) {
                shade(*v0, *v1, *v2, x, y)
            } else {
                old(fb).pixels@[px_index(x, y)]
            },
        area2(*v0, *v1, *v2) >= 0 ==> final(fb).pixels@ == old(fb).pixels@,
        final(fb).pixels@ == raster(old(fb).pixels@, *v0, *v1, *v2),
{
    rasterize_body(fb, v0, v1, v2);
    proof {
        assert forall|i: int| 0 <= i < FB_W * FB_H implies #[trigger] final(fb).pixels@[i] == raster(
            old(fb).pixels@,
            *v0,
            *v1,
            *v2,
        )[i] by {
            lemma_index_split(i);
            let (x, y) = (i % FB_W as int, i / FB_W as int);
            assert(final(fb).pixels@[px_index(x, y)] == if covers(*v0, *v1, *v2, x, y) {
                shade(*v0, *v1, *v2, x, y)
            } else {
                old(fb).pixels@[px_index(x, y)]
            });
        }
        assert(final(fb).pixels@ =~= raster(old(fb).pixels@, *v0, *v1, *v2));
    }
}

fn rasterize_body(fb: &mut Framebuffer, v0: &GifVertex, v1: &GifVertex, v2: &GifVertex)
    requires
        old(fb).wf(),
    ensures
        final(fb).wf(),
        forall|x: int, y: int|
            0 <= x < FB_W && 0 <= y < FB_H ==> #[trigger] final(fb).pixels@[px_index(x, y)] == if covers(
                *v0,
                *v1,
                *v2,
                x,
                y,
            ) {
                shade(*v0, *v1, *v2, x, y)
            } else {
                old(fb).pixels@[px_index(x, y)]
            },
        area2(*v0, *v1, *v2) >= 0 ==> final(fb).pixels@ == old(fb).pixels@,
{
    let (v0, v1, v2) = (*v0, *v1, *v2);
    let area = edge_exec(v0.x, v0.y, v1.x, v1.y, v2.x, v2.y);
    if area >= 0 {
        return;
    }
    let lo_x = min3_exec(v0.x, v1.x, v2.x);
    let hi_x = max3_exec(v0.x, v1.x, v2.x);
    let lo_y = min3_exec(v0.y, v1.y, v2.y);
    let hi_y = max3_exec(v0.y, v1.y, v2.y);
    if hi_x < 0 || hi_y < 0 || lo_x >= FB_W as i32 || lo_y >= FB_H as i32 {
        return;
    }
    let min_x: usize = if lo_x < 0 { 0 } else { lo_x as usize };
    let max_x: usize = if hi_x >= FB_W as i32 { FB_W - 1 } else { hi_x as usize };
    let min_y: usize = if lo_y < 0 { 0 } else { lo_y as usize };
    let max_y: usize = if hi_y >= FB_H as i32 { FB_H - 1 } else { hi_y as usize };
    let ghost before = fb.pixels@;
    let mut py: usize = min_y;
    while py <= max_y
        invariant
            fb.wf(),
            area == area2(v0, v1, v2),
            area < 0,
            area >= -0x2_0000_0000_0000_0000,
            min_x as int == if lo_x < 0 { 0 } else { lo_x as int },
            max_x as int == if hi_x >= FB_W as i32 { FB_W - 1 } else { hi_x as int },
            min_y as int == if lo_y < 0 { 0 } else { lo_y as int },
            max_y as int == if hi_y >= FB_H as i32 { FB_H - 1 } else { hi_y as int },
            lo_x == min3(v0.x, v1.x, v2.x),
            hi_x == max3(v0.x, v1.x, v2.x),
            lo_y == min3(v0.y, v1.y, v2.y),
            hi_y == max3(v0.y, v1.y, v2.y),
            max_x < FB_W,
            max_y < FB_H,
            min_x <= max_x,
            min_y <= py <= max_y + 1,
            forall|x: int, y: int|
                0 <= x < FB_W && 0 <= y < FB_H ==> #[trigger] fb.pixels@[px_index(x, y)] == if y < py
                    && covers(v0, v1, v2, x, y) {
                    shade(v0, v1, v2, x, y)
                } else {
                    before[px_index(x, y)]
                },
        decreases max_y + 1 - py,
    {
        let mut px: usize = min_x;
        while px <= max_x
            invariant
                fb.wf(),
                area == area2(v0, v1, v2),
                area < 0,
            area >= -0x2_0000_0000_0000_0000,
                min_x as int == if lo_x < 0 { 0 } else { lo_x as int },
                max_x as int == if hi_x >= FB_W as i32 { FB_W - 1 } else { hi_x as int },
                min_y as int == if lo_y < 0 { 0 } else { lo_y as int },
                max_y as int == if hi_y >= FB_H as i32 { FB_H - 1 } else { hi_y as int },
                lo_x == min3(v0.x, v1.x, v2.x),
                hi_x == max3(v0.x, v1.x, v2.x),
                lo_y == min3(v0.y, v1.y, v2.y),
                hi_y == max3(v0.y, v1.y, v2.y),
                max_x < FB_W,
                max_y < FB_H,
                min_y <= py <= max_y,
                min_x <= px <= max_x + 1,
                forall|x: int, y: int|
                    0 <= x < FB_W && 0 <= y < FB_H ==> #[trigger] fb.pixels@[px_index(x, y)] == if (y < py
                        || (y == py && x < px)) && covers(v0, v1, v2, x, y) {
                        shade(v0, v1, v2, x, y)
                    } else {
                        before[px_index(x, y)]
                    },
            decreases max_x + 1 - px,
        {
            let xi = px as i32;
            let yi = py as i32;
            let w0 = edge_exec(v1.x, v1.y, v2.x, v2.y, xi, yi);
            let w1 = edge_exec(v2.x, v2.y, v0.x, v0.y, xi, yi);
            let w2 = edge_exec(v0.x, v0.y, v1.x, v1.y, xi, yi);
            proof {
                lemma_index_bound(px as int, py as int);
            }
            if w0 <= 0 && w1 <= 0 && w2 <= 0 {
                proof {
                    lemma_edge_sum(v0, v1, v2, px as int, py as int);
                    lemma_interp_bounds(v0.r, v1.r, v2.r, w0 as int, w1 as int, w2 as int, area as int);
                    lemma_interp_bounds(v0.g, v1.g, v2.g, w0 as int, w1 as int, w2 as int, area as int);
                    lemma_interp_bounds(v0.b, v1.b, v2.b, w0 as int, w1 as int, w2 as int, area as int);
                }
                let r = channel(v0.r, v1.r, v2.r, w0, w1, w2, area);
                let g = channel(v0.g, v1.g, v2.g, w0, w1, w2, area);
                let b = channel(v0.b, v1.b, v2.b, w0, w1, w2, area);
                let pixel: u32 = 0xFF00_0000 + b * 0x1_0000 + g * 0x100 + r;
                fb.pixels[py * FB_W + px] = pixel;
            }
            proof {
                assert forall|x: int, y: int| 0 <= x < FB_W && 0 <= y < FB_H && !(x == px && y == py) implies
                    px_index(x, y) != px_index(px as int, py as int) by {
                    lemma_index_distinct(x, y, px as int, py as int);
                }
            }
            px = px + 1;
        }
        py = py + 1;
    }
}

/// One interpolated channel of a drawn pixel.
fn channel(c0: u8, c1: u8, c2: u8, w0: i128, w1: i128, w2: i128, area: i128) -> (r: u32)
    requires
        w0 <= 0,
        w1 <= 0,
        w2 <= 0,
        w0 + w1 + w2 == area,
        area < 0,
        area > -0x4_0000_0000_0000_0000,
    ensures
        r as int == interp(c0, c1, c2, w0 as int, w1 as int, w2 as int, area as int),
        r <= 255,
{
    proof {
        lemma_interp_bounds(c0, c1, c2, w0 as int, w1 as int, w2 as int, area as int);
        lemma_scale(-w0, c0 as int);
        lemma_scale(-w1, c1 as int);
        lemma_scale(-w2, c2 as int);
    }
    let n = (-w0) * (c0 as i128) + (-w1) * (c1 as i128) + (-w2) * (c2 as i128);
    (n / (-area)) as u32
}

fn edge_exec(ax: i32, ay: i32, bx: i32, by: i32, px: i32, py: i32) -> (r: i128)
    ensures
        r == edge(ax as int, ay as int, bx as int, by as int, px as int, py as int),
        -0x2_0000_0000_0000_0000 <= r <= 0x2_0000_0000_0000_0000,
{
    let (ax, ay, bx, by, px, py) = (ax as i128, ay as i128, bx as i128, by as i128, px as i128, py as i128);
    proof {
        lemma_mul_bound(bx - ax, py - ay);
        lemma_mul_bound(by - ay, px - ax);
    }
    (bx - ax) * (py - ay) - (by - ay) * (px - ax)
}

fn min3_exec(a: i32, b: i32, c: i32) -> (r: i32)
    ensures
        r == min3(a, b, c),
{
    if a <= b && a <= c {
        a
    } else if b <= c {
        b
    } else {
        c
    }
}

fn max3_exec(a: i32, b: i32, c: i32) -> (r: i32)
    ensures
        r == max3(a, b, c),
{
    if a >= b && a >= c {
        a
    } else if b >= c {
        b
    } else {
        c
    }
}

} // verus!
