use emotion_cube::ee::{SceneData, gif_tag};
use emotion_cube::emulator::{EmulatorCore, FrameTelemetry};
use emotion_cube::gif::{parse_gif_packet, GifVertex};
use emotion_cube::gs_rasterizer::{rasterize_triangle, Framebuffer, FB_BACKGROUND, FB_H, FB_W};
use emotion_cube::lanes::{Quad, VU_MEM_QWS};
use emotion_cube::vu1::FloatUnit;

struct HostFpu;

impl FloatUnit for HostFpu {
    fn add_spec(&self, a: u32, b: u32) -> u32 {
        (f32::from_bits(a) + f32::from_bits(b)).to_bits()
    }

    fn sub_spec(&self, a: u32, b: u32) -> u32 {
        (f32::from_bits(a) - f32::from_bits(b)).to_bits()
    }

    fn mul_spec(&self, a: u32, b: u32) -> u32 {
        (f32::from_bits(a) * f32::from_bits(b)).to_bits()
    }

    fn max_spec(&self, a: u32, b: u32) -> u32 {
        f32::from_bits(a).max(f32::from_bits(b)).to_bits()
    }

    fn min_spec(&self, a: u32, b: u32) -> u32 {
        f32::from_bits(a).min(f32::from_bits(b)).to_bits()
    }

    fn div_spec(&self, a: u32, b: u32) -> u32 {
        (f32::from_bits(a) / f32::from_bits(b)).to_bits()
    }

    fn to_fixed4_spec(&self, a: u32) -> i32 {
        (f32::from_bits(a) * 16.0).round() as i32
    }

    fn to_channel_spec(&self, a: u32) -> u8 {
        (f32::from_bits(a).clamp(0.0, 1.0) * 255.0 + 0.5) as u8
    }

    fn add(&self, a: u32, b: u32) -> u32 {
        self.add_spec(a, b)
    }

    fn sub(&self, a: u32, b: u32) -> u32 {
        self.sub_spec(a, b)
    }

    fn mul(&self, a: u32, b: u32) -> u32 {
        self.mul_spec(a, b)
    }

    fn max(&self, a: u32, b: u32) -> u32 {
        self.max_spec(a, b)
    }

    fn min(&self, a: u32, b: u32) -> u32 {
        self.min_spec(a, b)
    }

    fn div(&self, a: u32, b: u32) -> u32 {
        self.div_spec(a, b)
    }

    fn to_fixed4(&self, a: u32) -> i32 {
        self.to_fixed4_spec(a)
    }

    fn to_channel(&self, a: u32) -> u8 {
        self.to_channel_spec(a)
    }
}

fn f(v: [f32; 4]) -> Quad {
    [v[0].to_bits(), v[1].to_bits(), v[2].to_bits(), v[3].to_bits()]
}

fn vert(x: i32, y: i32, r: u8, g: u8, b: u8) -> GifVertex {
    GifVertex { r, g, b, a: 255, x, y }
}

fn descriptor(nloop: u32, flg: u32, nreg: u32, reg0: u32, reg1: u32) -> Quad {
    let w0 = nloop | (1 << 15);
    let w1 = (1 << 14) | (0x00B << 15) | (flg << 27) | (nreg << 28);
    [w0, w1, reg0 | (reg1 << 4), 0]
}

#[test]
fn descriptor_with_three_loops_yields_three_vertices() {
    let mut mem: Vec<Quad> = vec![[0; 4]; VU_MEM_QWS];
    mem[100] = descriptor(3, 0, 2, 0x05, 0x01);
    let coords = [(10, 20), (-3, 7), (639, 447)];
    for (k, (x, y)) in coords.iter().enumerate() {
        mem[101 + 2 * k] = [((x * 16) as i32) as u32, ((y * 16 + 9) as i32) as u32, 0, 0];
        mem[102 + 2 * k] = f([1.0, 0.5, 0.0, 1.0]);
    }
    let prims = parse_gif_packet(&HostFpu, &mem, 100);
    assert_eq!(prims.len(), 1);
    assert!(prims[0].iip);
    let v = &prims[0].vertices;
    assert_eq!(v.len(), 3);
    for (k, (x, y)) in coords.iter().enumerate() {
        assert_eq!(v[k], GifVertex { r: 255, g: 128, b: 0, a: 255, x: *x, y: *y });
    }
}

#[test]
fn unsupported_descriptors_yield_nothing() {
    let mut mem: Vec<Quad> = vec![[0; 4]; VU_MEM_QWS];
    mem[0] = descriptor(0, 0, 2, 0x05, 0x01);
    assert!(parse_gif_packet(&HostFpu, &mem, 0).is_empty());
    mem[0] = descriptor(3, 1, 2, 0x05, 0x01);
    assert!(parse_gif_packet(&HostFpu, &mem, 0).is_empty());
    assert!(parse_gif_packet(&HostFpu, &mem, VU_MEM_QWS).is_empty());
}

#[test]
fn unknown_registers_and_memory_end_leave_defaults() {
    let mut mem: Vec<Quad> = vec![[7; 4]; VU_MEM_QWS];
    mem[1021] = descriptor(2, 0, 2, 0x0E, 0x05);
    mem[1022] = [1, 1, 1, 1];
    mem[1023] = [160, 0xFFFF_FFF0, 0, 0];
    let prims = parse_gif_packet(&HostFpu, &mem, 1021);
    let v = &prims[0].vertices;
    assert_eq!(v.len(), 2);
    assert_eq!(v[0], GifVertex { r: 0, g: 0, b: 0, a: 255, x: 10, y: -1 });
    assert_eq!(v[1], GifVertex { r: 0, g: 0, b: 0, a: 255, x: 0, y: 0 });
}

#[test]
fn fixed_point_round_trip_recovers_rounded_value() {
    let values = [3.7f32, -2.3, 0.01, -0.01, 0.0, 100.5, -0.04, 12.96];
    for &v in values.iter() {
        let fixed = HostFpu.to_fixed4(v.to_bits());
        let mut mem: Vec<Quad> = vec![[0; 4]; VU_MEM_QWS];
        mem[0] = descriptor(1, 0, 2, 0x05, 0x0E);
        mem[1] = [fixed as u32, fixed as u32, 0, 0];
        let px = parse_gif_packet(&HostFpu, &mem, 0)[0].vertices[0].x;
        let exact = (v * 16.0).round() / 16.0;
        assert!((exact - px as f32) >= 0.0 && (exact - px as f32) < 1.0);
        assert_eq!(px, fixed >> 4);
    }
}

#[test]
fn scene_descriptor_decodes_as_documented() {
    let mut mem: Vec<Quad> = vec![[0; 4]; VU_MEM_QWS];
    mem[108] = gif_tag();
    let prims = parse_gif_packet(&HostFpu, &mem, 108);
    assert_eq!(prims.len(), 1);
    assert!(prims[0].iip);
    assert_eq!(prims[0].vertices.len(), 36);
}

#[test]
fn solid_triangle_fills_its_interior() {
    let mut fb = Framebuffer::new();
    assert_eq!(fb.pixels.len(), FB_W * FB_H);
    let (a, b, c) = (vert(0, 0, 255, 0, 0), vert(0, 10, 255, 0, 0), vert(10, 0, 255, 0, 0));
    rasterize_triangle(&mut fb, &a, &b, &c);
    for y in 1..10 {
        for x in 1..(10 - y) {
            assert_eq!(fb.pixels[y * FB_W + x], 0xFF00_00FF, "pixel {} {}", x, y);
        }
    }
    assert_eq!(fb.pixels[20 * FB_W + 20], FB_BACKGROUND);
    assert_eq!(fb.pixels[10 * FB_W + 10], FB_BACKGROUND);
}

#[test]
fn gouraud_interpolation_is_exact_at_vertices() {
    let mut fb = Framebuffer::new();
    let (a, b, c) = (vert(0, 0, 255, 0, 0), vert(0, 30, 0, 255, 0), vert(30, 0, 0, 0, 255));
    rasterize_triangle(&mut fb, &a, &b, &c);
    assert_eq!(fb.pixels[0], 0xFF00_00FF);
    assert_eq!(fb.pixels[30 * FB_W], 0xFF00_FF00);
    assert_eq!(fb.pixels[30], 0xFFFF_0000);
    // (10, 10): weights 1/3 each -> 85 per channel.
    assert_eq!(fb.pixels[10 * FB_W + 10], 0xFF55_5555);
}

#[test]
fn degenerate_and_back_facing_triangles_draw_nothing() {
    let mut fb = Framebuffer::new();
    fb.clear(0x1234_5678);
    let (a, b, c) = (vert(0, 0, 255, 0, 0), vert(10, 0, 255, 0, 0), vert(0, 10, 255, 0, 0));
    rasterize_triangle(&mut fb, &a, &b, &c);
    let line = (vert(0, 0, 9, 9, 9), vert(5, 5, 9, 9, 9), vert(10, 10, 9, 9, 9));
    rasterize_triangle(&mut fb, &line.0, &line.1, &line.2);
    assert!(fb.pixels.iter().all(|p| *p == 0x1234_5678));
}

#[test]
fn triangle_is_clipped_to_the_buffer() {
    let mut fb = Framebuffer::new();
    let (a, b, c) = (vert(-100, -100, 0, 0, 200), vert(-100, 1000, 0, 0, 200), vert(1000, -100, 0, 0, 200));
    rasterize_triangle(&mut fb, &a, &b, &c);
    assert_eq!(fb.pixels[0], 0xFFC8_0000);
    assert_eq!(fb.pixels[FB_W - 1], 0xFFC8_0000);
    assert_eq!(fb.pixels[FB_W * FB_H - 1], FB_BACKGROUND);
}

fn cube_like_scene() -> SceneData {
    // One front-facing triangle repeated; identity transform.
    let tri = [[-0.5f32, -0.5, 0.0, 1.0], [0.5, -0.5, 0.0, 1.0], [-0.5, 0.5, 0.0, 1.0]];
    SceneData {
        positions: (0..36).map(|k| f(tri[k % 3])).collect(),
        normals: (0..36).map(|_| f([1.0, 0.0, 0.0, 0.0])).collect(),
        colors: (0..36).map(|_| f([0.0, 1.0, 0.0, 1.0])).collect(),
        mvp: vec![
            f([1.0, 0.0, 0.0, 0.0]),
            f([0.0, 1.0, 0.0, 0.0]),
            f([0.0, 0.0, 1.0, 0.0]),
            f([0.0, 0.0, 0.0, 1.0]),
        ],
        light: f([0.0, 0.0, 1.0, 0.2]),
        viewport: f([320.0, 224.0, 0.0, 0.0]),
    }
}

#[test]
fn frame_step_draws_and_reports_counters() {
    let mut core = EmulatorCore::new();
    let scene = cube_like_scene();
    let t = core.step_frame(&HostFpu, &scene);
    assert_eq!(t, FrameTelemetry { emulated_cycles: 300_000, vu1_mat_ops: 5, frame_count: 1 });
    assert_eq!(core.gs_fb.pixels[224 * FB_W + 300], 0xFF00_FF00);
    assert_eq!(core.gs_fb.pixels[10 * FB_W + 10], FB_BACKGROUND);
    let t = core.step_frame(&HostFpu, &scene);
    assert_eq!(t, FrameTelemetry { emulated_cycles: 600_000, vu1_mat_ops: 10, frame_count: 2 });
    assert_eq!(core.ee.frame, 2);
}

#[test]
fn odd_register_count_overlaps_packing_mode() {
    // Bit 60 is shared by the packing mode and the register count: a count of
    // one reads as a non-packed mode and yields nothing.
    let mut mem: Vec<Quad> = vec![[0; 4]; VU_MEM_QWS];
    mem[0] = descriptor(2, 0, 1, 0x05, 0x05);
    assert!(parse_gif_packet(&HostFpu, &mem, 0).is_empty());
    mem[0] = descriptor(2, 0, 0, 0x05, 0x05);
    let prims = parse_gif_packet(&HostFpu, &mem, 0);
    assert_eq!(prims[0].vertices.len(), 2);
}

#[test]
fn colour_registers_set_all_four_channels() {
    let mut mem: Vec<Quad> = vec![[0; 4]; VU_MEM_QWS];
    mem[108] = [3, 0x2000_0000, 0x15, 0];
    let colours = [[1.0f32, 0., 0., 1.], [0., 1., 0., 1.], [0., 0., 1., 1.]];
    for k in 0..3u32 {
        mem[109 + 2 * k as usize] = [(10 + 20 * k) << 4, (20 + 20 * k) << 4, 0, 0];
        mem[110 + 2 * k as usize] = f(colours[k as usize]);
    }
    let prims = parse_gif_packet(&HostFpu, &mem, 108);
    assert_eq!(prims.len(), 1);
    assert!(!prims[0].iip);
    let got: Vec<(u8, u8, u8, u8, i32, i32)> =
        prims[0].vertices.iter().map(|v| (v.r, v.g, v.b, v.a, v.x, v.y)).collect();
    assert_eq!(got, vec![(255, 0, 0, 255, 10, 20), (0, 255, 0, 255, 30, 40), (0, 0, 255, 255, 50, 60)]);
}
