use std::collections::VecDeque;

use emotion_cube::cpu::EmotionEngine as HostCpu;
use emotion_cube::dmac::{Dmac, CHCR_KICK, CHCR_STR};
use emotion_cube::ee::{gif_tag, vif_tag, EmotionEngine, SceneData, D1_MADR, D1_QWC, PACKET_BASE};
use emotion_cube::lanes::{split_lanes, Quad, VU_MEM_QWS};
use emotion_cube::quad::read_qw_le;
use emotion_cube::vif1::Vif1;

fn qw_of(q: Quad) -> u128 {
    (q[0] as u128) | ((q[1] as u128) << 32) | ((q[2] as u128) << 64) | ((q[3] as u128) << 96)
}

#[test]
fn cpu_step_adds_frame_cycles() {
    let mut cpu = HostCpu::new();
    assert_eq!(cpu.cycles, 0);
    assert_eq!(cpu.step(), 300_000);
    assert_eq!(cpu.step(), 300_000);
    assert_eq!(cpu.cycles, 600_000);
}

#[test]
fn read_qw_is_little_endian() {
    let bytes: Vec<u8> = (0u8..20).collect();
    let v = read_qw_le(&bytes, 2);
    assert_eq!(v, u128::from_le_bytes(bytes[2..18].try_into().unwrap()));
    assert_eq!(v & 0xFF, 2);
    assert_eq!(v >> 120, 17);
}

#[test]
fn transfer_in_range_pushes_every_quadword() {
    let mut ram = vec![0u8; 256];
    for (i, b) in ram.iter_mut().enumerate() {
        *b = (i * 7 + 3) as u8;
    }
    let mut dmac = Dmac::new();
    dmac.kick(32, 3);
    assert_eq!(dmac.d1_chcr, CHCR_KICK);
    let mut fifo: VecDeque<u128> = VecDeque::new();
    fifo.push_back(99);
    dmac.transfer(&ram, &mut fifo);
    assert_eq!(fifo.len(), 4);
    assert_eq!(fifo[0], 99);
    for i in 0..3 {
        let off = 32 + 16 * i;
        let expect = u128::from_le_bytes(ram[off..off + 16].try_into().unwrap());
        assert_eq!(fifo[i + 1], expect);
    }
    assert_eq!(dmac.d1_chcr & CHCR_STR, 0);
    assert_eq!(dmac.d1_chcr, 0x001);
}

#[test]
fn transfer_out_of_range_pushes_nothing() {
    let ram = vec![1u8; 64];
    let mut dmac = Dmac::new();
    dmac.kick(32, 3);
    let mut fifo: VecDeque<u128> = VecDeque::new();
    dmac.transfer(&ram, &mut fifo);
    assert!(fifo.is_empty());
    assert_eq!(dmac.d1_chcr & CHCR_STR, 0);
    // Exactly the end of memory is still in range.
    dmac.kick(32, 2);
    dmac.transfer(&ram, &mut fifo);
    assert_eq!(fifo.len(), 2);
}

#[test]
fn transfer_while_idle_does_nothing() {
    let ram = vec![5u8; 64];
    let mut dmac = Dmac::new();
    let mut fifo: VecDeque<u128> = VecDeque::new();
    dmac.transfer(&ram, &mut fifo);
    assert!(fifo.is_empty());
    dmac.kick(0, 1);
    dmac.transfer(&ram, &mut fifo);
    dmac.transfer(&ram, &mut fifo);
    assert_eq!(fifo.len(), 1);
}

#[test]
fn split_lanes_takes_low_bits_first() {
    let q = split_lanes(0x4444_4444_3333_3333_2222_2222_1111_1111);
    assert_eq!(q, [0x1111_1111, 0x2222_2222, 0x3333_3333, 0x4444_4444]);
}

#[test]
fn unpack_writes_consecutive_slots_only() {
    let mut vif = Vif1::new();
    let mut mem: Vec<Quad> = vec![[0; 4]; VU_MEM_QWS];
    let a = [1.0f32.to_bits(), 2.0f32.to_bits(), 3.0f32.to_bits(), 4.0f32.to_bits()];
    let b = [5.0f32.to_bits(), (-6.5f32).to_bits(), 0, 7];
    vif.fifo.push_back(vif_tag(0x6C, (2 << 16) | 5) as u128);
    vif.fifo.push_back(qw_of(a));
    vif.fifo.push_back(qw_of(b));
    vif.process(&mut mem);
    assert!(vif.fifo.is_empty());
    assert_eq!(mem[5], a);
    assert_eq!(mem[6], b);
    for (i, slot) in mem.iter().enumerate() {
        if i != 5 && i != 6 {
            assert_eq!(*slot, [0; 4]);
        }
    }
    assert!(!vif.unpack_active);
    assert_eq!(vif.unpack_addr, 7);
}

#[test]
fn unpack_past_the_end_drops_the_overflow() {
    let mut vif = Vif1::new();
    let mut mem: Vec<Quad> = vec![[0; 4]; VU_MEM_QWS];
    vif.fifo.push_back(vif_tag(0x6C, (2 << 16) | 1023) as u128);
    vif.fifo.push_back(qw_of([1, 2, 3, 4]));
    vif.fifo.push_back(qw_of([5, 6, 7, 8]));
    vif.process(&mut mem);
    assert_eq!(mem[1023], [1, 2, 3, 4]);
    assert_eq!(mem[0], [0; 4]);
    assert_eq!(mem.len(), VU_MEM_QWS);
}

#[test]
fn unpack_of_zero_quadwords_is_a_no_op() {
    let mut vif = Vif1::new();
    let mut mem: Vec<Quad> = vec![[0; 4]; VU_MEM_QWS];
    vif.fifo.push_back(vif_tag(0x6C, 10) as u128);
    // Parsed as a tag, not as data: an unknown command.
    vif.fifo.push_back(qw_of([0x7700_0000, 9, 9, 9]));
    vif.process(&mut mem);
    assert!(!vif.unpack_active);
    assert!(mem.iter().all(|q| *q == [0; 4]));
}

#[test]
fn tags_set_cycle_call_and_flush() {
    let mut vif = Vif1::new();
    let mut mem: Vec<Quad> = vec![[0; 4]; VU_MEM_QWS];
    vif.fifo.push_back(vif_tag(0x01, 0x0304) as u128);
    vif.fifo.push_back(vif_tag(0x14, 0x0012) as u128);
    vif.fifo.push_back(vif_tag(0x14, 0x0034) as u128);
    vif.fifo.push_back(vif_tag(0x11, 0) as u128);
    vif.process(&mut mem);
    assert_eq!(vif.wl, 3);
    assert_eq!(vif.cl, 4);
    assert_eq!(vif.mscal_addr, Some(0x34));
}

#[test]
fn vif_tag_masks_data_to_24_bits() {
    assert_eq!(vif_tag(0x6C, 0xFF12_3456), 0x6C12_3456);
    assert_eq!(gif_tag(), [0x0000_8024, 0x2005_C000, 0x15, 0]);
}

fn sample_scene() -> SceneData {
    let q = |i: u32| [i, i + 1, i + 2, i + 3];
    SceneData {
        positions: (0..36).map(|i| q(1000 + 4 * i)).collect(),
        normals: (0..36).map(|i| q(2000 + 4 * i)).collect(),
        colors: (0..36).map(|i| q(3000 + 4 * i)).collect(),
        mvp: (0..4).map(|i| q(4000 + 4 * i)).collect(),
        light: q(5000),
        viewport: q(6000),
    }
}

#[test]
fn packet_round_trips_through_transfer_and_parser() {
    let mut ee = EmotionEngine::new();
    let scene = sample_scene();
    let (madr, qwc) = ee.build_packet(&scene);
    assert_eq!((madr, qwc), (D1_MADR, D1_QWC));
    assert_eq!(ee.frame, 1);
    assert_eq!(&ee.ee_ram[PACKET_BASE..PACKET_BASE + 4], &[0x01, 0x01, 0x00, 0x01]);
    let mut dmac = Dmac::new();
    let mut vif = Vif1::new();
    dmac.kick(madr, qwc);
    dmac.transfer(&ee.ee_ram, &mut vif.fifo);
    assert_eq!(vif.fifo.len(), 125);
    let mut mem: Vec<Quad> = vec![[0; 4]; VU_MEM_QWS];
    vif.process(&mut mem);
    assert_eq!(mem[108], gif_tag());
    for i in 0..36 {
        assert_eq!(mem[i], scene.positions[i]);
        assert_eq!(mem[36 + i], scene.normals[i]);
        assert_eq!(mem[72 + i], scene.colors[i]);
    }
    for i in 0..4 {
        assert_eq!(mem[182 + i], scene.mvp[i]);
    }
    assert_eq!(mem[186], scene.light);
    assert_eq!(mem[187], scene.viewport);
    assert_eq!(vif.mscal_addr, Some(0));
    assert_eq!((vif.wl, vif.cl), (1, 1));
}
