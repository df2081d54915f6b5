use emotion_cube::lanes::Quad;
use emotion_cube::vu::Vu1State;
use emotion_cube::vu1::{
    FloatUnit, LowerEffect, RunOutcome, Staged, Vu1, FALLBACK_BASE, MAX_CYCLES, ONE_BITS, OP_ADD, OP_MADD, OP_MADDA,
    OP_MAX, OP_MINI, OP_MUL, OP_MULA, OP_SUB,
};
use emotion_cube::vu1_program::{
    i, l_iaddiu, l_ibne, l_lqi, l_nop, l_sqi, l_xgkick, u_div, u_ftoi4, u_mulq, u_nop, u_waitq, ubc, vu1_micro, DEST_X,
    DEST_XY, DEST_XYZW, W, X, Y, Z,
};

struct HostFpu;

impl FloatUnit for HostFpu {
    fn add_spec(&self, a: u32, b: u32) -> u32 {
        (f32::from_bits(a) + f32::from_bits(b)).to_bits()
    }

    fn sub_spec(&self, a: u32, b: u32) -> u32 {
        (f32::from_bits(a) - f32::from_bits(b)).to_bits()
    }

    fn mul_spec(&self, a: u32, b: u32) -> u32 {
        (f32::from_bits(a) * f32::from_bits(b)).to_bits()
    }

    fn max_spec(&self, a: u32, b: u32) -> u32 {
        f32::from_bits(a).max(f32::from_bits(b)).to_bits()
    }

    fn min_spec(&self, a: u32, b: u32) -> u32 {
        f32::from_bits(a).min(f32::from_bits(b)).to_bits()
    }

    fn div_spec(&self, a: u32, b: u32) -> u32 {
        (f32::from_bits(a) / f32::from_bits(b)).to_bits()
    }

    fn to_fixed4_spec(&self, a: u32) -> i32 {
        (f32::from_bits(a) * 16.0).round() as i32
    }

    fn to_channel_spec(&self, a: u32) -> u8 {
        (f32::from_bits(a).clamp(0.0, 1.0) * 255.0 + 0.5) as u8
    }

    fn add(&self, a: u32, b: u32) -> u32 {
        self.add_spec(a, b)
    }

    fn sub(&self, a: u32, b: u32) -> u32 {
        self.sub_spec(a, b)
    }

    fn mul(&self, a: u32, b: u32) -> u32 {
        self.mul_spec(a, b)
    }

    fn max(&self, a: u32, b: u32) -> u32 {
        self.max_spec(a, b)
    }

    fn min(&self, a: u32, b: u32) -> u32 {
        self.min_spec(a, b)
    }

    fn div(&self, a: u32, b: u32) -> u32 {
        self.div_spec(a, b)
    }

    fn to_fixed4(&self, a: u32) -> i32 {
        self.to_fixed4_spec(a)
    }

    fn to_channel(&self, a: u32) -> u8 {
        self.to_channel_spec(a)
    }
}

fn f(v: [f32; 4]) -> Quad {
    [v[0].to_bits(), v[1].to_bits(), v[2].to_bits(), v[3].to_bits()]
}

fn unit(program: Vec<u64>) -> Vu1 {
    Vu1::with_program(&program)
}

#[test]
fn encoders_produce_documented_words() {
    assert_eq!(u_nop(), 0x1FF);
    assert_eq!(l_nop(), 0x8000_0000);
    assert_eq!(u_waitq(), 0x073);
    assert_eq!(i(0x1234_5678, 0x9ABC_DEF0), 0x1234_5678_9ABC_DEF0);
    assert_eq!(ubc(DEST_XYZW, 15, 3, 10, OP_MADD, Z), 0x0F50_DE0A);
    assert_eq!(u_div(0, W, 15, W), (15 << 19) | (0b1111 << 9) | 0x070);
    assert_eq!(u_mulq(0b1110, 15, 15), 0x0E03_DE1C);
    assert_eq!(u_ftoi4(DEST_XY, 15, 15), 0x0C03_DF7C);
    assert_eq!(l_iaddiu(3, 3, -1), (0x27 << 26) | (3 << 21) | (3 << 16) | 0x7FFF);
    assert_eq!(l_ibne(3, 0, -27), (0x23 << 26) | (3 << 21) | 0x7E5);
    assert_eq!(l_xgkick(5), (0x32 << 26) | (5 << 16));
    assert_eq!(l_lqi(10, 1), (0x3A << 26) | (10 << 21) | (1 << 16));
    assert_eq!(l_sqi(15, 2), (0x3E << 26) | (15 << 21) | (2 << 11));
    assert_eq!(vu1_micro().len(), 41);
}

#[test]
fn new_unit_has_hardwired_registers() {
    let vu = Vu1::new();
    assert_eq!(vu.vf_get(0), [0, 0, 0, ONE_BITS]);
    assert_eq!(vu.vi_get(0), 0);
    assert_eq!(vu.code_mem.len(), 41);
    assert_eq!(vu.pc, 0);
    let st = Vu1State::new();
    assert_eq!((st.frame, st.mat_ops), (0, 0));
}

#[test]
fn writes_to_register_zero_are_discarded() {
    let mut vu = unit(vec![]);
    vu.vf_set(0, 0xF, [7, 7, 7, 7]);
    vu.vi_set(0, 42);
    assert_eq!(vu.vf_get(0), [0, 0, 0, ONE_BITS]);
    assert_eq!(vu.vi_get(0), 0);
    // A load into VF0 is dropped but still post-increments the pointer.
    vu.data_mem[3] = [9, 9, 9, 9];
    vu.vi_set(1, 3);
    assert_eq!(vu.exec_lower(l_lqi(0, 1)), LowerEffect::Next);
    assert_eq!(vu.vf_get(0), [0, 0, 0, ONE_BITS]);
    assert_eq!(vu.vi_get(1), 4);
    // Add-immediate aimed at VI0 is dropped.
    vu.exec_lower(l_iaddiu(0, 1, 5));
    assert_eq!(vu.vi_get(0), 0);
    // A staged write to VF0 is dropped at commit.
    vu.commit_upper(Some(Staged { fd: 0, dest: 0xF, val: [1, 2, 3, 4] }));
    assert_eq!(vu.vf_get(0), [0, 0, 0, ONE_BITS]);
}

#[test]
fn masked_write_touches_selected_lanes() {
    let mut vu = unit(vec![]);
    vu.vf_set(4, 0b1010, [1, 2, 3, 4]);
    assert_eq!(vu.vf_get(4), [1, 0, 3, 0]);
    vu.vf_set(4, 0b0101, [5, 6, 7, 8]);
    assert_eq!(vu.vf_get(4), [1, 6, 3, 8]);
}

#[test]
fn lower_slot_sees_registers_before_the_upper_commit() {
    // VF1 = VF1 + VF2.x staged in the upper slot while the lower slot stores VF1.
    let upper = ubc(DEST_XYZW, 1, 1, 2, OP_ADD, X);
    let program = vec![i(upper, l_sqi(1, 3)), i(u_nop(), l_sqi(1, 3))];
    let mut vu = unit(program);
    vu.vf_set(1, 0xF, f([1.0, 2.0, 3.0, 4.0]));
    vu.vf_set(2, 0xF, f([10.0, 0.0, 0.0, 0.0]));
    vu.vi_set(3, 50);
    let (effect, staged) = vu.cycle(&HostFpu);
    assert_eq!(effect, LowerEffect::Next);
    assert!(staged.is_some());
    assert_eq!(vu.data_mem[50], f([1.0, 2.0, 3.0, 4.0]));
    assert_eq!(vu.vf_get(1), f([11.0, 12.0, 13.0, 14.0]));
    // The next instruction sees the new value.
    vu.cycle(&HostFpu);
    assert_eq!(vu.data_mem[51], f([11.0, 12.0, 13.0, 14.0]));
    assert_eq!(vu.vi_get(3), 52);
    assert_eq!(vu.pc, 2);
}

#[test]
fn broadcast_families_compute_lanewise() {
    let mut vu = unit(vec![]);
    vu.vf_set(1, 0xF, f([1.0, -2.0, 3.0, -4.0]));
    vu.vf_set(2, 0xF, f([0.5, 2.0, 10.0, 0.0]));
    let run = |vu: &mut Vu1, op: u32, bc: u32| {
        let st = vu.exec_upper(&HostFpu, ubc(DEST_XYZW, 5, 1, 2, op, bc));
        st.map(|s| s.val)
    };
    assert_eq!(run(&mut vu, OP_ADD, Y), Some(f([3.0, 0.0, 5.0, -2.0])));
    assert_eq!(run(&mut vu, OP_SUB, X), Some(f([0.5, -2.5, 2.5, -4.5])));
    assert_eq!(run(&mut vu, OP_MUL, Z), Some(f([10.0, -20.0, 30.0, -40.0])));
    assert_eq!(run(&mut vu, OP_MAX, W), Some(f([1.0, 0.0, 3.0, 0.0])));
    assert_eq!(run(&mut vu, OP_MINI, W), Some(f([0.0, -2.0, 0.0, -4.0])));
    // Accumulator chain: ACC = VF1 * 2, ACC += VF1 * 0.5, VF5 = ACC + VF1 * 10.
    assert_eq!(run(&mut vu, OP_MULA, Y), None);
    assert_eq!(vu.acc, f([2.0, -4.0, 6.0, -8.0]));
    assert_eq!(run(&mut vu, OP_MADDA, X), None);
    assert_eq!(vu.acc, f([2.5, -5.0, 7.5, -10.0]));
    assert_eq!(run(&mut vu, OP_MADD, Z), Some(f([12.5, -25.0, 37.5, -50.0])));
    // A masked accumulator write keeps the other lanes.
    vu.exec_upper(&HostFpu, ubc(DEST_X, 0, 1, 2, OP_MULA, Z));
    assert_eq!(vu.acc, f([10.0, -5.0, 7.5, -10.0]));
}

#[test]
fn reciprocal_of_tiny_divisor_is_zero() {
    let mut vu = unit(vec![]);
    vu.vf_set(1, 0xF, f([1.0e-38, -1.0e-38, 0.0, 2.0]));
    vu.exec_upper(&HostFpu, u_div(0, W, 1, X));
    assert_eq!(vu.q, 0);
    assert_eq!(vu.div_busy, 7);
    vu.q = 5;
    vu.exec_upper(&HostFpu, u_div(0, W, 1, Y));
    assert_eq!(vu.q, 0);
    vu.exec_upper(&HostFpu, u_div(0, W, 1, Z));
    assert_eq!(vu.q, 0);
    vu.exec_upper(&HostFpu, u_div(0, W, 1, W));
    assert_eq!(f32::from_bits(vu.q), 0.5);
    assert!(f32::from_bits(vu.q).is_finite());
    vu.exec_upper(&HostFpu, u_waitq());
    assert_eq!(vu.div_busy, 0);
    let st = vu.exec_upper(&HostFpu, u_mulq(0b1110, 6, 1)).unwrap();
    assert_eq!(st.fd, 6);
    assert_eq!(st.dest, 0b1110);
    assert_eq!(f32::from_bits(st.val[3]), 1.0);
}

#[test]
fn float_to_fixed_stores_integer_bits() {
    let mut vu = unit(vec![]);
    vu.vf_set(1, 0xF, f([3.7, -2.3, 0.01, -0.04]));
    let st = vu.exec_upper(&HostFpu, u_ftoi4(DEST_XYZW, 2, 1)).unwrap();
    assert_eq!(st.val[0] as i32, 59);
    assert_eq!(st.val[1] as i32, -37);
    assert_eq!(st.val[2] as i32, 0);
    assert_eq!(st.val[3] as i32, -1);
}

#[test]
fn branch_counts_down_and_kick_reports_base() {
    let program = vec![
        i(u_nop(), l_iaddiu(3, 0, 4)),
        i(u_nop(), l_iaddiu(5, 0, 200)),
        i(u_nop(), l_iaddiu(3, 3, -1)),
        i(u_nop(), l_ibne(3, 0, -2)),
        i(u_nop(), l_xgkick(5)),
    ];
    let mut vu = unit(program);
    let out = vu.run_bounded(&HostFpu, MAX_CYCLES);
    assert_eq!(out, RunOutcome::Kicked { base: 200, cycles: 11 });
    assert_eq!(vu.pc, 5);
    assert_eq!(vu.vi_get(3), 0);
}

#[test]
fn running_off_the_program_reports_fallback() {
    let mut vu = unit(vec![i(u_nop(), l_nop())]);
    assert_eq!(vu.run_bounded(&HostFpu, MAX_CYCLES), RunOutcome::OutOfCode { cycles: 1 });
    let mut vu = unit(vec![i(u_nop(), l_nop())]);
    assert_eq!(vu.run_until_xgkick(&HostFpu), FALLBACK_BASE);
}

#[test]
fn endless_program_stops_at_the_cycle_cap() {
    let program = vec![i(u_nop(), l_iaddiu(1, 0, 1)), i(u_nop(), l_ibne(1, 0, -1))];
    let mut vu = unit(program.clone());
    assert_eq!(vu.run_bounded(&HostFpu, MAX_CYCLES), RunOutcome::CapReached { cycles: MAX_CYCLES });
    let mut vu = unit(program);
    assert_eq!(vu.run_until_xgkick(&HostFpu), 109);
}

#[test]
fn micro_program_transforms_one_vertex() {
    let mut vu = Vu1::new();
    for k in 0..36 {
        vu.data_mem[k] = f([0.0, 0.0, 0.0, 1.0]);
        vu.data_mem[36 + k] = f([1.0, 0.0, 0.0, 0.0]);
        vu.data_mem[72 + k] = f([1.0, 0.5, 0.0, 1.0]);
    }
    // Identity matrix, light along z with ambient 0.2, viewport 320 x 224.
    vu.data_mem[182] = f([1.0, 0.0, 0.0, 0.0]);
    vu.data_mem[183] = f([0.0, 1.0, 0.0, 0.0]);
    vu.data_mem[184] = f([0.0, 0.0, 1.0, 0.0]);
    vu.data_mem[185] = f([0.0, 0.0, 0.0, 1.0]);
    vu.data_mem[186] = f([0.0, 0.0, 1.0, 0.2]);
    vu.data_mem[187] = f([320.0, 224.0, 0.0, 0.0]);
    let base = vu.run_until_xgkick(&HostFpu);
    assert_eq!(base, 108);
    // Centre of the screen in 12.4 fixed point, full intensity colour.
    assert_eq!(vu.data_mem[109][0] as i32, 320 * 16);
    assert_eq!(vu.data_mem[109][1] as i32, 224 * 16);
    assert_eq!(vu.data_mem[110], f([1.0, 0.5, 0.0, 1.0]));
    assert_eq!(vu.data_mem[109 + 2 * 35][0] as i32, 320 * 16);
}

#[test]
fn float_to_fixed_keeps_the_integer_bit_pattern() {
    let mut vu = Vu1::new();
    vu.vf_set(1, 0xF, f([-2.53, 0.03, 100.5, -0.04]));
    let st = vu.exec_upper(&HostFpu, u_ftoi4(0xF, 2, 1)).unwrap();
    assert_eq!((st.fd, st.dest), (2, 0xF));
    assert_eq!(st.val, [0xFFFF_FFD8, 0x0000_0000, 0x0000_0648, 0xFFFF_FFFF]);
    assert_eq!(vu.vf_get(2), [0; 4]);
}

#[test]
fn run_stores_pre_instruction_value_then_new_one() {
    let mut vu = Vu1::new();
    vu.vf_set(1, 0xF, f([1.0, 2.0, 3.0, 4.0]));
    vu.vi_set(1, 200);
    vu.code_mem[0] = i(ubc(0xF, 1, 1, 0, OP_ADD, W), l_sqi(1, 1));
    vu.code_mem[1] = i(u_nop(), l_sqi(1, 1));
    vu.code_mem[2] = i(u_nop(), l_xgkick(0));
    vu.pc = 0;
    assert_eq!(vu.run_until_xgkick(&HostFpu), 0);
    assert_eq!(vu.data_mem[200], f([1.0, 2.0, 3.0, 4.0]));
    assert_eq!(vu.data_mem[201], f([2.0, 3.0, 4.0, 5.0]));
    assert_eq!(vu.vf_get(1), f([2.0, 3.0, 4.0, 5.0]));
    assert_eq!(vu.vi_get(1), 202);
    assert_eq!(vu.pc, 3);
}

#[test]
fn cycle_cap_leaves_counter_state_after_exactly_the_cap() {
    let mut vu = Vu1::new();
    vu.code_mem[0] = i(u_nop(), l_iaddiu(1, 1, 1));
    vu.code_mem[1] = i(u_nop(), l_ibne(1, 0, -2));
    vu.pc = 0;
    assert_eq!(vu.run_until_xgkick(&HostFpu), 109);
    assert_eq!(vu.vi_get(1), -15536);
    assert_eq!(vu.pc, 0);
}

#[test]
fn start_outside_the_program_changes_nothing() {
    let mut vu = Vu1::new();
    vu.pc = 600;
    assert_eq!(vu.run_until_xgkick(&HostFpu), FALLBACK_BASE);
    assert_eq!(vu.pc, 600);
    assert!(vu.data_mem.iter().all(|q| *q == [0; 4]));
    assert_eq!(vu.vi, vec![0i16; 16]);
}

#[test]
fn shipped_program_kicks_at_descriptor_slot() {
    let mut vu = Vu1::new();
    assert_eq!(vu.run_until_xgkick(&HostFpu), 108);
    assert_eq!(vu.pc, 41);
    assert_eq!(&vu.vi[1..8], &[36, 181, 0, 188, 108, 72, 108]);
}
