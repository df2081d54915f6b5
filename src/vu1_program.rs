use vstd::prelude::*;
use crate::vu1::{
    low_i11, low_i16, low_i21, low_op, low_r21, lower_word, sext11, sext15, stages_write, up_dest, up_family, up_fd,
    up_fs, up_ft, up_op, upper_word, writes_acc, LOP_IADDIU, LOP_IBNE, LOP_LQI, LOP_NOP, LOP_SQI, LOP_XGKICK, OP_DIV,
    OP_FTOI4, OP_MULQ, OP_NOP, OP_WAITQ, OP_ADD, OP_SUB, OP_MADD, OP_MAX, OP_MINI, OP_MUL, OP_MULA, OP_MADDA,
};

verus! {

// Broadcast lanes.
pub const X: u32 = 0;
pub const Y: u32 = 1;
pub const Z: u32 = 2;
pub const W: u32 = 3;

// Destination masks.
pub const DEST_XYZW: u32 = 0xF;
pub const DEST_XYZ: u32 = 0b1110;
pub const DEST_XY: u32 = 0b1100;
pub const DEST_X: u32 = 0b1000;
pub const DEST_Y: u32 = 0b0100;

/// Word of a broadcast upper-slot operation.
pub open spec fn enc_ubc(dest: u32, fd: u32, fs: u32, ft: u32, op_base: u32, bc: u32) -> u32 {
    (dest << 24) | (ft << 19) | (fs << 14) | (fd << 9) | (op_base | bc)
}

/// Word of a divide.
pub open spec fn enc_div(fs: u32, fsf: u32, ft: u32, ftf: u32) -> u32 {
    (ft << 19) | (fs << 14) | (((fsf << 2) | ftf) << 9) | OP_DIV
}

/// Word of a multiply by the reciprocal result.
pub open spec fn enc_mulq(dest: u32, fd: u32, fs: u32) -> u32 {
    (dest << 24) | (fs << 14) | (fd << 9) | OP_MULQ
}

/// Word of a float-to-fixed conversion.
pub open spec fn enc_ftoi4(dest: u32, fd: u32, fs: u32) -> u32 {
    (dest << 24) | (fs << 14) | (fd << 9) | OP_FTOI4
}

/// Word of an add-immediate.
pub open spec fn enc_iaddiu(vt: u32, vs: u32, imm: i16) -> u32 {
    (LOP_IADDIU << 26) | (vt << 21) | (vs << 16) | ((imm as u32) & 0x7FFF)
}

/// Word of a branch-if-not-equal.
pub open spec fn enc_ibne(vs: u32, vt: u32, off: i16) -> u32 {
    (LOP_IBNE << 26) | (vs << 21) | (vt << 16) | ((off as u32) & 0x7FF)
}

/// Word of the terminal kick.
pub open spec fn enc_xgkick(is: u32) -> u32 {
    (LOP_XGKICK << 26) | (is << 16)
}

/// Word of an indexed load.
pub open spec fn enc_lqi(ft: u32, is: u32) -> u32 {
    (LOP_LQI << 26) | (ft << 21) | (is << 16)
}

/// Word of an indexed store.
pub open spec fn enc_sqi(fs: u32, it: u32) -> u32 {
    (LOP_SQI << 26) | (fs << 21) | (it << 11)
}

/// An instruction from its upper and lower words.
pub open spec fn enc_instr(upper: u32, lower: u32) -> u64 {
    ((upper as u64) << 32) | (lower as u64)
}

/// Upper no-op word.
pub open spec fn enc_unop() -> u32 {
    0x1FF
}

/// Lower no-op word.
pub open spec fn enc_lnop() -> u32 {
    0x8000_0000
}

/// Upper/lower pair with an upper no-op.
pub open spec fn lo_only(lower: u32) -> u64 {
    enc_instr(enc_unop(), lower)
}

/// Upper/lower pair with a lower no-op.
pub open spec fn up_only(upper: u32) -> u64 {
    enc_instr(upper, enc_lnop())
}

/// The words of the transform-and-light micro-program (see `vu1_micro`).
pub open spec fn micro_program() -> Seq<u64> {
    seq![
        lo_only(enc_iaddiu(1, 0, 0)),
        lo_only(enc_iaddiu(6, 0, 36)),
        lo_only(enc_iaddiu(7, 0, 72)),
        lo_only(enc_iaddiu(2, 0, 109)),
        lo_only(enc_iaddiu(5, 0, 108)),
        lo_only(enc_iaddiu(3, 0, 36)),
        lo_only(enc_iaddiu(4, 0, 182)),
        lo_only(enc_lqi(1, 4)),
        lo_only(enc_lqi(2, 4)),
        lo_only(enc_lqi(3, 4)),
        lo_only(enc_lqi(4, 4)),
        lo_only(enc_lqi(5, 4)),
        lo_only(enc_lqi(9, 4)),
        lo_only(enc_lqi(10, 1)),
        lo_only(enc_lqi(11, 6)),
        lo_only(enc_lqi(12, 7)),
        up_only(enc_ubc(DEST_XYZW, 0, 4, 10, OP_MULA, W)),
        up_only(enc_ubc(DEST_XYZW, 0, 1, 10, OP_MADDA, X)),
        up_only(enc_ubc(DEST_XYZW, 0, 2, 10, OP_MADDA, Y)),
        up_only(enc_ubc(DEST_XYZW, 15, 3, 10, OP_MADD, Z)),
        up_only(enc_div(0, W, 15, W)),
        up_only(enc_ubc(DEST_XYZW, 0, 11, 5, OP_MULA, X)),
        up_only(enc_ubc(DEST_XYZW, 0, 11, 5, OP_MADDA, Y)),
        up_only(enc_ubc(DEST_XYZW, 16, 11, 5, OP_MADD, Z)),
        up_only(enc_ubc(DEST_XYZW, 16, 16, 0, OP_MAX, X)),
        up_only(enc_ubc(DEST_XYZW, 16, 16, 0, OP_MINI, W)),
        up_only(enc_ubc(DEST_XYZW, 16, 16, 5, OP_ADD, W)),
        up_only(enc_ubc(DEST_XYZW, 16, 16, 0, OP_MINI, W)),
        up_only(enc_ubc(DEST_XYZW, 17, 12, 16, OP_MUL, X)),
        up_only(OP_WAITQ),
        up_only(enc_mulq(DEST_XYZ, 15, 15)),
        up_only(enc_ubc(DEST_X, 0, 15, 9, OP_MULA, X)),
        up_only(enc_ubc(DEST_X, 15, 9, 0, OP_MADD, W)),
        up_only(enc_ubc(DEST_Y, 15, 15, 9, OP_MUL, Y)),
        up_only(enc_ubc(DEST_Y, 15, 9, 15, OP_SUB, Y)),
        up_only(enc_ftoi4(DEST_XY, 15, 15)),
        lo_only(enc_sqi(15, 2)),
        lo_only(enc_sqi(17, 2)),
        lo_only(enc_iaddiu(3, 3, -1i16)),
        lo_only(enc_ibne(3, 0, -27i16)),
        lo_only(enc_xgkick(5)),
    ]
}

/// Encodes a broadcast upper-slot operation `op_base | bc` writing lanes `dest` of `fd`
/// from `fs` and lane `bc` of `ft`.
pub fn ubc(dest: u32, fd: u32, fs: u32, ft: u32, op_base: u32, bc: u32) -> (r: u32)
    ensures
        r == enc_ubc(dest, fd, fs, ft, op_base, bc),
        dest < 16 && fd < 32 && fs < 32 && ft < 32 && op_base < 512 && op_base & 3 == 0 && bc < 4 ==> {
            &&& up_dest(r) == dest
            &&& up_fd(r) == fd
            &&& up_fs(r) == fs
            &&& up_ft(r) == ft
            &&& up_op(r) == op_base | bc
            &&& up_op(r) & 3 == bc
            &&& up_family(up_op(r)) == op_base
        },
{
    let op9 = op_base | bc;
    let r = (dest << 24) | (ft << 19) | (fs << 14) | (fd << 9) | op9;
    proof {
        lemma_ubc_fields(dest, fd, fs, ft, op_base, bc);
    }
    r
}

proof fn lemma_ubc_fields(dest: u32, fd: u32, fs: u32, ft: u32, op_base: u32, bc: u32)
    by (bit_vector)
    ensures
        ({
            let r = (dest << 24) | (ft << 19) | (fs << 14) | (fd << 9) | (op_base | bc);
            dest < 16 && fd < 32 && fs < 32 && ft < 32 && op_base < 512 && op_base & 3 == 0 && bc < 4 ==> {
                &&& (r >> 24) & 0xF == dest
                &&& (r >> 9) & 0x1F == fd
                &&& (r >> 14) & 0x1F == fs
                &&& (r >> 19) & 0x1F == ft
                &&& r & 0x1FF == op_base | bc
                &&& (r & 0x1FF) & 3 == bc
                &&& (r & 0x1FF) & 0x1FC == op_base
            }
        }),
{
}

/// Encodes the upper-slot no-op.
pub fn u_nop() -> (r: u32)
    ensures
        r == enc_unop(),
        up_op(r) == OP_NOP,
        !stages_write(r),
        !writes_acc(r),
{
    assert(0x1FFu32 & 0x1FF == 0x1FF && (0x1FFu32 & 0x1FF) & 0x1FC == 0x1FC) by (bit_vector);
    0x0000_01FF
}

/// Encodes a divide of lane `fsf` of `fs` by lane `ftf` of `ft`; the two lane
/// selectors travel in the destination-register field.
pub fn u_div(fs: u32, fsf: u32, ft: u32, ftf: u32) -> (r: u32)
    ensures
        r == enc_div(fs, fsf, ft, ftf),
        fs < 32 && ft < 32 && fsf < 4 && ftf < 4 ==> {
            &&& up_op(r) == OP_DIV
            &&& up_fs(r) == fs
            &&& up_ft(r) == ft
            &&& (up_fd(r) >> 2) & 3 == fsf
            &&& up_fd(r) & 3 == ftf
        },
{
    let fd_enc = (fsf << 2) | ftf;
    let r = (ft << 19) | (fs << 14) | (fd_enc << 9) | OP_DIV;
    proof {
        lemma_div_fields(fs, fsf, ft, ftf);
    }
    r
}

proof fn lemma_div_fields(fs: u32, fsf: u32, ft: u32, ftf: u32)
    by (bit_vector)
    ensures
        ({
            let r = (ft << 19) | (fs << 14) | (((fsf << 2) | ftf) << 9) | 0x070u32;
            fs < 32 && ft < 32 && fsf < 4 && ftf < 4 ==> {
                &&& r & 0x1FF == 0x070
                &&& (r >> 14) & 0x1F == fs
                &&& (r >> 19) & 0x1F == ft
                &&& (((r >> 9) & 0x1F) >> 2) & 3 == fsf
                &&& ((r >> 9) & 0x1F) & 3 == ftf
            }
        }),
{
}

/// Encodes a multiply of `fs` by the reciprocal result into lanes `dest` of `fd`.
pub fn u_mulq(dest: u32, fd: u32, fs: u32) -> (r: u32)
    ensures
        r == enc_mulq(dest, fd, fs),
        dest < 16 && fd < 32 && fs < 32 ==> {
            &&& up_op(r) == OP_MULQ
            &&& up_dest(r) == dest
            &&& up_fd(r) == fd
            &&& up_fs(r) == fs
        },
{
    let r = (dest << 24) | (fs << 14) | (fd << 9) | OP_MULQ;
    proof {
        lemma_unary_fields(dest, fd, fs, OP_MULQ);
    }
    r
}

proof fn lemma_unary_fields(dest: u32, fd: u32, fs: u32, op: u32)
    by (bit_vector)
    ensures
        ({
            let r = (dest << 24) | (fs << 14) | (fd << 9) | op;
            dest < 16 && fd < 32 && fs < 32 && op < 512 ==> {
                &&& r & 0x1FF == op
                &&& (r >> 24) & 0xF == dest
                &&& (r >> 9) & 0x1F == fd
                &&& (r >> 14) & 0x1F == fs
            }
        }),
{
}

/// Encodes the wait for the reciprocal result.
pub fn u_waitq() -> (r: u32)
    ensures
        r == OP_WAITQ,
        up_op(r) == OP_WAITQ,
{
    assert(0x073u32 & 0x1FF == 0x073) by (bit_vector);
    OP_WAITQ
}

/// Encodes a float-to-fixed (four fractional bits) conversion of `fs` into lanes `dest` of `fd`.
pub fn u_ftoi4(dest: u32, fd: u32, fs: u32) -> (r: u32)
    ensures
        r == enc_ftoi4(dest, fd, fs),
        dest < 16 && fd < 32 && fs < 32 ==> {
            &&& up_op(r) == OP_FTOI4
            &&& up_dest(r) == dest
            &&& up_fd(r) == fd
            &&& up_fs(r) == fs
        },
{
    let r = (dest << 24) | (fs << 14) | (fd << 9) | OP_FTOI4;
    proof {
        lemma_unary_fields(dest, fd, fs, OP_FTOI4);
    }
    r
}

/// Encodes the lower-slot no-op.
pub fn l_nop() -> (r: u32)
    ensures
        r == enc_lnop(),
        low_op(r) == LOP_NOP,
{
    assert((0x8000_0000u32 >> 26) & 0x3F == 0x20) by (bit_vector);
    0x8000_0000
}

/// Encodes `VI[vt] = VI[vs] + imm` with a 15-bit signed immediate.
pub fn l_iaddiu(vt: u32, vs: u32, imm: i16) -> (r: u32)
    ensures
        r == enc_iaddiu(vt, vs, imm),
        vt < 16 && vs < 16 && -0x4000 <= imm < 0x4000 ==> {
            &&& low_op(r) == LOP_IADDIU
            &&& low_i21(r) == vt
            &&& low_i16(r) == vs
            &&& sext15(r) == imm
        },
{
    #[verifier::truncate]
    let imm15 = (imm as u32) & 0x7FFF;
    let r = (LOP_IADDIU << 26) | (vt << 21) | (vs << 16) | imm15;
    proof {
        lemma_iaddiu_fields(vt, vs, imm);
    }
    r
}

proof fn lemma_iaddiu_fields(vt: u32, vs: u32, imm: i16)
    by (bit_vector)
    ensures
        ({
            let r = (0x27u32 << 26) | (vt << 21) | (vs << 16) | ((imm as u32) & 0x7FFF);
            vt < 16 && vs < 16 && -0x4000 <= imm < 0x4000 ==> {
                &&& (r >> 26) & 0x3F == 0x27
                &&& (r >> 21) & 0xF == vt
                &&& (r >> 16) & 0xF == vs
                &&& (r & 0x7FFF) & 0x4000 != 0 ==> ((r & 0x7FFF) as i32 - 0x8000) as i16 == imm
                &&& (r & 0x7FFF) & 0x4000 == 0 ==> (r & 0x7FFF) as i16 == imm
            }
        }),
{
}

/// Encodes a branch to `pc + 1 + off` taken when `VI[vs] != VI[vt]`, with an 11-bit signed offset.
pub fn l_ibne(vs: u32, vt: u32, off: i16) -> (r: u32)
    ensures
        r == enc_ibne(vs, vt, off),
        vs < 16 && vt < 16 && -0x400 <= off < 0x400 ==> {
            &&& low_op(r) == LOP_IBNE
            &&& low_i21(r) == vs
            &&& low_i16(r) == vt
            &&& sext11(r) == off
        },
{
    #[verifier::truncate]
    let off11 = (off as u32) & 0x7FF;
    let r = (LOP_IBNE << 26) | (vs << 21) | (vt << 16) | off11;
    proof {
        lemma_ibne_fields(vs, vt, off);
    }
    r
}

proof fn lemma_ibne_fields(vs: u32, vt: u32, off: i16)
    by (bit_vector)
    ensures
        ({
            let r = (0x23u32 << 26) | (vs << 21) | (vt << 16) | ((off as u32) & 0x7FF);
            vs < 16 && vt < 16 && -0x400 <= off < 0x400 ==> {
                &&& (r >> 26) & 0x3F == 0x23
                &&& (r >> 21) & 0xF == vs
                &&& (r >> 16) & 0xF == vt
                &&& (r & 0x7FF) & 0x400 != 0 ==> ((r & 0x7FF) as i32 - 0x800) as i16 == off
                &&& (r & 0x7FF) & 0x400 == 0 ==> (r & 0x7FF) as i16 == off
            }
        }),
{
}

/// Encodes the terminal kick reporting `VI[is]`.
pub fn l_xgkick(is: u32) -> (r: u32)
    ensures
        r == enc_xgkick(is),
        is < 16 ==> low_op(r) == LOP_XGKICK && low_i16(r) == is,
{
    let r = (LOP_XGKICK << 26) | (is << 16);
    assert(is < 16 ==> ((0x32u32 << 26) | (is << 16)) >> 26 & 0x3F == 0x32
        && ((0x32u32 << 26) | (is << 16)) >> 16 & 0xF == is) by (bit_vector);
    r
}

/// Encodes a load of `VF[ft]` from data memory at `VI[is]`, post-incrementing `VI[is]`.
pub fn l_lqi(ft: u32, is: u32) -> (r: u32)
    ensures
        r == enc_lqi(ft, is),
        ft < 32 && is < 16 ==> low_op(r) == LOP_LQI && low_r21(r) == ft && low_i16(r) == is,
{
    let r = (LOP_LQI << 26) | (ft << 21) | (is << 16);
    assert(ft < 32 && is < 16 ==> ((0x3Au32 << 26) | (ft << 21) | (is << 16)) >> 26 & 0x3F == 0x3A
        && ((0x3Au32 << 26) | (ft << 21) | (is << 16)) >> 21 & 0x1F == ft
        && ((0x3Au32 << 26) | (ft << 21) | (is << 16)) >> 16 & 0xF == is) by (bit_vector);
    r
}

/// Encodes a store of `VF[fs]` to data memory at `VI[it]`, post-incrementing `VI[it]`.
pub fn l_sqi(fs: u32, it: u32) -> (r: u32)
    ensures
        r == enc_sqi(fs, it),
        fs < 32 && it < 16 ==> low_op(r) == LOP_SQI && low_r21(r) == fs && low_i11(r) == it,
{
    let r = (LOP_SQI << 26) | (fs << 21) | (it << 11);
    assert(fs < 32 && it < 16 ==> ((0x3Eu32 << 26) | (fs << 21) | (it << 11)) >> 26 & 0x3F == 0x3E
        && ((0x3Eu32 << 26) | (fs << 21) | (it << 11)) >> 21 & 0x1F == fs
        && ((0x3Eu32 << 26) | (fs << 21) | (it << 11)) >> 11 & 0xF == it) by (bit_vector);
    r
}

/// Joins an upper and a lower slot into one instruction.
pub fn i(upper: u32, lower: u32) -> (r: u64)
    ensures
        r == enc_instr(upper, lower),
        upper_word(r) == upper,
        lower_word(r) == lower,
{
    let r = ((upper as u64) << 32) | (lower as u64);
    assert((((upper as u64) << 32) | (lower as u64)) >> 32 == upper as u64
        && ((((upper as u64) << 32) | (lower as u64)) >> 32) as u32 == upper
        && ((((upper as u64) << 32) | (lower as u64)) & 0xFFFF_FFFF) as u32 == lower) by (bit_vector);
    r
}

/// Instructions in the transform-and-light micro-program.
pub const VU1_MICRO_LEN: usize = 41;

/// The transform-and-light micro-program.
///
/// Data memory layout it expects: positions at 0..36, normals at 36..72,
/// colours at 72..108, the primitive tag at 108, the four columns of the
/// model-view-projection matrix at 182..186, light direction and ambient
/// term at 186, viewport scale at 187. It writes one position and one colour
/// quadword per vertex from 109 on and kicks with base 108.
///
/// Register use: VF1-VF4 matrix columns, VF5 light, VF9 viewport, VF10 position,
/// VF11 normal, VF12 colour, VF15 transformed position, VF16 intensity,
/// VF17 lit colour; VI1, VI6, VI7 input pointers, VI2 output pointer, VI3 loop
/// counter, VI4 constant pointer, VI5 kick base.
pub fn vu1_micro() -> (r: Vec<u64>)
    ensures
        r@ == micro_program(),
        r@.len() == VU1_MICRO_LEN,
        ({
            let set_base = lower_word(r@[4]);
            &&& low_op(set_base) == LOP_IADDIU
            &&& low_i21(set_base) == 5
            &&& low_i16(set_base) == 0
            &&& sext15(set_base) == 108
        }),
        ({
            let back = lower_word(r@[39]);
            &&& low_op(back) == LOP_IBNE
            &&& low_i21(back) == 3
            &&& low_i16(back) == 0
            &&& sext11(back) == -27
        }),
        low_op(lower_word(r@[40])) == LOP_XGKICK,
        low_i16(lower_word(r@[40])) == 5,
{
    let mut p: Vec<u64> = Vec::new();
    // Preamble: pointers and loop counter.
    p.push(i(u_nop(), l_iaddiu(1, 0, 0)));
    p.push(i(u_nop(), l_iaddiu(6, 0, 36)));
    p.push(i(u_nop(), l_iaddiu(7, 0, 72)));
    p.push(i(u_nop(), l_iaddiu(2, 0, 109)));
    p.push(i(u_nop(), l_iaddiu(5, 0, 108)));
    p.push(i(u_nop(), l_iaddiu(3, 0, 36)));
    p.push(i(u_nop(), l_iaddiu(4, 0, 182)));
    // Constants: matrix columns, light, viewport.
    p.push(i(u_nop(), l_lqi(1, 4)));
    p.push(i(u_nop(), l_lqi(2, 4)));
    p.push(i(u_nop(), l_lqi(3, 4)));
    p.push(i(u_nop(), l_lqi(4, 4)));
    p.push(i(u_nop(), l_lqi(5, 4)));
    p.push(i(u_nop(), l_lqi(9, 4)));
    // Loop head (instruction 13): load position, normal, colour.
    p.push(i(u_nop(), l_lqi(10, 1)));
    p.push(i(u_nop(), l_lqi(11, 6)));
    p.push(i(u_nop(), l_lqi(12, 7)));
    // Clip position = matrix * position.
    p.push(i(ubc(DEST_XYZW, 0, 4, 10, OP_MULA, W), l_nop()));
    p.push(i(ubc(DEST_XYZW, 0, 1, 10, OP_MADDA, X), l_nop()));
    p.push(i(ubc(DEST_XYZW, 0, 2, 10, OP_MADDA, Y), l_nop()));
    p.push(i(ubc(DEST_XYZW, 15, 3, 10, OP_MADD, Z), l_nop()));
    // Reciprocal of clip w; its latency is covered by the lighting below.
    p.push(i(u_div(0, W, 15, W), l_nop()));
    // Diffuse intensity, clamped to [0, 1], plus ambient, clamped again.
    p.push(i(ubc(DEST_XYZW, 0, 11, 5, OP_MULA, X), l_nop()));
    p.push(i(ubc(DEST_XYZW, 0, 11, 5, OP_MADDA, Y), l_nop()));
    p.push(i(ubc(DEST_XYZW, 16, 11, 5, OP_MADD, Z), l_nop()));
    p.push(i(ubc(DEST_XYZW, 16, 16, 0, OP_MAX, X), l_nop()));
    p.push(i(ubc(DEST_XYZW, 16, 16, 0, OP_MINI, W), l_nop()));
    p.push(i(ubc(DEST_XYZW, 16, 16, 5, OP_ADD, W), l_nop()));
    p.push(i(ubc(DEST_XYZW, 16, 16, 0, OP_MINI, W), l_nop()));
    // Lit colour.
    p.push(i(ubc(DEST_XYZW, 17, 12, 16, OP_MUL, X), l_nop()));
    // Perspective divide.
    p.push(i(u_waitq(), l_nop()));
    p.push(i(u_mulq(DEST_XYZ, 15, 15), l_nop()));
    // Viewport: x = ndc_x * sx + sx, y = sy - ndc_y * sy.
    p.push(i(ubc(DEST_X, 0, 15, 9, OP_MULA, X), l_nop()));
    p.push(i(ubc(DEST_X, 15, 9, 0, OP_MADD, W), l_nop()));
    p.push(i(ubc(DEST_Y, 15, 15, 9, OP_MUL, Y), l_nop()));
    p.push(i(ubc(DEST_Y, 15, 9, 15, OP_SUB, Y), l_nop()));
    // Screen position to fixed point with four fractional bits.
    p.push(i(u_ftoi4(DEST_XY, 15, 15), l_nop()));
    // Store position and colour, count down, loop.
    p.push(i(u_nop(), l_sqi(15, 2)));
    p.push(i(u_nop(), l_sqi(17, 2)));
    p.push(i(u_nop(), l_iaddiu(3, 3, -1)));
    p.push(i(u_nop(), l_ibne(3, 0, -27)));
    // Hand the output to the primitive parser.
    p.push(i(u_nop(), l_xgkick(5)));
    assert(p@ =~= micro_program());
    p
}

} // verus!
