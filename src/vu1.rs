use vstd::prelude::*;
use crate::lanes::{Quad, VU_MEM_QWS};

verus! {

/// Number of vector (four-lane) registers.
pub const VF_REGS: usize = 32;
/// Number of 16-bit integer registers.
pub const VI_REGS: usize = 16;
/// Capacity of the instruction memory, in 64-bit instructions.
pub const CODE_SLOTS: usize = 512;
/// Bit pattern of the single-precision value 1.0.
pub const ONE_BITS: u32 = 0x3F80_0000;
/// Bit pattern of the smallest divisor magnitude the reciprocal unit divides by (1e-37).
pub const DIV_EPSILON_BITS: u32 = 0x0208_1CEA;
/// Cycles the reciprocal unit reports busy after a divide.
pub const DIV_LATENCY: u8 = 7;
/// Cycles after which a micro-program that has not kicked is stopped.
pub const MAX_CYCLES: u32 = 100_000;
/// Base address reported when a micro-program ends without a kick.
pub const FALLBACK_BASE: u16 = 109;

// Upper-slot opcodes (9 bits).
pub const OP_NOP: u32 = 0x1FF;
pub const OP_DIV: u32 = 0x070;
pub const OP_WAITQ: u32 = 0x073;
pub const OP_MULQ: u32 = 0x01C;
pub const OP_FTOI4: u32 = 0x17C;
// Upper-slot broadcast families; the low two bits pick the broadcast lane.
pub const OP_ADD: u32 = 0x000;
pub const OP_SUB: u32 = 0x004;
pub const OP_MADD: u32 = 0x008;
pub const OP_MAX: u32 = 0x010;
pub const OP_MINI: u32 = 0x014;
pub const OP_MUL: u32 = 0x018;
pub const OP_MULA: u32 = 0x020;
pub const OP_MADDA: u32 = 0x038;

// Lower-slot opcodes (6 bits).
pub const LOP_NOP: u32 = 0x20;
pub const LOP_LQI: u32 = 0x3A;
pub const LOP_SQI: u32 = 0x3E;
pub const LOP_IADDIU: u32 = 0x27;
pub const LOP_IBNE: u32 = 0x23;
pub const LOP_XGKICK: u32 = 0x32;

/// Single-precision arithmetic on lane bit patterns, supplied by the host.
/// Every method takes and returns IEEE-754 single-precision bit patterns.
/// Each result depends on the arguments alone: the spec function beside each
/// method names it, and nothing more is said of it here.
pub trait FloatUnit {
    spec fn add_spec(&self, a: u32, b: u32) -> u32;

    spec fn sub_spec(&self, a: u32, b: u32) -> u32;

    spec fn mul_spec(&self, a: u32, b: u32) -> u32;

    spec fn max_spec(&self, a: u32, b: u32) -> u32;

    spec fn min_spec(&self, a: u32, b: u32) -> u32;

    spec fn div_spec(&self, a: u32, b: u32) -> u32;

    spec fn to_fixed4_spec(&self, a: u32) -> i32;

    spec fn to_channel_spec(&self, a: u32) -> u8;

    /// `a + b`.
    fn add(&self, a: u32, b: u32) -> (r: u32)
        ensures
            r == self.add_spec(a, b),
    ;

    /// `a - b`.
    fn sub(&self, a: u32, b: u32) -> (r: u32)
        ensures
            r == self.sub_spec(a, b),
    ;

    /// `a * b`.
    fn mul(&self, a: u32, b: u32) -> (r: u32)
        ensures
            r == self.mul_spec(a, b),
    ;

    /// The larger of `a` and `b`.
    fn max(&self, a: u32, b: u32) -> (r: u32)
        ensures
            r == self.max_spec(a, b),
    ;

    /// The smaller of `a` and `b`.
    fn min(&self, a: u32, b: u32) -> (r: u32)
        ensures
            r == self.min_spec(a, b),
    ;

    /// `a / b`; only called when `|b|` is at least the reciprocal unit's epsilon.
    fn div(&self, a: u32, b: u32) -> (r: u32)
        ensures
            r == self.div_spec(a, b),
    ;

    /// `a * 16` rounded to the nearest integer, saturated to 32 signed bits.
    fn to_fixed4(&self, a: u32) -> (r: i32)
        ensures
            r == self.to_fixed4_spec(a),
    ;

    /// `a` clamped to `[0, 1]`, scaled by 255 and rounded to an 8-bit channel.
    fn to_channel(&self, a: u32) -> (r: u8)
        ensures
            r == self.to_channel_spec(a),
    ;
}

/// An upper-slot result waiting to be written into a vector register.
#[derive(Clone, Copy)]
pub struct Staged {
    pub fd: usize,
    pub dest: u32,
    pub val: Quad,
}

/// What the lower slot does to the program counter.
#[derive(Clone, Copy, PartialEq, Eq, Structural, Debug)]
pub enum LowerEffect {
    /// Go on with the next instruction.
    Next,
    /// Jump to the given instruction.
    Branch(u16),
    /// End the program, reporting the given data-memory base address.
    Kick(u16),
}

/// How a bounded run of the micro-program ended.
#[derive(Clone, Copy, PartialEq, Eq, Structural, Debug)]
pub enum RunOutcome {
    /// A kick ended the program after `cycles` instructions, the kick included.
    Kicked { base: u16, cycles: u32 },
    /// The program counter left the loaded program after `cycles` instructions.
    OutOfCode { cycles: u32 },
    /// The cycle budget ran out after `cycles` instructions.
    CapReached { cycles: u32 },
}

/// The hardwired value of vector register 0: (0, 0, 0, 1).
pub open spec fn vf_zero() -> Quad {
    [0, 0, 0, ONE_BITS]
}

/// `prev` with the lanes selected by the mask `dest` (x = 8, y = 4, z = 2, w = 1) taken from `val`.
pub open spec fn masked(prev: Quad, dest: u32, val: Quad) -> Quad {
    [
        if dest & 8 != 0 { val[0] } else { prev[0] },
        if dest & 4 != 0 { val[1] } else { prev[1] },
        if dest & 2 != 0 { val[2] } else { prev[2] },
        if dest & 1 != 0 { val[3] } else { prev[3] },
    ]
}

/// Vector registers after a masked write of `val` to register `reg`; register 0 ignores writes.
pub open spec fn vf_write(vf: Seq<Quad>, reg: int, dest: u32, val: Quad) -> Seq<Quad> {
    if reg == 0 {
        vf
    } else {
        vf.update(reg, masked(vf[reg], dest, val))
    }
}

/// Integer registers after writing `val` to register `reg`; register 0 ignores writes.
pub open spec fn vi_write(vi: Seq<i16>, reg: int, val: i16) -> Seq<i16> {
    if reg == 0 {
        vi
    } else {
        vi.update(reg, val)
    }
}

/// Vector registers after committing a staged upper-slot result.
pub open spec fn commit(vf: Seq<Quad>, staged: Option<Staged>) -> Seq<Quad> {
    match staged {
        Some(s) => vf_write(vf, s.fd as int, s.dest, s.val),
        None => vf,
    }
}

/// Whether `bits` is a divisor too small for the reciprocal unit (|b| < 1e-37).
pub open spec fn tiny_divisor(bits: u32) -> bool {
    bits & 0x7FFF_FFFF < DIV_EPSILON_BITS
}

// ---- instruction fields ----

pub open spec fn upper_word(instr: u64) -> u32 {
    (instr >> 32) as u32
}

pub open spec fn lower_word(instr: u64) -> u32 {
    (instr & 0xFFFF_FFFF) as u32
}

pub open spec fn up_op(u: u32) -> u32 {
    u & 0x1FF
}

pub open spec fn up_fd(u: u32) -> u32 {
    (u >> 9) & 0x1F
}

pub open spec fn up_fs(u: u32) -> u32 {
    (u >> 14) & 0x1F
}

pub open spec fn up_ft(u: u32) -> u32 {
    (u >> 19) & 0x1F
}

pub open spec fn up_dest(u: u32) -> u32 {
    (u >> 24) & 0xF
}

pub open spec fn low_op(l: u32) -> u32 {
    (l >> 26) & 0x3F
}

/// Bits 25..21 of a lower word: a vector register, or (low four bits) an integer register.
pub open spec fn low_r21(l: u32) -> u32 {
    (l >> 21) & 0x1F
}

pub open spec fn low_i21(l: u32) -> u32 {
    (l >> 21) & 0xF
}

pub open spec fn low_i16(l: u32) -> u32 {
    (l >> 16) & 0xF
}

pub open spec fn low_i11(l: u32) -> u32 {
    (l >> 11) & 0xF
}

/// The 15-bit immediate of an add-immediate, sign-extended.
pub open spec fn sext15(l: u32) -> i16 {
    let raw = l & 0x7FFF;
    if raw & 0x4000 != 0 {
        (raw as i32 - 0x8000) as i16
    } else {
        raw as i16
    }
}

/// The 11-bit branch offset, sign-extended.
pub open spec fn sext11(l: u32) -> i16 {
    let raw = l & 0x7FF;
    if raw & 0x400 != 0 {
        (raw as i32 - 0x800) as i16
    } else {
        raw as i16
    }
}

/// Whether a data-memory address held in an integer register is in range.
pub open spec fn mem_addr_ok(a: i16) -> bool {
    0 <= a < VU_MEM_QWS
}

/// Integer registers after the lower slot `l`.
pub open spec fn lower_vi(vi: Seq<i16>, l: u32) -> Seq<i16> {
    let op = low_op(l);
    if op == LOP_LQI {
        vi_write(vi, low_i16(l) as int, vi[low_i16(l) as int].wrapping_add(1))
    } else if op == LOP_SQI {
        vi_write(vi, low_i11(l) as int, vi[low_i11(l) as int].wrapping_add(1))
    } else if op == LOP_IADDIU {
        vi_write(vi, low_i21(l) as int, vi[low_i16(l) as int].wrapping_add(sext15(l)))
    } else {
        vi
    }
}

/// Vector registers after the lower slot `l` (before the upper slot commits).
pub open spec fn lower_vf(vf: Seq<Quad>, vi: Seq<i16>, mem: Seq<Quad>, l: u32) -> Seq<Quad> {
    let a = vi[low_i16(l) as int];
    if low_op(l) == LOP_LQI && low_r21(l) != 0 && mem_addr_ok(a) {
        vf.update(low_r21(l) as int, mem[a as int])
    } else {
        vf
    }
}

/// Data memory after the lower slot `l`.
pub open spec fn lower_mem(vf: Seq<Quad>, vi: Seq<i16>, mem: Seq<Quad>, l: u32) -> Seq<Quad> {
    let a = vi[low_i11(l) as int];
    if low_op(l) == LOP_SQI && mem_addr_ok(a) {
        mem.update(a as int, vf[low_r21(l) as int])
    } else {
        mem
    }
}

/// Control effect of the lower slot `l` fetched at `pc`.
pub open spec fn lower_effect(vi: Seq<i16>, pc: u16, l: u32) -> LowerEffect {
    let op = low_op(l);
    if op == LOP_IBNE {
        if vi[low_i21(l) as int] != vi[low_i16(l) as int] {
            LowerEffect::Branch((pc as i32 + 1 + sext11(l) as i32) as u16)
        } else {
            LowerEffect::Next
        }
    } else if op == LOP_XGKICK {
        LowerEffect::Kick(vi[low_i16(l) as int] as u16)
    } else {
        LowerEffect::Next
    }
}

/// Program counter after an instruction at `pc` whose lower slot had `effect`.
pub open spec fn next_pc(pc: u16, effect: LowerEffect) -> u16 {
    match effect {
        LowerEffect::Branch(t) => t,
        _ => (pc + 1) as u16,
    }
}

/// Outcome of running `code` from program counter `pc` with integer registers `vi`
/// for at most `fuel` more cycles, `done` cycles having run already. The integer
/// registers and the program counter do not depend on any floating-point result,
/// so this is determined by them alone.
pub open spec fn run_ctrl(code: Seq<u64>, pc: u16, vi: Seq<i16>, fuel: nat, done: u32) -> RunOutcome
    decreases fuel,
{
    if fuel == 0 {
        RunOutcome::CapReached { cycles: done }
    } else if pc >= code.len() {
        RunOutcome::OutOfCode { cycles: done }
    } else {
        let l = lower_word(code[pc as int]);
        let effect = lower_effect(vi, pc, l);
        match effect {
            LowerEffect::Kick(b) => RunOutcome::Kicked { base: b, cycles: (done + 1) as u32 },
            _ => run_ctrl(code, next_pc(pc, effect), lower_vi(vi, l), (fuel - 1) as nat, (done + 1) as u32),
        }
    }
}

/// Opcode family of a broadcast operation (the opcode without its broadcast lane).
pub open spec fn up_family(op: u32) -> u32 {
    op & 0x1FC
}

/// Whether the upper slot `u` stages a vector-register write.
pub open spec fn stages_write(u: u32) -> bool {
    let op = up_op(u);
    let fam = up_family(op);
    op == OP_MULQ || op == OP_FTOI4 || fam == OP_ADD || fam == OP_SUB || fam == OP_MADD
        || fam == OP_MAX || fam == OP_MINI || fam == OP_MUL
}

/// Whether the upper slot `u` writes the accumulator.
pub open spec fn writes_acc(u: u32) -> bool {
    let fam = up_family(up_op(u));
    up_op(u) != OP_NOP && (fam == OP_MULA || fam == OP_MADDA)
}

/// One lane of a broadcast operation of family `fam`: `a` against the
/// broadcast scalar `s`, with `acc` the accumulator lane.
pub open spec fn lane_spec<F: FloatUnit>(fpu: &F, fam: u32, acc: u32, a: u32, s: u32) -> u32 {
    if fam == OP_ADD {
        fpu.add_spec(a, s)
    } else if fam == OP_SUB {
        fpu.sub_spec(a, s)
    } else if fam == OP_MADD || fam == OP_MADDA {
        fpu.add_spec(acc, fpu.mul_spec(a, s))
    } else if fam == OP_MAX {
        fpu.max_spec(a, s)
    } else if fam == OP_MINI {
        fpu.min_spec(a, s)
    } else {
        fpu.mul_spec(a, s)
    }
}

/// The four lanes of a broadcast operation of the upper slot `u`.
pub open spec fn bcast_lanes<F: FloatUnit>(fpu: &F, u: u32, vf: Seq<Quad>, acc: Quad) -> Quad {
    let fam = up_family(up_op(u));
    let a = vf[up_fs(u) as int];
    let s = vf[up_ft(u) as int][(up_op(u) & 3) as int];
    [
        lane_spec(fpu, fam, acc[0], a[0], s),
        lane_spec(fpu, fam, acc[1], a[1], s),
        lane_spec(fpu, fam, acc[2], a[2], s),
        lane_spec(fpu, fam, acc[3], a[3], s),
    ]
}

/// The vector-register result the upper slot `u` stages, if any.
pub open spec fn upper_staged<F: FloatUnit>(fpu: &F, u: u32, vf: Seq<Quad>, acc: Quad, q: u32) -> Option<Staged> {
    let a = vf[up_fs(u) as int];
    let fd = up_fd(u) as usize;
    let dest = up_dest(u);
    if !stages_write(u) {
        None
    } else if up_op(u) == OP_MULQ {
        Some(Staged {
            fd,
            dest,
            val: [fpu.mul_spec(a[0], q), fpu.mul_spec(a[1], q), fpu.mul_spec(a[2], q), fpu.mul_spec(a[3], q)],
        })
    } else if up_op(u) == OP_FTOI4 {
        Some(Staged {
            fd,
            dest,
            val: [
                fpu.to_fixed4_spec(a[0]) as u32,
                fpu.to_fixed4_spec(a[1]) as u32,
                fpu.to_fixed4_spec(a[2]) as u32,
                fpu.to_fixed4_spec(a[3]) as u32,
            ],
        })
    } else {
        Some(Staged { fd, dest, val: bcast_lanes(fpu, u, vf, acc) })
    }
}

/// The accumulator after the upper slot `u`.
pub open spec fn upper_acc<F: FloatUnit>(fpu: &F, u: u32, vf: Seq<Quad>, acc: Quad) -> Quad {
    if writes_acc(u) {
        masked(acc, up_dest(u), bcast_lanes(fpu, u, vf, acc))
    } else {
        acc
    }
}

/// Numerator and divisor of a divide in the upper slot `u`.
pub open spec fn div_operands(u: u32, vf: Seq<Quad>) -> (u32, u32) {
    let fdv = up_fd(u);
    (vf[up_fs(u) as int][((fdv >> 2) & 3) as int], vf[up_ft(u) as int][(fdv & 3) as int])
}

/// The reciprocal result after the upper slot `u`.
pub open spec fn upper_q<F: FloatUnit>(fpu: &F, u: u32, vf: Seq<Quad>, q: u32) -> u32 {
    if up_op(u) == OP_DIV {
        let (num, den) = div_operands(u, vf);
        if tiny_divisor(den) {
            0
        } else {
            fpu.div_spec(num, den)
        }
    } else {
        q
    }
}

/// The reciprocal countdown after the upper slot `u`.
pub open spec fn upper_busy(u: u32, busy: u8) -> u8 {
    if up_op(u) == OP_DIV {
        DIV_LATENCY
    } else if up_op(u) == OP_WAITQ {
        0
    } else {
        busy
    }
}

/// The state of the vector unit that instructions read and write.
pub struct VuModel {
    pub vf: Seq<Quad>,
    pub vi: Seq<i16>,
    pub acc: Quad,
    pub q: u32,
    pub pc: u16,
    pub div_busy: u8,
    pub mem: Seq<Quad>,
}

/// One instruction of `code` at `m.pc`: the countdown ticks, the upper slot is
/// evaluated and staged, the lower slot runs on the state from before the
/// instruction, the staged result is committed and the program counter moves.
pub open spec fn vu_cycle<F: FloatUnit>(fpu: &F, code: Seq<u64>, m: VuModel) -> (VuModel, LowerEffect) {
    let instr = code[m.pc as int];
    let u = upper_word(instr);
    let l = lower_word(instr);
    let busy = if m.div_busy > 0 { (m.div_busy - 1) as u8 } else { 0 };
    let staged = upper_staged(fpu, u, m.vf, m.acc, m.q);
    let effect = lower_effect(m.vi, m.pc, l);
    (
        VuModel {
            vf: commit(lower_vf(m.vf, m.vi, m.mem, l), staged),
            vi: lower_vi(m.vi, l),
            acc: upper_acc(fpu, u, m.vf, m.acc),
            q: upper_q(fpu, u, m.vf, m.q),
            pc: next_pc(m.pc, effect),
            div_busy: upper_busy(u, busy),
            mem: lower_mem(m.vf, m.vi, m.mem, l),
        },
        effect,
    )
}

/// Final state and outcome of running `code` from `m` for at most `fuel` more
/// instructions, `done` having run already.
pub open spec fn vu_run<F: FloatUnit>(fpu: &F, code: Seq<u64>, m: VuModel, fuel: nat, done: u32) -> (VuModel, RunOutcome)
    decreases fuel,
{
    if fuel == 0 {
        (m, RunOutcome::CapReached { cycles: done })
    } else if m.pc >= code.len() {
        (m, RunOutcome::OutOfCode { cycles: done })
    } else {
        let (m2, effect) = vu_cycle(fpu, code, m);
        match effect {
            LowerEffect::Kick(b) => (m2, RunOutcome::Kicked { base: b, cycles: (done + 1) as u32 }),
            _ => vu_run(fpu, code, m2, (fuel - 1) as nat, (done + 1) as u32),
        }
    }
}

/// The outcome of a run depends on the program counter and the integer
/// registers alone, never on a floating-point result.
pub proof fn lemma_run_is_control_only<F: FloatUnit>(fpu: &F, code: Seq<u64>, m: VuModel, fuel: nat, done: u32)
    ensures
        vu_run(fpu, code, m, fuel, done).1 == run_ctrl(code, m.pc, m.vi, fuel, done),
    decreases fuel,
{
    if fuel > 0 && m.pc < code.len() {
        let (m2, effect) = vu_cycle(fpu, code, m);
        if !(effect matches LowerEffect::Kick(_)) {
            lemma_run_is_control_only(fpu, code, m2, (fuel - 1) as nat, (done + 1) as u32);
        }
    }
}

proof fn lemma_family_disjoint(op: u32)
    by (bit_vector)
    requires
        op < 512,
    ensures
        op == OP_NOP ==> op & 0x1FC == 0x1FC,
        op == OP_DIV ==> op & 0x1FC == 0x070,
        op == OP_WAITQ ==> op & 0x1FC == 0x070,
        op == OP_FTOI4 ==> op & 0x1FC == 0x17C,
        op == OP_MULQ ==> op & 0x1FC == 0x01C,
        op & 3 < 4,
{
}

/// Register 0 of each file keeps its hardwired value: a write aimed at it
/// changes nothing, and neither the lower slot nor the commit of an upper-slot
/// result alters it.
pub proof fn lemma_register_zero(
    vf: Seq<Quad>,
    vi: Seq<i16>,
    mem: Seq<Quad>,
    l: u32,
    dest: u32,
    val: Quad,
    ival: i16,
    staged: Option<Staged>,
)
    requires
        vf.len() == VF_REGS,
        vi.len() == VI_REGS,
        mem.len() == VU_MEM_QWS,
        staged matches Some(st) ==> st.fd < VF_REGS,
    ensures
        vf_write(vf, 0, dest, val) == vf,
        vi_write(vi, 0, ival) == vi,
        lower_vf(vf, vi, mem, l)[0] == vf[0],
        lower_vi(vi, l)[0] == vi[0],
        commit(vf, staged)[0] == vf[0],
{
    lemma_fields(l);
}

/// Within one instruction the lower slot sees the vector registers as they
/// stood before it: when the lower slot stores register `k` and the upper slot
/// writes `k`, the old value of `k` is stored, and the upper result shows in
/// `k` only after the commit that ends the instruction.
pub proof fn lemma_lower_reads_pre_commit(vf: Seq<Quad>, vi: Seq<i16>, mem: Seq<Quad>, l: u32, st: Staged)
    requires
        vf.len() == VF_REGS,
        vi.len() == VI_REGS,
        mem.len() == VU_MEM_QWS,
        low_op(l) == LOP_SQI,
        st.fd == low_r21(l),
        st.fd != 0,
        mem_addr_ok(vi[low_i11(l) as int]),
    ensures
        lower_mem(vf, vi, mem, l)[vi[low_i11(l) as int] as int] == vf[st.fd as int],
        lower_vf(vf, vi, mem, l)[st.fd as int] == vf[st.fd as int],
        commit(lower_vf(vf, vi, mem, l), Some(st))[st.fd as int] == masked(vf[st.fd as int], st.dest, st.val),
{
    lemma_fields(l);
}

/// A run stopped by the cycle budget has executed exactly the budget.
pub proof fn lemma_cap_exact(code: Seq<u64>, pc: u16, vi: Seq<i16>, fuel: nat, done: u32)
    requires
        done + fuel <= u32::MAX,
    ensures
        run_ctrl(code, pc, vi, fuel, done) matches RunOutcome::CapReached { cycles } ==> cycles == done + fuel,
    decreases fuel,
{
    if fuel > 0 && pc < code.len() {
        let l = lower_word(code[pc as int]);
        let effect = lower_effect(vi, pc, l);
        if !(effect matches LowerEffect::Kick(_)) {
            lemma_cap_exact(code, next_pc(pc, effect), lower_vi(vi, l), (fuel - 1) as nat, (done + 1) as u32);
        }
    }
}

proof fn lemma_fields(x: u32)
    by (bit_vector)
    ensures
        x & 0x1FF < 512,
        (x >> 9) & 0x1F < 32,
        (x >> 14) & 0x1F < 32,
        (x >> 19) & 0x1F < 32,
        (x >> 21) & 0x1F < 32,
        (x >> 21) & 0xF < 16,
        (x >> 16) & 0xF < 16,
        (x >> 11) & 0xF < 16,
        x & 0x7FFF <= 0x7FFF,
        x & 0x7FF <= 0x7FF,
        (x & 0x7FFF) & 0x4000 != 0 ==> x & 0x7FFF >= 0x4000,
        (x & 0x7FF) & 0x400 != 0 ==> x & 0x7FF >= 0x400,
        ((x >> 9) & 0x1F) >> 2 & 3 < 4,
        ((x >> 9) & 0x1F) & 3 < 4,
        x & 3 < 4,
{
}

/// The vector co-processor: registers, data memory and the loaded program.
pub struct Vu1 {
    pub vf: Vec<Quad>,
    pub vi: Vec<i16>,
    pub acc: Quad,
    pub q: u32,
    pub pc: u16,
    pub div_busy: u8,
    pub data_mem: Vec<Quad>,
    pub code_mem: Vec<u64>,
}

impl Vu1 {
    /// Register files and memories have their sizes; register 0 of each file
    /// holds its hardwired value.
    pub open spec fn wf(&self) -> bool {
        &&& self.vf@.len() == VF_REGS
        &&& self.vi@.len() == VI_REGS
        &&& self.data_mem@.len() == VU_MEM_QWS
        &&& self.code_mem@.len() <= CODE_SLOTS
        &&& self.vf@[0] == vf_zero()
        &&& self.vi@[0] == 0
    }

    /// The state instructions read and write.
    pub open spec fn model(&self) -> VuModel {
        VuModel {
            vf: self.vf@,
            vi: self.vi@,
            acc: self.acc,
            q: self.q,
            pc: self.pc,
            div_busy: self.div_busy,
            mem: self.data_mem@,
        }
    }

    /// A unit with cleared registers and memory and the transform-and-light
    /// micro-program loaded.
    pub fn new() -> (r: Self)
        ensures
            r.wf(),
            r.code_mem@ == crate::vu1_program::micro_program(),
            r.code_mem@.len() == crate::vu1_program::VU1_MICRO_LEN,
            forall|i: int| 1 <= i < VF_REGS ==> #[trigger] r.vf@[i] == [0u32, 0, 0, 0],
            forall|i: int| 0 <= i < VI_REGS ==> #[trigger] r.vi@[i] == 0,
            forall|i: int| 0 <= i < VU_MEM_QWS ==> #[trigger] r.data_mem@[i] == [0u32, 0, 0, 0],
            r.acc == [0u32, 0, 0, 0],
            r.q == ONE_BITS,
            r.pc == 0,
            r.div_busy == 0,
    {
        let program = crate::vu1_program::vu1_micro();
        Vu1::with_program(&program)
    }

    /// A unit with cleared registers and memory and `program` loaded
    /// (instructions past the capacity of the instruction memory are dropped).
    pub fn with_program(program: &Vec<u64>) -> (r: Self)
        ensures
            r.wf(),
            r.code_mem@ == program@.subrange(0, if program@.len() < CODE_SLOTS { program@.len() as int } else { CODE_SLOTS as int }),
            forall|i: int| 1 <= i < VF_REGS ==> #[trigger] r.vf@[i] == [0u32, 0, 0, 0],
            forall|i: int| 0 <= i < VI_REGS ==> #[trigger] r.vi@[i] == 0,
            forall|i: int| 0 <= i < VU_MEM_QWS ==> #[trigger] r.data_mem@[i] == [0u32, 0, 0, 0],
            r.acc == [0u32, 0, 0, 0],
            r.q == ONE_BITS,
            r.pc == 0,
            r.div_busy == 0,
    {
        let mut vf: Vec<Quad> = Vec::new();
        vf.push(vf_zero_value());
        let mut i: usize = 1;
        while i < VF_REGS
            invariant
                1 <= i <= VF_REGS,
                vf@.len() == i,
                vf@[0] == vf_zero(),
                forall|j: int| 1 <= j < i ==> #[trigger] vf@[j] == [0u32, 0, 0, 0],
            decreases VF_REGS - i,
        {
            vf.push([0u32, 0, 0, 0]);
            i = i + 1;
        }
        let vi: Vec<i16> = vec![0i16; VI_REGS];
        let data_mem: Vec<Quad> = vec![[0u32, 0, 0, 0]; VU_MEM_QWS];
        let mut code_mem: Vec<u64> = Vec::new();
        let mut k: usize = 0;
        while k < program.len() && k < CODE_SLOTS
            invariant
                k <= program@.len(),
                k <= CODE_SLOTS,
                code_mem@ == program@.subrange(0, k as int),
            decreases program@.len() - k,
        {
            code_mem.push(program[k]);
            assert(program@.subrange(0, k + 1) =~= program@.subrange(0, k as int).push(program@[k as int]));
            k = k + 1;
        }
        Vu1 { vf, vi, acc: [0u32, 0, 0, 0], q: ONE_BITS, pc: 0, div_busy: 0, data_mem, code_mem }
    }

    /// Reads a vector register.
    pub fn vf_get(&self, reg: usize) -> (r: Quad)
        requires
            self.wf(),
            reg < VF_REGS,
        ensures
            r == self.vf@[reg as int],
            reg == 0 ==> r == vf_zero(),
    {
        self.vf[reg]
    }

    /// Writes the lanes of `val` selected by `dest` into a vector register;
    /// register 0 ignores the write.
    pub fn vf_set(&mut self, reg: usize, dest: u32, val: Quad)
        requires
            old(self).wf(),
            reg < VF_REGS,
        ensures
            final(self).wf(),
            final(self).vf@ == vf_write(old(self).vf@, reg as int, dest, val),
            reg == 0 ==> *final(self) == *old(self),
            final(self).vi == old(self).vi,
            final(self).acc == old(self).acc,
            final(self).q == old(self).q,
            final(self).pc == old(self).pc,
            final(self).div_busy == old(self).div_busy,
            final(self).data_mem == old(self).data_mem,
            final(self).code_mem == old(self).code_mem,
    {
        if reg == 0 {
            return;
        }
        let cur = self.vf[reg];
        self.vf[reg] = masked_value(cur, dest, val);
    }

    /// Reads an integer register.
    pub fn vi_get(&self, reg: usize) -> (r: i16)
        requires
            self.wf(),
            reg < VI_REGS,
        ensures
            r == self.vi@[reg as int],
            reg == 0 ==> r == 0,
    {
        self.vi[reg]
    }

    /// Writes an integer register; register 0 ignores the write.
    pub fn vi_set(&mut self, reg: usize, val: i16)
        requires
            old(self).wf(),
            reg < VI_REGS,
        ensures
            final(self).wf(),
            final(self).vi@ == vi_write(old(self).vi@, reg as int, val),
            reg == 0 ==> *final(self) == *old(self),
            final(self).vf == old(self).vf,
            final(self).acc == old(self).acc,
            final(self).q == old(self).q,
            final(self).pc == old(self).pc,
            final(self).div_busy == old(self).div_busy,
            final(self).data_mem == old(self).data_mem,
            final(self).code_mem == old(self).code_mem,
    {
        if reg != 0 {
            self.vi[reg] = val;
        }
    }
    /// Evaluates the upper (floating-point) slot `upper` against the registers
    /// as they stand. The accumulator, the reciprocal result and its countdown
    /// change at once; a vector-register result is returned to be committed
    /// after the lower slot has run.
    pub fn exec_upper<F: FloatUnit>(&mut self, fpu: &F, upper: u32) -> (r: Option<Staged>)
        requires
            old(self).wf(),
        ensures
            final(self).wf(),
            final(self).vf == old(self).vf,
            final(self).vi == old(self).vi,
            final(self).pc == old(self).pc,
            final(self).data_mem == old(self).data_mem,
            final(self).code_mem == old(self).code_mem,
            r == upper_staged(fpu, upper, old(self).vf@, old(self).acc, old(self).q),
            final(self).acc == upper_acc(fpu, upper, old(self).vf@, old(self).acc),
            final(self).q == upper_q(fpu, upper, old(self).vf@, old(self).q),
            final(self).div_busy == upper_busy(upper, old(self).div_busy),
            stages_write(upper) <==> r.is_some(),
    {
        proof {
            lemma_fields(upper);
            lemma_family_disjoint(upper & 0x1FF);
        }
        let op = upper & 0x1FF;
        let fdv = (upper >> 9) & 0x1F;
        let fd = fdv as usize;
        let fs = ((upper >> 14) & 0x1F) as usize;
        let ft = ((upper >> 19) & 0x1F) as usize;
        let dest = (upper >> 24) & 0xF;
        let vfs = self.vf[fs];
        let vft = self.vf[ft];
        if op == OP_NOP {
            None
        } else if op == OP_DIV {
            let fsf = ((fdv >> 2) & 3) as usize;
            let ftf = (fdv & 3) as usize;
            let num = vfs[fsf];
            let den = vft[ftf];
            self.q = if den & 0x7FFF_FFFF < DIV_EPSILON_BITS {
                0
            } else {
                fpu.div(num, den)
            };
            self.div_busy = DIV_LATENCY;
            None
        } else if op == OP_WAITQ {
            // The divide already finished on the host: the result is ready now.
            self.div_busy = 0;
            None
        } else if op == OP_MULQ {
            let q = self.q;
            let val = [fpu.mul(vfs[0], q), fpu.mul(vfs[1], q), fpu.mul(vfs[2], q), fpu.mul(vfs[3], q)];
            Some(Staged { fd, dest, val })
        } else if op == OP_FTOI4 {
            let val = [
                fpu.to_fixed4(vfs[0]) as u32,
                fpu.to_fixed4(vfs[1]) as u32,
                fpu.to_fixed4(vfs[2]) as u32,
                fpu.to_fixed4(vfs[3]) as u32,
            ];
            Some(Staged { fd, dest, val })
        } else {
            let fam = op & 0x1FC;
            let s = vft[(op & 3) as usize];
            let acc = self.acc;
            if fam == OP_ADD || fam == OP_SUB || fam == OP_MADD || fam == OP_MAX || fam == OP_MINI
                || fam == OP_MUL {
                let val = [
                    lane_op(fpu, fam, acc[0], vfs[0], s),
                    lane_op(fpu, fam, acc[1], vfs[1], s),
                    lane_op(fpu, fam, acc[2], vfs[2], s),
                    lane_op(fpu, fam, acc[3], vfs[3], s),
                ];
                Some(Staged { fd, dest, val })
            } else if fam == OP_MULA || fam == OP_MADDA {
                let val = [
                    lane_op(fpu, fam, acc[0], vfs[0], s),
                    lane_op(fpu, fam, acc[1], vfs[1], s),
                    lane_op(fpu, fam, acc[2], vfs[2], s),
                    lane_op(fpu, fam, acc[3], vfs[3], s),
                ];
                self.acc = masked_value(acc, dest, val);
                None
            } else {
                None
            }
        }
    }

    /// Executes the lower (integer, memory and control) slot `lower` against
    /// the registers as they stand, and returns its control effect.
    pub fn exec_lower(&mut self, lower: u32) -> (r: LowerEffect)
        requires
            old(self).wf(),
        ensures
            final(self).wf(),
            final(self).vf@ == lower_vf(old(self).vf@, old(self).vi@, old(self).data_mem@, lower),
            final(self).vi@ == lower_vi(old(self).vi@, lower),
            final(self).data_mem@ == lower_mem(old(self).vf@, old(self).vi@, old(self).data_mem@, lower),
            r == lower_effect(old(self).vi@, old(self).pc, lower),
            final(self).acc == old(self).acc,
            final(self).q == old(self).q,
            final(self).pc == old(self).pc,
            final(self).div_busy == old(self).div_busy,
            final(self).code_mem == old(self).code_mem,
    {
        proof {
            lemma_fields(lower);
        }
        let op = (lower >> 26) & 0x3F;
        if op == LOP_LQI {
            let ft = ((lower >> 21) & 0x1F) as usize;
            let is = ((lower >> 16) & 0xF) as usize;
            let a = self.vi_get(is);
            if ft != 0 && 0 <= a && (a as usize) < VU_MEM_QWS {
                self.vf[ft] = self.data_mem[a as usize];
            }
            self.vi_set(is, a.wrapping_add(1));
            LowerEffect::Next
        } else if op == LOP_SQI {
            let fs = ((lower >> 21) & 0x1F) as usize;
            let it = ((lower >> 11) & 0xF) as usize;
            let a = self.vi_get(it);
            if 0 <= a && (a as usize) < VU_MEM_QWS {
                self.data_mem[a as usize] = self.vf[fs];
            }
            self.vi_set(it, a.wrapping_add(1));
            LowerEffect::Next
        } else if op == LOP_IADDIU {
            let vt = ((lower >> 21) & 0xF) as usize;
            let vs = ((lower >> 16) & 0xF) as usize;
            let raw = lower & 0x7FFF;
            let imm: i16 = if raw & 0x4000 != 0 {
                (raw as i32 - 0x8000) as i16
            } else {
                raw as i16
            };
            let val = self.vi_get(vs).wrapping_add(imm);
            self.vi_set(vt, val);
            LowerEffect::Next
        } else if op == LOP_IBNE {
            let vs = ((lower >> 21) & 0xF) as usize;
            let vt = ((lower >> 16) & 0xF) as usize;
            let raw = lower & 0x7FF;
            let off: i16 = if raw & 0x400 != 0 {
                (raw as i32 - 0x800) as i16
            } else {
                raw as i16
            };
            if self.vi_get(vs) != self.vi_get(vt) {
                LowerEffect::Branch((self.pc as i32 + 1 + off as i32) as u16)
            } else {
                LowerEffect::Next
            }
        } else if op == LOP_XGKICK {
            let is = ((lower >> 16) & 0xF) as usize;
            LowerEffect::Kick(self.vi_get(is) as u16)
        } else {
            LowerEffect::Next
        }
    }

    /// Runs one instruction: the upper slot is evaluated and staged, the lower
    /// slot runs against the registers as they stood before the instruction,
    /// the staged result is committed, and the program counter moves as the
    /// lower slot says. Returns the lower slot's effect and the staged result.
    pub fn cycle<F: FloatUnit>(&mut self, fpu: &F) -> (r: (LowerEffect, Option<Staged>))
        requires
            old(self).wf(),
            old(self).pc < old(self).code_mem@.len(),
        ensures
            final(self).wf(),
            final(self).code_mem == old(self).code_mem,
            (final(self).model(), r.0) == vu_cycle(fpu, old(self).code_mem@, old(self).model()),
            ({
                let instr = old(self).code_mem@[old(self).pc as int];
                r.1 == upper_staged(fpu, upper_word(instr), old(self).vf@, old(self).acc, old(self).q)
            }),
    {
        let instr = self.code_mem[self.pc as usize];
        let upper = (instr >> 32) as u32;
        let lower = (instr & 0xFFFF_FFFF) as u32;
        if self.div_busy > 0 {
            self.div_busy = self.div_busy - 1;
        }
        let staged = self.exec_upper(fpu, upper);
        proof {
            lemma_fields(upper);
        }
        let effect = self.exec_lower(lower);
        self.commit_upper(staged);
        match effect {
            LowerEffect::Branch(target) => {
                self.pc = target;
            },
            _ => {
                self.pc = self.pc + 1;
            },
        }
        (effect, staged)
    }

    /// Runs the loaded program from the current program counter for at most
    /// `max_cycles` instructions, until a kick ends it or the counter leaves
    /// the program.
    pub fn run_bounded<F: FloatUnit>(&mut self, fpu: &F, max_cycles: u32) -> (r: RunOutcome)
        requires
            old(self).wf(),
        ensures
            final(self).wf(),
            final(self).code_mem == old(self).code_mem,
            (final(self).model(), r) == vu_run(fpu, old(self).code_mem@, old(self).model(), max_cycles as nat, 0),
            r == run_ctrl(old(self).code_mem@, old(self).pc, old(self).vi@, max_cycles as nat, 0),
    {
        proof {
            lemma_run_is_control_only(fpu, self.code_mem@, self.model(), max_cycles as nat, 0);
        }
        let mut cycles: u32 = 0;
        loop
            invariant
                self.wf(),
                self.code_mem == old(self).code_mem,
                cycles <= max_cycles,
                vu_run(fpu, old(self).code_mem@, old(self).model(), max_cycles as nat, 0).1 == run_ctrl(
                    old(self).code_mem@,
                    old(self).pc,
                    old(self).vi@,
                    max_cycles as nat,
                    0,
                ),
                vu_run(fpu, old(self).code_mem@, old(self).model(), max_cycles as nat, 0) == vu_run(
                    fpu,
                    self.code_mem@,
                    self.model(),
                    (max_cycles - cycles) as nat,
                    cycles,
                ),
            decreases max_cycles - cycles,
        {
            if cycles >= max_cycles {
                return RunOutcome::CapReached { cycles };
            }
            if self.pc as usize >= self.code_mem.len() {
                return RunOutcome::OutOfCode { cycles };
            }
            let (effect, _) = self.cycle(fpu);
            cycles = cycles + 1;
            if let LowerEffect::Kick(base) = effect {
                return RunOutcome::Kicked { base, cycles };
            }
        }
    }

    /// Runs the loaded program until a kick and returns the data-memory base
    /// address it reports; a program that leaves the loaded code, or runs
    /// `MAX_CYCLES` instructions without a kick, reports `FALLBACK_BASE`.
    pub fn run_until_xgkick<F: FloatUnit>(&mut self, fpu: &F) -> (r: u16)
        requires
            old(self).wf(),
        ensures
            final(self).wf(),
            final(self).code_mem == old(self).code_mem,
            ({
                let (m, out) = vu_run(fpu, old(self).code_mem@, old(self).model(), MAX_CYCLES as nat, 0);
                &&& final(self).model() == m
                &&& r == match out {
                    RunOutcome::Kicked { base, .. } => base,
                    _ => FALLBACK_BASE,
                }
            }),
            r == match run_ctrl(old(self).code_mem@, old(self).pc, old(self).vi@, MAX_CYCLES as nat, 0) {
                RunOutcome::Kicked { base, .. } => base,
                _ => FALLBACK_BASE,
            },
    {
        match self.run_bounded(fpu, MAX_CYCLES) {
            RunOutcome::Kicked { base, .. } => base,
            _ => FALLBACK_BASE,
        }
    }

    /// Writes a staged upper-slot result into its vector register.
    pub fn commit_upper(&mut self, staged: Option<Staged>)
        requires
            old(self).wf(),
            staged matches Some(st) ==> st.fd < VF_REGS,
        ensures
            final(self).wf(),
            final(self).vf@ == commit(old(self).vf@, staged),
            final(self).vi == old(self).vi,
            final(self).acc == old(self).acc,
            final(self).q == old(self).q,
            final(self).pc == old(self).pc,
            final(self).div_busy == old(self).div_busy,
            final(self).data_mem == old(self).data_mem,
            final(self).code_mem == old(self).code_mem,
    {
        if let Some(st) = staged {
            self.vf_set(st.fd, st.dest, st.val);
        }
    }
}

/// One lane of a broadcast operation of family `fam`: `a` against the broadcast
/// scalar `s`, with `acc` the accumulator lane.
fn lane_op<F: FloatUnit>(fpu: &F, fam: u32, acc: u32, a: u32, s: u32) -> (r: u32)
    ensures
        r == lane_spec(fpu, fam, acc, a, s),
{
    if fam == OP_ADD {
        fpu.add(a, s)
    } else if fam == OP_SUB {
        fpu.sub(a, s)
    } else if fam == OP_MADD || fam == OP_MADDA {
        fpu.add(acc, fpu.mul(a, s))
    } else if fam == OP_MAX {
        fpu.max(a, s)
    } else if fam == OP_MINI {
        fpu.min(a, s)
    } else {
        fpu.mul(a, s)
    }
}

fn vf_zero_value() -> (r: Quad)
    ensures
        r == vf_zero(),
{
    [0, 0, 0, ONE_BITS]
}

fn masked_value(prev: Quad, dest: u32, val: Quad) -> (r: Quad)
    ensures
        r == masked(prev, dest, val),
{
    let mut r = prev;
    if dest & 8 != 0 {
        r[0] = val[0];
    }
    if dest & 4 != 0 {
        r[1] = val[1];
    }
    if dest & 2 != 0 {
        r[2] = val[2];
    }
    if dest & 1 != 0 {
        r[3] = val[3];
    }
    r
}

} // verus!
