//! What the compiled code does, proved over the register semantics: an
//! immediate load leaves its value in the register, a 32-bit operation
//! leaves the upper half of its result zero, and the branch of a conditional
//! jump skips the jump exactly when the condition fails.

use vstd::prelude::*;
use vstd::arithmetic::power2::{pow2, lemma2_to64, lemma_pow2_adds, lemma_pow2_unfold};
use vstd::arithmetic::div_mod::{lemma_mul_mod_noop_left, lemma_mod_multiples_vanish};
use vstd::arithmetic::mul::{lemma_mul_is_associative};
use crate::jit::consts::{AluOp, JmpCond};
use crate::jit::rv::{
    RvInsn, ROp, IOp, ShiftOp, BOp, RV_REG_T1, RV_REG_ZERO, RV_REG_A0, RV_REG_A5, RV_REG_SP,
    RV_REG_FP, RV_REG_S1, RV_REG_S2, RV_REG_S3, RV_REG_S4, RV_REG_S5, RV_REG_RA,
};
use crate::jit::compile::JitError;
use crate::jit::machine::{
    reg_index, regs_wf, read_reg, write_reg, wrap64, sext32, sext12, signed64, step, run,
    lemma_run_concat, lemma_run_one,
};
use crate::jit::model::{
    pad_words, patched_exits, patched_jumps, patched_plt, jump_word, jump_target, jump_resolves,
    plt_hi_word, plt_lo_word, helper_words,
    JitModel, imm_insns, imm_hi, imm_lo, in_i32_range, low_zero_bits, strip_low_zero_bits,
    lemma_imm_hi_smaller, lemma_strip_toward_zero, imm_measure, wrap_i64, alu_rop, skip_branch,
    lemma_emit_seq_push, lemma_emit_one,
};

verus! {

/// A value is its low zero bits shifted back onto what is left without them.
pub proof fn lemma_strip_times_pow2(v: int, limit: nat)
    ensures
        strip_low_zero_bits(v, limit) * pow2(low_zero_bits(v, limit)) == v,
        low_zero_bits(v, limit) <= limit,
    decreases limit,
{
    lemma2_to64();
    if limit == 0 || v % 2 != 0 {
        assert(low_zero_bits(v, limit) == 0);
        assert(strip_low_zero_bits(v, limit) == v);
        assert(v * 1 == v);
    } else {
        let rest = (limit - 1) as nat;
        lemma_strip_times_pow2(v / 2, rest);
        let s = strip_low_zero_bits(v / 2, rest);
        let n = low_zero_bits(v / 2, rest);
        assert(low_zero_bits(v, limit) == n + 1);
        assert(strip_low_zero_bits(v, limit) == s);
        lemma_pow2_unfold(n + 1);
        let p = pow2(n) as int;
        assert(pow2(n + 1) == 2 * p);
        assert(s * (2 * p) == 2 * (s * p)) by (nonlinear_arith);
        assert(s * p == v / 2);
        assert(v == 2 * (v / 2));
    }
}

/// Writing a register twice leaves the second value.
pub proof fn lemma_write_twice(regs: Seq<u64>, rd: u8, a: u64, b: u64)
    requires
        regs_wf(regs),
    ensures
        write_reg(write_reg(regs, rd, a), rd, b) == write_reg(regs, rd, b),
        regs_wf(write_reg(regs, rd, a)),
        reg_index(rd) != 0 ==> read_reg(write_reg(regs, rd, a), rd) == a,
{
    assert(write_reg(write_reg(regs, rd, a), rd, b) =~= write_reg(regs, rd, b));
}

/// Running two instructions is taking two steps.
pub proof fn lemma_run_two(a: RvInsn, b: RvInsn, regs: Seq<u64>)
    ensures
        run(seq![a, b], regs) == match step(a, regs) {
            Some(r) => step(b, r),
            None => None,
        },
{
    assert(seq![a, b] =~= seq![a] + seq![b]);
    lemma_run_concat(seq![a], seq![b], regs);
    lemma_run_one(a, regs);
    match step(a, regs) {
        Some(r) => lemma_run_one(b, r),
        None => {},
    }
}

/// Running a sequence and one more instruction is one step after the run.
pub proof fn lemma_run_push(insns: Seq<RvInsn>, insn: RvInsn, regs: Seq<u64>)
    ensures
        run(insns.push(insn), regs) == match run(insns, regs) {
            Some(r) => step(insn, r),
            None => None,
        },
{
    assert(insns.push(insn).drop_last() =~= insns);
}

// The value that `lui` and `addiw` leave for a 32-bit value with a nonzero upper part.
proof fn lemma_lui_addiw(v: int)
    requires
        in_i32_range(v),
    ensures
        ({
            let upper = ((imm_hi(v) % 0x10_0000) * 0x1000) as u32;
            sext32(sext32(upper - upper % 4096) + sext12(imm_lo(v) as i32)) == wrap64(v)
        }),
{
    let hi = imm_hi(v);
    let lo = imm_lo(v);
    assert(hi == (v + 0x800) / 0x1000);
    assert(v == hi * 0x1000 + lo);
    let h20 = hi % 0x10_0000;
    let upper = (h20 * 0x1000) as u32;
    assert(upper == h20 * 0x1000);
    assert(upper % 4096 == 0);
    assert(sext12(lo as i32) == lo);
    let a = sext32(upper as int);
    assert(a as int % 0x1_0000_0000 == upper);
    let sum = a + lo;
    assert(hi == h20 + (hi / 0x10_0000) * 0x10_0000);
    assert(sum % 0x1_0000_0000 == v % 0x1_0000_0000) by {
        let q = hi / 0x10_0000;
        let d = (a as int - upper) / 0x1_0000_0000;
        assert(a as int == upper + d * 0x1_0000_0000);
        assert(v == sum - d * 0x1_0000_0000 + q * 0x1_0000_0000);
        lemma_mod_multiples_vanish(q - d, sum, 0x1_0000_0000);
    }
}

/// The instructions that materialise `v` leave exactly `v`, as a 64-bit
/// two's complement value, in `rd`, and change no other register. This
/// holds of every 64-bit signed `v`, the least and the greatest included.
pub proof fn lemma_imm_insns_load(rd: u8, v: int, regs: Seq<u64>)
    requires
        regs_wf(regs),
        reg_index(rd) != 0,
        -0x8000_0000_0000_0000 <= v < 0x8000_0000_0000_0000,
    ensures
        run(imm_insns(rd, v), regs) == Some(write_reg(regs, rd, wrap64(v))),
    decreases imm_measure(v),
{
    let hi = imm_hi(v);
    let lo = imm_lo(v);
    if in_i32_range(v) {
        assert(sext12(lo as i32) == lo);
        if hi != 0 {
            let upper = ((hi % 0x10_0000) * 0x1000) as u32;
            let a = RvInsn::Lui { rd, imm: upper };
            let b = RvInsn::I { op: IOp::Addiw, rd, rs1: rd, imm: lo as i32 };
            lemma_run_two(a, b, regs);
            lemma_lui_addiw(v);
            let first = sext32(upper - upper % 4096);
            lemma_write_twice(regs, rd, first, wrap64(v));
        } else {
            let a = RvInsn::I { op: IOp::Addi, rd, rs1: RV_REG_ZERO, imm: lo as i32 };
            lemma_run_one(a, regs);
            assert(v == lo);
        }
    } else {
        lemma_imm_hi_smaller(v);
        lemma_strip_toward_zero(hi, 51);
        lemma_strip_times_pow2(hi, 51);
        lemma2_to64();
        let shift = low_zero_bits(hi, 51);
        let upper = strip_low_zero_bits(hi, 51);
        lemma_imm_insns_load(rd, upper, regs);
        let r1 = write_reg(regs, rd, wrap64(upper));
        let slli = RvInsn::Shift { op: ShiftOp::Slli, rd, rs1: rd, shamt: (shift + 12) as u8 };
        let head = imm_insns(rd, upper).push(slli);
        lemma_run_push(imm_insns(rd, upper), slli, regs);
        lemma_write_twice(regs, rd, wrap64(upper), 0);
        let p = pow2(((shift + 12) as u8 % 64) as nat) as int;
        lemma_pow2_adds(shift, 12);
        assert(p == pow2(shift) * 0x1000);
        let shifted = wrap64(wrap64(upper) * p);
        assert(shifted == wrap64(hi * 0x1000)) by {
            lemma_mul_mod_noop_left(upper, p, 0x1_0000_0000_0000_0000);
            lemma_mul_is_associative(upper, pow2(shift) as int, 0x1000);
        }
        lemma_write_twice(regs, rd, wrap64(upper), shifted);
        let r2 = write_reg(regs, rd, shifted);
        assert(run(head, regs) == Some(r2));
        // the upper part, moved into place, and the low 12 bits make up the value
        assert(wrap64(hi * 0x1000 + lo) == wrap64(v)) by {
            let t = wrap_i64(v + 0x800);
            let k = (v + 0x800 + 0x8000_0000_0000_0000) / 0x1_0000_0000_0000_0000;
            assert(t == v + 0x800 - k * 0x1_0000_0000_0000_0000);
            assert(hi * 0x1000 + lo == v - k * 0x1_0000_0000_0000_0000);
            lemma_mod_multiples_vanish(-k, v, 0x1_0000_0000_0000_0000);
        }
        if lo != 0 {
            let addi = RvInsn::I { op: IOp::Addi, rd, rs1: rd, imm: lo as i32 };
            lemma_run_push(head, addi, regs);
            assert(sext12(lo as i32) == lo);
            assert(wrap64(shifted + lo) == wrap64(hi * 0x1000 + lo)) by {
                let q = (hi * 0x1000) / 0x1_0000_0000_0000_0000;
                assert(hi * 0x1000 + lo == 0x1_0000_0000_0000_0000 * q + (shifted + lo));
                lemma_mod_multiples_vanish(q, shifted + lo, 0x1_0000_0000_0000_0000);
            }
            lemma_write_twice(regs, rd, shifted, wrap64(v));
        } else {
            assert(shifted == wrap64(v));
        }
    }
}

/// The two shifts that follow every 32-bit operation leave the low 32 bits
/// of `rd` and clear its upper 32 bits.
pub proof fn lemma_zext_32_clears(rd: u8, regs: Seq<u64>)
    requires
        regs_wf(regs),
        reg_index(rd) != 0,
    ensures
        run(
            seq![
                RvInsn::Shift { op: ShiftOp::Slli, rd, rs1: rd, shamt: 32 },
                RvInsn::Shift { op: ShiftOp::Srli, rd, rs1: rd, shamt: 32 },
            ],
            regs,
        ) == Some(write_reg(regs, rd, (read_reg(regs, rd) % 0x1_0000_0000) as u64)),
        read_reg(regs, rd) % 0x1_0000_0000 < 0x1_0000_0000,
{
    lemma2_to64();
    let a = RvInsn::Shift { op: ShiftOp::Slli, rd, rs1: rd, shamt: 32 };
    let b = RvInsn::Shift { op: ShiftOp::Srli, rd, rs1: rd, shamt: 32 };
    lemma_run_two(a, b, regs);
    let x = read_reg(regs, rd);
    let up = wrap64(x * 0x1_0000_0000);
    assert(up as int / 0x1_0000_0000 == x % 0x1_0000_0000) by {
        let q = x as int / 0x1_0000_0000;
        let r = x as int % 0x1_0000_0000;
        assert(x * 0x1_0000_0000 == 0x1_0000_0000_0000_0000 * q + r * 0x1_0000_0000);
        lemma_mod_multiples_vanish(q, r * 0x1_0000_0000, 0x1_0000_0000_0000_0000);
    }
    lemma_write_twice(regs, rd, up, (x % 0x1_0000_0000) as u64);
}

/// The instructions of an ALU operation other than a shift, before the
/// zero-extension of a 32-bit result.
pub open spec fn alu_head(op: AluOp, is64: bool, use_imm: bool, rd: u8, rs: u8, imm: i32) -> Seq<
    RvInsn,
> {
    match op {
        AluOp::Sub => if use_imm {
            imm_insns(RV_REG_T1, imm as int).push(
                RvInsn::R { op: ROp::Sub, rd, rs1: rd, rs2: RV_REG_T1 },
            )
        } else {
            seq![RvInsn::R { op: alu_rop(AluOp::Sub, is64), rd, rs1: rd, rs2: rs }]
        },
        AluOp::Mov => if use_imm {
            imm_insns(rd, imm as int)
        } else {
            seq![RvInsn::I { op: IOp::Addi, rd, rs1: rs, imm: 0 }]
        },
        _ => if use_imm {
            imm_insns(RV_REG_T1, imm as int).push(
                RvInsn::R { op: alu_rop(op, is64), rd, rs1: rd, rs2: RV_REG_T1 },
            )
        } else {
            seq![RvInsn::R { op: alu_rop(op, is64), rd, rs1: rd, rs2: rs }]
        },
    }
}

/// The two shifts that zero-extend `rd`.
pub open spec fn zext_insns(rd: u8) -> Seq<RvInsn> {
    seq![
        RvInsn::Shift { op: ShiftOp::Slli, rd, rs1: rd, shamt: 32 },
        RvInsn::Shift { op: ShiftOp::Srli, rd, rs1: rd, shamt: 32 },
    ]
}

/// Whether an ALU operation is one of the three shifts.
pub open spec fn is_shift(op: AluOp) -> bool {
    op == AluOp::Lsh || op == AluOp::Rsh || op == AluOp::Arsh
}

/// The code of a 32-bit ALU operation is the operation followed by the
/// zero-extension of its destination.
pub proof fn lemma_alu32_code(m: JitModel, op: AluOp, use_imm: bool, rd: u8, rs: u8, imm: i32)
    requires
        !is_shift(op),
    ensures
        m.alu(op, false, use_imm, rd, rs, imm) == m.emit_seq(
            alu_head(op, false, use_imm, rd, rs, imm) + zext_insns(rd),
        ),
{
    let head = alu_head(op, false, use_imm, rd, rs, imm);
    let slli = RvInsn::Shift { op: ShiftOp::Slli, rd, rs1: rd, shamt: 32 };
    let srli = RvInsn::Shift { op: ShiftOp::Srli, rd, rs1: rd, shamt: 32 };
    assert(head + zext_insns(rd) =~= head.push(slli).push(srli));
    lemma_emit_seq_push(m, head, slli);
    lemma_emit_seq_push(m, head.push(slli), srli);
    // the state after the operation itself
    let before_zext: JitModel = m.emit_seq(head);
    assert(m.alu(op, false, use_imm, rd, rs, imm) == before_zext.zext_32(rd, rd)) by {
        match op {
            AluOp::Sub => {
                if use_imm {
                    lemma_emit_seq_push(
                        m,
                        imm_insns(RV_REG_T1, imm as int),
                        RvInsn::R { op: ROp::Sub, rd, rs1: rd, rs2: RV_REG_T1 },
                    );
                } else {
                    lemma_emit_one(
                        m,
                        RvInsn::R { op: alu_rop(AluOp::Sub, false), rd, rs1: rd, rs2: rs },
                    );
                }
            },
            AluOp::Mov => {
                if !use_imm {
                    lemma_emit_one(m, RvInsn::I { op: IOp::Addi, rd, rs1: rs, imm: 0 });
                }
            },
            _ => {
                if use_imm {
                    lemma_emit_seq_push(
                        m,
                        imm_insns(RV_REG_T1, imm as int),
                        RvInsn::R { op: alu_rop(op, false), rd, rs1: rd, rs2: RV_REG_T1 },
                    );
                } else {
                    lemma_emit_one(
                        m,
                        RvInsn::R { op: alu_rop(op, false), rd, rs1: rd, rs2: rs },
                    );
                }
            },
        }
    }
}

/// Whatever the registers hold, the code of a 32-bit ALU operation runs to
/// the end and leaves a destination whose upper 32 bits are zero.
pub proof fn lemma_alu32_upper_bits_zero(
    op: AluOp,
    use_imm: bool,
    rd: u8,
    rs: u8,
    imm: i32,
    regs: Seq<u64>,
)
    requires
        !is_shift(op),
        regs_wf(regs),
        reg_index(rd) != 0,
    ensures
        run(alu_head(op, false, use_imm, rd, rs, imm) + zext_insns(rd), regs) matches Some(after)
            && read_reg(after, rd) < 0x1_0000_0000,
{
    let head = alu_head(op, false, use_imm, rd, rs, imm);
    lemma_run_concat(head, zext_insns(rd), regs);
    // the operation itself runs to the end
    assert(run(head, regs) matches Some(r) && regs_wf(r)) by {
        lemma_imm_insns_load(RV_REG_T1, imm as int, regs);
        lemma_imm_insns_load(rd, imm as int, regs);
        match op {
            AluOp::Sub => {
                if use_imm {
                    lemma_run_push(
                        imm_insns(RV_REG_T1, imm as int),
                        RvInsn::R { op: ROp::Sub, rd, rs1: rd, rs2: RV_REG_T1 },
                        regs,
                    );
                } else {
                    lemma_run_one(
                        RvInsn::R { op: alu_rop(AluOp::Sub, false), rd, rs1: rd, rs2: rs },
                        regs,
                    );
                }
            },
            AluOp::Mov => {
                if !use_imm {
                    lemma_run_one(RvInsn::I { op: IOp::Addi, rd, rs1: rs, imm: 0 }, regs);
                }
            },
            _ => {
                if use_imm {
                    lemma_run_push(
                        imm_insns(RV_REG_T1, imm as int),
                        RvInsn::R { op: alu_rop(op, false), rd, rs1: rd, rs2: RV_REG_T1 },
                        regs,
                    );
                } else {
                    lemma_run_one(
                        RvInsn::R { op: alu_rop(op, false), rd, rs1: rd, rs2: rs },
                        regs,
                    );
                }
            },
        }
    }
    let r = run(head, regs).unwrap();
    lemma_zext_32_clears(rd, r);
}

/// The helper table starts on a 16-byte boundary: the words before it and
/// the padding make up a multiple of four words, and the padding is less
/// than four words.
pub proof fn lemma_helper_table_aligned(len: nat)
    ensures
        (4 * (len + pad_words(len))) % 16 == 0,
        pad_words(len) < 4,
        pad_words(len) == 0 <==> len % 4 == 0,
{
}

/// Whether the condition of an eBPF jump holds of a destination and a
/// source value.
pub open spec fn jump_cond_holds(cond: JmpCond, dst: u64, src: u64) -> bool {
    match cond {
        JmpCond::Jeq => dst == src,
        JmpCond::Jgt => dst > src,
        JmpCond::Jge => dst >= src,
        JmpCond::Jset => dst & src != 0,
        JmpCond::Jne => dst != src,
        JmpCond::Jsgt => signed64(dst) > signed64(src),
        JmpCond::Jsge => signed64(dst) >= signed64(src),
        JmpCond::Jlt => dst < src,
        JmpCond::Jle => dst <= src,
        JmpCond::Jslt => signed64(dst) < signed64(src),
        JmpCond::Jsle => signed64(dst) <= signed64(src),
    }
}

/// Whether an RV64 branch is taken for the values of its two registers.
pub open spec fn branch_taken(op: BOp, a: u64, b: u64) -> bool {
    match op {
        BOp::Beq => a == b,
        BOp::Bne => a != b,
        BOp::Blt => signed64(a) < signed64(b),
        BOp::Bge => signed64(a) >= signed64(b),
        BOp::Bltu => a < b,
        BOp::Bgeu => a >= b,
    }
}

/// The branch of a conditional jump skips exactly one word, the jump, and
/// is taken exactly when the condition of the jump does not hold. `src` and
/// `dst` are the registers that hold the operands as they are compared.
pub proof fn lemma_skip_branch_negates(cond: JmpCond, src: u8, dst: u8, regs: Seq<u64>)
    requires
        cond != JmpCond::Jset,
    ensures
        skip_branch(cond, src, dst) matches RvInsn::B { op, rs1, rs2, imm } && imm == 8
            && branch_taken(op, read_reg(regs, rs1), read_reg(regs, rs2)) == !jump_cond_holds(
            cond,
            read_reg(regs, dst),
            read_reg(regs, src),
        ),
{
}

/// The branch of a bit test is taken exactly when the operands share no bit:
/// it tests the `and` of the two, held in `t1`, against zero.
pub proof fn lemma_jset_branch_negates(dst: u64, src: u64)
    ensures
        skip_branch(JmpCond::Jset, RV_REG_T1, RV_REG_T1) == (RvInsn::B {
            op: BOp::Beq,
            rs1: RV_REG_T1,
            rs2: RV_REG_ZERO,
            imm: 8,
        }),
        branch_taken(BOp::Beq, src & dst, 0) == !jump_cond_holds(JmpCond::Jset, dst, src),
{
    assert(src & dst == dst & src) by (bit_vector);
}

/// Whether word `i` of the code is the placeholder of an exit.
pub open spec fn is_exit_word(m: JitModel, i: int) -> bool {
    exists|k: int| 0 <= k < m.exits.len() && #[trigger] m.exits[k] == 4 * i
}

/// Whether word `i` of the code is the placeholder of a jump.
pub open spec fn is_jump_word(m: JitModel, i: int) -> bool {
    exists|k: int| 0 <= k < m.jumps.len() && (#[trigger] m.jumps[k]).1 == 4 * i
}

/// Whether word `i` is one of the two words of an address load at one of
/// the given byte offsets.
pub open spec fn is_load_word(plt_loads: Seq<usize>, i: int) -> bool {
    exists|k: int|
        0 <= k < plt_loads.len() && (#[trigger] plt_loads[k] == 4 * i || plt_loads[k] + 4 == 4
            * i)
}

/// Whether word `i` of the code is one of the two placeholders of an
/// address load.
pub open spec fn is_plt_word(m: JitModel, i: int) -> bool {
    is_load_word(m.plt_loads, i)
}

// Patching the exits writes each exit and nothing else.
proof fn lemma_patched_exits(code: Seq<u32>, exits: Seq<usize>, real_exit: int)
    requires
        forall|i: int, j: int| 0 <= i < j < exits.len() ==> #[trigger] exits[i] < #[trigger] exits[j],
        forall|i: int|
            0 <= i < exits.len() ==> (#[trigger] exits[i]) % 4 == 0 && exits[i] < 4 * code.len(),
    ensures
        patched_exits(code, exits, real_exit).len() == code.len(),
        forall|k: int|
            0 <= k < exits.len() ==> patched_exits(code, exits, real_exit)[(#[trigger] exits[k]) as int
                / 4] == jump_word(exits[k] as int, real_exit),
        forall|i: int|
            0 <= i < code.len() && !(exists|k: int|
                0 <= k < exits.len() && #[trigger] exits[k] == 4 * i) ==> patched_exits(
                code,
                exits,
                real_exit,
            )[i] == code[i],
    decreases exits.len(),
{
    if exits.len() > 0 {
        let n = exits.len() as int;
        let front = exits.drop_last();
        let last = exits[n - 1];
        assert forall|i: int, j: int| 0 <= i < j < front.len() implies #[trigger] front[i]
            < #[trigger] front[j] by {
            assert(exits[i] < exits[j]);
        }
        assert forall|i: int| 0 <= i < front.len() implies (#[trigger] front[i]) % 4 == 0
            && front[i] < 4 * code.len() by {
            assert(exits[i] % 4 == 0);
        }
        lemma_patched_exits(code, front, real_exit);
        let prev = patched_exits(code, front, real_exit);
        let now = patched_exits(code, exits, real_exit);
        assert(now == prev.update(last as int / 4, jump_word(last as int, real_exit)));
        assert forall|k: int| 0 <= k < exits.len() implies now[(#[trigger] exits[k]) as int / 4]
            == jump_word(exits[k] as int, real_exit) by {
            if k < n - 1 {
                assert(exits[k] < exits[n - 1]);
                assert(front[k] == exits[k]);
                assert(prev[front[k] as int / 4] == jump_word(front[k] as int, real_exit));
            }
        }
        assert forall|i: int|
            0 <= i < code.len() && !(exists|k: int|
                0 <= k < exits.len() && #[trigger] exits[k] == 4 * i) implies now[i] == code[i] by {
            if i == last as int / 4 {
                assert(exits[n - 1] == 4 * i);
            }
            if exists|k: int| 0 <= k < front.len() && #[trigger] front[k] == 4 * i {
                let k = choose|k: int| 0 <= k < front.len() && #[trigger] front[k] == 4 * i;
                assert(exits[k] == 4 * i);
            }
        }
    }
}

// Patching the jumps, where it succeeds, writes each jump and nothing else.
proof fn lemma_patched_jumps(
    code: Seq<u32>,
    jumps: Seq<(usize, usize)>,
    pc_map: Map<usize, usize>,
    insns: Seq<u64>,
)
    requires
        forall|i: int, j: int|
            0 <= i < j < jumps.len() ==> (#[trigger] jumps[i]).1 < (#[trigger] jumps[j]).1,
        forall|i: int|
            0 <= i < jumps.len() ==> (#[trigger] jumps[i]).1 % 4 == 0 && jumps[i].1 < 4
                * code.len(),
        patched_jumps(code, jumps, pc_map, insns) is Ok,
    ensures
        patched_jumps(code, jumps, pc_map, insns).unwrap().len() == code.len(),
        forall|k: int|
            0 <= k < jumps.len() ==> jump_resolves(insns, pc_map, (#[trigger] jumps[k]).0)
                && patched_jumps(code, jumps, pc_map, insns).unwrap()[jumps[k].1 as int / 4]
                == jump_word(
                jumps[k].1 as int,
                pc_map[jump_target(insns, jumps[k].0) as usize] as int,
            ),
        forall|i: int|
            0 <= i < code.len() && !(exists|k: int|
                0 <= k < jumps.len() && (#[trigger] jumps[k]).1 == 4 * i) ==> patched_jumps(
                code,
                jumps,
                pc_map,
                insns,
            ).unwrap()[i] == code[i],
    decreases jumps.len(),
{
    if jumps.len() > 0 {
        let n = jumps.len() as int;
        let front = jumps.drop_last();
        let last = jumps[n - 1];
        assert forall|i: int, j: int| 0 <= i < j < front.len() implies (#[trigger] front[i]).1 < (
        #[trigger] front[j]).1 by {
            assert(jumps[i].1 < jumps[j].1);
        }
        assert forall|i: int| 0 <= i < front.len() implies (#[trigger] front[i]).1 % 4 == 0
            && front[i].1 < 4 * code.len() by {
            assert(jumps[i].1 % 4 == 0);
        }
        lemma_patched_jumps(code, front, pc_map, insns);
        let prev = patched_jumps(code, front, pc_map, insns).unwrap();
        let now = patched_jumps(code, jumps, pc_map, insns).unwrap();
        let word = jump_word(last.1 as int, pc_map[jump_target(insns, last.0) as usize] as int);
        assert(now == prev.update(last.1 as int / 4, word));
        assert forall|k: int| 0 <= k < jumps.len() implies jump_resolves(
            insns,
            pc_map,
            (#[trigger] jumps[k]).0,
        ) && now[jumps[k].1 as int / 4] == jump_word(
            jumps[k].1 as int,
            pc_map[jump_target(insns, jumps[k].0) as usize] as int,
        ) by {
            if k < n - 1 {
                assert(jumps[k].1 < jumps[n - 1].1);
                assert(front[k] == jumps[k]);
                assert(jump_resolves(insns, pc_map, front[k].0));
            }
        }
        assert forall|i: int|
            0 <= i < code.len() && !(exists|k: int|
                0 <= k < jumps.len() && (#[trigger] jumps[k]).1 == 4 * i) implies now[i]
            == code[i] by {
            if i == last.1 as int / 4 {
                assert(jumps[n - 1].1 == 4 * i);
            }
            if exists|k: int| 0 <= k < front.len() && (#[trigger] front[k]).1 == 4 * i {
                let k = choose|k: int| 0 <= k < front.len() && (#[trigger] front[k]).1 == 4 * i;
                assert(jumps[k].1 == 4 * i);
            }
        }
    }
}

// Patching the address loads writes the two words of each and nothing else.
proof fn lemma_patched_plt(code: Seq<u32>, plt_loads: Seq<usize>, plt_offset: int)
    requires
        forall|i: int, j: int|
            0 <= i < j < plt_loads.len() ==> #[trigger] plt_loads[i] + 8
                <= #[trigger] plt_loads[j],
        forall|i: int|
            0 <= i < plt_loads.len() ==> (#[trigger] plt_loads[i]) % 4 == 0 && plt_loads[i] + 4 < 4
                * code.len(),
    ensures
        patched_plt(code, plt_loads, plt_offset).len() == code.len(),
        forall|k: int|
            0 <= k < plt_loads.len() ==> patched_plt(code, plt_loads, plt_offset)[(
            #[trigger] plt_loads[k]) as int / 4] == plt_hi_word(plt_loads[k] as int, plt_offset)
                && patched_plt(code, plt_loads, plt_offset)[plt_loads[k] as int / 4 + 1]
                == plt_lo_word(plt_loads[k] as int, plt_offset),
        forall|i: int|
            0 <= i < code.len() && !is_load_word(plt_loads, i) ==> #[trigger] patched_plt(
                code,
                plt_loads,
                plt_offset,
            )[i] == code[i],
    decreases plt_loads.len(),
{
    if plt_loads.len() > 0 {
        let n = plt_loads.len() as int;
        let front = plt_loads.drop_last();
        let last = plt_loads[n - 1];
        assert forall|i: int, j: int| 0 <= i < j < front.len() implies #[trigger] front[i] + 8
            <= #[trigger] front[j] by {
            assert(plt_loads[i] + 8 <= plt_loads[j]);
        }
        assert forall|i: int| 0 <= i < front.len() implies (#[trigger] front[i]) % 4 == 0
            && front[i] + 4 < 4 * code.len() by {
            assert(plt_loads[i] % 4 == 0);
        }
        lemma_patched_plt(code, front, plt_offset);
        let prev = patched_plt(code, front, plt_offset);
        let now = patched_plt(code, plt_loads, plt_offset);
        assert(now == prev.update(last as int / 4, plt_hi_word(last as int, plt_offset)).update(
            last as int / 4 + 1,
            plt_lo_word(last as int, plt_offset),
        ));
        assert forall|k: int| 0 <= k < plt_loads.len() implies now[(
        #[trigger] plt_loads[k]) as int / 4] == plt_hi_word(plt_loads[k] as int, plt_offset)
            && now[plt_loads[k] as int / 4 + 1] == plt_lo_word(plt_loads[k] as int, plt_offset) by {
            if k < n - 1 {
                assert(plt_loads[k] + 8 <= plt_loads[n - 1]);
                assert(front[k] == plt_loads[k]);
                assert(prev[front[k] as int / 4] == plt_hi_word(front[k] as int, plt_offset));
            }
        }
        assert forall|i: int|
            0 <= i < code.len() && !is_load_word(plt_loads, i) implies #[trigger] now[i]
            == code[i] by {
            if i == last as int / 4 || i == last as int / 4 + 1 {
                assert(plt_loads[n - 1] == 4 * i || plt_loads[n - 1] + 4 == 4 * i);
            }
            if is_load_word(front, i) {
                let k = choose|k: int|
                    0 <= k < front.len() && (#[trigger] front[k] == 4 * i || front[k] + 4 == 4 * i);
                assert(plt_loads[k] == 4 * i || plt_loads[k] + 4 == 4 * i);
            }
            assert(prev[i] == code[i]);
        }
    }
}

/// After the epilogue, every exit placeholder holds the jump to the
/// epilogue, every jump placeholder holds the jump to the code of its
/// target, and every other word of the body is as it was emitted.
pub proof fn lemma_epilogue_patches_sites(m: JitModel, insns: Seq<u64>)
    requires
        m.wf(),
        m.epilogue(insns) is Ok,
    ensures
        ({
            let done = m.epilogue(insns).unwrap();
            &&& done.code.len() == m.code.len() + 10
            &&& forall|k: int|
                0 <= k < m.exits.len() ==> done.code[(#[trigger] m.exits[k]) as int / 4]
                    == jump_word(m.exits[k] as int, m.code_size())
            &&& forall|k: int|
                0 <= k < m.jumps.len() ==> jump_resolves(insns, m.pc_map, (#[trigger] m.jumps[k]).0)
                    && done.code[m.jumps[k].1 as int / 4] == jump_word(
                    m.jumps[k].1 as int,
                    m.pc_map[jump_target(insns, m.jumps[k].0) as usize] as int,
                )
            &&& forall|i: int|
                0 <= i < m.code.len() && !is_exit_word(m, i) && !is_jump_word(m, i)
                    ==> #[trigger] done.code[i] == m.code[i]
        }),
{
    let exits_done = patched_exits(m.code, m.exits, m.code_size());
    assert forall|i: int| 0 <= i < m.exits.len() implies (#[trigger] m.exits[i]) % 4 == 0
        && m.exits[i] < 4 * m.code.len() by {
        assert(m.is_code_offset(m.exits[i]));
    }
    assert forall|i: int| 0 <= i < m.jumps.len() implies (#[trigger] m.jumps[i]).1 % 4 == 0
        && m.jumps[i].1 < 4 * m.code.len() by {
        assert(m.is_code_offset(m.jumps[i].1));
    }
    lemma_patched_exits(m.code, m.exits, m.code_size());
    lemma_patched_jumps(exits_done, m.jumps, m.pc_map, insns);
    let jumps_done = patched_jumps(exits_done, m.jumps, m.pc_map, insns).unwrap();
    let done = m.epilogue(insns).unwrap();
    assert(done.code.len() == m.code.len() + 10);
    assert forall|i: int| 0 <= i < m.code.len() implies #[trigger] done.code[i]
        == jumps_done[i] by {}
    assert forall|k: int| 0 <= k < m.exits.len() implies done.code[(
    #[trigger] m.exits[k]) as int / 4] == jump_word(m.exits[k] as int, m.code_size()) by {
        let i = m.exits[k] as int / 4;
        assert(m.is_code_offset(m.exits[k]));
        // no jump stands where an exit stands
        if exists|j: int| 0 <= j < m.jumps.len() && (#[trigger] m.jumps[j]).1 == 4 * i {
            let j = choose|j: int| 0 <= j < m.jumps.len() && (#[trigger] m.jumps[j]).1 == 4 * i;
            assert(m.exits[k] != m.jumps[j].1);
        }
        assert(jumps_done[i] == exits_done[i]);
    }
    assert forall|k: int| 0 <= k < m.jumps.len() implies jump_resolves(
        insns,
        m.pc_map,
        (#[trigger] m.jumps[k]).0,
    ) && done.code[m.jumps[k].1 as int / 4] == jump_word(
        m.jumps[k].1 as int,
        m.pc_map[jump_target(insns, m.jumps[k].0) as usize] as int,
    ) by {
        assert(m.is_code_offset(m.jumps[k].1));
    }
    assert forall|i: int|
        0 <= i < m.code.len() && !is_exit_word(m, i) && !is_jump_word(m, i) implies #[trigger] done.code[i]
        == m.code[i] by {
        assert(jumps_done[i] == exits_done[i]);
        assert(exits_done[i] == m.code[i]);
    }
}

/// After the helper table is appended, both words of every address load
/// hold the load of the address of the table, every other word of the code
/// is as it was, the padding is zero, and the table holds the two halves
/// of each helper address in turn.
pub proof fn lemma_helper_table_patches_sites(m: JitModel, helpers: Seq<u64>)
    requires
        m.wf(),
    ensures
        ({
            let done = m.helper_table(helpers);
            let table = (m.code.len() + pad_words(m.code.len())) as int;
            &&& done.code.len() == table + 2 * helpers.len()
            &&& forall|k: int|
                0 <= k < m.plt_loads.len() ==> done.code[(#[trigger] m.plt_loads[k]) as int / 4]
                    == plt_hi_word(m.plt_loads[k] as int, 4 * table) && done.code[m.plt_loads[k] as int
                    / 4 + 1] == plt_lo_word(m.plt_loads[k] as int, 4 * table)
            &&& forall|i: int|
                0 <= i < m.code.len() && !is_plt_word(m, i) ==> #[trigger] done.code[i] == m.code[i]
            &&& forall|i: int| m.code.len() <= i < table ==> #[trigger] done.code[i] == 0
            &&& forall|j: int|
                0 <= j < helpers.len() ==> done.code[table + 2 * j] == (#[trigger] helpers[j]) as u32
                    && done.code[table + 2 * j + 1] == (helpers[j] >> 32) as u32
        }),
{
    let padded = m.code + Seq::new(pad_words(m.code.len()), |i: int| 0u32);
    let whole = padded + helper_words(helpers);
    let table = (m.code.len() + pad_words(m.code.len())) as int;
    assert(padded.len() == table);
    assert forall|i: int| 0 <= i < m.plt_loads.len() implies (#[trigger] m.plt_loads[i]) % 4 == 0
        && m.plt_loads[i] + 4 < 4 * whole.len() by {
        assert(m.is_code_offset(m.plt_loads[i]));
    }
    lemma_patched_plt(whole, m.plt_loads, 4 * table);
    let done = m.helper_table(helpers);
    assert(done.code == patched_plt(whole, m.plt_loads, 4 * (padded.len() as int)));
    assert forall|i: int| m.code.len() <= i < whole.len() implies !#[trigger] is_load_word(
        m.plt_loads,
        i,
    ) by {
        if is_load_word(m.plt_loads, i) {
            let k = choose|k: int|
                0 <= k < m.plt_loads.len() && (#[trigger] m.plt_loads[k] == 4 * i
                    || m.plt_loads[k] + 4 == 4 * i);
            assert(m.is_code_offset(m.plt_loads[k]));
        }
    }
    assert forall|i: int| m.code.len() <= i < table implies #[trigger] done.code[i] == 0 by {
        assert(whole[i] == 0);
    }
    assert forall|j: int| 0 <= j < helpers.len() implies done.code[table + 2 * j] == (
    #[trigger] helpers[j]) as u32 && done.code[table + 2 * j + 1] == (helpers[j] >> 32) as u32 by {
        assert(whole[table + 2 * j] == helper_words(helpers)[2 * j]);
        assert(whole[table + 2 * j + 1] == helper_words(helpers)[2 * j + 1]);
    }
    assert forall|i: int|
        0 <= i < m.code.len() && !is_plt_word(m, i) implies #[trigger] done.code[i] == m.code[i] by {
        assert(whole[i] == m.code[i]);
    }
}

/// The ten words of the epilogue: the result moves from `r0` to `a0`, the
/// stack pointer is restored from the frame pointer, the saved registers
/// are loaded back, and the function returns.
pub open spec fn epilogue_words() -> Seq<u32> {
    Seq::<u32>::empty().push(
        (RvInsn::I { op: IOp::Addi, rd: RV_REG_A0, rs1: RV_REG_A5, imm: 0 }).word(),
    ).push((RvInsn::I { op: IOp::Addi, rd: RV_REG_SP, rs1: RV_REG_FP, imm: 0 }).word()).push(
        (RvInsn::I { op: IOp::Ld, rd: RV_REG_S5, rs1: RV_REG_SP, imm: -56i32 }).word(),
    ).push((RvInsn::I { op: IOp::Ld, rd: RV_REG_S4, rs1: RV_REG_SP, imm: -48i32 }).word()).push(
        (RvInsn::I { op: IOp::Ld, rd: RV_REG_S3, rs1: RV_REG_SP, imm: -40i32 }).word(),
    ).push((RvInsn::I { op: IOp::Ld, rd: RV_REG_S2, rs1: RV_REG_SP, imm: -32i32 }).word()).push(
        (RvInsn::I { op: IOp::Ld, rd: RV_REG_S1, rs1: RV_REG_SP, imm: -24i32 }).word(),
    ).push((RvInsn::I { op: IOp::Ld, rd: RV_REG_FP, rs1: RV_REG_SP, imm: -16i32 }).word()).push(
        (RvInsn::I { op: IOp::Ld, rd: RV_REG_RA, rs1: RV_REG_SP, imm: -8i32 }).word(),
    ).push((RvInsn::I { op: IOp::Jalr, rd: RV_REG_ZERO, rs1: RV_REG_RA, imm: 0 }).word())
}

/// Whether the epilogue stands at word `e` of the code.
pub open spec fn epilogue_at(code: Seq<u32>, e: int) -> bool {
    &&& 0 <= e
    &&& e + 10 <= code.len()
    &&& code.subrange(e, e + 10) == epilogue_words()
}

/// What holds of the placeholders of compiled code that ends in a table of
/// `helpers` helper addresses: every jump placeholder holds the jump to
/// the code of the target of its eBPF jump; every exit placeholder holds
/// the jump to the epilogue; and both words of every address load hold the
/// load of the address of the helper table.
pub open spec fn compiled_sites(done: JitModel, insns: Seq<u64>, helpers: int) -> bool {
    let table = done.code.len() - 2 * helpers;
    &&& forall|k: int|
        0 <= k < done.jumps.len() ==> jump_resolves(insns, done.pc_map, (#[trigger] done.jumps[k]).0)
            && done.code[done.jumps[k].1 as int / 4] == jump_word(
            done.jumps[k].1 as int,
            done.pc_map[jump_target(insns, done.jumps[k].0) as usize] as int,
        )
    &&& forall|k: int|
        0 <= k < done.plt_loads.len() ==> done.code[(#[trigger] done.plt_loads[k]) as int / 4]
            == plt_hi_word(done.plt_loads[k] as int, 4 * table) && done.code[done.plt_loads[k] as int
            / 4 + 1] == plt_lo_word(done.plt_loads[k] as int, 4 * table)
    &&& exists|e: int|
        #[trigger] epilogue_at(done.code, e) && forall|k: int|
            0 <= k < done.exits.len() ==> done.code[(#[trigger] done.exits[k]) as int / 4]
                == jump_word(done.exits[k] as int, 4 * e)
}

/// Code that is finished by the epilogue and the helper table has all its
/// placeholders resolved.
pub proof fn lemma_compiled_sites(body: JitModel, insns: Seq<u64>, helpers: Seq<u64>)
    requires
        body.wf(),
        body.epilogue(insns) is Ok,
        body.epilogue(insns).unwrap().wf(),
    ensures
        compiled_sites(
            body.epilogue(insns).unwrap().helper_table(helpers),
            insns,
            helpers.len() as int,
        ),
{
    let mid = body.epilogue(insns).unwrap();
    let done = mid.helper_table(helpers);
    lemma_epilogue_patches_sites(body, insns);
    lemma_helper_table_patches_sites(mid, helpers);
    lemma_helper_table_aligned(mid.code.len());
    let e = body.code.len() as int;
    let table = (mid.code.len() + pad_words(mid.code.len())) as int;
    assert(done.code.len() - 2 * helpers.len() == table);
    // the words of the body and of the epilogue are no words of an address load
    assert forall|i: int| 0 <= i < mid.code.len() && !is_plt_word(body, i) implies done.code[i]
        == mid.code[i] by {
        assert(is_plt_word(mid, i) == is_plt_word(body, i));
    }
    assert forall|i: int| e <= i < mid.code.len() implies !is_plt_word(body, i) by {
        if is_plt_word(body, i) {
            let k = choose|k: int|
                0 <= k < body.plt_loads.len() && (#[trigger] body.plt_loads[k] == 4 * i
                    || body.plt_loads[k] + 4 == 4 * i);
            assert(body.is_code_offset(body.plt_loads[k]));
        }
    }
    assert(epilogue_at(done.code, e)) by {
        assert forall|i: int| 0 <= i < 10 implies done.code.subrange(e, e + 10)[i]
            == epilogue_words()[i] by {
            assert(done.code[e + i] == mid.code[e + i]);
        }
        assert(done.code.subrange(e, e + 10) =~= epilogue_words());
    }
    assert forall|k: int| 0 <= k < done.exits.len() implies done.code[(
    #[trigger] done.exits[k]) as int / 4] == jump_word(done.exits[k] as int, 4 * e) by {
        let i = body.exits[k] as int / 4;
        assert(body.is_code_offset(body.exits[k]));
        if is_plt_word(body, i) {
            let j = choose|j: int|
                0 <= j < body.plt_loads.len() && (#[trigger] body.plt_loads[j] == 4 * i
                    || body.plt_loads[j] + 4 == 4 * i);
            assert(body.exits[k] != body.plt_loads[j] && body.exits[k] != body.plt_loads[j] + 4);
        }
        assert(done.code[i] == mid.code[i]);
    }
    assert forall|k: int| 0 <= k < done.jumps.len() implies jump_resolves(
        insns,
        done.pc_map,
        (#[trigger] done.jumps[k]).0,
    ) && done.code[done.jumps[k].1 as int / 4] == jump_word(
        done.jumps[k].1 as int,
        done.pc_map[jump_target(insns, done.jumps[k].0) as usize] as int,
    ) by {
        let i = body.jumps[k].1 as int / 4;
        assert(body.is_code_offset(body.jumps[k].1));
        if is_plt_word(body, i) {
            let j = choose|j: int|
                0 <= j < body.plt_loads.len() && (#[trigger] body.plt_loads[j] == 4 * i
                    || body.plt_loads[j] + 4 == 4 * i);
            assert(body.jumps[k].1 != body.plt_loads[j] && body.jumps[k].1 != body.plt_loads[j]
                + 4);
        }
        assert(done.code[i] == mid.code[i]);
    }
}

} // verus!
