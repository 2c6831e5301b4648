//! What the register-only RV64 instructions compute: a register file of 32
//! 64-bit values, with `x0` fixed at zero, and one step per instruction.

use vstd::prelude::*;
use vstd::arithmetic::power2::pow2;
use crate::jit::rv::{RvInsn, ROp, IOp, ShiftOp};

verus! {

/// The register that a register field selects.
pub open spec fn reg_index(r: u8) -> int {
    r as int % 32
}

/// A register file has 32 entries.
pub open spec fn regs_wf(regs: Seq<u64>) -> bool {
    regs.len() == 32
}

/// Reads a register; `x0` reads as zero.
pub open spec fn read_reg(regs: Seq<u64>, r: u8) -> u64 {
    if reg_index(r) == 0 {
        0
    } else {
        regs[reg_index(r)]
    }
}

/// Writes a register; writes to `x0` are dropped.
pub open spec fn write_reg(regs: Seq<u64>, r: u8, v: u64) -> Seq<u64> {
    if reg_index(r) == 0 {
        regs
    } else {
        regs.update(reg_index(r), v)
    }
}

/// The low 64 bits of an integer, as an unsigned value.
pub open spec fn wrap64(v: int) -> u64 {
    (v % 0x1_0000_0000_0000_0000) as u64
}

/// The low 32 bits of an integer, sign-extended to 64 bits.
pub open spec fn sext32(v: int) -> u64 {
    let lo = v % 0x1_0000_0000;
    if lo < 0x8000_0000 {
        lo as u64
    } else {
        (lo + 0xffff_ffff_0000_0000) as u64
    }
}

/// The signed value of the low 12 bits of an immediate.
pub open spec fn sext12(imm: i32) -> int {
    let lo = imm as int % 4096;
    if lo < 2048 {
        lo
    } else {
        lo - 4096
    }
}

/// A 64-bit value read as a signed number.
pub open spec fn signed64(v: u64) -> int {
    if v < 0x8000_0000_0000_0000 {
        v as int
    } else {
        v as int - 0x1_0000_0000_0000_0000
    }
}

/// The result of a register-register operation on two register values.
pub open spec fn r_result(op: ROp, a: u64, b: u64) -> u64 {
    let a32 = a as int % 0x1_0000_0000;
    let b32 = b as int % 0x1_0000_0000;
    match op {
        ROp::Add => wrap64(a + b),
        ROp::Sub => wrap64(a - b),
        ROp::Sll => wrap64(a * pow2((b % 64) as nat)),
        ROp::Srl => (a as int / pow2((b % 64) as nat) as int) as u64,
        ROp::Sra => wrap64(signed64(a) / pow2((b % 64) as nat) as int),
        ROp::Xor => a ^ b,
        ROp::Or => a | b,
        ROp::And => a & b,
        ROp::Mul => wrap64(a * b),
        ROp::Divu => if b == 0 {
            0xffff_ffff_ffff_ffff
        } else {
            a / b
        },
        ROp::Remu => if b == 0 {
            a
        } else {
            a % b
        },
        ROp::Subw => sext32(a - b),
        ROp::Mulw => sext32(a * b),
        ROp::Divuw => if b32 == 0 {
            0xffff_ffff_ffff_ffff
        } else {
            sext32(a32 / b32)
        },
        ROp::Remuw => if b32 == 0 {
            sext32(a32)
        } else {
            sext32(a32 % b32)
        },
    }
}

/// The result of a shift by a constant.
pub open spec fn shift_result(op: ShiftOp, a: u64, shamt: u8) -> u64 {
    let p = pow2((shamt % 64) as nat) as int;
    match op {
        ShiftOp::Slli => wrap64(a * p),
        ShiftOp::Srli => (a as int / p) as u64,
        ShiftOp::Srai => wrap64(signed64(a) / p),
    }
}

/// The register file after one instruction, for the instructions that touch
/// registers only. Loads, stores, branches and jumps have no entry here.
pub open spec fn step(insn: RvInsn, regs: Seq<u64>) -> Option<Seq<u64>> {
    match insn {
        RvInsn::R { op, rd, rs1, rs2 } => Some(
            write_reg(regs, rd, r_result(op, read_reg(regs, rs1), read_reg(regs, rs2))),
        ),
        RvInsn::I { op: IOp::Addi, rd, rs1, imm } => Some(
            write_reg(regs, rd, wrap64(read_reg(regs, rs1) + sext12(imm))),
        ),
        RvInsn::I { op: IOp::Addiw, rd, rs1, imm } => Some(
            write_reg(regs, rd, sext32(read_reg(regs, rs1) + sext12(imm))),
        ),
        RvInsn::Shift { op, rd, rs1, shamt } => Some(
            write_reg(regs, rd, shift_result(op, read_reg(regs, rs1), shamt)),
        ),
        RvInsn::Lui { rd, imm } => Some(write_reg(regs, rd, sext32(imm - imm % 4096))),
        _ => None,
    }
}

/// The register file after a straight-line sequence of instructions.
pub open spec fn run(insns: Seq<RvInsn>, regs: Seq<u64>) -> Option<Seq<u64>>
    decreases insns.len(),
{
    if insns.len() == 0 {
        Some(regs)
    } else {
        match run(insns.drop_last(), regs) {
            Some(r) => step(insns.last(), r),
            None => None,
        }
    }
}

/// Running `a` and then `b` is running `a + b`.
pub proof fn lemma_run_concat(a: Seq<RvInsn>, b: Seq<RvInsn>, regs: Seq<u64>)
    ensures
        run(a + b, regs) == match run(a, regs) {
            Some(r) => run(b, r),
            None => None,
        },
    decreases b.len(),
{
    if b.len() == 0 {
        assert(a + b =~= a);
    } else {
        assert((a + b).drop_last() =~= a + b.drop_last());
        assert((a + b).last() == b.last());
        lemma_run_concat(a, b.drop_last(), regs);
    }
}

/// Running one instruction is taking one step.
pub proof fn lemma_run_one(insn: RvInsn, regs: Seq<u64>)
    ensures
        run(seq![insn], regs) == step(insn, regs),
{
    let s = seq![insn];
    assert(s.drop_last() =~= Seq::<RvInsn>::empty());
    assert(run(s.drop_last(), regs) == Some(regs));
    assert(s.last() == insn);
}

/// A step keeps the register file at 32 entries.
pub proof fn lemma_step_wf(insn: RvInsn, regs: Seq<u64>)
    requires
        regs_wf(regs),
    ensures
        step(insn, regs) matches Some(r) ==> regs_wf(r),
{
}

/// A run keeps the register file at 32 entries.
pub proof fn lemma_run_wf(insns: Seq<RvInsn>, regs: Seq<u64>)
    requires
        regs_wf(regs),
    ensures
        run(insns, regs) matches Some(r) ==> regs_wf(r),
    decreases insns.len(),
{
    if insns.len() > 0 {
        lemma_run_wf(insns.drop_last(), regs);
        match run(insns.drop_last(), regs) {
            Some(r) => lemma_step_wf(insns.last(), r),
            None => {},
        }
    }
}

} // verus!
