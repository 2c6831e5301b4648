//! From machine words back to instructions: the register-only
//! instructions are read off their words, so that what a sequence of words
//! computes is what the instructions that were encoded compute.

use vstd::prelude::*;
use crate::jit::rv::{RvInsn, ROp, IOp, ShiftOp, r_word, i_word, u_word, reg_field};
use crate::jit::machine::{regs_wf, read_reg, write_reg, wrap64, step, run};
use crate::jit::model::{
    imm_insns, imm_hi, imm_lo, in_i32_range, low_zero_bits, strip_low_zero_bits, imm_measure,
    lemma_imm_hi_smaller, lemma_strip_toward_zero, words,
};
use crate::jit::consts::AluOp;
use crate::jit::laws::{
    lemma_imm_insns_load, lemma_alu32_upper_bits_zero, lemma_strip_times_pow2, alu_head,
    zext_insns, is_shift,
};

use crate::jit::rv::RV_REG_T1;

verus! {

/// The register-register operation that the function fields of a word
/// with the opcode `OP` select.
pub open spec fn decode_op(funct7: u32, funct3: u32) -> Option<ROp> {
    if funct7 == 0x00 {
        if funct3 == 0 {
            Some(ROp::Add)
        } else if funct3 == 1 {
            Some(ROp::Sll)
        } else if funct3 == 4 {
            Some(ROp::Xor)
        } else if funct3 == 5 {
            Some(ROp::Srl)
        } else if funct3 == 6 {
            Some(ROp::Or)
        } else if funct3 == 7 {
            Some(ROp::And)
        } else {
            None
        }
    } else if funct7 == 0x20 {
        if funct3 == 0 {
            Some(ROp::Sub)
        } else if funct3 == 5 {
            Some(ROp::Sra)
        } else {
            None
        }
    } else if funct7 == 0x01 {
        if funct3 == 0 {
            Some(ROp::Mul)
        } else if funct3 == 5 {
            Some(ROp::Divu)
        } else if funct3 == 7 {
            Some(ROp::Remu)
        } else {
            None
        }
    } else {
        None
    }
}

/// The register-register operation that the function fields of a word
/// with the opcode `OP-32` select.
pub open spec fn decode_op32(funct7: u32, funct3: u32) -> Option<ROp> {
    if funct7 == 0x20 && funct3 == 0 {
        Some(ROp::Subw)
    } else if funct7 == 0x01 && funct3 == 0 {
        Some(ROp::Mulw)
    } else if funct7 == 0x01 && funct3 == 5 {
        Some(ROp::Divuw)
    } else if funct7 == 0x01 && funct3 == 7 {
        Some(ROp::Remuw)
    } else {
        None
    }
}

/// The register-only instruction that a word encodes; `None` for any other
/// word.
pub open spec fn decode(w: u32) -> Option<RvInsn> {
    let opcode = w & 0x7f;
    let rd = ((w >> 7) & 0x1f) as u8;
    let funct3 = (w >> 12) & 0x7;
    let rs1 = ((w >> 15) & 0x1f) as u8;
    let rs2 = ((w >> 20) & 0x1f) as u8;
    let funct7 = w >> 25;
    let imm = if (w >> 20) >= 0x800 {
        ((w >> 20) - 0x1000) as i32
    } else {
        (w >> 20) as i32
    };
    let shamt = ((w >> 20) & 0x3f) as u8;
    if opcode == 0x33 {
        match decode_op(funct7, funct3) {
            Some(op) => Some(RvInsn::R { op, rd, rs1, rs2 }),
            None => None,
        }
    } else if opcode == 0x3b {
        match decode_op32(funct7, funct3) {
            Some(op) => Some(RvInsn::R { op, rd, rs1, rs2 }),
            None => None,
        }
    } else if opcode == 0x13 {
        if funct3 == 0 {
            Some(RvInsn::I { op: IOp::Addi, rd, rs1, imm })
        } else if funct3 == 1 && (w >> 26) == 0 {
            Some(RvInsn::Shift { op: ShiftOp::Slli, rd, rs1, shamt })
        } else if funct3 == 5 && (w >> 26) == 0 {
            Some(RvInsn::Shift { op: ShiftOp::Srli, rd, rs1, shamt })
        } else if funct3 == 5 && (w >> 26) == 0x10 {
            Some(RvInsn::Shift { op: ShiftOp::Srai, rd, rs1, shamt })
        } else {
            None
        }
    } else if opcode == 0x1b && funct3 == 0 {
        Some(RvInsn::I { op: IOp::Addiw, rd, rs1, imm })
    } else if opcode == 0x37 {
        Some(RvInsn::Lui { rd, imm: w & 0xffff_f000 })
    } else {
        None
    }
}

/// A register-only instruction whose fields hold what the encoding has
/// room for: register numbers below 32, a 12-bit signed immediate, a shift
/// below 64, an upper immediate without low bits.
pub open spec fn canonical(insn: RvInsn) -> bool {
    match insn {
        RvInsn::R { op, rd, rs1, rs2 } => rd < 32 && rs1 < 32 && rs2 < 32,
        RvInsn::I { op, rd, rs1, imm } => (op == IOp::Addi || op == IOp::Addiw) && rd < 32 && rs1
            < 32 && -0x800 <= imm < 0x800,
        RvInsn::Shift { op, rd, rs1, shamt } => rd < 32 && rs1 < 32 && shamt < 64,
        RvInsn::Lui { rd, imm } => rd < 32 && imm % 0x1000 == 0,
        _ => false,
    }
}

// The fields of an R-format word.
proof fn lemma_r_fields(funct7: u32, rs2: u8, rs1: u8, funct3: u32, rd: u8, opcode: u32)
    requires
        funct7 < 128,
        funct3 < 8,
        opcode < 128,
        rd < 32,
        rs1 < 32,
        rs2 < 32,
    ensures
        ({
            let w = r_word(funct7, rs2, rs1, funct3, rd, opcode);
            &&& w & 0x7f == opcode
            &&& (w >> 7) & 0x1f == rd
            &&& (w >> 12) & 0x7 == funct3
            &&& (w >> 15) & 0x1f == rs1
            &&& (w >> 20) & 0x1f == rs2
            &&& w >> 25 == funct7
        }),
{
    let a = reg_field(rs2);
    let b = reg_field(rs1);
    let c = reg_field(rd);
    assert(a == rs2 && b == rs1 && c == rd) by (bit_vector)
        requires
            a == (rs2 as u32) & 0x1f,
            b == (rs1 as u32) & 0x1f,
            c == (rd as u32) & 0x1f,
            rd < 32,
            rs1 < 32,
            rs2 < 32,
    ;
    let w = (funct7 << 25) | (a << 20) | (b << 15) | (funct3 << 12) | (c << 7) | opcode;
    assert(w & 0x7f == opcode && (w >> 7) & 0x1f == c && (w >> 12) & 0x7 == funct3 && (w >> 15)
        & 0x1f == b && (w >> 20) & 0x1f == a && w >> 25 == funct7) by (bit_vector)
        requires
            funct7 < 128,
            funct3 < 8,
            opcode < 128,
            a < 32,
            b < 32,
            c < 32,
            w == (funct7 << 25) | (a << 20) | (b << 15) | (funct3 << 12) | (c << 7) | opcode,
    ;
}

// The fields of an I-format word.
proof fn lemma_i_fields(imm: u32, rs1: u8, funct3: u32, rd: u8, opcode: u32)
    requires
        funct3 < 8,
        opcode < 128,
        rd < 32,
        rs1 < 32,
    ensures
        ({
            let w = i_word(imm, rs1, funct3, rd, opcode);
            &&& w & 0x7f == opcode
            &&& (w >> 7) & 0x1f == rd
            &&& (w >> 12) & 0x7 == funct3
            &&& (w >> 15) & 0x1f == rs1
            &&& w >> 20 == imm & 0xfff
        }),
{
    let b = reg_field(rs1);
    let c = reg_field(rd);
    assert(b == rs1 && c == rd) by (bit_vector)
        requires
            b == (rs1 as u32) & 0x1f,
            c == (rd as u32) & 0x1f,
            rd < 32,
            rs1 < 32,
    ;
    let w = ((imm & 0xfff) << 20) | (b << 15) | (funct3 << 12) | (c << 7) | opcode;
    assert(w & 0x7f == opcode && (w >> 7) & 0x1f == c && (w >> 12) & 0x7 == funct3 && (w >> 15)
        & 0x1f == b && w >> 20 == imm & 0xfff) by (bit_vector)
        requires
            funct3 < 8,
            opcode < 128,
            b < 32,
            c < 32,
            w == ((imm & 0xfff) << 20) | (b << 15) | (funct3 << 12) | (c << 7) | opcode,
    ;
}

// The low 12 bits of a 12-bit signed immediate, and the immediate read
// back from them.
proof fn lemma_imm12(imm: i32)
    requires
        -0x800 <= imm < 0x800,
    ensures
        ({
            let low = (imm as u32) & 0xfff;
            &&& low < 0x1000
            &&& (if low >= 0x800 {
                (low - 0x1000) as i32
            } else {
                low as i32
            }) == imm
        }),
{
    let low = (imm as u32) & 0xfff;
    assert(imm >= 0 ==> low == imm) by (bit_vector)
        requires
            -0x800 <= imm < 0x800,
            low == (imm as u32) & 0xfff,
    ;
    assert(imm < 0 ==> low == imm + 0x1000) by (bit_vector)
        requires
            -0x800 <= imm < 0x800,
            low == (imm as u32) & 0xfff,
    ;
}

// The fields of the I-format word of a shift.
proof fn lemma_shift_fields(funct6: u32, shamt: u8)
    requires
        funct6 == 0 || funct6 == 0x10,
        shamt < 64,
    ensures
        ({
            let imm = (funct6 << 6) | ((shamt as u32) & 0x3f);
            &&& imm & 0xfff == imm
            &&& imm & 0x3f == shamt
            &&& imm >> 6 == funct6
        }),
{
    let s = (shamt as u32) & 0x3f;
    assert(s == shamt) by (bit_vector)
        requires
            s == (shamt as u32) & 0x3f,
            shamt < 64,
    ;
    let imm = (funct6 << 6) | s;
    assert(imm & 0xfff == imm && imm & 0x3f == s && imm >> 6 == funct6) by (bit_vector)
        requires
            funct6 == 0 || funct6 == 0x10,
            s < 64,
            imm == (funct6 << 6) | s,
    ;
}

// The fields of a U-format word.
proof fn lemma_u_fields(imm: u32, rd: u8, opcode: u32)
    requires
        opcode < 128,
        rd < 32,
        imm % 0x1000 == 0,
    ensures
        ({
            let w = u_word(imm, rd, opcode);
            &&& w & 0x7f == opcode
            &&& (w >> 7) & 0x1f == rd
            &&& w & 0xffff_f000 == imm
        }),
{
    let c = reg_field(rd);
    assert(c == rd) by (bit_vector)
        requires
            c == (rd as u32) & 0x1f,
            rd < 32,
    ;
    let w = (imm & 0xffff_f000) | (c << 7) | opcode;
    assert(w & 0x7f == opcode && (w >> 7) & 0x1f == c && w & 0xffff_f000 == imm) by (bit_vector)
        requires
            opcode < 128,
            c < 32,
            imm % 0x1000 == 0,
            w == (imm & 0xffff_f000) | (c << 7) | opcode,
    ;
}

// The shift fields of a word follow from its immediate field.
proof fn lemma_shift_of_word(w: u32)
    ensures
        (w >> 20) & 0x3f == ((w >> 20) & 0xfff) & 0x3f,
        w >> 26 == (w >> 20) >> 6,
{
    assert((w >> 20) & 0x3f == ((w >> 20) & 0xfff) & 0x3f) by (bit_vector);
    assert(w >> 26 == (w >> 20) >> 6) by (bit_vector);
}

/// The word of a canonical instruction encodes that instruction and no
/// other.
pub proof fn lemma_decode_word(insn: RvInsn)
    requires
        canonical(insn),
    ensures
        decode(insn.word()) == Some(insn),
{
    match insn {
        RvInsn::R { op, rd, rs1, rs2 } => {
            lemma_r_fields(op.spec_funct7(), rs2, rs1, op.spec_funct3(), rd, op.spec_opcode());
        },
        RvInsn::I { op, rd, rs1, imm } => {
            lemma_i_fields(imm as u32, rs1, op.spec_funct3(), rd, op.spec_opcode());
            lemma_imm12(imm);
        },
        RvInsn::Shift { op, rd, rs1, shamt } => {
            let imm = (op.spec_funct6() << 6) | ((shamt as u32) & 0x3f);
            lemma_shift_fields(op.spec_funct6(), shamt);
            lemma_i_fields(imm, rs1, op.spec_funct3(), rd, 0x13);
            lemma_shift_of_word(insn.word());
        },
        RvInsn::Lui { rd, imm } => {
            lemma_u_fields(imm, rd, 0x37);
        },
        _ => {},
    }
}

/// The register file after a straight-line sequence of machine words. A
/// word that encodes no register-only instruction ends the run without a
/// result.
pub open spec fn run_words(code: Seq<u32>, regs: Seq<u64>) -> Option<Seq<u64>>
    decreases code.len(),
{
    if code.len() == 0 {
        Some(regs)
    } else {
        match run_words(code.drop_last(), regs) {
            Some(r) => match decode(code.last()) {
                Some(insn) => step(insn, r),
                None => None,
            },
            None => None,
        }
    }
}

/// The words of canonical instructions compute what the instructions
/// compute.
pub proof fn lemma_run_words(insns: Seq<RvInsn>, regs: Seq<u64>)
    requires
        forall|i: int| 0 <= i < insns.len() ==> canonical(#[trigger] insns[i]),
    ensures
        run_words(words(insns), regs) == run(insns, regs),
    decreases insns.len(),
{
    if insns.len() > 0 {
        assert(words(insns).drop_last() =~= words(insns.drop_last()));
        assert(words(insns).last() == insns.last().word());
        lemma_decode_word(insns.last());
        lemma_run_words(insns.drop_last(), regs);
    }
}

/// The instructions that materialise a value into a register below 32 are
/// canonical.
pub proof fn lemma_imm_insns_canonical(rd: u8, v: int)
    requires
        rd < 32,
        -0x8000_0000_0000_0000 <= v < 0x8000_0000_0000_0000,
    ensures
        forall|i: int| 0 <= i < imm_insns(rd, v).len() ==> canonical(#[trigger] imm_insns(rd, v)[i]),
    decreases imm_measure(v),
{
    let hi = imm_hi(v);
    let lo = imm_lo(v);
    let all = imm_insns(rd, v);
    assert(-0x800 <= lo < 0x800);
    if in_i32_range(v) {
        if hi != 0 {
            let upper = ((hi % 0x10_0000) * 0x1000) as u32;
            assert(upper == (hi % 0x10_0000) * 0x1000);
            assert(all[0] == RvInsn::Lui { rd, imm: upper });
            assert(all[1] == RvInsn::I { op: IOp::Addiw, rd, rs1: rd, imm: lo as i32 });
        } else {
            assert(all[0] == RvInsn::I { op: IOp::Addi, rd, rs1: 0, imm: lo as i32 });
        }
    } else {
        lemma_imm_hi_smaller(v);
        lemma_strip_toward_zero(hi, 51);
        lemma_strip_times_pow2(hi, 51);
        let upper = strip_low_zero_bits(hi, 51);
        let shift = low_zero_bits(hi, 51);
        lemma_imm_insns_canonical(rd, upper);
        let first = imm_insns(rd, upper);
        let slli = RvInsn::Shift { op: ShiftOp::Slli, rd, rs1: rd, shamt: (shift + 12) as u8 };
        let addi = RvInsn::I { op: IOp::Addi, rd, rs1: rd, imm: lo as i32 };
        assert(canonical(slli));
        assert(canonical(addi));
        assert forall|i: int| 0 <= i < all.len() implies canonical(#[trigger] all[i]) by {
            if i < first.len() {
                assert(all[i] == first[i]);
            } else if i == first.len() {
                assert(all[i] == slli);
            } else {
                assert(all[i] == addi);
            }
        }
    }
}

/// The words that materialise `v`, when they run, leave exactly `v` in
/// `rd` and change no other register.
pub proof fn lemma_imm_words_load(rd: u8, v: int, regs: Seq<u64>)
    requires
        regs_wf(regs),
        0 < rd < 32,
        -0x8000_0000_0000_0000 <= v < 0x8000_0000_0000_0000,
    ensures
        run_words(words(imm_insns(rd, v)), regs) == Some(write_reg(regs, rd, wrap64(v))),
{
    lemma_imm_insns_canonical(rd, v);
    lemma_run_words(imm_insns(rd, v), regs);
    lemma_imm_insns_load(rd, v, regs);
}

/// The words of a 32-bit ALU operation, when they run, leave a
/// destination whose upper 32 bits are zero.
pub proof fn lemma_alu32_words_upper_bits_zero(
    op: AluOp,
    use_imm: bool,
    rd: u8,
    rs: u8,
    imm: i32,
    regs: Seq<u64>,
)
    requires
        !is_shift(op),
        regs_wf(regs),
        0 < rd < 32,
        rs < 32,
    ensures
        run_words(words(alu_head(op, false, use_imm, rd, rs, imm) + zext_insns(rd)), regs) matches Some(
            after,
        ) && read_reg(after, rd) < 0x1_0000_0000,
{
    let insns = alu_head(op, false, use_imm, rd, rs, imm) + zext_insns(rd);
    lemma_imm_insns_canonical(RV_REG_T1, imm as int);
    lemma_imm_insns_canonical(rd, imm as int);
    assert forall|i: int| 0 <= i < insns.len() implies canonical(#[trigger] insns[i]) by {
        let head = alu_head(op, false, use_imm, rd, rs, imm);
        if i < head.len() {
            assert(insns[i] == head[i]);
            if use_imm {
                if op == AluOp::Mov {
                    assert(head[i] == imm_insns(rd, imm as int)[i]);
                } else if i < imm_insns(RV_REG_T1, imm as int).len() {
                    assert(head[i] == imm_insns(RV_REG_T1, imm as int)[i]);
                }
            }
        } else {
            assert(insns[i] == zext_insns(rd)[i - head.len()]);
        }
    }
    lemma_run_words(insns, regs);
    lemma_alu32_upper_bits_zero(op, use_imm, rd, rs, imm, regs);
}

} // verus!
