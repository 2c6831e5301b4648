//! RV64 specifics of the probe engine: how long an instruction is, whether
//! it can run out of line, and what an instruction that cannot does to the
//! trapped registers.

use vstd::prelude::*;
use riscv_decode::Instruction;
use crate::probe::trapframe::{TrapFrame, spec_get_reg, spec_set_reg, get_reg, set_reg};

verus! {

/// How the instruction under a probe is stepped over.
#[derive(Clone, Copy, Debug, PartialEq, Eq, Structural)]
pub enum SingleStepType {
    /// The instruction cannot be probed.
    Unsupported,
    /// The instruction runs from a copy, out of line.
    Execute,
    /// The effect of the instruction is computed on the trapped registers:
    /// it depends on the address that the instruction stands at.
    Emulate,
}

/// What the decoder makes of an instruction word, as far as the probe
/// engine distinguishes.
#[derive(Clone, Copy, Debug, PartialEq, Eq, Structural)]
pub enum InsnKind {
    Auipc,
    Jal,
    Jalr,
    Beq,
    Bne,
    Blt,
    Bge,
    Bltu,
    Bgeu,
    /// The compressed jump `c.j`.
    CJ,
    /// The compressed jump to a register, `c.jr`.
    CJr,
    /// The compressed call through a register, `c.jalr`.
    CJalr,
    /// The compressed branch `c.beqz`.
    CBeqz,
    /// The compressed branch `c.bnez`.
    CBnez,
    /// Any other instruction that the decoder knows.
    Other,
    /// A word that the decoder refuses.
    Undecodable,
}

/// What `riscv_decode::decode` makes of a word, reduced to an `InsnKind`.
pub uninterp spec fn decoded_kind(word: u32) -> InsnKind;

/// Calls `riscv_decode::decode` and tells the variants of its result
/// apart. The result is a function of the word alone; its name in
/// contracts is `decoded_kind`.
#[verifier::external_body]
fn decode_kind(word: u32) -> (kind: InsnKind)
    ensures
        kind == decoded_kind(word),
{
    match riscv_decode::decode(word) {
        Ok(Instruction::Auipc(_)) => InsnKind::Auipc,
        Ok(Instruction::Jal(_)) => InsnKind::Jal,
        Ok(Instruction::Jalr(_)) => InsnKind::Jalr,
        Ok(Instruction::Beq(_)) => InsnKind::Beq,
        Ok(Instruction::Bne(_)) => InsnKind::Bne,
        Ok(Instruction::Blt(_)) => InsnKind::Blt,
        Ok(Instruction::Bge(_)) => InsnKind::Bge,
        Ok(Instruction::Bltu(_)) => InsnKind::Bltu,
        Ok(Instruction::Bgeu(_)) => InsnKind::Bgeu,
        Ok(_) => InsnKind::Other,
        Err(_) => InsnKind::Undecodable,
    }
}

/// The length in bytes of the instruction whose low 16 bits are `i`, as
/// `riscv_decode::instruction_length` computes it.
pub open spec fn spec_instruction_length(i: u16) -> usize {
    if i & 0b11 != 0b11 {
        2
    } else if i & 0b11100 != 0b11100 {
        4
    } else if i & 0b111111 == 0b011111 {
        6
    } else if i & 0b1111111 == 0b011111 {
        8
    } else {
        (10 + 2 * (((i >> 12) & 0b111) as usize)) as usize
    }
}

/// `riscv_decode::instruction_length` reads the length of an instruction
/// off its low 16 bits: 2 for a compressed one, 4 for a standard one, and
/// more for the longer encodings.
pub assume_specification[ riscv_decode::instruction_length ](i: u16) -> (len: usize)
    ensures
        len == spec_instruction_length(i),
;

/// The length of the instruction whose first 32 bits are `insn`.
pub open spec fn spec_insn_length(insn: u32) -> usize {
    spec_instruction_length((insn & 0xffff) as u16)
}

/// The word that is handed to the decoder: a compressed instruction
/// without the 16 bits that follow it.
pub open spec fn decoder_input(insn: u32) -> u32 {
    if spec_insn_length(insn) == 2 {
        insn & 0xffff
    } else {
        insn
    }
}

/// The register that a compressed jump through a register reads.
pub open spec fn spec_c_rs1(insn: u32) -> u32 {
    (insn >> 7) & 0x1f
}

/// The register that a compressed branch tests: one of `x8` to `x15`.
pub open spec fn spec_c_rs1_short(insn: u32) -> u32 {
    (8 + ((insn >> 7) & 0x7)) as u32
}

/// The compressed control transfer that the 16 bits `half` encode, if they
/// encode one. The decoder knows none of these encodings, so they are told
/// apart here: `c.j`, `c.beqz` and `c.bnez` by their quadrant and function
/// bits, `c.jr` and `c.jalr` by the empty second register and a first
/// register other than `x0`.
pub open spec fn spec_compressed_transfer(half: u32) -> Option<InsnKind> {
    if half & 0x3 == 1 {
        if (half >> 13) & 0x7 == 5 {
            Some(InsnKind::CJ)
        } else if (half >> 13) & 0x7 == 6 {
            Some(InsnKind::CBeqz)
        } else if (half >> 13) & 0x7 == 7 {
            Some(InsnKind::CBnez)
        } else {
            None
        }
    } else if half & 0x3 == 2 && (half >> 13) & 0x7 == 4 && (half >> 2) & 0x1f == 0 && (half >> 7)
        & 0x1f != 0 {
        if (half >> 12) & 0x1 == 0 {
            Some(InsnKind::CJr)
        } else {
            Some(InsnKind::CJalr)
        }
    } else {
        None
    }
}

/// The kind of the instruction whose first 32 bits are `insn`: a
/// compressed control transfer where the low 16 bits encode one, and what
/// the decoder says otherwise.
pub open spec fn spec_insn_kind(insn: u32) -> InsnKind {
    if spec_insn_length(insn) == 2 {
        match spec_compressed_transfer(insn & 0xffff) {
            Some(kind) => kind,
            None => decoded_kind(decoder_input(insn)),
        }
    } else {
        decoded_kind(decoder_input(insn))
    }
}

/// How an instruction of the given length and kind is stepped over.
/// Instructions that transfer control or read the program counter are
/// emulated, the compressed jumps and branches among them; what the
/// decoder refuses, and what is neither 2 nor 4 bytes long, cannot be
/// probed. Among the compressed encodings the decoder knows the loads and
/// stores only, so any other compressed instruction that is no control
/// transfer cannot be probed.
pub open spec fn step_type(len: usize, kind: InsnKind) -> SingleStepType {
    if len != 2 && len != 4 {
        SingleStepType::Unsupported
    } else {
        match kind {
            InsnKind::Undecodable => SingleStepType::Unsupported,
            InsnKind::Other => SingleStepType::Execute,
            _ => SingleStepType::Emulate,
        }
    }
}

/// The length of the instruction whose first 32 bits are `insn`.
pub fn get_insn_length(insn: u32) -> (len: usize)
    ensures
        len == spec_insn_length(insn),
{
    riscv_decode::instruction_length((insn & 0xffff) as u16)
}

/// The compressed control transfer that the 16 bits `half` encode, if they
/// encode one.
pub fn compressed_transfer(half: u32) -> (r: Option<InsnKind>)
    ensures
        r == spec_compressed_transfer(half),
{
    let funct: u32 = (half >> 13) & 0x7;
    if half & 0x3 == 1 {
        if funct == 5 {
            Some(InsnKind::CJ)
        } else if funct == 6 {
            Some(InsnKind::CBeqz)
        } else if funct == 7 {
            Some(InsnKind::CBnez)
        } else {
            None
        }
    } else if half & 0x3 == 2 && funct == 4 && (half >> 2) & 0x1f == 0 && (half >> 7) & 0x1f != 0 {
        if (half >> 12) & 0x1 == 0 {
            Some(InsnKind::CJr)
        } else {
            Some(InsnKind::CJalr)
        }
    } else {
        None
    }
}

/// The kind of the instruction whose first 32 bits are `insn`.
pub fn get_insn_kind(insn: u32) -> (kind: InsnKind)
    ensures
        kind == spec_insn_kind(insn),
{
    if get_insn_length(insn) == 2 {
        match compressed_transfer(insn & 0xffff) {
            Some(kind) => kind,
            None => decode_kind(insn & 0xffff),
        }
    } else {
        decode_kind(insn)
    }
}

/// How an instruction of the given length and kind is stepped over.
pub fn insn_step_type(len: usize, kind: InsnKind) -> (t: SingleStepType)
    ensures
        t == step_type(len, kind),
{
    if len != 2 && len != 4 {
        return SingleStepType::Unsupported;
    }
    match kind {
        InsnKind::Undecodable => SingleStepType::Unsupported,
        InsnKind::Other => SingleStepType::Execute,
        _ => SingleStepType::Emulate,
    }
}

/// How the instruction whose first 32 bits are `insn` is stepped over.
pub fn get_insn_type(insn: u32) -> (t: SingleStepType)
    ensures
        t == step_type(spec_insn_length(insn), spec_insn_kind(insn)),
{
    let len: usize = get_insn_length(insn);
    if len != 2 && len != 4 {
        return SingleStepType::Unsupported;
    }
    insn_step_type(len, get_insn_kind(insn))
}

/// The destination register of an instruction word.
pub open spec fn spec_rd(insn: u32) -> u32 {
    (insn >> 7) & 0x1f
}

/// The first source register of an instruction word.
pub open spec fn spec_rs1(insn: u32) -> u32 {
    (insn >> 15) & 0x1f
}

/// The second source register of an instruction word.
pub open spec fn spec_rs2(insn: u32) -> u32 {
    (insn >> 20) & 0x1f
}

/// The 21 bits of the jump offset of a J-format word.
pub open spec fn j_imm_bits(insn: u32) -> u32 {
    ((insn & 0x8000_0000) >> 11) | ((insn & 0x7fe0_0000) >> 20) | ((insn & 0x0010_0000) >> 9) | (insn
        & 0x000f_f000)
}

/// The 13 bits of the branch offset of a B-format word.
pub open spec fn b_imm_bits(insn: u32) -> u32 {
    ((insn & 0x8000_0000) >> 19) | ((insn & 0x7e00_0000) >> 20) | ((insn & 0x0000_0f00) >> 7) | ((
    insn & 0x0000_0080) << 4)
}

/// The 12 bits of the jump offset of a compressed jump.
pub open spec fn cj_imm_bits(insn: u32) -> u32 {
    ((insn & 0x1000) >> 1) | ((insn & 0x800) >> 7) | ((insn & 0x600) >> 1) | ((insn & 0x100) << 2) | ((
    insn & 0x80) >> 1) | ((insn & 0x40) << 1) | ((insn & 0x38) >> 2) | ((insn & 0x4) << 3)
}

/// The 9 bits of the branch offset of a compressed branch.
pub open spec fn cb_imm_bits(insn: u32) -> u32 {
    ((insn & 0x1000) >> 4) | ((insn & 0xc00) >> 7) | ((insn & 0x60) << 1) | ((insn & 0x18) >> 2) | ((
    insn & 0x4) << 3)
}

/// The signed jump offset of a compressed jump.
pub open spec fn spec_cj_offset(insn: u32) -> int {
    if cj_imm_bits(insn) >= 0x800 {
        cj_imm_bits(insn) - 0x1000
    } else {
        cj_imm_bits(insn) as int
    }
}

/// The signed branch offset of a compressed branch.
pub open spec fn spec_cb_offset(insn: u32) -> int {
    if cb_imm_bits(insn) >= 0x100 {
        cb_imm_bits(insn) - 0x200
    } else {
        cb_imm_bits(insn) as int
    }
}

/// The signed jump offset of a J-format word.
pub open spec fn spec_j_offset(insn: u32) -> int {
    if j_imm_bits(insn) >= 0x10_0000 {
        j_imm_bits(insn) - 0x20_0000
    } else {
        j_imm_bits(insn) as int
    }
}

/// The signed branch offset of a B-format word.
pub open spec fn spec_b_offset(insn: u32) -> int {
    if b_imm_bits(insn) >= 0x1000 {
        b_imm_bits(insn) - 0x2000
    } else {
        b_imm_bits(insn) as int
    }
}

/// The signed 12-bit immediate of an I-format word.
pub open spec fn spec_i_offset(insn: u32) -> int {
    if (insn >> 20) >= 0x800 {
        (insn >> 20) - 0x1000
    } else {
        (insn >> 20) as int
    }
}

/// The signed upper immediate of a U-format word.
pub open spec fn spec_u_offset(insn: u32) -> int {
    if (insn & 0xffff_f000) >= 0x8000_0000 {
        (insn & 0xffff_f000) - 0x1_0000_0000
    } else {
        (insn & 0xffff_f000) as int
    }
}

/// An address moved by a signed offset, wrapping around at the ends of the
/// address space.
pub open spec fn offset_pc(pc: usize, off: int) -> usize
    recommends
        -0x8000_0000 <= off < 0x8000_0000,
{
    if pc + off > usize::MAX {
        (pc + off - usize::MAX - 1) as usize
    } else if pc + off < 0 {
        (pc + off + usize::MAX + 1) as usize
    } else {
        (pc + off) as usize
    }
}

/// A register value read as a signed number.
pub open spec fn signed(v: usize) -> int {
    if v > isize::MAX {
        v - usize::MAX - 1
    } else {
        v as int
    }
}

/// Whether a branch of the given kind is taken for two register values.
pub open spec fn branch_holds(kind: InsnKind, a: usize, b: usize) -> bool {
    match kind {
        InsnKind::Beq => a == b,
        InsnKind::Bne => a != b,
        InsnKind::Blt => signed(a) < signed(b),
        InsnKind::Bge => signed(a) >= signed(b),
        InsnKind::Bltu => a < b,
        InsnKind::Bgeu => a >= b,
        _ => false,
    }
}

/// Whether the effect of an instruction of this kind is computed in
/// software.
pub open spec fn is_emulated(kind: InsnKind) -> bool {
    kind != InsnKind::Other && kind != InsnKind::Undecodable
}

/// The trapped registers after the instruction `insn` of kind `kind`, which
/// stands at `pc`, has had its effect.
///
/// A jump links the address of the next instruction into its destination
/// register and sets the program counter to its target; `jalr` takes the
/// target from its source register, read before the link is written. A
/// branch sets the program counter to its target if it is taken and to the
/// next instruction if not. `auipc` writes the sum of `pc` and its upper
/// immediate. A compressed instruction is two bytes long: `c.jalr` links
/// `pc + 2` into the return address register, and a compressed branch,
/// which tests one register against zero, goes on at `pc + 2` if it is not
/// taken. Other kinds leave the registers as they are.
pub open spec fn spec_emulate(tf: TrapFrame, kind: InsnKind, insn: u32, pc: usize) -> TrapFrame {
    let next = offset_pc(pc, 4);
    let next_short = offset_pc(pc, 2);
    match kind {
        InsnKind::CJ => TrapFrame { sepc: offset_pc(pc, spec_cj_offset(insn)), ..tf },
        InsnKind::CJr => TrapFrame { sepc: spec_get_reg(tf, spec_c_rs1(insn)), ..tf },
        InsnKind::CJalr => spec_set_reg(
            TrapFrame { sepc: spec_get_reg(tf, spec_c_rs1(insn)), ..tf },
            1,
            next_short,
        ),
        InsnKind::CBeqz => TrapFrame {
            sepc: if spec_get_reg(tf, spec_c_rs1_short(insn)) == 0 {
                offset_pc(pc, spec_cb_offset(insn))
            } else {
                next_short
            },
            ..tf
        },
        InsnKind::CBnez => TrapFrame {
            sepc: if spec_get_reg(tf, spec_c_rs1_short(insn)) != 0 {
                offset_pc(pc, spec_cb_offset(insn))
            } else {
                next_short
            },
            ..tf
        },
        InsnKind::Jal => spec_set_reg(
            TrapFrame { sepc: offset_pc(pc, spec_j_offset(insn)), ..tf },
            spec_rd(insn),
            next,
        ),
        InsnKind::Jalr => spec_set_reg(
            TrapFrame {
                sepc: offset_pc(spec_get_reg(tf, spec_rs1(insn)), spec_i_offset(insn)),
                ..tf
            },
            spec_rd(insn),
            next,
        ),
        InsnKind::Auipc => spec_set_reg(
            TrapFrame { sepc: next, ..tf },
            spec_rd(insn),
            offset_pc(pc, spec_u_offset(insn)),
        ),
        InsnKind::Other | InsnKind::Undecodable => tf,
        _ => TrapFrame {
            sepc: if branch_holds(
                kind,
                spec_get_reg(tf, spec_rs1(insn)),
                spec_get_reg(tf, spec_rs2(insn)),
            ) {
                offset_pc(pc, spec_b_offset(insn))
            } else {
                next
            },
            ..tf
        },
    }
}

fn rd(insn: u32) -> (r: u32)
    ensures
        r == spec_rd(insn),
        r < 32,
{
    assert((insn >> 7) & 0x1f < 32) by (bit_vector);
    (insn >> 7) & 0x1f
}

fn rs1(insn: u32) -> (r: u32)
    ensures
        r == spec_rs1(insn),
        r < 32,
{
    assert((insn >> 15) & 0x1f < 32) by (bit_vector);
    (insn >> 15) & 0x1f
}

fn rs2(insn: u32) -> (r: u32)
    ensures
        r == spec_rs2(insn),
        r < 32,
{
    assert((insn >> 20) & 0x1f < 32) by (bit_vector);
    (insn >> 20) & 0x1f
}

fn c_rs1(insn: u32) -> (r: u32)
    ensures
        r == spec_c_rs1(insn),
        r < 32,
{
    assert((insn >> 7) & 0x1f < 32) by (bit_vector);
    (insn >> 7) & 0x1f
}

fn c_rs1_short(insn: u32) -> (r: u32)
    ensures
        r == spec_c_rs1_short(insn),
        r < 32,
{
    assert((insn >> 7) & 0x7 < 8) by (bit_vector);
    8 + ((insn >> 7) & 0x7)
}

fn cj_offset(insn: u32) -> (off: i32)
    ensures
        off == spec_cj_offset(insn),
        -0x800 <= off < 0x800,
{
    let raw: u32 = ((insn & 0x1000) >> 1) | ((insn & 0x800) >> 7) | ((insn & 0x600) >> 1) | ((insn
        & 0x100) << 2) | ((insn & 0x80) >> 1) | ((insn & 0x40) << 1) | ((insn & 0x38) >> 2) | ((insn
        & 0x4) << 3);
    assert(((insn & 0x1000) >> 1) | ((insn & 0x800) >> 7) | ((insn & 0x600) >> 1) | ((insn & 0x100)
        << 2) | ((insn & 0x80) >> 1) | ((insn & 0x40) << 1) | ((insn & 0x38) >> 2) | ((insn & 0x4)
        << 3) < 0x1000) by (bit_vector);
    if raw >= 0x800 {
        raw as i32 - 0x1000
    } else {
        raw as i32
    }
}

fn cb_offset(insn: u32) -> (off: i32)
    ensures
        off == spec_cb_offset(insn),
        -0x100 <= off < 0x100,
{
    let raw: u32 = ((insn & 0x1000) >> 4) | ((insn & 0xc00) >> 7) | ((insn & 0x60) << 1) | ((insn
        & 0x18) >> 2) | ((insn & 0x4) << 3);
    assert(((insn & 0x1000) >> 4) | ((insn & 0xc00) >> 7) | ((insn & 0x60) << 1) | ((insn & 0x18)
        >> 2) | ((insn & 0x4) << 3) < 0x200) by (bit_vector);
    if raw >= 0x100 {
        raw as i32 - 0x200
    } else {
        raw as i32
    }
}

fn j_offset(insn: u32) -> (off: i32)
    ensures
        off == spec_j_offset(insn),
        -0x10_0000 <= off < 0x10_0000,
{
    let raw: u32 = ((insn & 0x8000_0000) >> 11) | ((insn & 0x7fe0_0000) >> 20) | ((insn
        & 0x0010_0000) >> 9) | (insn & 0x000f_f000);
    assert(((insn & 0x8000_0000) >> 11) | ((insn & 0x7fe0_0000) >> 20) | ((insn & 0x0010_0000) >> 9)
        | (insn & 0x000f_f000) < 0x20_0000) by (bit_vector);
    if raw >= 0x10_0000 {
        raw as i32 - 0x20_0000
    } else {
        raw as i32
    }
}

fn b_offset(insn: u32) -> (off: i32)
    ensures
        off == spec_b_offset(insn),
        -0x1000 <= off < 0x1000,
{
    let raw: u32 = ((insn & 0x8000_0000) >> 19) | ((insn & 0x7e00_0000) >> 20) | ((insn
        & 0x0000_0f00) >> 7) | ((insn & 0x0000_0080) << 4);
    assert(((insn & 0x8000_0000) >> 19) | ((insn & 0x7e00_0000) >> 20) | ((insn & 0x0000_0f00) >> 7)
        | ((insn & 0x0000_0080) << 4) < 0x2000) by (bit_vector);
    if raw >= 0x1000 {
        raw as i32 - 0x2000
    } else {
        raw as i32
    }
}

fn i_offset(insn: u32) -> (off: i32)
    ensures
        off == spec_i_offset(insn),
        -0x800 <= off < 0x800,
{
    let raw: u32 = insn >> 20;
    assert(insn >> 20 < 0x1000) by (bit_vector);
    if raw >= 0x800 {
        raw as i32 - 0x1000
    } else {
        raw as i32
    }
}

fn u_offset(insn: u32) -> (off: i64)
    ensures
        off == spec_u_offset(insn),
        -0x8000_0000 <= off < 0x8000_0000,
{
    let raw: u32 = insn & 0xffff_f000;
    if raw >= 0x8000_0000 {
        raw as i64 - 0x1_0000_0000
    } else {
        raw as i64
    }
}

// Moves an address by a signed offset, wrapping around.
fn add_offset(pc: usize, off: i64) -> (r: usize)
    requires
        -0x8000_0000 <= off < 0x8000_0000,
    ensures
        r == offset_pc(pc, off as int),
{
    if off >= 0 {
        let step: usize = off as usize;
        if pc > usize::MAX - step {
            step - (usize::MAX - pc) - 1
        } else {
            pc + step
        }
    } else {
        let step: usize = (-off) as usize;
        if pc < step {
            usize::MAX - (step - pc) + 1
        } else {
            pc - step
        }
    }
}

// Whether `a` is less than `b` when both are read as signed numbers.
fn signed_less(a: usize, b: usize) -> (r: bool)
    ensures
        r == (signed(a) < signed(b)),
{
    let top: usize = isize::MAX as usize;
    if a > top && b <= top {
        true
    } else if a <= top && b > top {
        false
    } else {
        a < b
    }
}

fn branch_taken(kind: InsnKind, a: usize, b: usize) -> (r: bool)
    ensures
        r == branch_holds(kind, a, b),
{
    match kind {
        InsnKind::Beq => a == b,
        InsnKind::Bne => a != b,
        InsnKind::Blt => signed_less(a, b),
        InsnKind::Bge => !signed_less(a, b),
        InsnKind::Bltu => a < b,
        InsnKind::Bgeu => a >= b,
        _ => false,
    }
}

/// Gives the instruction `insn` of kind `kind`, which stands at `pc`, its
/// effect on the trapped registers. Returns whether the kind is one that is
/// emulated.
pub fn emulate_kind(tf: &mut TrapFrame, kind: InsnKind, insn: u32, pc: usize) -> (done: bool)
    ensures
        done == is_emulated(kind),
        *final(tf) == spec_emulate(*old(tf), kind, insn, pc),
{
    let next: usize = add_offset(pc, 4);
    let next_short: usize = add_offset(pc, 2);
    match kind {
        InsnKind::CJ => {
            tf.sepc = add_offset(pc, cj_offset(insn) as i64);
            true
        },
        InsnKind::CJr => {
            tf.sepc = get_reg(tf, c_rs1(insn));
            true
        },
        InsnKind::CJalr => {
            tf.sepc = get_reg(tf, c_rs1(insn));
            set_reg(tf, 1, next_short);
            true
        },
        InsnKind::CBeqz => {
            if get_reg(tf, c_rs1_short(insn)) == 0 {
                tf.sepc = add_offset(pc, cb_offset(insn) as i64);
            } else {
                tf.sepc = next_short;
            }
            true
        },
        InsnKind::CBnez => {
            if get_reg(tf, c_rs1_short(insn)) != 0 {
                tf.sepc = add_offset(pc, cb_offset(insn) as i64);
            } else {
                tf.sepc = next_short;
            }
            true
        },
        InsnKind::Jal => {
            tf.sepc = add_offset(pc, j_offset(insn) as i64);
            set_reg(tf, rd(insn), next);
            true
        },
        InsnKind::Jalr => {
            tf.sepc = add_offset(get_reg(tf, rs1(insn)), i_offset(insn) as i64);
            set_reg(tf, rd(insn), next);
            true
        },
        InsnKind::Auipc => {
            tf.sepc = next;
            set_reg(tf, rd(insn), add_offset(pc, u_offset(insn)));
            true
        },
        InsnKind::Other | InsnKind::Undecodable => false,
        _ => {
            let a: usize = get_reg(tf, rs1(insn));
            let b: usize = get_reg(tf, rs2(insn));
            if branch_taken(kind, a, b) {
                tf.sepc = add_offset(pc, b_offset(insn) as i64);
            } else {
                tf.sepc = next;
            }
            true
        },
    }
}

/// Gives the instruction `insn`, which stands at `pc`, its effect on the
/// trapped registers, if it is of a kind that is emulated.
pub fn emulate_execution(tf: &mut TrapFrame, insn: u32, pc: usize) -> (done: bool)
    ensures
        done == is_emulated(spec_insn_kind(insn)),
        *final(tf) == spec_emulate(*old(tf), spec_insn_kind(insn), insn, pc),
{
    let kind = get_insn_kind(insn);
    emulate_kind(tf, kind, insn, pc)
}

/// Whether an instruction calls a function: a `jal` or `jalr` that links
/// into the return address register, or a compressed `c.jalr`, which
/// always does.
pub open spec fn spec_is_function_call(kind: InsnKind, insn: u32) -> bool {
    ((kind == InsnKind::Jal || kind == InsnKind::Jalr) && spec_rd(insn) == 1) || kind
        == InsnKind::CJalr
}

/// Whether an instruction calls a function.
pub fn is_function_call(kind: InsnKind, insn: u32) -> (r: bool)
    ensures
        r == spec_is_function_call(kind, insn),
{
    match kind {
        InsnKind::Jal => rd(insn) == 1,
        InsnKind::Jalr => rd(insn) == 1,
        InsnKind::CJalr => true,
        _ => false,
    }
}

/// The 16-bit little-endian number at `at`.
pub open spec fn read_u16(code: Seq<u8>, at: int) -> int {
    code[at] + code[at + 1] * 0x100
}

/// The instruction word at `at`: 32 bits where four bytes are left, and
/// the 16 bits that are there otherwise.
pub open spec fn word_at(code: Seq<u8>, at: int) -> u32 {
    if at + 4 <= code.len() {
        (read_u16(code, at) + read_u16(code, at + 2) * 0x1_0000) as u32
    } else {
        read_u16(code, at) as u32
    }
}

/// The offsets, from `cur` on, of the instructions of `code` that call a
/// function. The scan takes each instruction to be as long as its low 16
/// bits say, whether the decoder knows it or not, and ends where fewer
/// bytes are left than the next instruction has.
pub open spec fn call_offsets(code: Seq<u8>, cur: int) -> Seq<int>
    decreases code.len() - cur,
{
    if cur < 0 || cur + 2 > code.len() {
        Seq::empty()
    } else {
        let insn = word_at(code, cur);
        let len = spec_insn_length(insn);
        if cur + len > code.len() || len < 2 {
            Seq::empty()
        } else if spec_is_function_call(spec_insn_kind(insn), insn) {
            seq![cur] + call_offsets(code, cur + len)
        } else {
            call_offsets(code, cur + len)
        }
    }
}

/// The addresses of the instructions that call a function in the code of a
/// function, which `code` holds and which stands at `base`.
pub fn foreach_function_call(code: &[u8], base: usize) -> (calls: Vec<usize>)
    requires
        base + code@.len() <= usize::MAX,
    ensures
        calls@.len() == call_offsets(code@, 0).len(),
        forall|i: int|
            0 <= i < calls@.len() ==> #[trigger] calls@[i] == base + call_offsets(code@, 0)[i],
{
    let n: usize = code.len();
    let mut calls: Vec<usize> = Vec::new();
    let mut cur: usize = 0;
    while cur < n && n - cur >= 2
        invariant
            cur <= n,
            n == code@.len(),
            base + n <= usize::MAX,
            call_offsets(code@, 0).len() == calls@.len() + call_offsets(code@, cur as int).len(),
            forall|i: int|
                0 <= i < calls@.len() ==> #[trigger] calls@[i] == base + call_offsets(code@, 0)[i],
            forall|i: int|
                0 <= i < call_offsets(code@, cur as int).len() ==> call_offsets(
                    code@,
                    0,
                )[calls@.len() + i] == #[trigger] call_offsets(code@, cur as int)[i],
        decreases n - cur,
    {
        let low: u32 = code[cur] as u32 + (code[cur + 1] as u32) * 0x100;
        let insn: u32 = if n - cur >= 4 {
            low + (code[cur + 2] as u32 + (code[cur + 3] as u32) * 0x100) * 0x1_0000
        } else {
            low
        };
        let len: usize = get_insn_length(insn);
        if len < 2 || len > n - cur {
            return calls;
        }
        let ghost rest = call_offsets(code@, cur as int);
        let ghost tail = call_offsets(code@, cur + len);
        if is_function_call(get_insn_kind(insn), insn) {
            proof {
                assert(rest =~= seq![cur as int] + tail);
                assert(rest[0] == cur);
                assert forall|i: int| 0 <= i < tail.len() implies call_offsets(
                    code@,
                    0,
                )[calls@.len() + 1 + i] == #[trigger] tail[i] by {
                    assert(rest[i + 1] == tail[i]);
                }
            }
            calls.push(base + cur);
        }
        cur += len;
    }
    calls
}

} // verus!
