//! RV64 instructions as the compiler emits them, and their machine encoding.

use vstd::prelude::*;

verus! {

pub const RV_REG_ZERO: u8 = 0;
pub const RV_REG_RA: u8 = 1;
pub const RV_REG_SP: u8 = 2;
pub const RV_REG_T1: u8 = 6;
pub const RV_REG_T2: u8 = 7;
pub const RV_REG_FP: u8 = 8;
pub const RV_REG_S1: u8 = 9;
pub const RV_REG_A0: u8 = 10;
pub const RV_REG_A1: u8 = 11;
pub const RV_REG_A2: u8 = 12;
pub const RV_REG_A3: u8 = 13;
pub const RV_REG_A4: u8 = 14;
pub const RV_REG_A5: u8 = 15;
pub const RV_REG_S2: u8 = 18;
pub const RV_REG_S3: u8 = 19;
pub const RV_REG_S4: u8 = 20;
pub const RV_REG_S5: u8 = 21;

/// Register-register operations.
#[derive(Clone, Copy, Debug, PartialEq, Eq, Structural)]
pub enum ROp {
    Add, Sub, Sll, Srl, Sra, Xor, Or, And, Mul, Divu, Remu, Subw, Mulw, Divuw, Remuw,
}

/// Operations with a 12-bit immediate: arithmetic, loads and `jalr`.
#[derive(Clone, Copy, Debug, PartialEq, Eq, Structural)]
pub enum IOp {
    Addi, Addiw, Jalr, Lb, Lh, Lw, Ld, Lbu, Lhu, Lwu,
}

/// Shifts by a constant of up to 63 bits.
#[derive(Clone, Copy, Debug, PartialEq, Eq, Structural)]
pub enum ShiftOp {
    Slli, Srli, Srai,
}

/// Stores.
#[derive(Clone, Copy, Debug, PartialEq, Eq, Structural)]
pub enum SOp {
    Sb, Sh, Sw, Sd,
}

/// Conditional branches.
#[derive(Clone, Copy, Debug, PartialEq, Eq, Structural)]
pub enum BOp {
    Beq, Bne, Blt, Bge, Bltu, Bgeu,
}

/// One RV64 instruction of the subset that the compiler emits.
///
/// Register fields hold a register number; only the low five bits are encoded.
/// Immediates are encoded in as many bits as the format has.
#[allow(inconsistent_fields)]
#[derive(Clone, Copy, Debug, PartialEq, Eq, Structural)]
pub enum RvInsn {
    /// `op rd, rs1, rs2`
    R { op: ROp, rd: u8, rs1: u8, rs2: u8 },
    /// `op rd, rs1, imm` or `op rd, imm(rs1)`
    I { op: IOp, rd: u8, rs1: u8, imm: i32 },
    /// `op rd, rs1, shamt`
    Shift { op: ShiftOp, rd: u8, rs1: u8, shamt: u8 },
    /// `op rs2, imm(rs1)`
    S { op: SOp, rs1: u8, rs2: u8, imm: i32 },
    /// `op rs1, rs2, pc + imm`
    B { op: BOp, rs1: u8, rs2: u8, imm: i32 },
    /// `lui rd, imm`: `imm` is the value loaded, its low 12 bits ignored.
    Lui { rd: u8, imm: u32 },
    /// `auipc rd, imm`: `imm` is the value added to the pc, its low 12 bits ignored.
    Auipc { rd: u8, imm: u32 },
    /// `jal rd, pc + imm`
    Jal { rd: u8, imm: i32 },
}

impl ROp {
    pub open spec fn spec_funct7(self) -> u32 {
        match self {
            ROp::Sub | ROp::Sra | ROp::Subw => 0x20,
            ROp::Mul | ROp::Divu | ROp::Remu | ROp::Mulw | ROp::Divuw | ROp::Remuw => 0x01,
            _ => 0x00,
        }
    }

    pub open spec fn spec_funct3(self) -> u32 {
        match self {
            ROp::Add | ROp::Sub | ROp::Mul | ROp::Subw | ROp::Mulw => 0,
            ROp::Sll => 1,
            ROp::Xor => 4,
            ROp::Srl | ROp::Sra | ROp::Divu | ROp::Divuw => 5,
            ROp::Or => 6,
            ROp::And | ROp::Remu | ROp::Remuw => 7,
        }
    }

    pub open spec fn spec_opcode(self) -> u32 {
        match self {
            ROp::Subw | ROp::Mulw | ROp::Divuw | ROp::Remuw => 0x3b,
            _ => 0x33,
        }
    }

    fn funct7(self) -> (f: u32)
        ensures
            f == self.spec_funct7(),
    {
        match self {
            ROp::Sub | ROp::Sra | ROp::Subw => 0x20,
            ROp::Mul | ROp::Divu | ROp::Remu | ROp::Mulw | ROp::Divuw | ROp::Remuw => 0x01,
            _ => 0x00,
        }
    }

    fn funct3(self) -> (f: u32)
        ensures
            f == self.spec_funct3(),
    {
        match self {
            ROp::Add | ROp::Sub | ROp::Mul | ROp::Subw | ROp::Mulw => 0,
            ROp::Sll => 1,
            ROp::Xor => 4,
            ROp::Srl | ROp::Sra | ROp::Divu | ROp::Divuw => 5,
            ROp::Or => 6,
            ROp::And | ROp::Remu | ROp::Remuw => 7,
        }
    }

    fn opcode(self) -> (f: u32)
        ensures
            f == self.spec_opcode(),
    {
        match self {
            ROp::Subw | ROp::Mulw | ROp::Divuw | ROp::Remuw => 0x3b,
            _ => 0x33,
        }
    }
}

impl IOp {
    pub open spec fn spec_funct3(self) -> u32 {
        match self {
            IOp::Addi | IOp::Addiw | IOp::Jalr | IOp::Lb => 0,
            IOp::Lh => 1,
            IOp::Lw => 2,
            IOp::Ld => 3,
            IOp::Lbu => 4,
            IOp::Lhu => 5,
            IOp::Lwu => 6,
        }
    }

    pub open spec fn spec_opcode(self) -> u32 {
        match self {
            IOp::Addi => 0x13,
            IOp::Addiw => 0x1b,
            IOp::Jalr => 0x67,
            _ => 0x03,
        }
    }

    fn funct3(self) -> (f: u32)
        ensures
            f == self.spec_funct3(),
    {
        match self {
            IOp::Addi | IOp::Addiw | IOp::Jalr | IOp::Lb => 0,
            IOp::Lh => 1,
            IOp::Lw => 2,
            IOp::Ld => 3,
            IOp::Lbu => 4,
            IOp::Lhu => 5,
            IOp::Lwu => 6,
        }
    }

    fn opcode(self) -> (f: u32)
        ensures
            f == self.spec_opcode(),
    {
        match self {
            IOp::Addi => 0x13,
            IOp::Addiw => 0x1b,
            IOp::Jalr => 0x67,
            _ => 0x03,
        }
    }
}

impl ShiftOp {
    pub open spec fn spec_funct3(self) -> u32 {
        match self {
            ShiftOp::Slli => 1,
            _ => 5,
        }
    }

    pub open spec fn spec_funct6(self) -> u32 {
        match self {
            ShiftOp::Srai => 0x10,
            _ => 0,
        }
    }

    fn funct3(self) -> (f: u32)
        ensures
            f == self.spec_funct3(),
    {
        match self {
            ShiftOp::Slli => 1,
            _ => 5,
        }
    }

    fn funct6(self) -> (f: u32)
        ensures
            f == self.spec_funct6(),
    {
        match self {
            ShiftOp::Srai => 0x10,
            _ => 0,
        }
    }
}

impl SOp {
    pub open spec fn spec_funct3(self) -> u32 {
        match self {
            SOp::Sb => 0,
            SOp::Sh => 1,
            SOp::Sw => 2,
            SOp::Sd => 3,
        }
    }

    fn funct3(self) -> (f: u32)
        ensures
            f == self.spec_funct3(),
    {
        match self {
            SOp::Sb => 0,
            SOp::Sh => 1,
            SOp::Sw => 2,
            SOp::Sd => 3,
        }
    }
}

impl BOp {
    pub open spec fn spec_funct3(self) -> u32 {
        match self {
            BOp::Beq => 0,
            BOp::Bne => 1,
            BOp::Blt => 4,
            BOp::Bge => 5,
            BOp::Bltu => 6,
            BOp::Bgeu => 7,
        }
    }

    fn funct3(self) -> (f: u32)
        ensures
            f == self.spec_funct3(),
    {
        match self {
            BOp::Beq => 0,
            BOp::Bne => 1,
            BOp::Blt => 4,
            BOp::Bge => 5,
            BOp::Bltu => 6,
            BOp::Bgeu => 7,
        }
    }
}

/// The five-bit field of a register number.
pub open spec fn reg_field(r: u8) -> u32 {
    (r as u32) & 0x1f
}

/// The word of an R-format instruction.
pub open spec fn r_word(funct7: u32, rs2: u8, rs1: u8, funct3: u32, rd: u8, opcode: u32) -> u32 {
    (funct7 << 25) | (reg_field(rs2) << 20) | (reg_field(rs1) << 15) | (funct3 << 12) | (reg_field(
        rd,
    ) << 7) | opcode
}

/// The word of an I-format instruction: the low 12 bits of `imm` in bits 31..20.
pub open spec fn i_word(imm: u32, rs1: u8, funct3: u32, rd: u8, opcode: u32) -> u32 {
    ((imm & 0xfff) << 20) | (reg_field(rs1) << 15) | (funct3 << 12) | (reg_field(rd) << 7) | opcode
}

/// The word of an S-format instruction: `imm[11:5]` in bits 31..25, `imm[4:0]` in bits 11..7.
pub open spec fn s_word(imm: u32, rs2: u8, rs1: u8, funct3: u32, opcode: u32) -> u32 {
    (((imm >> 5) & 0x7f) << 25) | (reg_field(rs2) << 20) | (reg_field(rs1) << 15) | (funct3 << 12)
        | ((imm & 0x1f) << 7) | opcode
}

/// The word of a B-format instruction: `imm[12|10:5]` in bits 31..25, `imm[4:1|11]` in bits 11..7.
pub open spec fn b_word(imm: u32, rs2: u8, rs1: u8, funct3: u32, opcode: u32) -> u32 {
    (((imm >> 12) & 0x1) << 31) | (((imm >> 5) & 0x3f) << 25) | (reg_field(rs2) << 20) | (reg_field(
        rs1,
    ) << 15) | (funct3 << 12) | (((imm >> 1) & 0xf) << 8) | (((imm >> 11) & 0x1) << 7) | opcode
}

/// The word of a U-format instruction: `imm[31:12]` in place.
pub open spec fn u_word(imm: u32, rd: u8, opcode: u32) -> u32 {
    (imm & 0xffff_f000) | (reg_field(rd) << 7) | opcode
}

/// The word of a J-format instruction: `imm[20|10:1|11|19:12]` in bits 31..12.
pub open spec fn j_word(imm: u32, rd: u8, opcode: u32) -> u32 {
    (((imm >> 20) & 0x1) << 31) | (((imm >> 1) & 0x3ff) << 21) | (((imm >> 11) & 0x1) << 20) | (((
    imm >> 12) & 0xff) << 12) | (reg_field(rd) << 7) | opcode
}

impl RvInsn {
    /// The 32-bit machine word of this instruction.
    pub open spec fn word(self) -> u32 {
        match self {
            RvInsn::R { op, rd, rs1, rs2 } => r_word(
                op.spec_funct7(),
                rs2,
                rs1,
                op.spec_funct3(),
                rd,
                op.spec_opcode(),
            ),
            RvInsn::I { op, rd, rs1, imm } => i_word(
                imm as u32,
                rs1,
                op.spec_funct3(),
                rd,
                op.spec_opcode(),
            ),
            RvInsn::Shift { op, rd, rs1, shamt } => i_word(
                (op.spec_funct6() << 6) | ((shamt as u32) & 0x3f),
                rs1,
                op.spec_funct3(),
                rd,
                0x13,
            ),
            RvInsn::S { op, rs1, rs2, imm } => s_word(imm as u32, rs2, rs1, op.spec_funct3(), 0x23),
            RvInsn::B { op, rs1, rs2, imm } => b_word(imm as u32, rs2, rs1, op.spec_funct3(), 0x63),
            RvInsn::Lui { rd, imm } => u_word(imm, rd, 0x37),
            RvInsn::Auipc { rd, imm } => u_word(imm, rd, 0x17),
            RvInsn::Jal { rd, imm } => j_word(imm as u32, rd, 0x6f),
        }
    }

    /// Encodes this instruction.
    pub fn encode(self) -> (w: u32)
        ensures
            w == self.word(),
    {
        match self {
            RvInsn::R { op, rd, rs1, rs2 } => {
                (op.funct7() << 25) | (((rs2 as u32) & 0x1f) << 20) | (((rs1 as u32) & 0x1f) << 15)
                    | (op.funct3() << 12) | (((rd as u32) & 0x1f) << 7) | op.opcode()
            },
            RvInsn::I { op, rd, rs1, imm } => {
                (((imm as u32) & 0xfff) << 20) | (((rs1 as u32) & 0x1f) << 15) | (op.funct3() << 12)
                    | (((rd as u32) & 0x1f) << 7) | op.opcode()
            },
            RvInsn::Shift { op, rd, rs1, shamt } => {
                let imm: u32 = (op.funct6() << 6) | ((shamt as u32) & 0x3f);
                ((imm & 0xfff) << 20) | (((rs1 as u32) & 0x1f) << 15) | (op.funct3() << 12) | (((
                rd as u32) & 0x1f) << 7) | 0x13
            },
            RvInsn::S { op, rs1, rs2, imm } => {
                let imm: u32 = imm as u32;
                (((imm >> 5) & 0x7f) << 25) | (((rs2 as u32) & 0x1f) << 20) | (((rs1 as u32) & 0x1f)
                    << 15) | (op.funct3() << 12) | ((imm & 0x1f) << 7) | 0x23
            },
            RvInsn::B { op, rs1, rs2, imm } => {
                let imm: u32 = imm as u32;
                (((imm >> 12) & 0x1) << 31) | (((imm >> 5) & 0x3f) << 25) | (((rs2 as u32) & 0x1f)
                    << 20) | (((rs1 as u32) & 0x1f) << 15) | (op.funct3() << 12) | (((imm >> 1)
                    & 0xf) << 8) | (((imm >> 11) & 0x1) << 7) | 0x63
            },
            RvInsn::Lui { rd, imm } => { (imm & 0xffff_f000) | (((rd as u32) & 0x1f) << 7) | 0x37 },
            RvInsn::Auipc { rd, imm } => {
                (imm & 0xffff_f000) | (((rd as u32) & 0x1f) << 7) | 0x17
            },
            RvInsn::Jal { rd, imm } => {
                let imm: u32 = imm as u32;
                (((imm >> 20) & 0x1) << 31) | (((imm >> 1) & 0x3ff) << 21) | (((imm >> 11) & 0x1)
                    << 20) | (((imm >> 12) & 0xff) << 12) | (((rd as u32) & 0x1f) << 7) | 0x6f
            },
        }
    }
}

} // verus!
