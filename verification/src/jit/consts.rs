//! The eBPF instruction set as far as the compiler reads it: the fields of
//! an instruction word and the kinds of opcode.

use vstd::prelude::*;

verus! {

/// The number of eBPF registers: `r0` to `r9` and the frame pointer.
pub const BPF_MAX_REGS: usize = 11;

pub const BPF_REG_R0: u8 = 0;
pub const BPF_REG_FP: u8 = 10;

// Instruction classes: the low three bits of the opcode.
pub const BPF_LD: u8 = 0x00;
pub const BPF_LDX: u8 = 0x01;
pub const BPF_ST: u8 = 0x02;
pub const BPF_STX: u8 = 0x03;
pub const BPF_ALU: u8 = 0x04;
pub const BPF_JMP: u8 = 0x05;
pub const BPF_JMP32: u8 = 0x06;
pub const BPF_ALU64: u8 = 0x07;

// Operand source of ALU and jump instructions: bit 3 of the opcode.
pub const BPF_K: u8 = 0x00;
pub const BPF_X: u8 = 0x08;

// Access size of loads and stores: bits 3 and 4 of the opcode.
pub const BPF_W: u8 = 0x00;
pub const BPF_H: u8 = 0x08;
pub const BPF_B: u8 = 0x10;
pub const BPF_DW: u8 = 0x18;

// Addressing mode of loads and stores: the high three bits of the opcode.
pub const BPF_IMM: u8 = 0x00;
pub const BPF_MEM: u8 = 0x60;

/// The first half of the 16-byte load of a 64-bit immediate.
pub const LD_IMM_DW: u8 = 0x18;
/// A call of a helper function.
pub const JMP_K_CALL: u8 = 0x85;
/// The end of the program.
pub const JMP_K_EXIT: u8 = 0x95;

/// An arithmetic or logic operation: the high four bits of an ALU opcode.
#[derive(Clone, Copy, Debug, PartialEq, Eq, Structural)]
pub enum AluOp {
    Add, Sub, Mul, Div, Or, And, Lsh, Rsh, Mod, Xor, Mov, Arsh,
}

/// The comparison of a conditional jump: the high four bits of a jump opcode.
#[derive(Clone, Copy, Debug, PartialEq, Eq, Structural)]
pub enum JmpCond {
    Jeq, Jgt, Jge, Jset, Jne, Jsgt, Jsge, Jlt, Jle, Jslt, Jsle,
}

/// The width of a memory access.
#[derive(Clone, Copy, Debug, PartialEq, Eq, Structural)]
pub enum MemSize {
    B, H, W, DW,
}

/// What an opcode asks for, for the opcodes that the compiler lowers.
#[derive(Clone, Copy, Debug, PartialEq, Eq, Structural)]
pub enum BpfKind {
    /// The first half of a 64-bit immediate load.
    LoadImm64,
    /// `dst = dst op src` or `dst = dst op imm`, on 64 or on 32 bits.
    Alu { op: AluOp, is64: bool, use_imm: bool },
    /// `dst = *(size *)(src + off)`
    Load { size: MemSize },
    /// `*(size *)(dst + off) = src` or `= imm`
    Store { size: MemSize, use_imm: bool },
    /// An unconditional jump.
    Ja,
    /// A jump taken if `dst cond src` or `dst cond imm`, compared on 64 or on 32 bits.
    Jump { cond: JmpCond, is64: bool, use_imm: bool },
    /// A call of the helper whose index is the immediate.
    Call,
    /// The end of the program.
    Exit,
}

/// The opcode of an instruction word: bits 7..0.
pub open spec fn spec_insn_op(insn: u64) -> u8 {
    (insn & 0xff) as u8
}

/// The destination register of an instruction word: bits 11..8.
pub open spec fn spec_insn_dst(insn: u64) -> u8 {
    ((insn & 0x0f00) >> 8) as u8
}

/// The source register of an instruction word: bits 15..12.
pub open spec fn spec_insn_src(insn: u64) -> u8 {
    ((insn & 0xf000) >> 12) as u8
}

/// The signed 16-bit offset of an instruction word: bits 31..16.
pub open spec fn spec_insn_off(insn: u64) -> i16 {
    (insn >> 16) as i16
}

/// The signed 32-bit immediate of an instruction word: bits 63..32.
pub open spec fn spec_insn_imm(insn: u64) -> i32 {
    (insn >> 32) as i32
}

#[verifier::when_used_as_spec(spec_insn_op)]
pub fn insn_op(insn: u64) -> (r: u8)
    ensures
        r == spec_insn_op(insn),
{
    #[verifier::truncate]
    ((insn & 0xff) as u8)
}

#[verifier::when_used_as_spec(spec_insn_dst)]
pub fn insn_dst(insn: u64) -> (r: u8)
    ensures
        r == spec_insn_dst(insn),
{
    #[verifier::truncate]
    (((insn & 0x0f00) >> 8) as u8)
}

#[verifier::when_used_as_spec(spec_insn_src)]
pub fn insn_src(insn: u64) -> (r: u8)
    ensures
        r == spec_insn_src(insn),
{
    #[verifier::truncate]
    (((insn & 0xf000) >> 12) as u8)
}

#[verifier::when_used_as_spec(spec_insn_off)]
pub fn insn_off(insn: u64) -> (r: i16)
    ensures
        r == spec_insn_off(insn),
{
    #[verifier::truncate]
    ((insn >> 16) as i16)
}

#[verifier::when_used_as_spec(spec_insn_imm)]
pub fn insn_imm(insn: u64) -> (r: i32)
    ensures
        r == spec_insn_imm(insn),
{
    #[verifier::truncate]
    ((insn >> 32) as i32)
}

/// The operation that the high four bits of an ALU opcode select.
pub open spec fn spec_alu_op(op: u8) -> Option<AluOp> {
    let code = op & 0xf0;
    if code == 0x00 {
        Some(AluOp::Add)
    } else if code == 0x10 {
        Some(AluOp::Sub)
    } else if code == 0x20 {
        Some(AluOp::Mul)
    } else if code == 0x30 {
        Some(AluOp::Div)
    } else if code == 0x40 {
        Some(AluOp::Or)
    } else if code == 0x50 {
        Some(AluOp::And)
    } else if code == 0x60 {
        Some(AluOp::Lsh)
    } else if code == 0x70 {
        Some(AluOp::Rsh)
    } else if code == 0x90 {
        Some(AluOp::Mod)
    } else if code == 0xa0 {
        Some(AluOp::Xor)
    } else if code == 0xb0 {
        Some(AluOp::Mov)
    } else if code == 0xc0 {
        Some(AluOp::Arsh)
    } else {
        None
    }
}

/// The comparison that the high four bits of a jump opcode select.
pub open spec fn spec_jmp_cond(op: u8) -> Option<JmpCond> {
    let code = op & 0xf0;
    if code == 0x10 {
        Some(JmpCond::Jeq)
    } else if code == 0x20 {
        Some(JmpCond::Jgt)
    } else if code == 0x30 {
        Some(JmpCond::Jge)
    } else if code == 0x40 {
        Some(JmpCond::Jset)
    } else if code == 0x50 {
        Some(JmpCond::Jne)
    } else if code == 0x60 {
        Some(JmpCond::Jsgt)
    } else if code == 0x70 {
        Some(JmpCond::Jsge)
    } else if code == 0xa0 {
        Some(JmpCond::Jlt)
    } else if code == 0xb0 {
        Some(JmpCond::Jle)
    } else if code == 0xc0 {
        Some(JmpCond::Jslt)
    } else if code == 0xd0 {
        Some(JmpCond::Jsle)
    } else {
        None
    }
}

/// The access size that bits 3 and 4 of a load or store opcode select.
pub open spec fn spec_mem_size(op: u8) -> MemSize {
    let code = op & 0x18;
    if code == 0x10 {
        MemSize::B
    } else if code == 0x08 {
        MemSize::H
    } else if code == 0x00 {
        MemSize::W
    } else {
        MemSize::DW
    }
}

/// The kind of an opcode, or `None` for an opcode that the compiler does not
/// lower.
///
/// Lowered are: the 64-bit immediate load; add, sub, mul, div, or, and, mod,
/// xor and mov on 32 and on 64 bits; the three shifts on 64 bits only; loads
/// and stores in `MEM` mode of all four sizes; `ja`; the eleven conditional
/// jumps on 64 and on 32 bits; `call` and `exit`.
pub open spec fn spec_classify(op: u8) -> Option<BpfKind> {
    let class = op & 0x07;
    let use_imm = (op & 0x08) == 0;
    if op == LD_IMM_DW {
        Some(BpfKind::LoadImm64)
    } else if op == JMP_K_CALL {
        Some(BpfKind::Call)
    } else if op == JMP_K_EXIT {
        Some(BpfKind::Exit)
    } else if class == BPF_ALU || class == BPF_ALU64 {
        let is64 = class == BPF_ALU64;
        match spec_alu_op(op) {
            Some(AluOp::Lsh) | Some(AluOp::Rsh) | Some(AluOp::Arsh) => if is64 {
                Some(BpfKind::Alu { op: spec_alu_op(op).unwrap(), is64, use_imm })
            } else {
                None
            },
            Some(alu) => Some(BpfKind::Alu { op: alu, is64, use_imm }),
            None => None,
        }
    } else if class == BPF_JMP || class == BPF_JMP32 {
        let is64 = class == BPF_JMP;
        if (op & 0xf0) == 0x00 {
            if is64 {
                Some(BpfKind::Ja)
            } else {
                None
            }
        } else {
            match spec_jmp_cond(op) {
                Some(cond) => Some(BpfKind::Jump { cond, is64, use_imm }),
                None => None,
            }
        }
    } else if (op & 0xe0) == BPF_MEM {
        if class == BPF_LDX {
            Some(BpfKind::Load { size: spec_mem_size(op) })
        } else if class == BPF_ST {
            Some(BpfKind::Store { size: spec_mem_size(op), use_imm: true })
        } else if class == BPF_STX {
            Some(BpfKind::Store { size: spec_mem_size(op), use_imm: false })
        } else {
            None
        }
    } else {
        None
    }
}

fn alu_op(op: u8) -> (r: Option<AluOp>)
    ensures
        r == spec_alu_op(op),
{
    let code: u8 = op & 0xf0;
    if code == 0x00 {
        Some(AluOp::Add)
    } else if code == 0x10 {
        Some(AluOp::Sub)
    } else if code == 0x20 {
        Some(AluOp::Mul)
    } else if code == 0x30 {
        Some(AluOp::Div)
    } else if code == 0x40 {
        Some(AluOp::Or)
    } else if code == 0x50 {
        Some(AluOp::And)
    } else if code == 0x60 {
        Some(AluOp::Lsh)
    } else if code == 0x70 {
        Some(AluOp::Rsh)
    } else if code == 0x90 {
        Some(AluOp::Mod)
    } else if code == 0xa0 {
        Some(AluOp::Xor)
    } else if code == 0xb0 {
        Some(AluOp::Mov)
    } else if code == 0xc0 {
        Some(AluOp::Arsh)
    } else {
        None
    }
}

fn jmp_cond(op: u8) -> (r: Option<JmpCond>)
    ensures
        r == spec_jmp_cond(op),
{
    let code: u8 = op & 0xf0;
    if code == 0x10 {
        Some(JmpCond::Jeq)
    } else if code == 0x20 {
        Some(JmpCond::Jgt)
    } else if code == 0x30 {
        Some(JmpCond::Jge)
    } else if code == 0x40 {
        Some(JmpCond::Jset)
    } else if code == 0x50 {
        Some(JmpCond::Jne)
    } else if code == 0x60 {
        Some(JmpCond::Jsgt)
    } else if code == 0x70 {
        Some(JmpCond::Jsge)
    } else if code == 0xa0 {
        Some(JmpCond::Jlt)
    } else if code == 0xb0 {
        Some(JmpCond::Jle)
    } else if code == 0xc0 {
        Some(JmpCond::Jslt)
    } else if code == 0xd0 {
        Some(JmpCond::Jsle)
    } else {
        None
    }
}

fn mem_size(op: u8) -> (r: MemSize)
    ensures
        r == spec_mem_size(op),
{
    let code: u8 = op & 0x18;
    if code == 0x10 {
        MemSize::B
    } else if code == 0x08 {
        MemSize::H
    } else if code == 0x00 {
        MemSize::W
    } else {
        MemSize::DW
    }
}

/// Classifies an opcode.
#[verifier::when_used_as_spec(spec_classify)]
pub fn classify(op: u8) -> (r: Option<BpfKind>)
    ensures
        r == spec_classify(op),
{
    let class: u8 = op & 0x07;
    let use_imm = (op & 0x08) == 0;
    if op == LD_IMM_DW {
        Some(BpfKind::LoadImm64)
    } else if op == JMP_K_CALL {
        Some(BpfKind::Call)
    } else if op == JMP_K_EXIT {
        Some(BpfKind::Exit)
    } else if class == BPF_ALU || class == BPF_ALU64 {
        let is64 = class == BPF_ALU64;
        match alu_op(op) {
            Some(AluOp::Lsh) => if is64 {
                Some(BpfKind::Alu { op: AluOp::Lsh, is64, use_imm })
            } else {
                None
            },
            Some(AluOp::Rsh) => if is64 {
                Some(BpfKind::Alu { op: AluOp::Rsh, is64, use_imm })
            } else {
                None
            },
            Some(AluOp::Arsh) => if is64 {
                Some(BpfKind::Alu { op: AluOp::Arsh, is64, use_imm })
            } else {
                None
            },
            Some(alu) => Some(BpfKind::Alu { op: alu, is64, use_imm }),
            None => None,
        }
    } else if class == BPF_JMP || class == BPF_JMP32 {
        let is64 = class == BPF_JMP;
        if (op & 0xf0) == 0x00 {
            if is64 {
                Some(BpfKind::Ja)
            } else {
                None
            }
        } else {
            match jmp_cond(op) {
                Some(cond) => Some(BpfKind::Jump { cond, is64, use_imm }),
                None => None,
            }
        }
    } else if (op & 0xe0) == BPF_MEM {
        if class == BPF_LDX {
            Some(BpfKind::Load { size: mem_size(op) })
        } else if class == BPF_ST {
            Some(BpfKind::Store { size: mem_size(op), use_imm: true })
        } else if class == BPF_STX {
            Some(BpfKind::Store { size: mem_size(op), use_imm: false })
        } else {
            None
        }
    } else {
        None
    }
}

} // verus!
