//! What the compiler produces, stated over sequences of instructions and
//! words: how an immediate is materialised, what each eBPF instruction is
//! lowered to, and how jumps, exits and helper calls are patched once the
//! layout is final.

use vstd::prelude::*;
use crate::jit::compile::JitError;
use crate::jit::consts::{
    BpfKind, AluOp, JmpCond, MemSize, BPF_MAX_REGS, BPF_REG_R0, BPF_REG_FP, spec_insn_op,
    spec_insn_dst, spec_insn_src, spec_insn_off, spec_insn_imm, spec_classify,
};
use crate::jit::rv::{
    RvInsn, ROp, IOp, ShiftOp, SOp, BOp, RV_REG_ZERO, RV_REG_RA, RV_REG_SP, RV_REG_T1, RV_REG_T2,
    RV_REG_FP, RV_REG_S1, RV_REG_S2, RV_REG_S3, RV_REG_S4, RV_REG_S5, RV_REG_A0, RV_REG_A1,
    RV_REG_A2, RV_REG_A3, RV_REG_A4, RV_REG_A5,
};

verus! {

/// The most words that a context holds. All code offsets stay below 1 MiB,
/// the reach of a `jal`.
pub const MAX_CODE_WORDS: usize = 0x4_0000;

/// The most helper functions that a table holds.
pub const MAX_HELPERS: usize = 256;

/// Room kept free, while the body is lowered, for the epilogue, the padding
/// and the helper table.
pub const TAIL_RESERVE: usize = 600;

/// The most words that one eBPF instruction lowers to.
pub const MAX_INSN_WORDS: usize = 8;

/// The RV64 register that holds an eBPF register, as the Linux JIT for RV64
/// assigns them.
pub open spec fn spec_bpf_to_rv_reg(reg: u8) -> u8
    recommends
        reg < BPF_MAX_REGS,
{
    if reg == 0 {
        RV_REG_A5
    } else if reg == 1 {
        RV_REG_A0
    } else if reg == 2 {
        RV_REG_A1
    } else if reg == 3 {
        RV_REG_A2
    } else if reg == 4 {
        RV_REG_A3
    } else if reg == 5 {
        RV_REG_A4
    } else if reg == 6 {
        RV_REG_S1
    } else if reg == 7 {
        RV_REG_S2
    } else if reg == 8 {
        RV_REG_S3
    } else if reg == 9 {
        RV_REG_S4
    } else {
        RV_REG_S5
    }
}

/// Whether a value fits a signed 32-bit immediate.
pub open spec fn in_i32_range(v: int) -> bool {
    -0x8000_0000 <= v < 0x8000_0000
}

/// Whether a value fits a signed 12-bit immediate.
pub open spec fn in_i12_range(v: int) -> bool {
    -0x800 <= v < 0x800
}

/// `x` rounded up to a multiple of `d`.
pub open spec fn spec_round_up(x: int, d: int) -> int {
    ((x + d - 1) / d) * d
}

/// The bytes reserved for the eBPF stack: the requested size rounded up to a
/// multiple of 8 and capped at 1024.
pub open spec fn spec_frame_size(stack_size: usize) -> int {
    if spec_round_up(stack_size as int, 8) < 1024 {
        spec_round_up(stack_size as int, 8)
    } else {
        1024
    }
}

/// The machine words of a sequence of instructions.
pub open spec fn words(insns: Seq<RvInsn>) -> Seq<u32> {
    insns.map_values(|i: RvInsn| i.word())
}

/// An integer reduced to the signed 64-bit range.
pub open spec fn wrap_i64(v: int) -> int {
    (v + 0x8000_0000_0000_0000) % 0x1_0000_0000_0000_0000 - 0x8000_0000_0000_0000
}

/// The upper part of an immediate: what remains above the low 12 bits once
/// they are read as a signed number.
pub open spec fn imm_hi(v: int) -> int {
    wrap_i64(v + 0x800) / 0x1000
}

/// The low 12 bits of an immediate, read as a signed number.
pub open spec fn imm_lo(v: int) -> int {
    let r = v % 0x1000;
    if r < 0x800 {
        r
    } else {
        r - 0x1000
    }
}

/// How many times `v` can be halved exactly, counted up to `limit`.
pub open spec fn low_zero_bits(v: int, limit: nat) -> nat
    decreases limit,
{
    if limit == 0 || v % 2 != 0 {
        0
    } else {
        1 + low_zero_bits(v / 2, (limit - 1) as nat)
    }
}

/// `v` with its low zero bits, up to `limit` of them, shifted out.
pub open spec fn strip_low_zero_bits(v: int, limit: nat) -> int
    decreases limit,
{
    if limit == 0 || v % 2 != 0 {
        v
    } else {
        strip_low_zero_bits(v / 2, (limit - 1) as nat)
    }
}

/// The absolute value of an integer.
pub open spec fn magnitude(v: int) -> nat {
    if v < 0 {
        (-v) as nat
    } else {
        v as nat
    }
}

/// What orders the recursion that materialises an immediate.
pub open spec fn imm_measure(v: int) -> nat {
    if in_i32_range(v) {
        0
    } else {
        magnitude(v)
    }
}

/// The instructions that load the 64-bit value `v` into `rd`.
///
/// A value that fits 32 bits takes `lui` and `addiw`, or a single `addi`
/// where the upper part is zero. Any other value loads its upper part, with
/// the low zero bits of that part shifted out, shifts it into place and adds
/// the low 12 bits.
pub open spec fn imm_insns(rd: u8, v: int) -> Seq<RvInsn>
    recommends
        -0x8000_0000_0000_0000 <= v < 0x8000_0000_0000_0000,
    decreases imm_measure(v),
    when -0x8000_0000_0000_0000 <= v < 0x8000_0000_0000_0000
    via imm_insns_decreases
{
    let hi = imm_hi(v);
    let lo = imm_lo(v);
    if in_i32_range(v) {
        if hi != 0 {
            seq![
                RvInsn::Lui { rd, imm: ((hi % 0x10_0000) * 0x1000) as u32 },
                RvInsn::I { op: IOp::Addiw, rd, rs1: rd, imm: lo as i32 },
            ]
        } else {
            seq![RvInsn::I { op: IOp::Addi, rd, rs1: RV_REG_ZERO, imm: lo as i32 }]
        }
    } else {
        let shift = low_zero_bits(hi, 51);
        let upper = strip_low_zero_bits(hi, 51);
        let head = imm_insns(rd, upper).push(
            RvInsn::Shift { op: ShiftOp::Slli, rd, rs1: rd, shamt: (shift + 12) as u8 },
        );
        if lo != 0 {
            head.push(RvInsn::I { op: IOp::Addi, rd, rs1: rd, imm: lo as i32 })
        } else {
            head
        }
    }
}

#[via_fn]
proof fn imm_insns_decreases(rd: u8, v: int) {
    if !in_i32_range(v) {
        lemma_imm_hi_smaller(v);
        lemma_strip_toward_zero(imm_hi(v), 51);
    }
}

/// Stripping low zero bits moves a value toward zero, never past it.
pub proof fn lemma_strip_toward_zero(v: int, limit: nat)
    ensures
        v >= 0 ==> 0 <= strip_low_zero_bits(v, limit) <= v,
        v <= 0 ==> v <= strip_low_zero_bits(v, limit) <= 0,
        v != 0 ==> strip_low_zero_bits(v, limit) != 0,
    decreases limit,
{
    if limit == 0 || v % 2 != 0 {
    } else {
        lemma_strip_toward_zero(v / 2, (limit - 1) as nat);
    }
}

/// The upper part of a value outside the 32-bit range is nearer to zero than
/// the value, and is not zero.
pub proof fn lemma_imm_hi_smaller(v: int)
    requires
        -0x8000_0000_0000_0000 <= v < 0x8000_0000_0000_0000,
        !in_i32_range(v),
    ensures
        imm_hi(v) != 0,
        -0x8_0000_0000_0000 <= imm_hi(v) < 0x8_0000_0000_0000,
        magnitude(imm_hi(v)) < magnitude(v),
{
}

/// The register that holds the second operand: `t1` for an immediate.
pub open spec fn operand_reg(use_imm: bool, rs: u8) -> u8 {
    if use_imm {
        RV_REG_T1
    } else {
        rs
    }
}

/// The RV64 operation of an eBPF ALU operation between registers. Addition
/// and the bitwise operations are done on 64 bits at either width.
pub open spec fn alu_rop(op: AluOp, is64: bool) -> ROp {
    match op {
        AluOp::Add => ROp::Add,
        AluOp::Sub => if is64 {
            ROp::Sub
        } else {
            ROp::Subw
        },
        AluOp::Mul => if is64 {
            ROp::Mul
        } else {
            ROp::Mulw
        },
        AluOp::Div => if is64 {
            ROp::Divu
        } else {
            ROp::Divuw
        },
        AluOp::Mod => if is64 {
            ROp::Remu
        } else {
            ROp::Remuw
        },
        AluOp::Or => ROp::Or,
        AluOp::And => ROp::And,
        AluOp::Xor => ROp::Xor,
        AluOp::Lsh => ROp::Sll,
        AluOp::Rsh => ROp::Srl,
        AluOp::Arsh => ROp::Sra,
        AluOp::Mov => ROp::Add,
    }
}

/// The RV64 shift by a constant of an eBPF shift.
pub open spec fn alu_shift_op(op: AluOp) -> ShiftOp {
    match op {
        AluOp::Lsh => ShiftOp::Slli,
        AluOp::Rsh => ShiftOp::Srli,
        _ => ShiftOp::Srai,
    }
}

/// The RV64 load of an access size. Loads zero-extend.
pub open spec fn load_op(size: MemSize) -> IOp {
    match size {
        MemSize::B => IOp::Lbu,
        MemSize::H => IOp::Lhu,
        MemSize::W => IOp::Lwu,
        MemSize::DW => IOp::Ld,
    }
}

/// The RV64 store of an access size.
pub open spec fn store_op(size: MemSize) -> SOp {
    match size {
        MemSize::B => SOp::Sb,
        MemSize::H => SOp::Sh,
        MemSize::W => SOp::Sw,
        MemSize::DW => SOp::Sd,
    }
}

/// The branch that skips the jump of a conditional jump: it is taken when
/// the condition `dst cond src` does not hold. `src` and `dst` are the RV64
/// registers that hold the operands.
pub open spec fn skip_branch(cond: JmpCond, src: u8, dst: u8) -> RvInsn {
    match cond {
        JmpCond::Jeq => RvInsn::B { op: BOp::Bne, rs1: src, rs2: dst, imm: 8 },
        JmpCond::Jgt => RvInsn::B { op: BOp::Bgeu, rs1: src, rs2: dst, imm: 8 },
        JmpCond::Jge => RvInsn::B { op: BOp::Bltu, rs1: dst, rs2: src, imm: 8 },
        JmpCond::Jne => RvInsn::B { op: BOp::Beq, rs1: src, rs2: dst, imm: 8 },
        JmpCond::Jsgt => RvInsn::B { op: BOp::Bge, rs1: src, rs2: dst, imm: 8 },
        JmpCond::Jsge => RvInsn::B { op: BOp::Blt, rs1: dst, rs2: src, imm: 8 },
        JmpCond::Jlt => RvInsn::B { op: BOp::Bgeu, rs1: dst, rs2: src, imm: 8 },
        JmpCond::Jle => RvInsn::B { op: BOp::Bltu, rs1: src, rs2: dst, imm: 8 },
        JmpCond::Jslt => RvInsn::B { op: BOp::Bge, rs1: dst, rs2: src, imm: 8 },
        JmpCond::Jsle => RvInsn::B { op: BOp::Blt, rs1: src, rs2: dst, imm: 8 },
        JmpCond::Jset => RvInsn::B { op: BOp::Beq, rs1: RV_REG_T1, rs2: RV_REG_ZERO, imm: 8 },
    }
}

/// The 64-bit value whose low half is the immediate of the first word of a
/// 64-bit immediate load and whose high half is that of the second.
pub open spec fn imm64(low: i32, high: i32) -> int {
    high * 0x1_0000_0000 + (low as int) % 0x1_0000_0000
}

/// The word of the jump from byte offset `from` to byte offset `to`.
pub open spec fn jump_word(from: int, to: int) -> u32 {
    (RvInsn::Jal { rd: RV_REG_ZERO, imm: (to - from) as i32 }).word()
}

/// The code with each exit placeholder replaced by a jump to `real_exit`.
pub open spec fn patched_exits(code: Seq<u32>, exits: Seq<usize>, real_exit: int) -> Seq<u32>
    decreases exits.len(),
{
    if exits.len() == 0 {
        code
    } else {
        patched_exits(code, exits.drop_last(), real_exit).update(
            exits.last() as int / 4,
            jump_word(exits.last() as int, real_exit),
        )
    }
}

/// The index of the eBPF instruction that the jump at index `pc` leads to:
/// its offset counts from the instruction after the jump.
pub open spec fn jump_target(insns: Seq<u64>, pc: usize) -> int {
    pc + 1 + spec_insn_off(insns[pc as int])
}

/// Whether the jump at index `pc` leads to the start of a lowered instruction.
pub open spec fn jump_resolves(insns: Seq<u64>, pc_map: Map<usize, usize>, pc: usize) -> bool {
    &&& pc < insns.len()
    &&& 0 <= jump_target(insns, pc) <= usize::MAX
    &&& pc_map.contains_key(jump_target(insns, pc) as usize)
}

/// The code with each jump placeholder replaced by a jump to the code of
/// its target.
pub open spec fn patched_jumps(
    code: Seq<u32>,
    jumps: Seq<(usize, usize)>,
    pc_map: Map<usize, usize>,
    insns: Seq<u64>,
) -> Result<Seq<u32>, JitError>
    decreases jumps.len(),
{
    if jumps.len() == 0 {
        Ok(code)
    } else {
        match patched_jumps(code, jumps.drop_last(), pc_map, insns) {
            Err(e) => Err(e),
            Ok(c) => {
                let pc = jumps.last().0;
                let off = jumps.last().1;
                if jump_resolves(insns, pc_map, pc) {
                    Ok(
                        c.update(
                            off as int / 4,
                            jump_word(off as int, pc_map[jump_target(insns, pc) as usize] as int),
                        ),
                    )
                } else {
                    Err(JitError::InvalidJumpTarget)
                }
            },
        }
    }
}

/// The zero words that bring `len` words to a 16-byte boundary.
pub open spec fn pad_words(len: nat) -> nat {
    ((4 - len % 4) % 4) as nat
}

/// The words of a helper table: for each address its low half, then its high half.
pub open spec fn helper_words(helpers: Seq<u64>) -> Seq<u32> {
    Seq::new(
        2 * helpers.len(),
        |i: int|
            if i % 2 == 0 {
                helpers[i / 2] as u32
            } else {
                (helpers[i / 2] >> 32) as u32
            },
    )
}

/// The first word of an address load at byte offset `from` of the table at
/// byte offset `to`: `auipc t1` with the upper part of the distance.
pub open spec fn plt_hi_word(from: int, to: int) -> u32 {
    (RvInsn::Auipc { rd: RV_REG_T1, imm: (imm_hi(to - from) * 0x1000) as u32 }).word()
}

/// The second word of an address load: `addi t1, t1` with the low 12 bits
/// of the distance.
pub open spec fn plt_lo_word(from: int, to: int) -> u32 {
    (RvInsn::I {
        op: IOp::Addi,
        rd: RV_REG_T1,
        rs1: RV_REG_T1,
        imm: imm_lo(to - from) as i32,
    }).word()
}

/// The code with the two placeholders of each address load replaced.
pub open spec fn patched_plt(code: Seq<u32>, plt_loads: Seq<usize>, plt_offset: int) -> Seq<u32>
    decreases plt_loads.len(),
{
    if plt_loads.len() == 0 {
        code
    } else {
        let off = plt_loads.last() as int;
        patched_plt(code, plt_loads.drop_last(), plt_offset).update(
            off / 4,
            plt_hi_word(off, plt_offset),
        ).update(off / 4 + 1, plt_lo_word(off, plt_offset))
    }
}

/// What `compile` leaves in a context that held `m`: the prologue, the
/// lowered instructions, the epilogue with all jumps and exits patched, and
/// the helper table with all address loads patched; or the reason why the
/// program is refused.
pub open spec fn spec_compile(m: JitModel, insns: Seq<u64>, helpers: Seq<u64>, stack_size: usize)
    -> Result<JitModel, JitError> {
    if helpers.len() > MAX_HELPERS {
        Err(JitError::TooManyHelpers)
    } else if m.code.len() + 11 + TAIL_RESERVE > MAX_CODE_WORDS {
        Err(JitError::CodeTooLarge)
    } else {
        match m.prologue(stack_size).lower_from(insns, 0, None) {
            Err(e) => Err(e),
            Ok(body) => match body.epilogue(insns) {
                Err(e) => Err(e),
                Ok(done) => Ok(done.helper_table(helpers)),
            },
        }
    }
}

/// The state of a compilation as contracts speak of it.
pub struct JitModel {
    /// The index of the eBPF instruction being lowered.
    pub bpf_pc: usize,
    /// The words emitted so far.
    pub code: Seq<u32>,
    /// For each lowered eBPF instruction, the byte offset of its first word.
    pub pc_map: Map<usize, usize>,
    /// The byte offsets of the helper-table address loads, in emission order.
    pub plt_loads: Seq<usize>,
    /// The byte offsets of the exit placeholders, in emission order.
    pub exits: Seq<usize>,
    /// The jump placeholders, in emission order: the index of the eBPF jump
    /// and the byte offset of the placeholder.
    pub jumps: Seq<(usize, usize)>,
}

impl JitModel {
    /// The state before anything is emitted.
    pub open spec fn empty() -> JitModel {
        JitModel {
            bpf_pc: 0,
            code: Seq::empty(),
            pc_map: Map::empty(),
            plt_loads: Seq::empty(),
            exits: Seq::empty(),
            jumps: Seq::empty(),
        }
    }

    /// The size of the code in bytes.
    pub open spec fn code_size(self) -> int {
        4 * (self.code.len() as int)
    }

    /// The state with one more word.
    pub open spec fn emit(self, w: u32) -> JitModel {
        JitModel { code: self.code.push(w), ..self }
    }

    /// The state with one more instruction.
    pub open spec fn emit_insn(self, insn: RvInsn) -> JitModel {
        self.emit(insn.word())
    }

    /// The state with a sequence of instructions appended.
    pub open spec fn emit_seq(self, insns: Seq<RvInsn>) -> JitModel {
        JitModel { code: self.code + words(insns), ..self }
    }

    /// The state after the two shifts that clear the upper 32 bits of `rs` into `rd`.
    pub open spec fn zext_32(self, rd: u8, rs: u8) -> JitModel {
        self.emit_insn(RvInsn::Shift { op: ShiftOp::Slli, rd, rs1: rs, shamt: 32 }).emit_insn(
            RvInsn::Shift { op: ShiftOp::Srli, rd, rs1: rd, shamt: 32 },
        )
    }

    /// Whether a recorded byte offset names a word of the code.
    pub open spec fn is_code_offset(self, off: usize) -> bool {
        off % 4 == 0 && off < self.code_size()
    }

    /// Every recorded placeholder lies in the code; a recorded address load
    /// has its second word in the code too.
    pub open spec fn marks_wf(self) -> bool {
        &&& forall|i: int| 0 <= i < self.exits.len() ==> self.is_code_offset(#[trigger] self.exits[i])
        &&& forall|i: int|
            0 <= i < self.jumps.len() ==> self.is_code_offset((#[trigger] self.jumps[i]).1)
        &&& forall|i: int|
            0 <= i < self.plt_loads.len() ==> {
                &&& self.is_code_offset(#[trigger] self.plt_loads[i])
                &&& self.plt_loads[i] + 4 < self.code_size()
            }
        &&& forall|k: usize| #[trigger]
            self.pc_map.contains_key(k) ==> self.pc_map[k] <= self.code_size()
        &&& self.marks_apart()
    }

    /// No two recorded placeholders share a word: the offsets of each kind
    /// ascend in the order of emission, the two words of an address load
    /// belong to it alone, and no offset is recorded under two kinds.
    pub open spec fn marks_apart(self) -> bool {
        &&& forall|i: int, j: int|
            0 <= i < j < self.exits.len() ==> #[trigger] self.exits[i] < #[trigger] self.exits[j]
        &&& forall|i: int, j: int|
            0 <= i < j < self.jumps.len() ==> (#[trigger] self.jumps[i]).1 < (
            #[trigger] self.jumps[j]).1
        &&& forall|i: int, j: int|
            0 <= i < j < self.plt_loads.len() ==> #[trigger] self.plt_loads[i] + 8
                <= #[trigger] self.plt_loads[j]
        &&& forall|i: int, j: int|
            0 <= i < self.exits.len() && 0 <= j < self.jumps.len() ==> #[trigger] self.exits[i]
                != (#[trigger] self.jumps[j]).1
        &&& forall|i: int, j: int|
            0 <= i < self.plt_loads.len() && 0 <= j < self.exits.len() ==> #[trigger] self.exits[j]
                != #[trigger] self.plt_loads[i] && self.exits[j] != self.plt_loads[i] + 4
        &&& forall|i: int, j: int|
            0 <= i < self.plt_loads.len() && 0 <= j < self.jumps.len() ==> (
            #[trigger] self.jumps[j]).1 != #[trigger] self.plt_loads[i] && self.jumps[j].1
                != self.plt_loads[i] + 4
    }

    /// The state after `imm` is loaded into `t1` where the operand is an
    /// immediate; unchanged where it is a register.
    pub open spec fn t1_imm(self, use_imm: bool, imm: i32) -> JitModel {
        if use_imm {
            self.emit_seq(imm_insns(RV_REG_T1, imm as int))
        } else {
            self
        }
    }

    /// The state after `rd` is zero-extended where the operation is on 32
    /// bits; unchanged where it is on 64.
    pub open spec fn zext_if_32(self, is64: bool, rd: u8) -> JitModel {
        if is64 {
            self
        } else {
            self.zext_32(rd, rd)
        }
    }

    /// The state after an ALU instruction on the RV64 registers `rd` and `rs`.
    ///
    /// An immediate operand is first loaded into `t1`. The result of every
    /// 32-bit operation is zero-extended. Subtraction of an immediate is
    /// done on 64 bits before that. Shifts exist on 64 bits only and take
    /// the low bits of an immediate as the amount.
    pub open spec fn alu(
        self,
        op: AluOp,
        is64: bool,
        use_imm: bool,
        rd: u8,
        rs: u8,
        imm: i32,
    ) -> JitModel {
        let src = operand_reg(use_imm, rs);
        match op {
            AluOp::Sub => if use_imm {
                self.emit_seq(imm_insns(RV_REG_T1, imm as int)).emit_insn(
                    RvInsn::R { op: ROp::Sub, rd, rs1: rd, rs2: RV_REG_T1 },
                ).zext_if_32(is64, rd)
            } else {
                self.emit_insn(
                    RvInsn::R { op: alu_rop(AluOp::Sub, is64), rd, rs1: rd, rs2: rs },
                ).zext_if_32(is64, rd)
            },
            AluOp::Mov => if use_imm {
                self.emit_seq(imm_insns(rd, imm as int)).zext_if_32(is64, rd)
            } else {
                self.emit_insn(RvInsn::I { op: IOp::Addi, rd, rs1: rs, imm: 0 }).zext_if_32(
                    is64,
                    rd,
                )
            },
            AluOp::Lsh | AluOp::Rsh | AluOp::Arsh => if use_imm {
                self.emit_insn(
                    RvInsn::Shift { op: alu_shift_op(op), rd, rs1: rd, shamt: imm as u8 },
                )
            } else {
                self.emit_insn(RvInsn::R { op: alu_rop(op, true), rd, rs1: rd, rs2: rs })
            },
            _ => self.t1_imm(use_imm, imm).emit_insn(
                RvInsn::R { op: alu_rop(op, is64), rd, rs1: rd, rs2: src },
            ).zext_if_32(is64, rd),
        }
    }

    /// The state after a load into `rd` from `off(rs)`. An offset that does
    /// not fit 12 bits is added to the base in `t2` first.
    pub open spec fn load(self, size: MemSize, rd: u8, rs: u8, off: i16) -> JitModel {
        if in_i12_range(off as int) {
            self.emit_insn(RvInsn::I { op: load_op(size), rd, rs1: rs, imm: off as i32 })
        } else {
            self.emit_seq(imm_insns(RV_REG_T2, off as int)).emit_insn(
                RvInsn::R { op: ROp::Add, rd: RV_REG_T2, rs1: RV_REG_T2, rs2: rs },
            ).emit_insn(RvInsn::I { op: load_op(size), rd, rs1: RV_REG_T2, imm: 0 })
        }
    }

    /// The state after the base of a store is made ready: an offset that
    /// does not fit 12 bits is added to the base `rd` in `t1`.
    pub open spec fn store_base(self, rd: u8, off: i16) -> JitModel {
        if in_i12_range(off as int) {
            self
        } else {
            self.emit_seq(imm_insns(RV_REG_T1, off as int)).emit_insn(
                RvInsn::R { op: ROp::Add, rd: RV_REG_T1, rs1: RV_REG_T1, rs2: rd },
            )
        }
    }

    /// The state after a store of `rs`, or of `imm` loaded into `t2`, to `off(rd)`.
    pub open spec fn store(
        self,
        size: MemSize,
        use_imm: bool,
        rd: u8,
        rs: u8,
        off: i16,
        imm: i32,
    ) -> JitModel {
        let base = if in_i12_range(off as int) {
            rd
        } else {
            RV_REG_T1
        };
        let disp = if in_i12_range(off as int) {
            off as i32
        } else {
            0
        };
        let m = self.store_base(rd, off);
        if use_imm {
            m.emit_seq(imm_insns(RV_REG_T2, imm as int)).emit_insn(
                RvInsn::S { op: store_op(size), rs1: base, rs2: RV_REG_T2, imm: disp },
            )
        } else {
            m.emit_insn(RvInsn::S { op: store_op(size), rs1: base, rs2: rs, imm: disp })
        }
    }

    /// The state after both operands of a 32-bit comparison are
    /// zero-extended, the source into `t1` and the destination into `t2`;
    /// unchanged for a 64-bit comparison.
    pub open spec fn branch_operands(self, is64: bool, src: u8, rd: u8) -> JitModel {
        if is64 {
            self
        } else {
            self.zext_32(RV_REG_T1, src).zext_32(RV_REG_T2, rd)
        }
    }

    /// The state after a conditional jump: a branch on the opposite
    /// condition that skips the next word, then the jump placeholder.
    ///
    /// The test of `Jset` is an `and` into `t1`, zero-extended for a 32-bit
    /// test, and a branch on `t1` being zero.
    pub open spec fn jump_cond(
        self,
        cond: JmpCond,
        is64: bool,
        use_imm: bool,
        rd: u8,
        rs: u8,
        imm: i32,
    ) -> JitModel {
        let src = operand_reg(use_imm, rs);
        let m = self.t1_imm(use_imm, imm);
        if cond == JmpCond::Jset {
            m.emit_insn(
                RvInsn::R { op: ROp::And, rd: RV_REG_T1, rs1: src, rs2: rd },
            ).zext_if_32(is64, RV_REG_T1).emit_insn(
                RvInsn::B { op: BOp::Beq, rs1: RV_REG_T1, rs2: RV_REG_ZERO, imm: 8 },
            ).jump()
        } else {
            let a = if is64 {
                src
            } else {
                RV_REG_T1
            };
            let b = if is64 {
                rd
            } else {
                RV_REG_T2
            };
            m.branch_operands(is64, src, rd).emit_insn(skip_branch(cond, a, b)).jump()
        }
    }

    /// The state after an instruction of the given kind is lowered.
    pub open spec fn lower_kind(
        self,
        kind: BpfKind,
        rd: u8,
        rs: u8,
        off: i16,
        imm: i32,
    ) -> Result<JitModel, JitError> {
        match kind {
            BpfKind::LoadImm64 => Ok(self),
            BpfKind::Alu { op, is64, use_imm } => Ok(self.alu(op, is64, use_imm, rd, rs, imm)),
            BpfKind::Load { size } => Ok(self.load(size, rd, rs, off)),
            BpfKind::Store { size, use_imm } => Ok(self.store(size, use_imm, rd, rs, off, imm)),
            BpfKind::Ja => Ok(self.jump()),
            BpfKind::Jump { cond, is64, use_imm } => Ok(
                self.jump_cond(cond, is64, use_imm, rd, rs, imm),
            ),
            BpfKind::Call => if 0 <= imm < MAX_HELPERS {
                Ok(self.call(imm))
            } else {
                Err(JitError::InvalidHelper)
            },
            BpfKind::Exit => Ok(self.exit()),
        }
    }

    /// The state with the index of the current eBPF instruction set.
    pub open spec fn at_pc(self, pc: usize) -> JitModel {
        JitModel { bpf_pc: pc, ..self }
    }

    /// The state and the pending half of a 64-bit immediate load after the
    /// eBPF instruction `insn` at index `pc` is lowered.
    ///
    /// The word after the first half of a 64-bit immediate load is its
    /// second half, whatever its opcode; the code of the load is recorded
    /// under the index of the first half. Any other instruction is recorded
    /// under its own index. An instruction is refused if too little room is
    /// left, if one of its register fields is above the frame pointer, or if
    /// its opcode is not lowered.
    pub open spec fn lower_one(self, insn: u64, pc: usize, pending: Option<(i32, u8)>) -> Result<
        (JitModel, Option<(i32, u8)>),
        JitError,
    > {
        let m = self.at_pc(pc);
        if self.code.len() + MAX_INSN_WORDS + TAIL_RESERVE > MAX_CODE_WORDS {
            Err(JitError::CodeTooLarge)
        } else {
            match pending {
                Some((prev_imm, prev_dst)) => if prev_dst < BPF_MAX_REGS && pc > 0 {
                    Ok((m.load_imm64(prev_dst, imm64(prev_imm, spec_insn_imm(insn))), None))
                } else {
                    Err(JitError::InvalidRegister)
                },
                None => if spec_insn_op(insn) == crate::jit::consts::LD_IMM_DW {
                    Ok((m, Some((spec_insn_imm(insn), spec_insn_dst(insn)))))
                } else if spec_insn_dst(insn) >= BPF_MAX_REGS || spec_insn_src(insn)
                    >= BPF_MAX_REGS {
                    Err(JitError::InvalidRegister)
                } else {
                    match spec_classify(spec_insn_op(insn)) {
                        None => Err(JitError::UnsupportedOpcode),
                        Some(kind) => match m.mark_pc(pc).lower_kind(
                            kind,
                            spec_bpf_to_rv_reg(spec_insn_dst(insn)),
                            spec_bpf_to_rv_reg(spec_insn_src(insn)),
                            spec_insn_off(insn),
                            spec_insn_imm(insn),
                        ) {
                            Ok(m2) => Ok((m2, None)),
                            Err(e) => Err(e),
                        },
                    }
                },
            }
        }
    }

    /// The state after the eBPF instructions from index `i` on are lowered
    /// in order.
    pub open spec fn lower_from(
        self,
        insns: Seq<u64>,
        i: int,
        pending: Option<(i32, u8)>,
    ) -> Result<JitModel, JitError>
        decreases insns.len() - i,
    {
        if i < 0 || i >= insns.len() {
            Ok(self)
        } else {
            match self.lower_one(insns[i], i as usize, pending) {
                Ok((m, p)) => m.lower_from(insns, i + 1, p),
                Err(e) => Err(e),
            }
        }
    }

    /// The state after the epilogue: every exit placeholder is patched to
    /// jump to the epilogue, every jump placeholder to jump to the code of
    /// its target, and the epilogue follows: the result moves from `r0` to
    /// `a0`, the saved registers are restored and the function returns.
    ///
    /// It fails if a jump does not lead to the start of a lowered instruction.
    pub open spec fn epilogue(self, insns: Seq<u64>) -> Result<JitModel, JitError> {
        match patched_jumps(
            patched_exits(self.code, self.exits, self.code_size()),
            self.jumps,
            self.pc_map,
            insns,
        ) {
            Err(e) => Err(e),
            Ok(code) => Ok(
                (JitModel { code, ..self }).emit_insn(
                    RvInsn::I {
                        op: IOp::Addi,
                        rd: RV_REG_A0,
                        rs1: spec_bpf_to_rv_reg(BPF_REG_R0),
                        imm: 0,
                    },
                ).emit_insn(
                    RvInsn::I { op: IOp::Addi, rd: RV_REG_SP, rs1: RV_REG_FP, imm: 0 },
                ).emit_insn(
                    RvInsn::I { op: IOp::Ld, rd: RV_REG_S5, rs1: RV_REG_SP, imm: -56i32 },
                ).emit_insn(
                    RvInsn::I { op: IOp::Ld, rd: RV_REG_S4, rs1: RV_REG_SP, imm: -48i32 },
                ).emit_insn(
                    RvInsn::I { op: IOp::Ld, rd: RV_REG_S3, rs1: RV_REG_SP, imm: -40i32 },
                ).emit_insn(
                    RvInsn::I { op: IOp::Ld, rd: RV_REG_S2, rs1: RV_REG_SP, imm: -32i32 },
                ).emit_insn(
                    RvInsn::I { op: IOp::Ld, rd: RV_REG_S1, rs1: RV_REG_SP, imm: -24i32 },
                ).emit_insn(
                    RvInsn::I { op: IOp::Ld, rd: RV_REG_FP, rs1: RV_REG_SP, imm: -16i32 },
                ).emit_insn(
                    RvInsn::I { op: IOp::Ld, rd: RV_REG_RA, rs1: RV_REG_SP, imm: -8i32 },
                ).emit_insn(RvInsn::I { op: IOp::Jalr, rd: RV_REG_ZERO, rs1: RV_REG_RA, imm: 0 }),
            ),
        }
    }

    /// The state after the helper table is appended: zero words up to a
    /// 16-byte boundary, then two words for each helper address, low half
    /// first; and every recorded address load is patched to compute the
    /// address of the table.
    pub open spec fn helper_table(self, helpers: Seq<u64>) -> JitModel {
        let padded = self.code + Seq::new(pad_words(self.code.len()), |i: int| 0u32);
        JitModel {
            code: patched_plt(
                padded + helper_words(helpers),
                self.plt_loads,
                4 * (padded.len() as int),
            ),
            ..self
        }
    }

    /// The state after the byte offset of the next word is recorded for the
    /// eBPF instruction `pc`.
    pub open spec fn mark_pc(self, pc: usize) -> JitModel {
        JitModel { pc_map: self.pc_map.insert(pc, self.code_size() as usize), ..self }
    }

    /// The state after a 64-bit immediate load into the eBPF register `dst`:
    /// the code is recorded for the instruction before the current one, where
    /// the load began.
    pub open spec fn load_imm64(self, dst: u8, imm: int) -> JitModel {
        self.mark_pc((self.bpf_pc - 1) as usize).emit_seq(imm_insns(spec_bpf_to_rv_reg(dst), imm))
    }

    /// The state after a helper call: two placeholders for the address of
    /// the helper table, recorded for patching, then the load of entry `imm`
    /// of the table, the call, and the move of the result into `r0`.
    pub open spec fn call(self, imm: i32) -> JitModel {
        (JitModel { plt_loads: self.plt_loads.push(self.code_size() as usize), ..self }).emit(
            0,
        ).emit(0).emit_insn(
            RvInsn::I { op: IOp::Addi, rd: RV_REG_T1, rs1: RV_REG_T1, imm: (imm * 8) as i32 },
        ).emit_insn(RvInsn::I { op: IOp::Ld, rd: RV_REG_T2, rs1: RV_REG_T1, imm: 0 }).emit_insn(
            RvInsn::I { op: IOp::Jalr, rd: RV_REG_RA, rs1: RV_REG_T2, imm: 0 },
        ).emit_insn(
            RvInsn::I {
                op: IOp::Addi,
                rd: spec_bpf_to_rv_reg(BPF_REG_R0),
                rs1: RV_REG_A0,
                imm: 0,
            },
        )
    }

    /// The state after an exit: one placeholder, recorded for patching.
    pub open spec fn exit(self) -> JitModel {
        (JitModel { exits: self.exits.push(self.code_size() as usize), ..self }).emit(0)
    }

    /// The state after a jump: one placeholder, recorded with the index of
    /// the eBPF jump for patching.
    pub open spec fn jump(self) -> JitModel {
        (JitModel {
            jumps: self.jumps.push((self.bpf_pc, self.code_size() as usize)),
            ..self
        }).emit(0)
    }

    /// The state after the prologue: the frame that saves `ra`, `fp` and
    /// `s1` to `s5`, the native frame pointer, the eBPF frame pointer, and
    /// the eBPF stack area below it.
    pub open spec fn prologue(self, stack_size: usize) -> JitModel {
        self.emit_insn(
            RvInsn::I { op: IOp::Addi, rd: RV_REG_SP, rs1: RV_REG_SP, imm: -56i32 },
        ).emit_insn(RvInsn::S { op: SOp::Sd, rs1: RV_REG_SP, rs2: RV_REG_RA, imm: 48 }).emit_insn(
            RvInsn::S { op: SOp::Sd, rs1: RV_REG_SP, rs2: RV_REG_FP, imm: 40 },
        ).emit_insn(RvInsn::S { op: SOp::Sd, rs1: RV_REG_SP, rs2: RV_REG_S1, imm: 32 }).emit_insn(
            RvInsn::S { op: SOp::Sd, rs1: RV_REG_SP, rs2: RV_REG_S2, imm: 24 },
        ).emit_insn(RvInsn::S { op: SOp::Sd, rs1: RV_REG_SP, rs2: RV_REG_S3, imm: 16 }).emit_insn(
            RvInsn::S { op: SOp::Sd, rs1: RV_REG_SP, rs2: RV_REG_S4, imm: 8 },
        ).emit_insn(RvInsn::S { op: SOp::Sd, rs1: RV_REG_SP, rs2: RV_REG_S5, imm: 0 }).emit_insn(
            RvInsn::I { op: IOp::Addi, rd: RV_REG_FP, rs1: RV_REG_SP, imm: 56 },
        ).emit_insn(
            RvInsn::I {
                op: IOp::Addi,
                rd: spec_bpf_to_rv_reg(BPF_REG_FP),
                rs1: RV_REG_SP,
                imm: 0,
            },
        ).emit_insn(
            RvInsn::I {
                op: IOp::Addi,
                rd: RV_REG_SP,
                rs1: RV_REG_SP,
                imm: (-spec_frame_size(stack_size)) as i32,
            },
        )
    }

    /// The state is one that a context can hold.
    pub open spec fn wf(self) -> bool {
        &&& self.code.len() <= MAX_CODE_WORDS
        &&& self.marks_wf()
    }

    /// The state is well-formed and `n` more words fit.
    pub open spec fn has_room(self, n: int) -> bool {
        &&& self.wf()
        &&& self.code.len() + n <= MAX_CODE_WORDS
    }
}

/// Patching fails as soon as a prefix of the jumps fails.
pub proof fn lemma_patched_jumps_fails(
    code: Seq<u32>,
    jumps: Seq<(usize, usize)>,
    pc_map: Map<usize, usize>,
    insns: Seq<u64>,
    k: int,
)
    requires
        0 <= k <= jumps.len(),
        patched_jumps(code, jumps.take(k), pc_map, insns) is Err,
    ensures
        patched_jumps(code, jumps, pc_map, insns) == patched_jumps(
            code,
            jumps.take(k),
            pc_map,
            insns,
        ),
    decreases jumps.len() - k,
{
    if k == jumps.len() {
        assert(jumps.take(k) =~= jumps);
    } else {
        assert(jumps.take(k + 1).drop_last() =~= jumps.take(k));
        lemma_patched_jumps_fails(code, jumps, pc_map, insns, k + 1);
    }
}

/// A value that fits 32 bits is loaded by at most two instructions.
pub proof fn lemma_imm_insns_short(rd: u8, v: int)
    requires
        in_i32_range(v),
    ensures
        1 <= imm_insns(rd, v).len() <= 2,
{
}

/// Any 64-bit value is loaded by at most eight instructions.
pub proof fn lemma_imm_insns_len(rd: u8, v: int)
    requires
        -0x8000_0000_0000_0000 <= v < 0x8000_0000_0000_0000,
    ensures
        1 <= imm_insns(rd, v).len() <= 8,
{
    if !in_i32_range(v) {
        let hi = imm_hi(v);
        let upper = strip_low_zero_bits(hi, 51);
        lemma_imm_hi_smaller(v);
        lemma_strip_toward_zero(hi, 51);
        lemma_imm_insns_len_within(rd, upper, 2);
    }
}

// A value of magnitude at most 2^(30 + 12 * level) is loaded by at most
// 2 + 2 * level instructions.
proof fn lemma_imm_insns_len_within(rd: u8, v: int, level: nat)
    requires
        level <= 2,
        level == 0 ==> -0x4000_0000 <= v <= 0x4000_0000,
        level == 1 ==> -0x400_0000_0000 <= v <= 0x400_0000_0000,
        level == 2 ==> -0x40_0000_0000_0000 <= v <= 0x40_0000_0000_0000,
    ensures
        1 <= imm_insns(rd, v).len() <= 2 + 2 * level,
    decreases level,
{
    if !in_i32_range(v) {
        let hi = imm_hi(v);
        let upper = strip_low_zero_bits(hi, 51);
        lemma_imm_hi_smaller(v);
        lemma_strip_toward_zero(hi, 51);
        lemma_imm_insns_len_within(rd, upper, (level - 1) as nat);
    }
}

/// Emitting a sequence and then one instruction is emitting the longer sequence.
pub proof fn lemma_emit_seq_push(m: JitModel, insns: Seq<RvInsn>, insn: RvInsn)
    ensures
        m.emit_seq(insns).emit_insn(insn) == m.emit_seq(insns.push(insn)),
{
    assert((m.code + words(insns)).push(insn.word()) =~= m.code + words(insns.push(insn)));
}

/// Emitting one instruction is emitting a sequence of one.
pub proof fn lemma_emit_one(m: JitModel, a: RvInsn)
    ensures
        m.emit_insn(a) == m.emit_seq(seq![a]),
{
    assert(m.code.push(a.word()) =~= m.code + words(seq![a]));
}

/// Emitting two instructions is emitting a sequence of two.
pub proof fn lemma_emit_two(m: JitModel, a: RvInsn, b: RvInsn)
    ensures
        m.emit_insn(a).emit_insn(b) == m.emit_seq(seq![a, b]),
{
    assert(m.code.push(a.word()).push(b.word()) =~= m.code + words(seq![a, b]));
}

} // verus!
