//! The single-pass compiler. It lowers each eBPF instruction to RV64 words,
//! records where jumps, exits and helper calls were emitted, and patches them
//! once the layout is final.

use vstd::prelude::*;
use std::collections::BTreeMap;
use crate::jit::consts::{
    BpfKind, AluOp, JmpCond, MemSize, BPF_MAX_REGS, BPF_REG_R0, BPF_REG_FP, insn_op, insn_dst,
    insn_src, insn_off, insn_imm, classify,
};
use crate::jit::rv::{
    RvInsn, ROp, IOp, ShiftOp, SOp, BOp, RV_REG_ZERO, RV_REG_RA, RV_REG_SP, RV_REG_T1, RV_REG_T2,
    RV_REG_FP, RV_REG_S1, RV_REG_S2, RV_REG_S3, RV_REG_S4, RV_REG_S5, RV_REG_A0, RV_REG_A1,
    RV_REG_A2, RV_REG_A3, RV_REG_A4, RV_REG_A5,
};
use crate::jit::laws::{compiled_sites, lemma_compiled_sites};
use crate::jit::model::{
    JitModel, MAX_CODE_WORDS, MAX_HELPERS, TAIL_RESERVE, MAX_INSN_WORDS, spec_bpf_to_rv_reg,
    in_i32_range, in_i12_range, spec_round_up, imm_insns, imm_hi, imm_lo, imm_measure, wrap_i64,
    low_zero_bits, strip_low_zero_bits, alu_rop, alu_shift_op, load_op, store_op, skip_branch,
    jump_word, patched_exits, patched_jumps, jump_target, jump_resolves, pad_words, helper_words,
    plt_hi_word, plt_lo_word, patched_plt, spec_compile, lemma_imm_hi_smaller,
    lemma_strip_toward_zero, lemma_imm_insns_short, lemma_imm_insns_len, lemma_emit_seq_push,
    lemma_emit_one, lemma_emit_two, lemma_patched_jumps_fails,
};

verus! {

broadcast use vstd::std_specs::btree::group_btree_axioms;

/// Why a program was not compiled.
#[derive(Clone, Copy, Debug, PartialEq, Eq, Structural)]
pub enum JitError {
    /// An opcode that the compiler does not lower.
    UnsupportedOpcode,
    /// A register field above the frame pointer.
    InvalidRegister,
    /// A helper index outside 0..=255.
    InvalidHelper,
    /// A jump whose target is not the start of a lowered instruction.
    InvalidJumpTarget,
    /// More helpers than a table holds.
    TooManyHelpers,
    /// The compiled code would pass 1 MiB.
    CodeTooLarge,
}

/// Maps an eBPF register to its RV64 register.
pub fn bpf_to_rv_reg(reg: u8) -> (r: u8)
    requires
        reg < BPF_MAX_REGS,
    ensures
        r == spec_bpf_to_rv_reg(reg),
        0 < r < 32,
{
    if reg == 0 {
        RV_REG_A5
    } else if reg == 1 {
        RV_REG_A0
    } else if reg == 2 {
        RV_REG_A1
    } else if reg == 3 {
        RV_REG_A2
    } else if reg == 4 {
        RV_REG_A3
    } else if reg == 5 {
        RV_REG_A4
    } else if reg == 6 {
        RV_REG_S1
    } else if reg == 7 {
        RV_REG_S2
    } else if reg == 8 {
        RV_REG_S3
    } else if reg == 9 {
        RV_REG_S4
    } else {
        RV_REG_S5
    }
}

fn is_in_i32_range(v: i64) -> (r: bool)
    ensures
        r == in_i32_range(v as int),
{
    -0x8000_0000 <= v && v < 0x8000_0000
}

// The low 12 bits of an immediate, read as a signed number.
fn imm_low(imm: i64) -> (lo: i32)
    ensures
        lo == imm_lo(imm as int),
        -0x800 <= lo < 0x800,
{
    let r: i64 = if imm >= 0 {
        imm % 0x1000
    } else {
        0xfff - ((-(imm + 1)) % 0x1000)
    };
    if r < 0x800 {
        r as i32
    } else {
        (r - 0x1000) as i32
    }
}

// The upper part of an immediate that fits 32 bits.
fn imm_high_narrow(imm: i64) -> (hi: i64)
    requires
        in_i32_range(imm as int),
    ensures
        hi == imm_hi(imm as int),
        -0x8_0000 <= hi <= 0x8_0000,
{
    (imm + 0x800 + 0x8000_0000) / 0x1000 - 0x8_0000
}

// The upper part of any immediate.
fn imm_high(imm: i64) -> (hi: i64)
    ensures
        hi == imm_hi(imm as int),
{
    let t: i64 = if imm > i64::MAX - 0x800 {
        i64::MIN + (imm - (i64::MAX - 0x7ff))
    } else {
        imm + 0x800
    };
    assert(t == wrap_i64(imm + 0x800));
    if t >= 0 {
        t / 0x1000
    } else {
        -((-(t + 1)) / 0x1000) - 1
    }
}

fn is_in_i12_range(v: i32) -> (r: bool)
    ensures
        r == in_i12_range(v as int),
{
    -0x800 <= v && v < 0x800
}

fn round_up(x: usize, d: usize) -> (r: usize)
    requires
        d > 0,
        x + d <= usize::MAX,
        ((x + d - 1) / (d as int)) * d <= usize::MAX,
    ensures
        r == spec_round_up(x as int, d as int),
{
    ((x + d - 1) / d) * d
}

/// A compilation in progress.
pub struct JitContext<'a> {
    bpf_insns: &'a [u64],
    bpf_pc: usize,
    /// The RV64 words emitted so far.
    pub code: Vec<u32>,
    /// The size of `code` in bytes.
    pub code_size: usize,
    pc_map: BTreeMap<usize, usize>,
    plt_loads: Vec<usize>,
    exits: Vec<usize>,
    jumps: Vec<(usize, usize)>,
}

impl<'a> View for JitContext<'a> {
    type V = JitModel;

    closed spec fn view(&self) -> JitModel {
        JitModel {
            bpf_pc: self.bpf_pc,
            code: self.code@,
            pc_map: self.pc_map@,
            plt_loads: self.plt_loads@,
            exits: self.exits@,
            jumps: self.jumps@,
        }
    }
}

impl<'a> JitContext<'a> {
    /// The eBPF program being compiled.
    pub closed spec fn insns(&self) -> Seq<u64> {
        self.bpf_insns@
    }

    /// The context is consistent: the byte size matches the words, the code
    /// is within bounds and every recorded placeholder lies in it.
    pub closed spec fn wf(&self) -> bool {
        &&& self.code_size == 4 * self.code@.len()
        &&& self@.wf()
    }

    /// The context is consistent and `n` more words fit.
    pub open spec fn has_room(&self, n: int) -> bool {
        &&& self.wf()
        &&& self@.has_room(n)
    }

    /// A context for `bpf_insns` with no code emitted.
    pub fn new(bpf_insns: &'a [u64]) -> (ctx: Self)
        ensures
            ctx.wf(),
            ctx.insns() == bpf_insns@,
            ctx@ == JitModel::empty(),
    {
        Self {
            bpf_insns,
            bpf_pc: 0,
            code: Vec::new(),
            code_size: 0,
            pc_map: BTreeMap::new(),
            plt_loads: Vec::new(),
            exits: Vec::new(),
            jumps: Vec::new(),
        }
    }

    /// Ends the compilation and hands out the RV64 words.
    pub fn into_code(self) -> (code: Vec<u32>)
        ensures
            code@ == self@.code,
    {
        self.code
    }

    /// The RV64 words emitted so far.
    pub fn get_rv_code(&self) -> (code: &Vec<u32>)
        ensures
            code@ == self@.code,
    {
        &self.code
    }

    fn emit(&mut self, i: u32)
        requires
            old(self).has_room(1),
        ensures
            final(self)@ == old(self)@.emit(i),
            final(self)@.code.len() == old(self)@.code.len() + 1,
            final(self).wf(),
            final(self).insns() == old(self).insns(),
    {
        self.code.push(i);
        self.code_size += 4;
        proof {
            let before = old(self)@;
            let after = self@;
            assert(after.code_size() == before.code_size() + 4);
            assert forall|k: int| 0 <= k < after.exits.len() implies after.is_code_offset(
                #[trigger] after.exits[k],
            ) by {
                assert(before.is_code_offset(before.exits[k]));
            }
            assert forall|k: int| 0 <= k < after.jumps.len() implies after.is_code_offset(
                (#[trigger] after.jumps[k]).1,
            ) by {
                assert(before.is_code_offset(before.jumps[k].1));
            }
            assert forall|k: int| 0 <= k < after.plt_loads.len() implies after.is_code_offset(
                #[trigger] after.plt_loads[k],
            ) && after.plt_loads[k] + 4 < after.code_size() by {
                assert(before.is_code_offset(before.plt_loads[k]));
            }
        }
    }

    fn emit_insn(&mut self, insn: RvInsn)
        requires
            old(self).has_room(1),
        ensures
            final(self)@ == old(self)@.emit_insn(insn),
            final(self)@.code.len() == old(self)@.code.len() + 1,
            final(self).wf(),
            final(self).insns() == old(self).insns(),
    {
        self.emit(insn.encode());
    }

    /// Emits `lui rd, imm`, where `imm` is the upper 20 bits`.
    pub fn emit_lui(&mut self, rd: u8, imm: u32)
        requires
            old(self).has_room(1),
        ensures
            final(self)@ == old(self)@.emit_insn((RvInsn::Lui { rd, imm: imm << 12 })),
            final(self)@.code.len() == old(self)@.code.len() + 1,
            final(self).wf(),
            final(self).insns() == old(self).insns(),
    {
        self.emit_insn(RvInsn::Lui { rd, imm: imm << 12 });
    }

    /// Emits `add rd, rs1, rs2`.
    pub fn emit_add(&mut self, rd: u8, rs1: u8, rs2: u8)
        requires
            old(self).has_room(1),
        ensures
            final(self)@ == old(self)@.emit_insn((RvInsn::R { op: ROp::Add, rd, rs1, rs2 })),
            final(self)@.code.len() == old(self)@.code.len() + 1,
            final(self).wf(),
            final(self).insns() == old(self).insns(),
    {
        self.emit_insn(RvInsn::R { op: ROp::Add, rd, rs1, rs2 });
    }

    /// Emits `sub rd, rs1, rs2`.
    pub fn emit_sub(&mut self, rd: u8, rs1: u8, rs2: u8)
        requires
            old(self).has_room(1),
        ensures
            final(self)@ == old(self)@.emit_insn((RvInsn::R { op: ROp::Sub, rd, rs1, rs2 })),
            final(self)@.code.len() == old(self)@.code.len() + 1,
            final(self).wf(),
            final(self).insns() == old(self).insns(),
    {
        self.emit_insn(RvInsn::R { op: ROp::Sub, rd, rs1, rs2 });
    }

    /// Emits `mul rd, rs1, rs2`.
    pub fn emit_mul(&mut self, rd: u8, rs1: u8, rs2: u8)
        requires
            old(self).has_room(1),
        ensures
            final(self)@ == old(self)@.emit_insn((RvInsn::R { op: ROp::Mul, rd, rs1, rs2 })),
            final(self)@.code.len() == old(self)@.code.len() + 1,
            final(self).wf(),
            final(self).insns() == old(self).insns(),
    {
        self.emit_insn(RvInsn::R { op: ROp::Mul, rd, rs1, rs2 });
    }

    /// Emits `mulw rd, rs1, rs2`.
    pub fn emit_mulw(&mut self, rd: u8, rs1: u8, rs2: u8)
        requires
            old(self).has_room(1),
        ensures
            final(self)@ == old(self)@.emit_insn((RvInsn::R { op: ROp::Mulw, rd, rs1, rs2 })),
            final(self)@.code.len() == old(self)@.code.len() + 1,
            final(self).wf(),
            final(self).insns() == old(self).insns(),
    {
        self.emit_insn(RvInsn::R { op: ROp::Mulw, rd, rs1, rs2 });
    }

    /// Emits `divu rd, rs1, rs2`.
    pub fn emit_divu(&mut self, rd: u8, rs1: u8, rs2: u8)
        requires
            old(self).has_room(1),
        ensures
            final(self)@ == old(self)@.emit_insn((RvInsn::R { op: ROp::Divu, rd, rs1, rs2 })),
            final(self)@.code.len() == old(self)@.code.len() + 1,
            final(self).wf(),
            final(self).insns() == old(self).insns(),
    {
        self.emit_insn(RvInsn::R { op: ROp::Divu, rd, rs1, rs2 });
    }

    /// Emits `divuw rd, rs1, rs2`.
    pub fn emit_divuw(&mut self, rd: u8, rs1: u8, rs2: u8)
        requires
            old(self).has_room(1),
        ensures
            final(self)@ == old(self)@.emit_insn((RvInsn::R { op: ROp::Divuw, rd, rs1, rs2 })),
            final(self)@.code.len() == old(self)@.code.len() + 1,
            final(self).wf(),
            final(self).insns() == old(self).insns(),
    {
        self.emit_insn(RvInsn::R { op: ROp::Divuw, rd, rs1, rs2 });
    }

    /// Emits `remu rd, rs1, rs2`.
    pub fn emit_remu(&mut self, rd: u8, rs1: u8, rs2: u8)
        requires
            old(self).has_room(1),
        ensures
            final(self)@ == old(self)@.emit_insn((RvInsn::R { op: ROp::Remu, rd, rs1, rs2 })),
            final(self)@.code.len() == old(self)@.code.len() + 1,
            final(self).wf(),
            final(self).insns() == old(self).insns(),
    {
        self.emit_insn(RvInsn::R { op: ROp::Remu, rd, rs1, rs2 });
    }

    /// Emits `remuw rd, rs1, rs2`.
    pub fn emit_remuw(&mut self, rd: u8, rs1: u8, rs2: u8)
        requires
            old(self).has_room(1),
        ensures
            final(self)@ == old(self)@.emit_insn((RvInsn::R { op: ROp::Remuw, rd, rs1, rs2 })),
            final(self)@.code.len() == old(self)@.code.len() + 1,
            final(self).wf(),
            final(self).insns() == old(self).insns(),
    {
        self.emit_insn(RvInsn::R { op: ROp::Remuw, rd, rs1, rs2 });
    }

    /// Emits `and rd, rs1, rs2`.
    pub fn emit_and(&mut self, rd: u8, rs1: u8, rs2: u8)
        requires
            old(self).has_room(1),
        ensures
            final(self)@ == old(self)@.emit_insn((RvInsn::R { op: ROp::And, rd, rs1, rs2 })),
            final(self)@.code.len() == old(self)@.code.len() + 1,
            final(self).wf(),
            final(self).insns() == old(self).insns(),
    {
        self.emit_insn(RvInsn::R { op: ROp::And, rd, rs1, rs2 });
    }

    /// Emits `or rd, rs1, rs2`.
    pub fn emit_or(&mut self, rd: u8, rs1: u8, rs2: u8)
        requires
            old(self).has_room(1),
        ensures
            final(self)@ == old(self)@.emit_insn((RvInsn::R { op: ROp::Or, rd, rs1, rs2 })),
            final(self)@.code.len() == old(self)@.code.len() + 1,
            final(self).wf(),
            final(self).insns() == old(self).insns(),
    {
        self.emit_insn(RvInsn::R { op: ROp::Or, rd, rs1, rs2 });
    }

    /// Emits `subw rd, rs1, rs2`.
    pub fn emit_subw(&mut self, rd: u8, rs1: u8, rs2: u8)
        requires
            old(self).has_room(1),
        ensures
            final(self)@ == old(self)@.emit_insn((RvInsn::R { op: ROp::Subw, rd, rs1, rs2 })),
            final(self)@.code.len() == old(self)@.code.len() + 1,
            final(self).wf(),
            final(self).insns() == old(self).insns(),
    {
        self.emit_insn(RvInsn::R { op: ROp::Subw, rd, rs1, rs2 });
    }

    /// Emits `xor rd, rs1, rs2`.
    pub fn emit_xor(&mut self, rd: u8, rs1: u8, rs2: u8)
        requires
            old(self).has_room(1),
        ensures
            final(self)@ == old(self)@.emit_insn((RvInsn::R { op: ROp::Xor, rd, rs1, rs2 })),
            final(self)@.code.len() == old(self)@.code.len() + 1,
            final(self).wf(),
            final(self).insns() == old(self).insns(),
    {
        self.emit_insn(RvInsn::R { op: ROp::Xor, rd, rs1, rs2 });
    }

    /// Emits `addi rd, rs1, imm`.
    pub fn emit_addi(&mut self, rd: u8, rs1: u8, imm: i32)
        requires
            old(self).has_room(1),
        ensures
            final(self)@ == old(self)@.emit_insn((RvInsn::I { op: IOp::Addi, rd, rs1, imm })),
            final(self)@.code.len() == old(self)@.code.len() + 1,
            final(self).wf(),
            final(self).insns() == old(self).insns(),
    {
        self.emit_insn(RvInsn::I { op: IOp::Addi, rd, rs1, imm });
    }

    /// Emits `addiw rd, rs1, imm`.
    pub fn emit_addiw(&mut self, rd: u8, rs1: u8, imm: i32)
        requires
            old(self).has_room(1),
        ensures
            final(self)@ == old(self)@.emit_insn((RvInsn::I { op: IOp::Addiw, rd, rs1, imm })),
            final(self)@.code.len() == old(self)@.code.len() + 1,
            final(self).wf(),
            final(self).insns() == old(self).insns(),
    {
        self.emit_insn(RvInsn::I { op: IOp::Addiw, rd, rs1, imm });
    }

    /// Emits `slli rd, rs, shamt`.
    pub fn emit_slli(&mut self, rd: u8, rs: u8, shamt: u8)
        requires
            old(self).has_room(1),
        ensures
            final(self)@ == old(self)@.emit_insn((RvInsn::Shift { op: ShiftOp::Slli, rd, rs1: rs, shamt })),
            final(self)@.code.len() == old(self)@.code.len() + 1,
            final(self).wf(),
            final(self).insns() == old(self).insns(),
    {
        self.emit_insn(RvInsn::Shift { op: ShiftOp::Slli, rd, rs1: rs, shamt });
    }

    /// Emits `srli rd, rs, shamt`.
    pub fn emit_srli(&mut self, rd: u8, rs: u8, shamt: u8)
        requires
            old(self).has_room(1),
        ensures
            final(self)@ == old(self)@.emit_insn((RvInsn::Shift { op: ShiftOp::Srli, rd, rs1: rs, shamt })),
            final(self)@.code.len() == old(self)@.code.len() + 1,
            final(self).wf(),
            final(self).insns() == old(self).insns(),
    {
        self.emit_insn(RvInsn::Shift { op: ShiftOp::Srli, rd, rs1: rs, shamt });
    }

    /// Emits `lb rd, imm(rs)`.
    pub fn emit_lb(&mut self, rd: u8, rs: u8, imm: i32)
        requires
            old(self).has_room(1),
        ensures
            final(self)@ == old(self)@.emit_insn((RvInsn::I { op: IOp::Lb, rd, rs1: rs, imm })),
            final(self)@.code.len() == old(self)@.code.len() + 1,
            final(self).wf(),
            final(self).insns() == old(self).insns(),
    {
        self.emit_insn(RvInsn::I { op: IOp::Lb, rd, rs1: rs, imm });
    }

    /// Emits `lbu rd, imm(rs)`.
    pub fn emit_lbu(&mut self, rd: u8, rs: u8, imm: i32)
        requires
            old(self).has_room(1),
        ensures
            final(self)@ == old(self)@.emit_insn((RvInsn::I { op: IOp::Lbu, rd, rs1: rs, imm })),
            final(self)@.code.len() == old(self)@.code.len() + 1,
            final(self).wf(),
            final(self).insns() == old(self).insns(),
    {
        self.emit_insn(RvInsn::I { op: IOp::Lbu, rd, rs1: rs, imm });
    }

    /// Emits `lh rd, imm(rs)`.
    pub fn emit_lh(&mut self, rd: u8, rs: u8, imm: i32)
        requires
            old(self).has_room(1),
        ensures
            final(self)@ == old(self)@.emit_insn((RvInsn::I { op: IOp::Lh, rd, rs1: rs, imm })),
            final(self)@.code.len() == old(self)@.code.len() + 1,
            final(self).wf(),
            final(self).insns() == old(self).insns(),
    {
        self.emit_insn(RvInsn::I { op: IOp::Lh, rd, rs1: rs, imm });
    }

    /// Emits `lhu rd, imm(rs)`.
    pub fn emit_lhu(&mut self, rd: u8, rs: u8, imm: i32)
        requires
            old(self).has_room(1),
        ensures
            final(self)@ == old(self)@.emit_insn((RvInsn::I { op: IOp::Lhu, rd, rs1: rs, imm })),
            final(self)@.code.len() == old(self)@.code.len() + 1,
            final(self).wf(),
            final(self).insns() == old(self).insns(),
    {
        self.emit_insn(RvInsn::I { op: IOp::Lhu, rd, rs1: rs, imm });
    }

    /// Emits `lw rd, imm(rs)`.
    pub fn emit_lw(&mut self, rd: u8, rs: u8, imm: i32)
        requires
            old(self).has_room(1),
        ensures
            final(self)@ == old(self)@.emit_insn((RvInsn::I { op: IOp::Lw, rd, rs1: rs, imm })),
            final(self)@.code.len() == old(self)@.code.len() + 1,
            final(self).wf(),
            final(self).insns() == old(self).insns(),
    {
        self.emit_insn(RvInsn::I { op: IOp::Lw, rd, rs1: rs, imm });
    }

    /// Emits `lwu rd, imm(rs)`.
    pub fn emit_lwu(&mut self, rd: u8, rs: u8, imm: i32)
        requires
            old(self).has_room(1),
        ensures
            final(self)@ == old(self)@.emit_insn((RvInsn::I { op: IOp::Lwu, rd, rs1: rs, imm })),
            final(self)@.code.len() == old(self)@.code.len() + 1,
            final(self).wf(),
            final(self).insns() == old(self).insns(),
    {
        self.emit_insn(RvInsn::I { op: IOp::Lwu, rd, rs1: rs, imm });
    }

    /// Emits `ld rd, imm(rs)`.
    pub fn emit_ld(&mut self, rd: u8, rs: u8, imm: i32)
        requires
            old(self).has_room(1),
        ensures
            final(self)@ == old(self)@.emit_insn((RvInsn::I { op: IOp::Ld, rd, rs1: rs, imm })),
            final(self)@.code.len() == old(self)@.code.len() + 1,
            final(self).wf(),
            final(self).insns() == old(self).insns(),
    {
        self.emit_insn(RvInsn::I { op: IOp::Ld, rd, rs1: rs, imm });
    }

    /// Emits `sb rs2, imm(rs1)`.
    pub fn emit_sb(&mut self, rs2: u8, rs1: u8, imm: i32)
        requires
            old(self).has_room(1),
        ensures
            final(self)@ == old(self)@.emit_insn((RvInsn::S { op: SOp::Sb, rs1, rs2, imm })),
            final(self)@.code.len() == old(self)@.code.len() + 1,
            final(self).wf(),
            final(self).insns() == old(self).insns(),
    {
        self.emit_insn(RvInsn::S { op: SOp::Sb, rs1, rs2, imm });
    }

    /// Emits `sh rs2, imm(rs1)`.
    pub fn emit_sh(&mut self, rs2: u8, rs1: u8, imm: i32)
        requires
            old(self).has_room(1),
        ensures
            final(self)@ == old(self)@.emit_insn((RvInsn::S { op: SOp::Sh, rs1, rs2, imm })),
            final(self)@.code.len() == old(self)@.code.len() + 1,
            final(self).wf(),
            final(self).insns() == old(self).insns(),
    {
        self.emit_insn(RvInsn::S { op: SOp::Sh, rs1, rs2, imm });
    }

    /// Emits `sw rs2, imm(rs1)`.
    pub fn emit_sw(&mut self, rs2: u8, rs1: u8, imm: i32)
        requires
            old(self).has_room(1),
        ensures
            final(self)@ == old(self)@.emit_insn((RvInsn::S { op: SOp::Sw, rs1, rs2, imm })),
            final(self)@.code.len() == old(self)@.code.len() + 1,
            final(self).wf(),
            final(self).insns() == old(self).insns(),
    {
        self.emit_insn(RvInsn::S { op: SOp::Sw, rs1, rs2, imm });
    }

    /// Emits `sd rs2, imm(rs1)`.
    pub fn emit_sd(&mut self, rs2: u8, rs1: u8, imm: i32)
        requires
            old(self).has_room(1),
        ensures
            final(self)@ == old(self)@.emit_insn((RvInsn::S { op: SOp::Sd, rs1, rs2, imm })),
            final(self)@.code.len() == old(self)@.code.len() + 1,
            final(self).wf(),
            final(self).insns() == old(self).insns(),
    {
        self.emit_insn(RvInsn::S { op: SOp::Sd, rs1, rs2, imm });
    }

    /// Emits `jal rd, imm`.
    pub fn emit_jal(&mut self, rd: u8, imm: i32)
        requires
            old(self).has_room(1),
        ensures
            final(self)@ == old(self)@.emit_insn((RvInsn::Jal { rd, imm })),
            final(self)@.code.len() == old(self)@.code.len() + 1,
            final(self).wf(),
            final(self).insns() == old(self).insns(),
    {
        self.emit_insn(RvInsn::Jal { rd, imm });
    }

    /// Emits `jalr rd, imm(rs)`.
    pub fn emit_jalr(&mut self, rd: u8, rs: u8, imm: i32)
        requires
            old(self).has_room(1),
        ensures
            final(self)@ == old(self)@.emit_insn((RvInsn::I { op: IOp::Jalr, rd, rs1: rs, imm })),
            final(self)@.code.len() == old(self)@.code.len() + 1,
            final(self).wf(),
            final(self).insns() == old(self).insns(),
    {
        self.emit_insn(RvInsn::I { op: IOp::Jalr, rd, rs1: rs, imm });
    }

    /// Clears the upper 32 bits of `rs` into `rd`: a shift left by 32, then
    /// a logical shift right by 32.
    pub fn emit_zext_32(&mut self, rd: u8, rs: u8)
        requires
            old(self).has_room(2),
        ensures
            final(self)@ == old(self)@.zext_32(rd, rs),
            final(self)@.code.len() == old(self)@.code.len() + 2,
            final(self).wf(),
            final(self).insns() == old(self).insns(),
    {
        self.emit_slli(rd, rs, 32);
        self.emit_srli(rd, rd, 32);
    }

    /// Loads the 64-bit value `imm` into `rd`.
    pub fn emit_imm(&mut self, rd: u8, imm: i64)
        requires
            old(self).has_room(imm_insns(rd, imm as int).len() as int),
        ensures
            final(self)@ == old(self)@.emit_seq(imm_insns(rd, imm as int)),
            final(self)@.code.len() == old(self)@.code.len() + imm_insns(rd, imm as int).len(),
            final(self).wf(),
            final(self).insns() == old(self).insns(),
        decreases imm_measure(imm as int),
    {
        let lo: i32 = imm_low(imm);
        if is_in_i32_range(imm) {
            let hi: i64 = imm_high_narrow(imm);
            if hi != 0 {
                let hi20: u32 = if hi >= 0 {
                    hi as u32
                } else {
                    (hi + 0x10_0000) as u32
                };
                assert(hi20 << 12 == hi20 * 0x1000) by (bit_vector)
                    requires
                        hi20 < 0x10_0000,
                ;
                self.emit_lui(rd, hi20);
                self.emit_addiw(rd, rd, lo);
                proof {
                    lemma_emit_two(
                        old(self)@,
                        RvInsn::Lui { rd, imm: hi20 << 12 },
                        RvInsn::I { op: IOp::Addiw, rd, rs1: rd, imm: lo },
                    );
                }
            } else {
                self.emit_addi(rd, RV_REG_ZERO, lo);
                proof {
                    lemma_emit_one(
                        old(self)@,
                        RvInsn::I { op: IOp::Addi, rd, rs1: RV_REG_ZERO, imm: lo },
                    );
                }
            }
            return ;
        }
        let hi: i64 = imm_high(imm);
        let mut upper: i64 = hi;
        let mut shift: u8 = 0;
        while shift < 51 && upper % 2 == 0
            invariant
                shift <= 51,
                low_zero_bits(hi as int, 51) == shift + low_zero_bits(
                    upper as int,
                    (51 - shift) as nat,
                ),
                strip_low_zero_bits(hi as int, 51) == strip_low_zero_bits(
                    upper as int,
                    (51 - shift) as nat,
                ),
            decreases 51 - shift,
        {
            upper = upper / 2;
            shift += 1;
        }
        proof {
            lemma_imm_hi_smaller(imm as int);
            lemma_strip_toward_zero(hi as int, 51);
        }
        self.emit_imm(rd, upper);
        self.emit_slli(rd, rd, shift + 12);
        proof {
            lemma_emit_seq_push(
                old(self)@,
                imm_insns(rd, upper as int),
                RvInsn::Shift { op: ShiftOp::Slli, rd, rs1: rd, shamt: (shift + 12) as u8 },
            );
        }
        if lo != 0 {
            self.emit_addi(rd, rd, lo);
            proof {
                lemma_emit_seq_push(
                    old(self)@,
                    imm_insns(rd, upper as int).push(
                        RvInsn::Shift { op: ShiftOp::Slli, rd, rs1: rd, shamt: (shift + 12) as u8 },
                    ),
                    RvInsn::I { op: IOp::Addi, rd, rs1: rd, imm: lo },
                );
            }
        }
    }

    /// Lowers the second half of a 64-bit immediate load into the eBPF
    /// register `dst`.
    pub fn emit_load_imm64(&mut self, dst: u8, imm: i64)
        requires
            old(self)@.bpf_pc > 0,
            dst < BPF_MAX_REGS,
            old(self).has_room(imm_insns(spec_bpf_to_rv_reg(dst), imm as int).len() as int),
        ensures
            final(self)@ == old(self)@.load_imm64(dst, imm as int),
            final(self).wf(),
            final(self).insns() == old(self).insns(),
    {
        self.mark_pc(self.bpf_pc - 1);
        let rd = bpf_to_rv_reg(dst);
        self.emit_imm(rd, imm);
    }

    fn mark_pc(&mut self, pc: usize)
        requires
            old(self).wf(),
        ensures
            final(self)@ == old(self)@.mark_pc(pc),
            final(self).wf(),
            final(self).insns() == old(self).insns(),
    {
        let _ = self.pc_map.insert(pc, self.code_size);
        proof {
            let before = old(self)@;
            let after = self@;
            assert(after.pc_map == before.pc_map.insert(pc, self.code_size));
            assert forall|k: usize| #[trigger]
                after.pc_map.contains_key(k) implies after.pc_map[k] <= after.code_size() by {
                if k != pc {
                    assert(before.pc_map.contains_key(k));
                }
            }
            assert forall|k: int| 0 <= k < after.exits.len() implies after.is_code_offset(
                #[trigger] after.exits[k],
            ) by {
                assert(before.is_code_offset(before.exits[k]));
            }
            assert forall|k: int| 0 <= k < after.jumps.len() implies after.is_code_offset(
                (#[trigger] after.jumps[k]).1,
            ) by {
                assert(before.is_code_offset(before.jumps[k].1));
            }
            assert forall|k: int| 0 <= k < after.plt_loads.len() implies after.is_code_offset(
                #[trigger] after.plt_loads[k],
            ) && after.plt_loads[k] + 4 < after.code_size() by {
                assert(before.is_code_offset(before.plt_loads[k]));
            }
        }
    }

    /// Lowers a call of helper `imm`.
    pub fn emit_call(&mut self, imm: i32)
        requires
            0 <= imm < MAX_HELPERS,
            old(self).has_room(6),
        ensures
            final(self)@ == old(self)@.call(imm),
            final(self).wf(),
            final(self).insns() == old(self).insns(),
    {
        let rvoff = self.code_size;
        self.push_plt_load(rvoff);
        self.emit_addi(RV_REG_T1, RV_REG_T1, imm * 8);
        self.emit_ld(RV_REG_T2, RV_REG_T1, 0);
        self.emit_jalr(RV_REG_RA, RV_REG_T2, 0);
        self.emit_addi(bpf_to_rv_reg(BPF_REG_R0), RV_REG_A0, 0);
    }

    /// Lowers an exit.
    pub fn emit_exit(&mut self)
        requires
            old(self).has_room(1),
        ensures
            final(self)@ == old(self)@.exit(),
            final(self).wf(),
            final(self).insns() == old(self).insns(),
    {
        let rvoff = self.code_size;
        self.exits.push(rvoff);
        self.code.push(0);
        self.code_size += 4;
        proof {
            self.lemma_marked(old(self));
        }
    }

    /// Lowers a jump from the current eBPF instruction.
    pub fn emit_jump(&mut self)
        requires
            old(self).has_room(1),
        ensures
            final(self)@ == old(self)@.jump(),
            final(self).wf(),
            final(self).insns() == old(self).insns(),
    {
        let rvoff = self.code_size;
        self.jumps.push((self.bpf_pc, rvoff));
        self.code.push(0);
        self.code_size += 4;
        proof {
            self.lemma_marked(old(self));
        }
    }

    // Records an address load whose two placeholder words follow at once.
    fn push_plt_load(&mut self, rvoff: usize)
        requires
            old(self).has_room(2),
            rvoff == old(self).code_size,
        ensures
            final(self)@ == (JitModel {
                plt_loads: old(self)@.plt_loads.push(old(self)@.code_size() as usize),
                ..old(self)@
            }).emit(0).emit(0),
            final(self)@.code.len() == old(self)@.code.len() + 2,
            final(self).wf(),
            final(self).insns() == old(self).insns(),
    {
        self.plt_loads.push(rvoff);
        self.code.push(0);
        self.code.push(0);
        self.code_size += 8;
        proof {
            self.lemma_marked(old(self));
        }
    }

    // A context that grew from a consistent one, and whose new marks lie in
    // the new code, is consistent.
    proof fn lemma_marked(&self, before: &Self)
        requires
            before.wf(),
            self.code_size == 4 * self.code@.len(),
            self.code@.len() <= MAX_CODE_WORDS,
            before.code@.len() <= self.code@.len(),
            self.pc_map@ == before.pc_map@,
            self.exits@ == before.exits@ || (self.exits@ == before.exits@.push(before.code_size)
                && before.code@.len() < self.code@.len()),
            self.jumps@ == before.jumps@ || (exists|pc: usize|
                self.jumps@ == before.jumps@.push((pc, before.code_size)) && before.code@.len()
                    < self.code@.len()),
            self.plt_loads@ == before.plt_loads@ || (self.plt_loads@ == before.plt_loads@.push(
                before.code_size,
            ) && before.code@.len() + 1 < self.code@.len()),
            (self.exits@ == before.exits@ && self.jumps@ == before.jumps@) || (self.exits@
                == before.exits@ && self.plt_loads@ == before.plt_loads@) || (self.jumps@
                == before.jumps@ && self.plt_loads@ == before.plt_loads@),
        ensures
            self.wf(),
    {
        let b = before@;
        let a = self@;
        assert forall|k: int| 0 <= k < a.exits.len() implies a.is_code_offset(
            #[trigger] a.exits[k],
        ) by {
            if k < b.exits.len() {
                assert(b.is_code_offset(b.exits[k]));
            }
        }
        assert forall|k: int| 0 <= k < a.jumps.len() implies a.is_code_offset(
            (#[trigger] a.jumps[k]).1,
        ) by {
            if k < b.jumps.len() {
                assert(b.is_code_offset(b.jumps[k].1));
            }
        }
        assert forall|k: int| 0 <= k < a.plt_loads.len() implies a.is_code_offset(
            #[trigger] a.plt_loads[k],
        ) && a.plt_loads[k] + 4 < a.code_size() by {
            if k < b.plt_loads.len() {
                assert(b.is_code_offset(b.plt_loads[k]));
            }
        }
        assert forall|k: usize| #[trigger] a.pc_map.contains_key(k) implies a.pc_map[k]
            <= a.code_size() by {
            assert(b.pc_map.contains_key(k));
        }
        // a new mark stands where the code ended: behind every earlier mark
        let end = b.code_size();
        assert forall|i: int| 0 <= i < b.exits.len() implies #[trigger] b.exits[i] + 4 <= end by {
            assert(b.is_code_offset(b.exits[i]));
        }
        assert forall|i: int| 0 <= i < b.jumps.len() implies (#[trigger] b.jumps[i]).1 + 4
            <= end by {
            assert(b.is_code_offset(b.jumps[i].1));
        }
        assert forall|i: int| 0 <= i < b.plt_loads.len() implies #[trigger] b.plt_loads[i] + 8
            <= end by {
            assert(b.is_code_offset(b.plt_loads[i]));
        }
        assert forall|i: int, j: int| 0 <= i < j < a.exits.len() implies #[trigger] a.exits[i]
            < #[trigger] a.exits[j] by {
            if j < b.exits.len() {
                assert(b.exits[i] < b.exits[j]);
            } else {
                assert(b.exits[i] + 4 <= end);
            }
        }
        assert forall|i: int, j: int| 0 <= i < j < a.jumps.len() implies (#[trigger] a.jumps[i]).1
            < (#[trigger] a.jumps[j]).1 by {
            if j < b.jumps.len() {
                assert(b.jumps[i].1 < b.jumps[j].1);
            } else {
                assert(b.jumps[i].1 + 4 <= end);
            }
        }
        assert forall|i: int, j: int| 0 <= i < j < a.plt_loads.len() implies #[trigger] a.plt_loads[i]
            + 8 <= #[trigger] a.plt_loads[j] by {
            if j < b.plt_loads.len() {
                assert(b.plt_loads[i] + 8 <= b.plt_loads[j]);
            } else {
                assert(b.plt_loads[i] + 8 <= end);
            }
        }
        assert forall|i: int, j: int|
            0 <= i < a.exits.len() && 0 <= j < a.jumps.len() implies #[trigger] a.exits[i] != (
        #[trigger] a.jumps[j]).1 by {
            if i < b.exits.len() && j < b.jumps.len() {
                assert(b.exits[i] != b.jumps[j].1);
            } else if i < b.exits.len() {
                assert(b.exits[i] + 4 <= end);
            } else if j < b.jumps.len() {
                assert(b.jumps[j].1 + 4 <= end);
            }
        }
        assert forall|i: int, j: int|
            0 <= i < a.plt_loads.len() && 0 <= j < a.exits.len() implies #[trigger] a.exits[j]
            != #[trigger] a.plt_loads[i] && a.exits[j] != a.plt_loads[i] + 4 by {
            if i < b.plt_loads.len() && j < b.exits.len() {
                assert(b.exits[j] != b.plt_loads[i] && b.exits[j] != b.plt_loads[i] + 4);
            } else if i < b.plt_loads.len() {
                assert(b.plt_loads[i] + 8 <= end);
            } else if j < b.exits.len() {
                assert(b.exits[j] + 4 <= end);
            }
        }
        assert forall|i: int, j: int|
            0 <= i < a.plt_loads.len() && 0 <= j < a.jumps.len() implies (
        #[trigger] a.jumps[j]).1 != #[trigger] a.plt_loads[i] && a.jumps[j].1 != a.plt_loads[i]
            + 4 by {
            if i < b.plt_loads.len() && j < b.jumps.len() {
                assert(b.jumps[j].1 != b.plt_loads[i] && b.jumps[j].1 != b.plt_loads[i] + 4);
            } else if i < b.plt_loads.len() {
                assert(b.plt_loads[i] + 8 <= end);
            } else if j < b.jumps.len() {
                assert(b.jumps[j].1 + 4 <= end);
            }
        }
    }

    /// Emits the prologue for an eBPF stack of `stack_size` bytes.
    pub fn emit_prologue(&mut self, stack_size: usize)
        requires
            old(self).has_room(11),
        ensures
            final(self)@ == old(self)@.prologue(stack_size),
            final(self).wf(),
            final(self).insns() == old(self).insns(),
    {
        self.emit_addi(RV_REG_SP, RV_REG_SP, -56);
        self.emit_sd(RV_REG_RA, RV_REG_SP, 48);
        self.emit_sd(RV_REG_FP, RV_REG_SP, 40);
        self.emit_sd(RV_REG_S1, RV_REG_SP, 32);
        self.emit_sd(RV_REG_S2, RV_REG_SP, 24);
        self.emit_sd(RV_REG_S3, RV_REG_SP, 16);
        self.emit_sd(RV_REG_S4, RV_REG_SP, 8);
        self.emit_sd(RV_REG_S5, RV_REG_SP, 0);
        self.emit_addi(RV_REG_FP, RV_REG_SP, 56);
        self.emit_addi(bpf_to_rv_reg(BPF_REG_FP), RV_REG_SP, 0);
        let frame: i32 = if stack_size >= 1024 {
            1024
        } else {
            round_up(stack_size, 8) as i32
        };
        self.emit_addi(RV_REG_SP, RV_REG_SP, -frame);
    }

    // Loads an immediate operand into `t1`.
    fn emit_t1_imm(&mut self, use_imm: bool, imm: i32)
        requires
            old(self).has_room(2),
        ensures
            final(self)@ == old(self)@.t1_imm(use_imm, imm),
            final(self)@.code.len() <= old(self)@.code.len() + 2,
            final(self).wf(),
            final(self).insns() == old(self).insns(),
    {
        if use_imm {
            proof {
                lemma_imm_insns_short(RV_REG_T1, imm as int);
            }
            self.emit_imm(RV_REG_T1, imm as i64);
        }
    }

    // Zero-extends the result of a 32-bit operation.
    fn emit_zext_if_32(&mut self, is64: bool, rd: u8)
        requires
            old(self).has_room(2),
        ensures
            final(self)@ == old(self)@.zext_if_32(is64, rd),
            final(self)@.code.len() <= old(self)@.code.len() + 2,
            final(self).wf(),
            final(self).insns() == old(self).insns(),
    {
        if !is64 {
            self.emit_zext_32(rd, rd);
        }
    }

    // Lowers an ALU instruction.
    fn lower_alu(&mut self, op: AluOp, is64: bool, use_imm: bool, rd: u8, rs: u8, imm: i32)
        requires
            old(self).has_room(MAX_INSN_WORDS as int),
        ensures
            final(self)@ == old(self)@.alu(op, is64, use_imm, rd, rs, imm),
            final(self)@.code.len() <= old(self)@.code.len() + MAX_INSN_WORDS,
            final(self).wf(),
            final(self).insns() == old(self).insns(),
    {
        match op {
            AluOp::Sub => {
                if use_imm {
                    proof {
                        lemma_imm_insns_short(RV_REG_T1, imm as int);
                    }
                    self.emit_imm(RV_REG_T1, imm as i64);
                    self.emit_sub(rd, rd, RV_REG_T1);
                } else {
                    self.emit_insn(RvInsn::R { op: rop_of(AluOp::Sub, is64), rd, rs1: rd, rs2: rs });
                }
                self.emit_zext_if_32(is64, rd);
            },
            AluOp::Mov => {
                if use_imm {
                    proof {
                        lemma_imm_insns_short(rd, imm as int);
                    }
                    self.emit_imm(rd, imm as i64);
                } else {
                    self.emit_addi(rd, rs, 0);
                }
                self.emit_zext_if_32(is64, rd);
            },
            AluOp::Lsh | AluOp::Rsh | AluOp::Arsh => {
                if use_imm {
                    let shamt: u8 = #[verifier::truncate]
                    (imm as u8);
                    self.emit_insn(RvInsn::Shift { op: shift_op_of(op), rd, rs1: rd, shamt });
                } else {
                    self.emit_insn(RvInsn::R { op: rop_of(op, true), rd, rs1: rd, rs2: rs });
                }
            },
            _ => {
                self.emit_t1_imm(use_imm, imm);
                let src: u8 = if use_imm {
                    RV_REG_T1
                } else {
                    rs
                };
                self.emit_insn(RvInsn::R { op: rop_of(op, is64), rd, rs1: rd, rs2: src });
                self.emit_zext_if_32(is64, rd);
            },
        }
    }

    // Lowers a load.
    fn lower_load(&mut self, size: MemSize, rd: u8, rs: u8, off: i16)
        requires
            old(self).has_room(MAX_INSN_WORDS as int),
        ensures
            final(self)@ == old(self)@.load(size, rd, rs, off),
            final(self)@.code.len() <= old(self)@.code.len() + MAX_INSN_WORDS,
            final(self).wf(),
            final(self).insns() == old(self).insns(),
    {
        if is_in_i12_range(off as i32) {
            self.emit_insn(RvInsn::I { op: load_op_of(size), rd, rs1: rs, imm: off as i32 });
        } else {
            proof {
                lemma_imm_insns_short(RV_REG_T2, off as int);
            }
            self.emit_imm(RV_REG_T2, off as i64);
            self.emit_add(RV_REG_T2, RV_REG_T2, rs);
            self.emit_insn(RvInsn::I { op: load_op_of(size), rd, rs1: RV_REG_T2, imm: 0 });
        }
    }

    // Lowers a store.
    fn lower_store(&mut self, size: MemSize, use_imm: bool, rd: u8, rs: u8, off: i16, imm: i32)
        requires
            old(self).has_room(MAX_INSN_WORDS as int),
        ensures
            final(self)@ == old(self)@.store(size, use_imm, rd, rs, off, imm),
            final(self)@.code.len() <= old(self)@.code.len() + MAX_INSN_WORDS,
            final(self).wf(),
            final(self).insns() == old(self).insns(),
    {
        let mut disp: i32 = off as i32;
        let mut base: u8 = rd;
        if !is_in_i12_range(off as i32) {
            proof {
                lemma_imm_insns_short(RV_REG_T1, off as int);
            }
            self.emit_imm(RV_REG_T1, off as i64);
            self.emit_add(RV_REG_T1, RV_REG_T1, rd);
            disp = 0;
            base = RV_REG_T1;
        }
        assert(self@ == old(self)@.store_base(rd, off));
        if use_imm {
            proof {
                lemma_imm_insns_short(RV_REG_T2, imm as int);
            }
            self.emit_imm(RV_REG_T2, imm as i64);
            self.emit_insn(RvInsn::S { op: store_op_of(size), rs1: base, rs2: RV_REG_T2, imm: disp });
        } else {
            self.emit_insn(RvInsn::S { op: store_op_of(size), rs1: base, rs2: rs, imm: disp });
        }
    }

    // Lowers a conditional jump.
    fn lower_jump_cond(
        &mut self,
        cond: JmpCond,
        is64: bool,
        use_imm: bool,
        rd: u8,
        rs: u8,
        imm: i32,
    )
        requires
            old(self).has_room(MAX_INSN_WORDS as int),
        ensures
            final(self)@ == old(self)@.jump_cond(cond, is64, use_imm, rd, rs, imm),
            final(self)@.code.len() <= old(self)@.code.len() + MAX_INSN_WORDS,
            final(self).wf(),
            final(self).insns() == old(self).insns(),
    {
        self.emit_t1_imm(use_imm, imm);
        let src: u8 = if use_imm {
            RV_REG_T1
        } else {
            rs
        };
        if cond == JmpCond::Jset {
            self.emit_and(RV_REG_T1, src, rd);
            self.emit_zext_if_32(is64, RV_REG_T1);
            self.emit_insn(RvInsn::B { op: BOp::Beq, rs1: RV_REG_T1, rs2: RV_REG_ZERO, imm: 8 });
            self.emit_jump();
        } else {
            let mut a: u8 = src;
            let mut b: u8 = rd;
            if !is64 {
                self.emit_zext_32(RV_REG_T1, src);
                self.emit_zext_32(RV_REG_T2, rd);
                a = RV_REG_T1;
                b = RV_REG_T2;
            }
            self.emit_insn(skip_branch_of(cond, a, b));
            self.emit_jump();
        }
    }

    // Lowers an instruction of the given kind.
    fn lower_kind(&mut self, kind: BpfKind, rd: u8, rs: u8, off: i16, imm: i32) -> (r: Result<
        (),
        JitError,
    >)
        requires
            old(self).has_room(MAX_INSN_WORDS as int),
        ensures
            match r {
                Ok(()) => old(self)@.lower_kind(kind, rd, rs, off, imm) == Ok::<
                    JitModel,
                    JitError,
                >(final(self)@),
                Err(e) => old(self)@.lower_kind(kind, rd, rs, off, imm) == Err::<
                    JitModel,
                    JitError,
                >(e),
            },
            final(self)@.code.len() <= old(self)@.code.len() + MAX_INSN_WORDS,
            final(self).wf(),
            final(self).insns() == old(self).insns(),
    {
        match kind {
            BpfKind::LoadImm64 => {},
            BpfKind::Alu { op, is64, use_imm } => {
                self.lower_alu(op, is64, use_imm, rd, rs, imm);
            },
            BpfKind::Load { size } => {
                self.lower_load(size, rd, rs, off);
            },
            BpfKind::Store { size, use_imm } => {
                self.lower_store(size, use_imm, rd, rs, off, imm);
            },
            BpfKind::Ja => {
                self.emit_jump();
            },
            BpfKind::Jump { cond, is64, use_imm } => {
                self.lower_jump_cond(cond, is64, use_imm, rd, rs, imm);
            },
            BpfKind::Call => {
                if 0 <= imm && imm < 256 {
                    self.emit_call(imm);
                } else {
                    return Err(JitError::InvalidHelper);
                }
            },
            BpfKind::Exit => {
                self.emit_exit();
            },
        }
        Ok(())
    }

    // Lowers one eBPF instruction, given the pending first half of a 64-bit
    // immediate load, and returns what is pending after it.
    fn lower_one(&mut self, insn: u64, pc: usize, pending: Option<(i32, u8)>) -> (r: Result<
        Option<(i32, u8)>,
        JitError,
    >)
        requires
            old(self).wf(),
        ensures
            match r {
                Ok(p) => old(self)@.lower_one(insn, pc, pending) == Ok::<
                    (JitModel, Option<(i32, u8)>),
                    JitError,
                >((final(self)@, p)) && final(self)@.code.len() + TAIL_RESERVE <= MAX_CODE_WORDS,
                Err(e) => old(self)@.lower_one(insn, pc, pending) == Err::<
                    (JitModel, Option<(i32, u8)>),
                    JitError,
                >(e),
            },
            final(self).wf(),
            final(self).insns() == old(self).insns(),
    {
        if self.code.len() + MAX_INSN_WORDS + TAIL_RESERVE > MAX_CODE_WORDS {
            return Err(JitError::CodeTooLarge);
        }
        self.bpf_pc = pc;
        proof {
            self.lemma_marked(old(self));
        }
        let imm = insn_imm(insn);
        match pending {
            Some((prev_imm, prev_dst)) => {
                if prev_dst < 11 && pc > 0 {
                    let low: i64 = if prev_imm >= 0 {
                        prev_imm as i64
                    } else {
                        prev_imm as i64 + 0x1_0000_0000
                    };
                    let v: i64 = (imm as i64) * 0x1_0000_0000 + low;
                    proof {
                        lemma_imm_insns_len(spec_bpf_to_rv_reg(prev_dst), v as int);
                    }
                    self.emit_load_imm64(prev_dst, v);
                    Ok(None)
                } else {
                    Err(JitError::InvalidRegister)
                }
            },
            None => {
                let op = insn_op(insn);
                let dst = insn_dst(insn);
                let src = insn_src(insn);
                if op == crate::jit::consts::LD_IMM_DW {
                    Ok(Some((imm, dst)))
                } else if dst >= 11 || src >= 11 {
                    Err(JitError::InvalidRegister)
                } else {
                    match classify(op) {
                        None => Err(JitError::UnsupportedOpcode),
                        Some(kind) => {
                            self.mark_pc(pc);
                            let rd = bpf_to_rv_reg(dst);
                            let rs = bpf_to_rv_reg(src);
                            match self.lower_kind(kind, rd, rs, insn_off(insn), imm) {
                                Ok(()) => Ok(None),
                                Err(e) => Err(e),
                            }
                        },
                    }
                }
            },
        }
    }

    /// Replaces the exit placeholder at `rvoff` by a jump to `real_exit`.
    pub fn fixup_exit(&mut self, rvoff: usize, real_exit: usize)
        requires
            old(self).wf(),
            old(self)@.is_code_offset(rvoff),
            real_exit <= 4 * MAX_CODE_WORDS,
        ensures
            final(self)@ == (JitModel {
                code: old(self)@.code.update(
                    rvoff as int / 4,
                    jump_word(rvoff as int, real_exit as int),
                ),
                ..old(self)@
            }),
            final(self).wf(),
            final(self).insns() == old(self).insns(),
    {
        let i: usize = rvoff / 4;
        let delta: i32 = (real_exit as i64 - rvoff as i64) as i32;
        self.code.set(i, (RvInsn::Jal { rd: RV_REG_ZERO, imm: delta }).encode());
        proof {
            self.lemma_marked(old(self));
        }
    }

    /// Replaces the jump placeholder at `rvoff`, emitted for the eBPF jump
    /// at index `bpf_pc`, by a jump to the code of its target. Returns
    /// whether the target is an instruction of the program; if it is not,
    /// nothing changes.
    pub fn fixup_jump(&mut self, bpf_pc: usize, rvoff: usize) -> (ok: bool)
        requires
            old(self).wf(),
            old(self)@.is_code_offset(rvoff),
        ensures
            ok == jump_resolves(old(self).insns(), old(self)@.pc_map, bpf_pc),
            ok ==> final(self)@ == (JitModel {
                code: old(self)@.code.update(
                    rvoff as int / 4,
                    jump_word(
                        rvoff as int,
                        old(self)@.pc_map[jump_target(old(self).insns(), bpf_pc) as usize] as int,
                    ),
                ),
                ..old(self)@
            }),
            !ok ==> final(self)@ == old(self)@,
            final(self).wf(),
            final(self).insns() == old(self).insns(),
    {
        if bpf_pc >= self.bpf_insns.len() {
            return false;
        }
        let insn_off: i16 = insn_off(self.bpf_insns[bpf_pc]);
        // the offset of an eBPF jump counts from the next instruction
        let dst_pc: i128 = bpf_pc as i128 + 1 + insn_off as i128;
        if dst_pc < 0 || dst_pc > usize::MAX as i128 {
            return false;
        }
        let dst_key: usize = dst_pc as usize;
        match self.pc_map.get(&dst_key) {
            None => false,
            Some(dst_rvoff) => {
                assert(self@.pc_map.contains_key(dst_key));
                assert(self@.pc_map[dst_key] == *dst_rvoff);
                assert(*dst_rvoff <= self@.code_size());
                let delta: i32 = (*dst_rvoff as i64 - rvoff as i64) as i32;
                let i: usize = rvoff / 4;
                self.code.set(i, (RvInsn::Jal { rd: RV_REG_ZERO, imm: delta }).encode());
                proof {
                    self.lemma_marked(old(self));
                }
                true
            },
        }
    }

    /// Replaces the two placeholders of the address load at `rvoff` by the
    /// load of the address of the table at `plt_offset`.
    pub fn fixup_plt_load(&mut self, rvoff: usize, plt_offset: usize)
        requires
            old(self).wf(),
            old(self)@.is_code_offset(rvoff),
            rvoff + 4 < old(self)@.code_size(),
            rvoff <= plt_offset <= 4 * MAX_CODE_WORDS,
        ensures
            final(self)@ == (JitModel {
                code: old(self)@.code.update(
                    rvoff as int / 4,
                    plt_hi_word(rvoff as int, plt_offset as int),
                ).update(rvoff as int / 4 + 1, plt_lo_word(rvoff as int, plt_offset as int)),
                ..old(self)@
            }),
            final(self).wf(),
            final(self).insns() == old(self).insns(),
    {
        let rel_off: i32 = (plt_offset - rvoff) as i32;
        let hi: u32 = ((rel_off + 0x800) / 0x1000) as u32;
        let low: i32 = rel_off % 0x1000;
        let lo: i32 = if low < 0x800 {
            low
        } else {
            low - 0x1000
        };
        let i: usize = rvoff / 4;
        assert(hi << 12 == hi * 0x1000) by (bit_vector)
            requires
                hi < 0x10_0000,
        ;
        self.code.set(i, (RvInsn::Auipc { rd: RV_REG_T1, imm: hi << 12 }).encode());
        self.code.set(
            i + 1,
            (RvInsn::I { op: IOp::Addi, rd: RV_REG_T1, rs1: RV_REG_T1, imm: lo }).encode(),
        );
        proof {
            self.lemma_marked(old(self));
        }
    }

    /// Appends the helper table and patches every helper call to reach it.
    pub fn build_helper_fn_table(&mut self, helpers: &[u64])
        requires
            old(self).has_room(3 + 2 * (helpers@.len() as int)),
        ensures
            final(self)@ == old(self)@.helper_table(helpers@),
            final(self).wf(),
            final(self).insns() == old(self).insns(),
    {
        // pad with zero words up to a 16-byte boundary
        let pad: usize = (4 - self.code.len() % 4) % 4;
        let ghost start = self@;
        let mut k: usize = 0;
        while k < pad
            invariant
                k <= pad,
                pad == pad_words(start.code.len()),
                self.wf(),
                self.insns() == old(self).insns(),
                start == old(self)@,
                start.has_room(3 + 2 * (helpers@.len() as int)),
                self@ == (JitModel {
                    code: start.code + Seq::new(k as nat, |i: int| 0u32),
                    ..start
                }),
            decreases pad - k,
        {
            self.emit(0);
            k += 1;
            assert(self@.code =~= start.code + Seq::new(k as nat, |i: int| 0u32));
        }
        let plt_offset: usize = self.code_size;
        let ghost padded = self@.code;
        let n: usize = helpers.len();
        let mut j: usize = 0;
        while j < n
            invariant
                j <= n,
                n == helpers@.len(),
                self.wf(),
                self.insns() == old(self).insns(),
                start.has_room(3 + 2 * (helpers@.len() as int)),
                padded.len() == start.code.len() + pad,
                pad <= 3,
                self@ == (JitModel {
                    code: padded + helper_words(helpers@).take(2 * j),
                    ..start
                }),
            decreases n - j,
        {
            let helper: u64 = helpers[j];
            let lo: u32 = #[verifier::truncate]
            (helper as u32);
            let hi: u32 = #[verifier::truncate]
            ((helper >> 32) as u32);
            self.emit(lo);
            self.emit(hi);
            j += 1;
            assert(self@.code =~= padded + helper_words(helpers@).take(2 * j));
        }
        assert(helper_words(helpers@).take(2 * n) =~= helper_words(helpers@));
        let ghost tabled = self@.code;
        let count: usize = self.plt_loads.len();
        let mut l: usize = 0;
        while l < count
            invariant
                l <= count,
                count == start.plt_loads.len(),
                self.wf(),
                self.insns() == old(self).insns(),
                start.wf(),
                plt_offset == 4 * padded.len(),
                padded.len() <= MAX_CODE_WORDS,
                start.code.len() <= padded.len(),
                tabled.len() >= padded.len(),
                self@.code.len() == tabled.len(),
                self@ == (JitModel {
                    code: patched_plt(tabled, start.plt_loads.take(l as int), plt_offset as int),
                    ..start
                }),
            decreases count - l,
        {
            let off: usize = self.plt_loads[l];
            assert(start.is_code_offset(start.plt_loads[l as int]));
            self.fixup_plt_load(off, plt_offset);
            proof {
                assert(start.plt_loads.take(l + 1).drop_last() =~= start.plt_loads.take(l as int));
            }
            l += 1;
        }
        assert(start.plt_loads.take(count as int) =~= start.plt_loads);
    }

    /// Patches every exit and jump, then emits the epilogue. Returns the
    /// error, with nothing emitted after the patches, if a jump does not
    /// lead to the start of a lowered instruction.
    pub fn emit_epilogue(&mut self) -> (r: Result<(), JitError>)
        requires
            old(self).has_room(10),
        ensures
            match r {
                Ok(()) => old(self)@.epilogue(old(self).insns()) == Ok::<JitModel, JitError>(
                    final(self)@,
                ) && final(self)@.code.len() == old(self)@.code.len() + 10,
                Err(e) => old(self)@.epilogue(old(self).insns()) == Err::<JitModel, JitError>(e),
            },
            final(self).wf(),
            final(self).insns() == old(self).insns(),
    {
        let real_exit: usize = self.code_size;
        let ghost start = self@;
        let exit_count: usize = self.exits.len();
        let mut k: usize = 0;
        while k < exit_count
            invariant
                k <= exit_count,
                exit_count == start.exits.len(),
                self.wf(),
                self.insns() == old(self).insns(),
                start.has_room(10),
                start == old(self)@,
                real_exit == start.code_size(),
                self@.code.len() == start.code.len(),
                self@ == (JitModel {
                    code: patched_exits(start.code, start.exits.take(k as int), real_exit as int),
                    ..start
                }),
            decreases exit_count - k,
        {
            let off: usize = self.exits[k];
            assert(start.is_code_offset(start.exits[k as int]));
            self.fixup_exit(off, real_exit);
            proof {
                assert(start.exits.take(k + 1).drop_last() =~= start.exits.take(k as int));
            }
            k += 1;
        }
        assert(start.exits.take(exit_count as int) =~= start.exits);
        let ghost exits_done = self@.code;
        let jump_count: usize = self.jumps.len();
        let mut j: usize = 0;
        while j < jump_count
            invariant
                j <= jump_count,
                jump_count == start.jumps.len(),
                self.wf(),
                self.insns() == old(self).insns(),
                start.has_room(10),
                self@.code.len() == start.code.len(),
                exits_done.len() == start.code.len(),
                start == old(self)@,
                exits_done == patched_exits(start.code, start.exits, start.code_size()),
                patched_jumps(
                    exits_done,
                    start.jumps.take(j as int),
                    start.pc_map,
                    old(self).insns(),
                ) == Ok::<Seq<u32>, JitError>(self@.code),
                self@ == (JitModel { code: self@.code, ..start }),
            decreases jump_count - j,
        {
            let (pc, off) = self.jumps[j];
            assert(start.is_code_offset(start.jumps[j as int].1));
            proof {
                assert(start.jumps.take(j + 1).drop_last() =~= start.jumps.take(j as int));
            }
            if !self.fixup_jump(pc, off) {
                proof {
                    let prefix = start.jumps.take(j + 1);
                    assert(prefix.last() == start.jumps[j as int]);
                    assert(patched_jumps(exits_done, prefix, start.pc_map, old(self).insns())
                        == Err::<Seq<u32>, JitError>(JitError::InvalidJumpTarget));
                    lemma_patched_jumps_fails(
                        exits_done,
                        start.jumps,
                        start.pc_map,
                        old(self).insns(),
                        j + 1,
                    );
                }
                return Err(JitError::InvalidJumpTarget);
            }
            j += 1;
        }
        assert(start.jumps.take(jump_count as int) =~= start.jumps);
        // the result: move r0 to a0
        self.emit_addi(RV_REG_A0, bpf_to_rv_reg(BPF_REG_R0), 0);
        // restore the stack pointer from the frame pointer
        self.emit_addi(RV_REG_SP, RV_REG_FP, 0);
        self.emit_ld(RV_REG_S5, RV_REG_SP, -56);
        self.emit_ld(RV_REG_S4, RV_REG_SP, -48);
        self.emit_ld(RV_REG_S3, RV_REG_SP, -40);
        self.emit_ld(RV_REG_S2, RV_REG_SP, -32);
        self.emit_ld(RV_REG_S1, RV_REG_SP, -24);
        self.emit_ld(RV_REG_FP, RV_REG_SP, -16);
        self.emit_ld(RV_REG_RA, RV_REG_SP, -8);
        self.emit_jalr(RV_REG_ZERO, RV_REG_RA, 0);
        Ok(())
    }
}

/// Lowers every instruction of the program in order. The code must leave
/// room for the end of the program, which `compile` emits behind it.
pub fn emit_instructions(ctx: &mut JitContext) -> (r: Result<(), JitError>)
    requires
        old(ctx).wf(),
        old(ctx)@.code.len() + TAIL_RESERVE <= MAX_CODE_WORDS,
    ensures
        match r {
            Ok(()) => old(ctx)@.lower_from(old(ctx).insns(), 0, None) == Ok::<JitModel, JitError>(
                final(ctx)@,
            ) && final(ctx)@.code.len() + TAIL_RESERVE <= MAX_CODE_WORDS,
            Err(e) => old(ctx)@.lower_from(old(ctx).insns(), 0, None) == Err::<
                JitModel,
                JitError,
            >(e),
        },
        final(ctx).wf(),
        final(ctx).insns() == old(ctx).insns(),
{
    let n: usize = ctx.bpf_insns.len();
    let mut pending: Option<(i32, u8)> = None;
    let mut i: usize = 0;
    while i < n
        invariant
            i <= n,
            n == ctx.insns().len(),
            ctx.wf(),
            ctx.insns() == old(ctx).insns(),
            ctx@.code.len() + TAIL_RESERVE <= MAX_CODE_WORDS,
            old(ctx)@.lower_from(old(ctx).insns(), 0, None) == ctx@.lower_from(
                ctx.insns(),
                i as int,
                pending,
            ),
        decreases n - i,
    {
        let insn: u64 = ctx.bpf_insns[i];
        match ctx.lower_one(insn, i, pending) {
            Ok(p) => {
                pending = p;
            },
            Err(e) => {
                return Err(e);
            },
        }
        i += 1;
    }
    Ok(())
}

/// Compiles the program of `ctx` for the given helper addresses and eBPF
/// stack size. On success the context holds the native code, ending in the
/// helper table.
pub fn compile(ctx: &mut JitContext, helpers: &[u64], stack_size: usize) -> (r: Result<
    (),
    JitError,
>)
    requires
        old(ctx).wf(),
    ensures
        match r {
            Ok(()) => spec_compile(old(ctx)@, old(ctx).insns(), helpers@, stack_size) == Ok::<
                JitModel,
                JitError,
            >(final(ctx)@),
            Err(e) => spec_compile(old(ctx)@, old(ctx).insns(), helpers@, stack_size) == Err::<
                JitModel,
                JitError,
            >(e),
        },
        r is Ok ==> compiled_sites(final(ctx)@, old(ctx).insns(), helpers@.len() as int),
        final(ctx).wf(),
        final(ctx).insns() == old(ctx).insns(),
{
    if helpers.len() > MAX_HELPERS {
        return Err(JitError::TooManyHelpers);
    }
    if ctx.code.len() + 11 + TAIL_RESERVE > MAX_CODE_WORDS {
        return Err(JitError::CodeTooLarge);
    }
    ctx.emit_prologue(stack_size);
    match emit_instructions(ctx) {
        Err(e) => {
            return Err(e);
        },
        Ok(()) => {},
    }
    let ghost body = ctx@;
    match ctx.emit_epilogue() {
        Err(e) => {
            return Err(e);
        },
        Ok(()) => {},
    }
    ctx.build_helper_fn_table(helpers);
    proof {
        lemma_compiled_sites(body, ctx.insns(), helpers@);
    }
    Ok(())
}

fn rop_of(op: AluOp, is64: bool) -> (r: ROp)
    ensures
        r == alu_rop(op, is64),
{
    match op {
        AluOp::Add => ROp::Add,
        AluOp::Sub => if is64 {
            ROp::Sub
        } else {
            ROp::Subw
        },
        AluOp::Mul => if is64 {
            ROp::Mul
        } else {
            ROp::Mulw
        },
        AluOp::Div => if is64 {
            ROp::Divu
        } else {
            ROp::Divuw
        },
        AluOp::Mod => if is64 {
            ROp::Remu
        } else {
            ROp::Remuw
        },
        AluOp::Or => ROp::Or,
        AluOp::And => ROp::And,
        AluOp::Xor => ROp::Xor,
        AluOp::Lsh => ROp::Sll,
        AluOp::Rsh => ROp::Srl,
        AluOp::Arsh => ROp::Sra,
        AluOp::Mov => ROp::Add,
    }
}

fn shift_op_of(op: AluOp) -> (r: ShiftOp)
    ensures
        r == alu_shift_op(op),
{
    match op {
        AluOp::Lsh => ShiftOp::Slli,
        AluOp::Rsh => ShiftOp::Srli,
        _ => ShiftOp::Srai,
    }
}

fn load_op_of(size: MemSize) -> (r: IOp)
    ensures
        r == load_op(size),
{
    match size {
        MemSize::B => IOp::Lbu,
        MemSize::H => IOp::Lhu,
        MemSize::W => IOp::Lwu,
        MemSize::DW => IOp::Ld,
    }
}

fn store_op_of(size: MemSize) -> (r: SOp)
    ensures
        r == store_op(size),
{
    match size {
        MemSize::B => SOp::Sb,
        MemSize::H => SOp::Sh,
        MemSize::W => SOp::Sw,
        MemSize::DW => SOp::Sd,
    }
}

fn skip_branch_of(cond: JmpCond, src: u8, dst: u8) -> (r: RvInsn)
    ensures
        r == skip_branch(cond, src, dst),
{
    match cond {
        JmpCond::Jeq => RvInsn::B { op: BOp::Bne, rs1: src, rs2: dst, imm: 8 },
        JmpCond::Jgt => RvInsn::B { op: BOp::Bgeu, rs1: src, rs2: dst, imm: 8 },
        JmpCond::Jge => RvInsn::B { op: BOp::Bltu, rs1: dst, rs2: src, imm: 8 },
        JmpCond::Jne => RvInsn::B { op: BOp::Beq, rs1: src, rs2: dst, imm: 8 },
        JmpCond::Jsgt => RvInsn::B { op: BOp::Bge, rs1: src, rs2: dst, imm: 8 },
        JmpCond::Jsge => RvInsn::B { op: BOp::Blt, rs1: dst, rs2: src, imm: 8 },
        JmpCond::Jlt => RvInsn::B { op: BOp::Bgeu, rs1: dst, rs2: src, imm: 8 },
        JmpCond::Jle => RvInsn::B { op: BOp::Bltu, rs1: src, rs2: dst, imm: 8 },
        JmpCond::Jslt => RvInsn::B { op: BOp::Bge, rs1: dst, rs2: src, imm: 8 },
        JmpCond::Jsle => RvInsn::B { op: BOp::Blt, rs1: src, rs2: dst, imm: 8 },
        JmpCond::Jset => RvInsn::B { op: BOp::Beq, rs1: RV_REG_T1, rs2: RV_REG_ZERO, imm: 8 },
    }
}

impl<'a> JitContext<'a> {
    /// The value of the field `code_size`.
    pub closed spec fn byte_size(&self) -> int {
        self.code_size as int
    }

    /// The words that the field `code` holds.
    pub closed spec fn words(&self) -> Seq<u32> {
        self.code@
    }

    /// In a consistent context the field `code` holds the words of the
    /// model, and `code_size` is their size in bytes: four times their
    /// number.
    pub proof fn lemma_code_size(&self)
        requires
            self.wf(),
        ensures
            self.words() == self@.code,
            self.byte_size() == 4 * self@.code.len(),
            self.byte_size() == self@.code_size(),
    {
    }

    /// The size in bytes of the code emitted so far.
    pub fn get_code_size(&self) -> (size: usize)
        requires
            self.wf(),
        ensures
            size == self.byte_size(),
            size == 4 * self@.code.len(),
    {
        self.code_size
    }
}

} // verus!
