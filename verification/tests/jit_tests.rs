use riscv_decode::Instruction;
use zcore_ebpf::jit::compile::{
    bpf_to_rv_reg, compile, emit_instructions, JitContext, JitError,
};
use zcore_ebpf::jit::consts::{classify, AluOp, BpfKind, JmpCond, MemSize};
use zcore_ebpf::jit::rv::{BOp, IOp, ROp, RvInsn, SOp, ShiftOp};

// ---- a small RV64 machine, with the decoder of the `riscv-decode` crate ----

struct Machine {
    x: [u64; 32],
    pc: usize,
}

fn sext(value: u32, bits: u32) -> i64 {
    let shift = 64 - bits;
    (((value as u64) << shift) as i64) >> shift
}

impl Machine {
    fn new() -> Self {
        Machine { x: [0; 32], pc: 0 }
    }

    fn get(&self, r: u32) -> u64 {
        if r == 0 { 0 } else { self.x[r as usize] }
    }

    fn set(&mut self, r: u32, v: u64) {
        if r != 0 {
            self.x[r as usize] = v;
        }
    }

    // Runs the words from `self.pc` (a word index) until the pc reaches `stop`.
    fn run(&mut self, code: &[u32], stop: usize) {
        let mut steps = 0;
        while self.pc != stop {
            assert!(self.pc < code.len(), "pc left the code");
            steps += 1;
            assert!(steps < 100_000, "too many steps");
            let word = code[self.pc];
            let mut next = self.pc + 1;
            match riscv_decode::decode(word).expect("undecodable word") {
                Instruction::Lui(u) => self.set(u.rd(), sext(u.imm(), 32) as u64),
                Instruction::Addi(i) => {
                    let v = self.get(i.rs1()).wrapping_add(sext(i.imm(), 12) as u64);
                    self.set(i.rd(), v)
                }
                Instruction::Addiw(i) => {
                    let v = self.get(i.rs1()).wrapping_add(sext(i.imm(), 12) as u64);
                    self.set(i.rd(), v as u32 as i32 as i64 as u64)
                }
                Instruction::Slli(s) => self.set(s.rd(), self.get(s.rs1()) << s.shamt()),
                Instruction::Srli(s) => self.set(s.rd(), self.get(s.rs1()) >> s.shamt()),
                Instruction::Srai(s) => {
                    self.set(s.rd(), ((self.get(s.rs1()) as i64) >> s.shamt()) as u64)
                }
                Instruction::Add(r) => {
                    self.set(r.rd(), self.get(r.rs1()).wrapping_add(self.get(r.rs2())))
                }
                Instruction::Sub(r) => {
                    self.set(r.rd(), self.get(r.rs1()).wrapping_sub(self.get(r.rs2())))
                }
                Instruction::Subw(r) => {
                    let v = self.get(r.rs1()).wrapping_sub(self.get(r.rs2()));
                    self.set(r.rd(), v as u32 as i32 as i64 as u64)
                }
                Instruction::And(r) => self.set(r.rd(), self.get(r.rs1()) & self.get(r.rs2())),
                Instruction::Or(r) => self.set(r.rd(), self.get(r.rs1()) | self.get(r.rs2())),
                Instruction::Xor(r) => self.set(r.rd(), self.get(r.rs1()) ^ self.get(r.rs2())),
                Instruction::Mul(r) => {
                    self.set(r.rd(), self.get(r.rs1()).wrapping_mul(self.get(r.rs2())))
                }
                Instruction::Mulw(r) => {
                    let v = self.get(r.rs1()).wrapping_mul(self.get(r.rs2()));
                    self.set(r.rd(), v as u32 as i32 as i64 as u64)
                }
                Instruction::Divu(r) => {
                    let b = self.get(r.rs2());
                    let v = if b == 0 { u64::MAX } else { self.get(r.rs1()) / b };
                    self.set(r.rd(), v)
                }
                Instruction::Divuw(r) => {
                    let a = self.get(r.rs1()) as u32;
                    let b = self.get(r.rs2()) as u32;
                    let v = if b == 0 { u32::MAX } else { a / b };
                    self.set(r.rd(), v as i32 as i64 as u64)
                }
                Instruction::Remu(r) => {
                    let b = self.get(r.rs2());
                    let v = if b == 0 { self.get(r.rs1()) } else { self.get(r.rs1()) % b };
                    self.set(r.rd(), v)
                }
                Instruction::Remuw(r) => {
                    let a = self.get(r.rs1()) as u32;
                    let b = self.get(r.rs2()) as u32;
                    let v = if b == 0 { a } else { a % b };
                    self.set(r.rd(), v as i32 as i64 as u64)
                }
                Instruction::Sll(r) => {
                    self.set(r.rd(), self.get(r.rs1()) << (self.get(r.rs2()) & 63))
                }
                Instruction::Srl(r) => {
                    self.set(r.rd(), self.get(r.rs1()) >> (self.get(r.rs2()) & 63))
                }
                Instruction::Sra(r) => self.set(
                    r.rd(),
                    ((self.get(r.rs1()) as i64) >> (self.get(r.rs2()) & 63)) as u64,
                ),
                Instruction::Jal(j) => {
                    self.set(j.rd(), (4 * (self.pc + 1)) as u64);
                    next = ((4 * self.pc) as i64 + sext(j.imm(), 21)) as usize / 4;
                }
                Instruction::Beq(b) => {
                    if self.get(b.rs1()) == self.get(b.rs2()) {
                        next = ((4 * self.pc) as i64 + sext(b.imm(), 13)) as usize / 4;
                    }
                }
                Instruction::Bne(b) => {
                    if self.get(b.rs1()) != self.get(b.rs2()) {
                        next = ((4 * self.pc) as i64 + sext(b.imm(), 13)) as usize / 4;
                    }
                }
                Instruction::Blt(b) => {
                    if (self.get(b.rs1()) as i64) < (self.get(b.rs2()) as i64) {
                        next = ((4 * self.pc) as i64 + sext(b.imm(), 13)) as usize / 4;
                    }
                }
                Instruction::Bge(b) => {
                    if (self.get(b.rs1()) as i64) >= (self.get(b.rs2()) as i64) {
                        next = ((4 * self.pc) as i64 + sext(b.imm(), 13)) as usize / 4;
                    }
                }
                Instruction::Bltu(b) => {
                    if self.get(b.rs1()) < self.get(b.rs2()) {
                        next = ((4 * self.pc) as i64 + sext(b.imm(), 13)) as usize / 4;
                    }
                }
                Instruction::Bgeu(b) => {
                    if self.get(b.rs1()) >= self.get(b.rs2()) {
                        next = ((4 * self.pc) as i64 + sext(b.imm(), 13)) as usize / 4;
                    }
                }
                other => panic!("the machine does not run {:?}", other),
            }
            self.pc = next;
        }
    }
}

// ---- eBPF instruction words ----

fn bpf(op: u8, dst: u8, src: u8, off: i16, imm: i32) -> u64 {
    (op as u64)
        | ((dst as u64) << 8)
        | ((src as u64) << 12)
        | ((off as u16 as u64) << 16)
        | ((imm as u32 as u64) << 32)
}

const EXIT: u8 = 0x95;
const MOV64_K: u8 = 0xb7;
const PROLOGUE_WORDS: usize = 11;

// The word index at which the epilogue of compiled code starts.
fn epilogue_start(code: &[u32]) -> usize {
    // mv a0, a5 ; mv sp, s0
    let mut i = PROLOGUE_WORDS;
    while i + 1 < code.len() {
        if code[i] == 0x0007_8513 && code[i + 1] == 0x0004_0113 {
            return i;
        }
        i += 1;
    }
    panic!("no epilogue");
}

fn compile_program(insns: &[u64], helpers: &[u64]) -> Result<Vec<u32>, JitError> {
    let mut ctx = JitContext::new(insns);
    compile(&mut ctx, helpers, 512)?;
    Ok(ctx.get_rv_code().clone())
}

// Runs the body of a compiled program on the given eBPF registers r1 and r2
// and returns r0.
fn run_body(code: &[u32], r1: u64, r2: u64) -> u64 {
    let mut m = Machine::new();
    m.pc = PROLOGUE_WORDS;
    m.x[bpf_to_rv_reg(1) as usize] = r1;
    m.x[bpf_to_rv_reg(2) as usize] = r2;
    m.run(code, epilogue_start(code));
    m.x[bpf_to_rv_reg(0) as usize]
}

// ---- encodings ----

#[test]
fn encodes_known_words() {
    // addi sp, sp, -56
    assert_eq!(RvInsn::I { op: IOp::Addi, rd: 2, rs1: 2, imm: -56 }.encode(), 0xfc81_0113);
    // sd ra, 48(sp)
    assert_eq!(RvInsn::S { op: SOp::Sd, rs1: 2, rs2: 1, imm: 48 }.encode(), 0x0211_3823);
    // ret
    assert_eq!(RvInsn::I { op: IOp::Jalr, rd: 0, rs1: 1, imm: 0 }.encode(), 0x0000_8067);
    // lui a0, 0x12345
    assert_eq!(RvInsn::Lui { rd: 10, imm: 0x1234_5000 }.encode(), 0x1234_5537);
    // auipc t1, 0x1
    assert_eq!(RvInsn::Auipc { rd: 6, imm: 0x1000 }.encode(), 0x0000_1317);
    // add x12, x11, x12
    assert_eq!(RvInsn::R { op: ROp::Add, rd: 12, rs1: 11, rs2: 12 }.encode(), 0x00c5_8633);
    // sub x10, x10, x11
    assert_eq!(RvInsn::R { op: ROp::Sub, rd: 10, rs1: 10, rs2: 11 }.encode(), 0x40b5_0533);
    // sll x30, x1, x2
    assert_eq!(RvInsn::R { op: ROp::Sll, rd: 30, rs1: 1, rs2: 2 }.encode(), 0x0020_9f33);
    // xor x15, x12, x15
    assert_eq!(RvInsn::R { op: ROp::Xor, rd: 15, rs1: 12, rs2: 15 }.encode(), 0x00f6_47b3);
    // srl x1, x1, x2
    assert_eq!(RvInsn::R { op: ROp::Srl, rd: 1, rs1: 1, rs2: 2 }.encode(), 0x0020_d0b3);
    // sra x30, x1, x2
    assert_eq!(RvInsn::R { op: ROp::Sra, rd: 30, rs1: 1, rs2: 2 }.encode(), 0x4020_df33);
    // or x11, x15, x11
    assert_eq!(RvInsn::R { op: ROp::Or, rd: 11, rs1: 15, rs2: 11 }.encode(), 0x00b7_e5b3);
    // and x10, x10, x13
    assert_eq!(RvInsn::R { op: ROp::And, rd: 10, rs1: 10, rs2: 13 }.encode(), 0x00d5_7533);
    // mul a0, a0, a1
    assert_eq!(RvInsn::R { op: ROp::Mul, rd: 10, rs1: 10, rs2: 11 }.encode(), 0x02b5_0533);
    // slli a0, a0, 32 ; srli a0, a0, 32
    assert_eq!(
        RvInsn::Shift { op: ShiftOp::Slli, rd: 10, rs1: 10, shamt: 32 }.encode(),
        0x0205_1513
    );
    assert_eq!(
        RvInsn::Shift { op: ShiftOp::Srli, rd: 10, rs1: 10, shamt: 32 }.encode(),
        0x0205_5513
    );
    // srai a0, a0, 1
    assert_eq!(
        RvInsn::Shift { op: ShiftOp::Srai, rd: 10, rs1: 10, shamt: 1 }.encode(),
        0x4015_5513
    );
    // ld a0, 8(a1)
    assert_eq!(RvInsn::I { op: IOp::Ld, rd: 10, rs1: 11, imm: 8 }.encode(), 0x0085_b503);
    // sw a0, 4(a1)
    assert_eq!(RvInsn::S { op: SOp::Sw, rs1: 11, rs2: 10, imm: 4 }.encode(), 0x00a5_a223);
    // beq a0, a1, +8 ; bne a0, a1, +8
    assert_eq!(RvInsn::B { op: BOp::Beq, rs1: 10, rs2: 11, imm: 8 }.encode(), 0x00b5_0463);
    assert_eq!(RvInsn::B { op: BOp::Bne, rs1: 10, rs2: 11, imm: 8 }.encode(), 0x00b5_1463);
    // j +8 ; jal ra, -4
    assert_eq!(RvInsn::Jal { rd: 0, imm: 8 }.encode(), 0x0080_006f);
    assert_eq!(RvInsn::Jal { rd: 1, imm: -4 }.encode(), 0xffdf_f0ef);
}

#[test]
fn encodings_decode_to_the_same_instruction() {
    let all_r = [
        (ROp::Add, "Add"),
        (ROp::Sub, "Sub"),
        (ROp::Sll, "Sll"),
        (ROp::Srl, "Srl"),
        (ROp::Sra, "Sra"),
        (ROp::Xor, "Xor"),
        (ROp::Or, "Or"),
        (ROp::And, "And"),
        (ROp::Mul, "Mul"),
        (ROp::Divu, "Divu"),
        (ROp::Remu, "Remu"),
        (ROp::Subw, "Subw"),
        (ROp::Mulw, "Mulw"),
        (ROp::Divuw, "Divuw"),
        (ROp::Remuw, "Remuw"),
    ];
    for (op, name) in all_r.iter() {
        let word = RvInsn::R { op: *op, rd: 7, rs1: 21, rs2: 15 }.encode();
        let text = format!("{:?}", riscv_decode::decode(word).unwrap());
        assert!(text.starts_with(&format!("{}(", name)), "{} decoded as {}", name, text);
        let r = riscv_decode::types::RType(word);
        assert_eq!((r.rd(), r.rs1(), r.rs2()), (7, 21, 15));
    }
    let all_i = [
        (IOp::Addi, "Addi"),
        (IOp::Addiw, "Addiw"),
        (IOp::Jalr, "Jalr"),
        (IOp::Lb, "Lb"),
        (IOp::Lh, "Lh"),
        (IOp::Lw, "Lw"),
        (IOp::Ld, "Ld"),
        (IOp::Lbu, "Lbu"),
        (IOp::Lhu, "Lhu"),
        (IOp::Lwu, "Lwu"),
    ];
    for (op, name) in all_i.iter() {
        let word = RvInsn::I { op: *op, rd: 9, rs1: 18, imm: -3 }.encode();
        let text = format!("{:?}", riscv_decode::decode(word).unwrap());
        assert!(text.starts_with(&format!("{}(", name)), "{} decoded as {}", name, text);
        let i = riscv_decode::types::IType(word);
        assert_eq!((i.rd(), i.rs1(), sext(i.imm(), 12)), (9, 18, -3));
    }
    let all_s = [(SOp::Sb, "Sb"), (SOp::Sh, "Sh"), (SOp::Sw, "Sw"), (SOp::Sd, "Sd")];
    for (op, name) in all_s.iter() {
        let word = RvInsn::S { op: *op, rs1: 2, rs2: 19, imm: -40 }.encode();
        let text = format!("{:?}", riscv_decode::decode(word).unwrap());
        assert!(text.starts_with(&format!("{}(", name)), "{} decoded as {}", name, text);
        let s = riscv_decode::types::SType(word);
        assert_eq!((s.rs1(), s.rs2(), sext(s.imm(), 12)), (2, 19, -40));
    }
    let all_b = [
        (BOp::Beq, "Beq"),
        (BOp::Bne, "Bne"),
        (BOp::Blt, "Blt"),
        (BOp::Bge, "Bge"),
        (BOp::Bltu, "Bltu"),
        (BOp::Bgeu, "Bgeu"),
    ];
    for (op, name) in all_b.iter() {
        let word = RvInsn::B { op: *op, rs1: 6, rs2: 7, imm: -2048 }.encode();
        let text = format!("{:?}", riscv_decode::decode(word).unwrap());
        assert!(text.starts_with(&format!("{}(", name)), "{} decoded as {}", name, text);
        let b = riscv_decode::types::BType(word);
        assert_eq!((b.rs1(), b.rs2(), sext(b.imm(), 13)), (6, 7, -2048));
    }
    let word = RvInsn::Jal { rd: 1, imm: -0x8_0004 }.encode();
    let j = riscv_decode::types::JType(word);
    assert_eq!((j.rd(), sext(j.imm(), 21)), (1, -0x8_0004));
    let word = RvInsn::Shift { op: ShiftOp::Slli, rd: 5, rs1: 6, shamt: 63 }.encode();
    let s = riscv_decode::types::ShiftType(word);
    assert_eq!((s.rd(), s.rs1(), s.shamt()), (5, 6, 63));
}

#[test]
fn register_mapping_follows_the_linux_jit() {
    let expected: [u8; 11] = [15, 10, 11, 12, 13, 14, 9, 18, 19, 20, 21];
    for r in 0u8..11 {
        assert_eq!(bpf_to_rv_reg(r), expected[r as usize]);
    }
}

// ---- immediates ----

fn load_imm(v: i64) -> (u64, usize) {
    let insns: [u64; 0] = [];
    let mut ctx = JitContext::new(&insns);
    ctx.emit_imm(10, v);
    let code = ctx.get_rv_code().clone();
    let mut m = Machine::new();
    m.x[10] = 0xdead_beef_dead_beef;
    m.run(&code, code.len());
    (m.x[10], code.len())
}

#[test]
fn immediates_are_materialised_exactly() {
    let values: [i64; 30] = [
        0,
        1,
        -1,
        2047,
        2048,
        -2048,
        -2049,
        4095,
        4096,
        0x7ff,
        0x800,
        0x7fff_f7ff,
        0x7fff_f800,
        0x7fff_ffff,
        -0x8000_0000,
        0x8000_0000,
        -0x8000_0001,
        0xffff_ffff,
        0x1_0000_0000,
        0x1234_5678_9abc_def0,
        -0x1234_5678_9abc_def0,
        0x7fff_ffff_ffff_f800,
        0x7fff_ffff_ffff_f7ff,
        i64::MAX,
        i64::MIN,
        i64::MIN + 1,
        0x0008_0000_0000_0000,
        0x0000_0800_0000_0800,
        -0x0000_0800_0000_0801,
        0x5555_5555_5555_5555,
    ];
    for v in values.iter() {
        let (got, words) = load_imm(*v);
        assert_eq!(got, *v as u64, "loading {:#x}", v);
        assert!(words >= 1 && words <= 8, "{} words for {:#x}", words, v);
    }
}

#[test]
fn small_immediates_take_one_or_two_words() {
    assert_eq!(load_imm(0).1, 1);
    assert_eq!(load_imm(-1).1, 1);
    assert_eq!(load_imm(2047).1, 1);
    assert_eq!(load_imm(2048).1, 2);
    assert_eq!(load_imm(0x7fff_ffff).1, 2);
    // addi a0, zero, 5
    let insns: [u64; 0] = [];
    let mut ctx = JitContext::new(&insns);
    ctx.emit_imm(10, 5);
    assert_eq!(ctx.get_rv_code().clone(), vec![0x0050_0513]);
    // lui a0, 0x12345 ; addiw a0, a0, 0x678
    let mut ctx = JitContext::new(&insns);
    ctx.emit_imm(10, 0x1234_5678);
    assert_eq!(ctx.get_rv_code().clone(), vec![0x1234_5537, 0x6785_051b]);
}

#[test]
fn zero_extension_is_two_shifts() {
    let insns: [u64; 0] = [];
    let mut ctx = JitContext::new(&insns);
    ctx.emit_zext_32(10, 11);
    let code = ctx.get_rv_code().clone();
    // slli a0, a1, 32 ; srli a0, a0, 32
    assert_eq!(code, vec![0x0205_9513, 0x0205_5513]);
    assert_eq!(ctx.code_size, 8);
}

// ---- whole programs ----

#[test]
fn compile_sum_test() {
    // r0 = 0; r0 += r1; r0 += r2; r0 += 100; exit
    let insns = [
        bpf(MOV64_K, 0, 0, 0, 0),
        bpf(0x0f, 0, 1, 0, 0),
        bpf(0x0f, 0, 2, 0, 0),
        bpf(0x07, 0, 0, 0, 100),
        bpf(EXIT, 0, 0, 0, 0),
    ];
    let helpers = [0xdeadu64, 0xbeef, 0xbad, 0xc0de];
    let code = compile_program(&insns, &helpers).unwrap();
    assert_eq!(run_body(&code, 20, 22), 142);
    assert_eq!(run_body(&code, u64::MAX, 1), 100);
    // the prologue
    assert_eq!(code[0], 0xfc81_0113);
    assert_eq!(code[1], 0x0211_3823);
    // the stack of 512 bytes: addi sp, sp, -512
    assert_eq!(code[10], 0xe001_0113);
    // the epilogue ends in ret
    let e = epilogue_start(&code);
    assert_eq!(code[e + 9], 0x0000_8067);
    // the helper table: 16-byte aligned, low half first
    let table = code.len() - 8;
    assert_eq!((4 * table) % 16, 0);
    assert!(table >= e + 10 && table < e + 14);
    assert_eq!(&code[table..], &[0xdead, 0, 0xbeef, 0, 0xbad, 0, 0xc0de, 0]);
    for w in &code[e + 10..table] {
        assert_eq!(*w, 0);
    }
}

#[test]
fn stack_size_is_rounded_and_capped() {
    let insns = [bpf(EXIT, 0, 0, 0, 0)];
    let frame = |stack: usize| -> i64 {
        let mut ctx = JitContext::new(&insns);
        compile(&mut ctx, &[], stack).unwrap();
        let word = ctx.get_rv_code()[10];
        -sext(riscv_decode::types::IType(word).imm(), 12)
    };
    assert_eq!(frame(0), 0);
    assert_eq!(frame(1), 8);
    assert_eq!(frame(8), 8);
    assert_eq!(frame(9), 16);
    assert_eq!(frame(512), 512);
    assert_eq!(frame(1017), 1024);
    assert_eq!(frame(1024), 1024);
    assert_eq!(frame(4096), 1024);
    assert_eq!(frame(usize::MAX), 1024);
}

#[test]
fn load_of_a_64_bit_immediate() {
    let value: u64 = 0xfedc_ba98_7654_3210;
    let insns = [
        bpf(0x18, 0, 0, 0, value as u32 as i32),
        bpf(0, 0, 0, 0, (value >> 32) as u32 as i32),
        bpf(EXIT, 0, 0, 0, 0),
    ];
    let code = compile_program(&insns, &[]).unwrap();
    assert_eq!(run_body(&code, 0, 0), value);
    // a jump over the load lands behind both of its words
    let insns = [
        bpf(MOV64_K, 0, 0, 0, 1),
        bpf(0x05, 0, 0, 2, 0),
        bpf(0x18, 0, 0, 0, 7),
        bpf(0, 0, 0, 0, 0),
        bpf(EXIT, 0, 0, 0, 0),
    ];
    let code = compile_program(&insns, &[]).unwrap();
    assert_eq!(run_body(&code, 0, 0), 1);
}

fn alu_reference(op: u8, width64: bool, dst: u64, src: u64) -> u64 {
    let full = match op {
        0x00 => dst.wrapping_add(src),
        0x10 => dst.wrapping_sub(src),
        0x20 => dst.wrapping_mul(src),
        0x40 => dst | src,
        0x50 => dst & src,
        0xa0 => dst ^ src,
        0xb0 => src,
        _ => unreachable!(),
    };
    if width64 { full } else { full & 0xffff_ffff }
}

#[test]
fn alu_operations_compute_and_truncate() {
    let operands: [(u64, u64); 5] = [
        (0xffff_ffff_ffff_ffff, 1),
        (0x1234_5678_9abc_def0, 0x0fed_cba9_8765_4321),
        (0x8000_0000, 0x8000_0000),
        (0xffff_ffff, 0xffff_ffff_0000_0002),
        (5, 7),
    ];
    for op in [0x00u8, 0x10, 0x20, 0x40, 0x50, 0xa0, 0xb0].iter() {
        for width64 in [true, false].iter() {
            let class: u8 = if *width64 { 0x07 } else { 0x04 };
            // r0 = r1; r0 op= r2; exit
            let insns = [
                bpf(0xbf, 0, 1, 0, 0),
                bpf(*op | 0x08 | class, 0, 2, 0, 0),
                bpf(EXIT, 0, 0, 0, 0),
            ];
            let code = compile_program(&insns, &[]).unwrap();
            for (a, b) in operands.iter() {
                let got = run_body(&code, *a, *b);
                assert_eq!(got, alu_reference(*op, *width64, *a, *b), "op {:#x} on {:#x}, {:#x}", op, a, b);
                if !*width64 {
                    assert_eq!(got >> 32, 0);
                }
            }
            // the same with an immediate operand
            for imm in [1i32, -1, 0x7fff_ffff, -0x8000_0000, 2048].iter() {
                let insns = [
                    bpf(0xbf, 0, 1, 0, 0),
                    bpf(*op | class, 0, 0, 0, *imm),
                    bpf(EXIT, 0, 0, 0, 0),
                ];
                let code = compile_program(&insns, &[]).unwrap();
                for (a, _) in operands.iter() {
                    let got = run_body(&code, *a, 0);
                    assert_eq!(got, alu_reference(*op, *width64, *a, *imm as i64 as u64));
                    if !*width64 {
                        assert_eq!(got >> 32, 0);
                    }
                }
            }
        }
    }
}

#[test]
fn division_and_remainder_are_unsigned() {
    for (a, b) in [(100u64, 7u64), (0xffff_ffff_ffff_fff0, 3), (7, 0x1_0000_0002)].iter() {
        // 64-bit
        let div = [bpf(0xbf, 0, 1, 0, 0), bpf(0x3f, 0, 2, 0, 0), bpf(EXIT, 0, 0, 0, 0)];
        assert_eq!(run_body(&compile_program(&div, &[]).unwrap(), *a, *b), a / b);
        let rem = [bpf(0xbf, 0, 1, 0, 0), bpf(0x9f, 0, 2, 0, 0), bpf(EXIT, 0, 0, 0, 0)];
        assert_eq!(run_body(&compile_program(&rem, &[]).unwrap(), *a, *b), a % b);
        // 32-bit
        let div = [bpf(0xbf, 0, 1, 0, 0), bpf(0x3c, 0, 2, 0, 0), bpf(EXIT, 0, 0, 0, 0)];
        let got = run_body(&compile_program(&div, &[]).unwrap(), *a, *b);
        assert_eq!(got, ((*a as u32) / (*b as u32)) as u64);
        let rem = [bpf(0xbf, 0, 1, 0, 0), bpf(0x9c, 0, 2, 0, 0), bpf(EXIT, 0, 0, 0, 0)];
        let got = run_body(&compile_program(&rem, &[]).unwrap(), *a, *b);
        assert_eq!(got, ((*a as u32) % (*b as u32)) as u64);
    }
}

#[test]
fn shifts_are_64_bit() {
    let a: u64 = 0x8000_0000_0000_00f0;
    let lsh = [bpf(0xbf, 0, 1, 0, 0), bpf(0x67, 0, 0, 0, 4), bpf(EXIT, 0, 0, 0, 0)];
    assert_eq!(run_body(&compile_program(&lsh, &[]).unwrap(), a, 0), a << 4);
    let rsh = [bpf(0xbf, 0, 1, 0, 0), bpf(0x77, 0, 0, 0, 4), bpf(EXIT, 0, 0, 0, 0)];
    assert_eq!(run_body(&compile_program(&rsh, &[]).unwrap(), a, 0), a >> 4);
    let arsh = [bpf(0xbf, 0, 1, 0, 0), bpf(0xc7, 0, 0, 0, 4), bpf(EXIT, 0, 0, 0, 0)];
    assert_eq!(run_body(&compile_program(&arsh, &[]).unwrap(), a, 0), ((a as i64) >> 4) as u64);
    let lsh = [bpf(0xbf, 0, 1, 0, 0), bpf(0x6f, 0, 2, 0, 0), bpf(EXIT, 0, 0, 0, 0)];
    assert_eq!(run_body(&compile_program(&lsh, &[]).unwrap(), a, 3), a << 3);
    let arsh = [bpf(0xbf, 0, 1, 0, 0), bpf(0xcf, 0, 2, 0, 0), bpf(EXIT, 0, 0, 0, 0)];
    assert_eq!(run_body(&compile_program(&arsh, &[]).unwrap(), a, 3), ((a as i64) >> 3) as u64);
    // 32-bit shifts are not lowered
    for op in [0x64u8, 0x6c, 0x74, 0x7c, 0xc4, 0xcc].iter() {
        let insns = [bpf(*op, 0, 1, 0, 1), bpf(EXIT, 0, 0, 0, 0)];
        assert_eq!(compile_program(&insns, &[]), Err(JitError::UnsupportedOpcode));
    }
}

// ---- jumps ----

fn cond_reference(code: u8, width64: bool, dst: u64, src: u64) -> bool {
    let (d, s) = if width64 { (dst, src) } else { (dst & 0xffff_ffff, src & 0xffff_ffff) };
    match code {
        0x10 => d == s,
        0x20 => d > s,
        0x30 => d >= s,
        0x40 => d & s != 0,
        0x50 => d != s,
        0x60 => (d as i64) > (s as i64),
        0x70 => (d as i64) >= (s as i64),
        0xa0 => d < s,
        0xb0 => d <= s,
        0xc0 => (d as i64) < (s as i64),
        0xd0 => (d as i64) <= (s as i64),
        _ => unreachable!(),
    }
}

const JUMP_CODES: [u8; 11] = [0x10, 0x20, 0x30, 0x40, 0x50, 0x60, 0x70, 0xa0, 0xb0, 0xc0, 0xd0];

#[test]
fn conditional_jumps_forward_and_backward() {
    let operands: [(u64, u64); 9] = [
        (5, 5),
        (5, 6),
        (6, 5),
        (0, 0),
        (u64::MAX, 0),
        (0, u64::MAX),
        (0x8000_0000_0000_0000, 0x7fff_ffff_ffff_ffff),
        (0x1_0000_0005, 5),
        (0xffff_ffff, 0x1_0000_0000),
    ];
    for code in JUMP_CODES.iter() {
        for width64 in [true, false].iter() {
            let class: u8 = if *width64 { 0x05 } else { 0x06 };
            // forward: r0 = 7; if r1 cond r2 goto +1; r0 = 9; exit
            let forward = [
                bpf(MOV64_K, 0, 0, 0, 7),
                bpf(*code | 0x08 | class, 1, 2, 1, 0),
                bpf(MOV64_K, 0, 0, 0, 9),
                bpf(EXIT, 0, 0, 0, 0),
            ];
            let forward = compile_program(&forward, &[]).unwrap();
            // backward: r0 = 0; goto 4; r0 = 5; exit; if r1 cond r2 goto 2; exit
            let backward = [
                bpf(MOV64_K, 0, 0, 0, 0),
                bpf(0x05, 0, 0, 2, 0),
                bpf(MOV64_K, 0, 0, 0, 5),
                bpf(EXIT, 0, 0, 0, 0),
                bpf(*code | 0x08 | class, 1, 2, -3, 0),
                bpf(EXIT, 0, 0, 0, 0),
            ];
            let backward = compile_program(&backward, &[]).unwrap();
            for (d, s) in operands.iter() {
                let taken = cond_reference(*code, *width64, *d, *s);
                assert_eq!(
                    run_body(&forward, *d, *s),
                    if taken { 7 } else { 9 },
                    "forward jump {:#x} (64-bit: {}) on {:#x}, {:#x}",
                    code,
                    width64,
                    d,
                    s
                );
                assert_eq!(
                    run_body(&backward, *d, *s),
                    if taken { 5 } else { 0 },
                    "backward jump {:#x} (64-bit: {}) on {:#x}, {:#x}",
                    code,
                    width64,
                    d,
                    s
                );
            }
        }
    }
}

#[test]
fn conditional_jumps_on_immediates() {
    for code in JUMP_CODES.iter() {
        for imm in [5i32, -1, 0].iter() {
            let insns = [
                bpf(MOV64_K, 0, 0, 0, 7),
                bpf(*code | 0x05, 1, 0, 1, *imm),
                bpf(MOV64_K, 0, 0, 0, 9),
                bpf(EXIT, 0, 0, 0, 0),
            ];
            let compiled = compile_program(&insns, &[]).unwrap();
            for d in [5u64, 4, 6, u64::MAX, 0].iter() {
                let taken = cond_reference(*code, true, *d, *imm as i64 as u64);
                assert_eq!(run_body(&compiled, *d, 0), if taken { 7 } else { 9 });
            }
        }
    }
}

#[test]
fn jump_idiom_is_branch_then_jump() {
    // r0 = 7; if r1 == r2 goto +1; r0 = 9; exit
    let insns = [
        bpf(MOV64_K, 0, 0, 0, 7),
        bpf(0x1d, 1, 2, 1, 0),
        bpf(MOV64_K, 0, 0, 0, 9),
        bpf(EXIT, 0, 0, 0, 0),
    ];
    let code = compile_program(&insns, &[]).unwrap();
    // prologue, addi a5, zero, 7, then: bne a1, a0, +8 ; jal zero, +8
    assert_eq!(code[12], RvInsn::B { op: BOp::Bne, rs1: 11, rs2: 10, imm: 8 }.encode());
    assert_eq!(code[13], RvInsn::Jal { rd: 0, imm: 8 }.encode());
    // the exit jumps to the epilogue
    let e = epilogue_start(&code);
    assert_eq!(code[15], RvInsn::Jal { rd: 0, imm: (4 * (e - 15)) as i32 }.encode());
}

#[test]
fn jump_to_no_instruction_is_refused() {
    // past the end
    let insns = [bpf(0x05, 0, 0, 5, 0), bpf(EXIT, 0, 0, 0, 0)];
    assert_eq!(compile_program(&insns, &[]), Err(JitError::InvalidJumpTarget));
    // before the start
    let insns = [bpf(0x05, 0, 0, -2, 0), bpf(EXIT, 0, 0, 0, 0)];
    assert_eq!(compile_program(&insns, &[]), Err(JitError::InvalidJumpTarget));
    // into the second half of a 64-bit immediate load
    let insns = [
        bpf(0x05, 0, 0, 1, 0),
        bpf(0x18, 0, 0, 0, 7),
        bpf(0, 0, 0, 0, 0),
        bpf(EXIT, 0, 0, 0, 0),
    ];
    assert_eq!(compile_program(&insns, &[]), Err(JitError::InvalidJumpTarget));
}

#[test]
fn body_is_lowered_before_anything_is_patched() {
    // r1 = (u32) (r1 + r2); exit
    let insns = [bpf(0x0c, 1, 2, 0, 0), bpf(EXIT, 0, 0, 0, 0)];
    let mut ctx = JitContext::new(&insns);
    assert_eq!(emit_instructions(&mut ctx), Ok(()));
    let code = ctx.get_rv_code().clone();
    // add a0, a0, a1, then the two shifts that clear the upper half, then
    // the placeholder of the exit
    assert_eq!(
        code,
        vec![
            RvInsn::R { op: ROp::Add, rd: 10, rs1: 10, rs2: 11 }.encode(),
            RvInsn::Shift { op: ShiftOp::Slli, rd: 10, rs1: 10, shamt: 32 }.encode(),
            RvInsn::Shift { op: ShiftOp::Srli, rd: 10, rs1: 10, shamt: 32 }.encode(),
            0,
        ]
    );
    assert_eq!(ctx.get_code_size(), 16);
    // an opcode that is not known stops the lowering
    let insns = [bpf(0xff, 0, 0, 0, 0)];
    let mut ctx = JitContext::new(&insns);
    assert_eq!(emit_instructions(&mut ctx), Err(JitError::UnsupportedOpcode));
}

#[test]
fn jump_placeholder_is_patched_to_its_target() {
    // goto +1; r0 = 9; r0 = 7; exit
    let insns = [
        bpf(0x05, 0, 0, 1, 0),
        bpf(MOV64_K, 0, 0, 0, 9),
        bpf(MOV64_K, 0, 0, 0, 7),
        bpf(EXIT, 0, 0, 0, 0),
    ];
    let mut ctx = JitContext::new(&insns);
    assert_eq!(emit_instructions(&mut ctx), Ok(()));
    let before = ctx.get_rv_code().clone();
    assert_eq!(before[0], 0);
    // no instruction stands at index 9: nothing changes
    assert!(!ctx.fixup_jump(9, 0));
    assert_eq!(ctx.get_rv_code().clone(), before);
    // the jump at index 0 goes to index 2, two native words on
    assert!(ctx.fixup_jump(0, 0));
    let after = ctx.get_rv_code().clone();
    assert_eq!(after[0], RvInsn::Jal { rd: 0, imm: 8 }.encode());
    assert_eq!(after[1..], before[1..]);
    // the exit placeholder becomes a jump to where the epilogue will stand
    ctx.fixup_exit(12, 16);
    assert_eq!(ctx.get_rv_code()[3], RvInsn::Jal { rd: 0, imm: 4 }.encode());
}

// ---- calls, loads and stores ----

#[test]
fn call_reaches_the_helper_table() {
    let insns = [bpf(0x85, 0, 0, 0, 3), bpf(EXIT, 0, 0, 0, 0)];
    let helpers = [0x1111_2222_3333_4444u64, 2, 3, 0xaaaa_bbbb_cccc_dddd];
    let code = compile_program(&insns, &helpers).unwrap();
    let site = PROLOGUE_WORDS;
    let table = code.len() - 2 * helpers.len();
    // auipc t1, hi ; addi t1, t1, lo
    let hi = match riscv_decode::decode(code[site]).unwrap() {
        Instruction::Auipc(u) => {
            assert_eq!(u.rd(), 6);
            sext(u.imm(), 32)
        }
        other => panic!("{:?}", other),
    };
    let lo = match riscv_decode::decode(code[site + 1]).unwrap() {
        Instruction::Addi(i) => {
            assert_eq!((i.rd(), i.rs1()), (6, 6));
            sext(i.imm(), 12)
        }
        other => panic!("{:?}", other),
    };
    assert_eq!(hi + lo, (4 * (table - site)) as i64);
    // addi t1, t1, 24 ; ld t2, 0(t1) ; jalr ra, t2, 0 ; mv a5, a0
    assert_eq!(code[site + 2], RvInsn::I { op: IOp::Addi, rd: 6, rs1: 6, imm: 24 }.encode());
    assert_eq!(code[site + 3], RvInsn::I { op: IOp::Ld, rd: 7, rs1: 6, imm: 0 }.encode());
    assert_eq!(code[site + 4], RvInsn::I { op: IOp::Jalr, rd: 1, rs1: 7, imm: 0 }.encode());
    assert_eq!(code[site + 5], RvInsn::I { op: IOp::Addi, rd: 15, rs1: 10, imm: 0 }.encode());
    // the entry of helper 3
    assert_eq!(code[table + 6], 0xcccc_dddd);
    assert_eq!(code[table + 7], 0xaaaa_bbbb);
}

#[test]
fn helper_index_out_of_range_is_refused() {
    for imm in [-1i32, 256, i32::MAX, i32::MIN].iter() {
        let insns = [bpf(0x85, 0, 0, 0, *imm), bpf(EXIT, 0, 0, 0, 0)];
        assert_eq!(compile_program(&insns, &[]), Err(JitError::InvalidHelper));
    }
    let insns = [bpf(0x85, 0, 0, 0, 255), bpf(EXIT, 0, 0, 0, 0)];
    assert!(compile_program(&insns, &[]).is_ok());
    let helpers = vec![0u64; 257];
    let insns = [bpf(EXIT, 0, 0, 0, 0)];
    assert_eq!(compile_program(&insns, &helpers), Err(JitError::TooManyHelpers));
    assert!(compile_program(&insns, &helpers[..256]).is_ok());
}

#[test]
fn loads_zero_extend_and_stores_take_the_size() {
    // r0 = *(u8 *)(r1 + 4) and the wider sizes
    let sizes = [(0x71u8, IOp::Lbu), (0x69, IOp::Lhu), (0x61, IOp::Lwu), (0x79, IOp::Ld)];
    for (op, load) in sizes.iter() {
        let insns = [bpf(*op, 0, 1, 4, 0), bpf(EXIT, 0, 0, 0, 0)];
        let code = compile_program(&insns, &[]).unwrap();
        assert_eq!(code[11], RvInsn::I { op: *load, rd: 15, rs1: 10, imm: 4 }.encode());
    }
    // *(size *)(r1 + 8) = r2
    let sizes = [(0x73u8, SOp::Sb), (0x6b, SOp::Sh), (0x63, SOp::Sw), (0x7b, SOp::Sd)];
    for (op, store) in sizes.iter() {
        let insns = [bpf(*op, 1, 2, 8, 0), bpf(EXIT, 0, 0, 0, 0)];
        let code = compile_program(&insns, &[]).unwrap();
        assert_eq!(code[11], RvInsn::S { op: *store, rs1: 10, rs2: 11, imm: 8 }.encode());
    }
    // *(u32 *)(r1 + 8) = 77: the immediate goes through t2
    let insns = [bpf(0x62, 1, 0, 8, 77), bpf(EXIT, 0, 0, 0, 0)];
    let code = compile_program(&insns, &[]).unwrap();
    assert_eq!(code[11], RvInsn::I { op: IOp::Addi, rd: 7, rs1: 0, imm: 77 }.encode());
    assert_eq!(code[12], RvInsn::S { op: SOp::Sw, rs1: 10, rs2: 7, imm: 8 }.encode());
}

#[test]
fn wide_offsets_go_through_a_scratch_register() {
    // r0 = *(u64 *)(r1 + 4096)
    let insns = [bpf(0x79, 0, 1, 4096, 0), bpf(EXIT, 0, 0, 0, 0)];
    let code = compile_program(&insns, &[]).unwrap();
    // lui t2, 1 ; addiw t2, t2, 0 ; add t2, t2, a0 ; ld a5, 0(t2)
    assert_eq!(code[11], RvInsn::Lui { rd: 7, imm: 0x1000 }.encode());
    assert_eq!(code[12], RvInsn::I { op: IOp::Addiw, rd: 7, rs1: 7, imm: 0 }.encode());
    assert_eq!(code[13], RvInsn::R { op: ROp::Add, rd: 7, rs1: 7, rs2: 10 }.encode());
    assert_eq!(code[14], RvInsn::I { op: IOp::Ld, rd: 15, rs1: 7, imm: 0 }.encode());
    // *(u64 *)(r1 - 4096) = r2
    let insns = [bpf(0x7b, 1, 2, -4096, 0), bpf(EXIT, 0, 0, 0, 0)];
    let code = compile_program(&insns, &[]).unwrap();
    assert_eq!(code[13], RvInsn::R { op: ROp::Add, rd: 6, rs1: 6, rs2: 10 }.encode());
    assert_eq!(code[14], RvInsn::S { op: SOp::Sd, rs1: 6, rs2: 11, imm: 0 }.encode());
    // offsets that fit stay in the instruction
    let insns = [bpf(0x79, 0, 1, -2048, 0), bpf(EXIT, 0, 0, 0, 0)];
    let code = compile_program(&insns, &[]).unwrap();
    assert_eq!(code[11], RvInsn::I { op: IOp::Ld, rd: 15, rs1: 10, imm: -2048 }.encode());
}

// ---- refusals ----

#[test]
fn unknown_opcodes_are_refused() {
    for op in [0x00u8, 0x84, 0x87, 0xd4, 0xdc, 0x06, 0x8d, 0x9d, 0x20, 0x30, 0xff].iter() {
        let insns = [bpf(*op, 0, 0, 0, 0), bpf(EXIT, 0, 0, 0, 0)];
        assert_eq!(compile_program(&insns, &[]), Err(JitError::UnsupportedOpcode), "op {:#x}", op);
        assert_eq!(classify(*op), None);
    }
}

#[test]
fn registers_above_the_frame_pointer_are_refused() {
    let insns = [bpf(MOV64_K, 11, 0, 0, 0), bpf(EXIT, 0, 0, 0, 0)];
    assert_eq!(compile_program(&insns, &[]), Err(JitError::InvalidRegister));
    let insns = [bpf(0xbf, 0, 15, 0, 0), bpf(EXIT, 0, 0, 0, 0)];
    assert_eq!(compile_program(&insns, &[]), Err(JitError::InvalidRegister));
    let insns = [bpf(0x18, 12, 0, 0, 0), bpf(0, 0, 0, 0, 0), bpf(EXIT, 0, 0, 0, 0)];
    assert_eq!(compile_program(&insns, &[]), Err(JitError::InvalidRegister));
    let insns = [bpf(MOV64_K, 10, 0, 0, 0), bpf(EXIT, 0, 0, 0, 0)];
    assert!(compile_program(&insns, &[]).is_ok());
}

#[test]
fn oversized_programs_are_refused() {
    // each 64-bit load of this value takes eight words
    let mut insns = Vec::new();
    for _ in 0..40_000 {
        insns.push(bpf(0x18, 0, 0, 0, 0x7654_3210));
        insns.push(bpf(0, 0, 0, 0, 0x7edc_ba98));
    }
    insns.push(bpf(EXIT, 0, 0, 0, 0));
    assert_eq!(compile_program(&insns, &[]), Err(JitError::CodeTooLarge));
}

#[test]
fn opcodes_are_classified() {
    assert_eq!(classify(0x18), Some(BpfKind::LoadImm64));
    assert_eq!(classify(0x85), Some(BpfKind::Call));
    assert_eq!(classify(0x95), Some(BpfKind::Exit));
    assert_eq!(classify(0x05), Some(BpfKind::Ja));
    assert_eq!(classify(0x0d), Some(BpfKind::Ja));
    assert_eq!(
        classify(0x07),
        Some(BpfKind::Alu { op: AluOp::Add, is64: true, use_imm: true })
    );
    assert_eq!(
        classify(0x0c),
        Some(BpfKind::Alu { op: AluOp::Add, is64: false, use_imm: false })
    );
    assert_eq!(
        classify(0x9f),
        Some(BpfKind::Alu { op: AluOp::Mod, is64: true, use_imm: false })
    );
    assert_eq!(
        classify(0xc7),
        Some(BpfKind::Alu { op: AluOp::Arsh, is64: true, use_imm: true })
    );
    assert_eq!(
        classify(0xde),
        Some(BpfKind::Jump { cond: JmpCond::Jsle, is64: false, use_imm: false })
    );
    assert_eq!(
        classify(0x15),
        Some(BpfKind::Jump { cond: JmpCond::Jeq, is64: true, use_imm: true })
    );
    assert_eq!(classify(0x71), Some(BpfKind::Load { size: MemSize::B }));
    assert_eq!(classify(0x79), Some(BpfKind::Load { size: MemSize::DW }));
    assert_eq!(classify(0x62), Some(BpfKind::Store { size: MemSize::W, use_imm: true }));
    assert_eq!(classify(0x6b), Some(BpfKind::Store { size: MemSize::H, use_imm: false }));
}
