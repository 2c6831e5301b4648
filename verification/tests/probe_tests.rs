use zcore_ebpf::jit::rv::{BOp, IOp, ROp, RvInsn};
use zcore_ebpf::retcode::BpfErrorCode;
use zcore_ebpf::probe::arch::{
    compressed_transfer, emulate_execution, emulate_kind, foreach_function_call, get_insn_kind,
    get_insn_length, get_insn_type, is_function_call, InsnKind, SingleStepType,
};
use zcore_ebpf::probe::kprobes::{
    kprobe_finish, kprobe_single_step, kprobe_trap_handler, register_kprobe, unregister_kprobe,
    ArmPlan, DisarmPlan, InstructionBuffer, KProbe, KProbeArgs, KProbeError, KProbes, StepOutcome,
    TrapStage,
};
use zcore_ebpf::probe::kretprobes::{
    kretprobe_entry, kretprobe_return, register_kretprobe, unregister_kretprobe, EntryOutcome,
    KRetProbeArgs, KRetProbes, ReturnOutcome,
};
use zcore_ebpf::probe::trace::{
    dynamic_trace_kprobe_post_handler, dynamic_trace_kprobe_pre_handler, trace_next_step,
    trace_root_function, ProbeSite, TraceSamples,
};
use zcore_ebpf::probe::trapframe::{
    get_reg, get_trapframe_pc, get_trapframe_ra, set_reg, set_trapframe_pc, set_trapframe_ra,
    TrapFrame,
};

fn frame() -> TrapFrame {
    let mut general = [0usize; 32];
    for i in 0..32 {
        general[i] = 0x1000 * i;
    }
    TrapFrame { general, sstatus: 0, sepc: 0x8020_0000 }
}

const ADDI: u32 = 0xfc81_0113; // addi sp, sp, -56
const JAL_RA_8: u32 = 0x0080_00ef; // jal ra, +8
const C_LW: u32 = 0x43b0; // c.lw a2, 64(a5)

#[test]
fn trapframe_accessors() {
    let mut tf = frame();
    assert_eq!(get_trapframe_pc(&tf), 0x8020_0000);
    set_trapframe_pc(&mut tf, 0x10);
    assert_eq!(tf.sepc, 0x10);
    assert_eq!(get_trapframe_ra(&tf), 0x1000);
    set_trapframe_ra(&mut tf, 0x44);
    assert_eq!(tf.general[1], 0x44);
    assert_eq!(get_reg(&tf, 5), 0x5000);
    set_reg(&mut tf, 5, 9);
    assert_eq!(get_reg(&tf, 5), 9);
    // x0 reads as zero and drops writes
    tf.general[0] = 77;
    assert_eq!(get_reg(&tf, 0), 0);
    set_reg(&mut tf, 0, 5);
    assert_eq!(tf.general[0], 77);
}

#[test]
fn instruction_lengths() {
    assert_eq!(get_insn_length(ADDI), 4);
    assert_eq!(get_insn_length(C_LW), 2);
    // the length is read off the low 16 bits
    assert_eq!(get_insn_length(0xffff_0000 | C_LW), 2);
    assert_eq!(get_insn_length(0x0000_001f), 6);
    assert_eq!(get_insn_length(0x0000_007f), 10);
    assert_eq!(get_insn_length(0x0000_707f), 24);
}

#[test]
fn instructions_are_classified() {
    assert_eq!(get_insn_type(ADDI), SingleStepType::Execute);
    assert_eq!(get_insn_kind(ADDI), InsnKind::Other);
    let emulated = [
        (RvInsn::Jal { rd: 1, imm: 8 }.encode(), InsnKind::Jal),
        (RvInsn::I { op: IOp::Jalr, rd: 0, rs1: 1, imm: 0 }.encode(), InsnKind::Jalr),
        (RvInsn::Auipc { rd: 5, imm: 0x1000 }.encode(), InsnKind::Auipc),
        (RvInsn::B { op: BOp::Beq, rs1: 1, rs2: 2, imm: 8 }.encode(), InsnKind::Beq),
        (RvInsn::B { op: BOp::Bne, rs1: 1, rs2: 2, imm: 8 }.encode(), InsnKind::Bne),
        (RvInsn::B { op: BOp::Blt, rs1: 1, rs2: 2, imm: 8 }.encode(), InsnKind::Blt),
        (RvInsn::B { op: BOp::Bge, rs1: 1, rs2: 2, imm: 8 }.encode(), InsnKind::Bge),
        (RvInsn::B { op: BOp::Bltu, rs1: 1, rs2: 2, imm: 8 }.encode(), InsnKind::Bltu),
        (RvInsn::B { op: BOp::Bgeu, rs1: 1, rs2: 2, imm: 8 }.encode(), InsnKind::Bgeu),
    ];
    for (word, kind) in emulated.iter() {
        assert_eq!(get_insn_kind(*word), *kind);
        assert_eq!(get_insn_type(*word), SingleStepType::Emulate);
    }
    // a compressed load runs out of line, whatever follows it in memory
    assert_eq!(get_insn_type(C_LW), SingleStepType::Execute);
    assert_eq!(get_insn_type(0xabcd_0000 | C_LW), SingleStepType::Execute);
    // what the decoder refuses, and longer encodings, cannot be probed
    assert_eq!(get_insn_kind(0x0000_000b), InsnKind::Undecodable);
    assert_eq!(get_insn_type(0x0000_000b), SingleStepType::Unsupported);
    assert_eq!(get_insn_type(0x0000_001f), SingleStepType::Unsupported);
}

#[test]
fn emulates_jumps() {
    // jal ra, +8
    let mut tf = frame();
    assert!(emulate_execution(&mut tf, JAL_RA_8, 0x1000));
    assert_eq!(tf.sepc, 0x1008);
    assert_eq!(tf.general[1], 0x1004);
    // jal zero, -16
    let mut tf = frame();
    let word = RvInsn::Jal { rd: 0, imm: -16 }.encode();
    assert!(emulate_execution(&mut tf, word, 0x1000));
    assert_eq!(tf.sepc, 0x0ff0);
    assert_eq!(tf.general, frame().general);
    // jalr ra, -4(a0): the target is read before the link is written
    let mut tf = frame();
    let word = RvInsn::I { op: IOp::Jalr, rd: 1, rs1: 10, imm: -4 }.encode();
    assert!(emulate_execution(&mut tf, word, 0x2000));
    assert_eq!(tf.sepc, 0xa000 - 4);
    assert_eq!(tf.general[1], 0x2004);
    let mut tf = frame();
    let word = RvInsn::I { op: IOp::Jalr, rd: 1, rs1: 1, imm: 0 }.encode();
    assert!(emulate_execution(&mut tf, word, 0x2000));
    assert_eq!(tf.sepc, 0x1000);
    assert_eq!(tf.general[1], 0x2004);
    // auipc t0, 0x12345000
    let mut tf = frame();
    let word = RvInsn::Auipc { rd: 5, imm: 0x1234_5000 }.encode();
    assert!(emulate_execution(&mut tf, word, 0x1000));
    assert_eq!(tf.sepc, 0x1004);
    assert_eq!(tf.general[5], 0x1234_6000);
}

#[test]
fn emulates_branches() {
    let cases: [(BOp, usize, usize, bool); 14] = [
        (BOp::Beq, 5, 5, true),
        (BOp::Beq, 5, 6, false),
        (BOp::Bne, 5, 6, true),
        (BOp::Bne, 5, 5, false),
        (BOp::Blt, usize::MAX, 0, true),
        (BOp::Blt, 0, usize::MAX, false),
        (BOp::Blt, 3, 3, false),
        (BOp::Bge, 0, usize::MAX, true),
        (BOp::Bge, 3, 3, true),
        (BOp::Bge, usize::MAX, 0, false),
        (BOp::Bltu, 0, usize::MAX, true),
        (BOp::Bltu, usize::MAX, 0, false),
        (BOp::Bgeu, usize::MAX, 0, true),
        (BOp::Bgeu, 0, 1, false),
    ];
    for (op, a, b, taken) in cases.iter() {
        for offset in [64i32, -64].iter() {
            let mut tf = frame();
            tf.general[10] = *a;
            tf.general[11] = *b;
            let word = RvInsn::B { op: *op, rs1: 10, rs2: 11, imm: *offset }.encode();
            assert!(emulate_execution(&mut tf, word, 0x4000));
            let expected = if *taken { (0x4000 + *offset as isize) as usize } else { 0x4004 };
            assert_eq!(tf.sepc, expected, "{:?} on {:#x}, {:#x}", op, a, b);
        }
    }
}

const C_J_4: u32 = 0xa011; // c.j +4
const C_J_BACK: u32 = 0xbffd; // c.j -2
const C_JR_RA: u32 = 0x8082; // c.jr ra
const C_JALR_A5: u32 = 0x9782; // c.jalr a5
const C_BEQZ_S0_8: u32 = 0xc401; // c.beqz s0, +8
const C_BNEZ_S1_BACK: u32 = 0xfcfd; // c.bnez s1, -2

#[test]
fn compressed_transfers_are_classified() {
    let kinds = [
        (C_J_4, InsnKind::CJ),
        (C_J_BACK, InsnKind::CJ),
        (C_JR_RA, InsnKind::CJr),
        (C_JALR_A5, InsnKind::CJalr),
        (C_BEQZ_S0_8, InsnKind::CBeqz),
        (C_BNEZ_S1_BACK, InsnKind::CBnez),
    ];
    for (half, kind) in kinds.iter() {
        assert_eq!(compressed_transfer(*half), Some(*kind));
        assert_eq!(get_insn_length(*half), 2);
        // whatever follows the instruction in memory
        assert_eq!(get_insn_kind(0x1234_0000 | *half), *kind);
        assert_eq!(get_insn_type(0x1234_0000 | *half), SingleStepType::Emulate);
    }
    // a compressed load is no transfer, nor is c.ebreak or c.mv
    assert_eq!(compressed_transfer(C_LW), None);
    assert_eq!(compressed_transfer(0x9002), None);
    assert_eq!(compressed_transfer(0x853e), None);
    assert_eq!(get_insn_kind(C_LW), InsnKind::Other);
}

#[test]
fn emulates_compressed_transfers() {
    let pc = 0x8020_0000usize;
    let mut tf = frame();
    assert!(emulate_execution(&mut tf, C_J_4, pc));
    assert_eq!(tf.sepc, pc + 4);
    assert_eq!(tf.general, frame().general);

    let mut tf = frame();
    assert!(emulate_execution(&mut tf, C_J_BACK, pc));
    assert_eq!(tf.sepc, pc - 2);

    let mut tf = frame();
    assert!(emulate_execution(&mut tf, C_JR_RA, pc));
    assert_eq!(tf.sepc, 0x1000);
    assert_eq!(tf.general, frame().general);

    // the call through a register links the address behind its two bytes
    let mut tf = frame();
    assert!(emulate_execution(&mut tf, C_JALR_A5, pc));
    assert_eq!(tf.sepc, 0xf000);
    assert_eq!(tf.general[1], pc + 2);

    // s0 holds 0x8000: the branch on zero falls through
    let mut tf = frame();
    assert!(emulate_execution(&mut tf, C_BEQZ_S0_8, pc));
    assert_eq!(tf.sepc, pc + 2);
    let mut tf = frame();
    tf.general[8] = 0;
    assert!(emulate_execution(&mut tf, C_BEQZ_S0_8, pc));
    assert_eq!(tf.sepc, pc + 8);

    let mut tf = frame();
    assert!(emulate_execution(&mut tf, C_BNEZ_S1_BACK, pc));
    assert_eq!(tf.sepc, pc - 2);
    let mut tf = frame();
    tf.general[9] = 0;
    assert!(emulate_execution(&mut tf, C_BNEZ_S1_BACK, pc));
    assert_eq!(tf.sepc, pc + 2);
    assert_eq!(tf.general[1], 0x1000);
}

#[test]
fn probe_on_a_compressed_jump_is_emulated() {
    let mut probes = KProbes::new();
    let plan = register_kprobe(&mut probes, 0x4000, C_JALR_A5, 0x9_0000, args(3)).unwrap();
    assert_eq!(plan, ArmPlan { addr: 0x4000, buf_addr: 0x9_0000, insn_len: 2 });
    let probe = probes.get(0x4000).unwrap();
    assert!(probe.emulate);
    assert_eq!(probe.insn_len, 2);
}

#[test]
fn entry_handler_is_due_as_the_outcome_says() {
    assert!(EntryOutcome::NoProbe.entry_handler_due());
    assert!(!EntryOutcome::LimitReached.entry_handler_due());
    assert!(EntryOutcome::Entered { user_data: 1, has_entry_handler: true }.entry_handler_due());
    assert!(!EntryOutcome::Entered { user_data: 1, has_entry_handler: false }.entry_handler_due());
}

#[test]
fn other_instructions_are_not_emulated() {
    let mut tf = frame();
    assert!(!emulate_execution(&mut tf, ADDI, 0x1000));
    assert_eq!(tf.sepc, frame().sepc);
    assert_eq!(tf.general, frame().general);
    assert!(!emulate_kind(&mut tf, InsnKind::Undecodable, 0, 0x1000));
    assert_eq!(tf.sepc, frame().sepc);
}

fn args(user_data: usize) -> KProbeArgs {
    KProbeArgs { has_post_handler: true, user_data }
}

#[test]
fn probe_round_trip() {
    let mut table = KProbes::new();
    let plan = register_kprobe(&mut table, 0x8000, ADDI, 0x9_0000, args(17)).unwrap();
    assert_eq!(plan, ArmPlan { addr: 0x8000, buf_addr: 0x9_0000, insn_len: 4 });
    assert_eq!(table.len(), 1);

    // the breakpoint is hit: the first stage
    let mut tf = frame();
    tf.sepc = 0x8000;
    assert_eq!(
        kprobe_trap_handler(&mut table, 0x8000),
        TrapStage::FirstStage { addr: 0x8000, user_data: 17 }
    );
    assert_eq!(table.get(0x8000).unwrap().active_count, 1);
    // after the handler that runs before the instruction: the copy is to run
    assert_eq!(kprobe_single_step(&table, &mut tf, 0x8000), StepOutcome::Redirected);
    assert_eq!(tf.sepc, 0x9_0000);
    // the breakpoint behind the copy: the second stage
    assert_eq!(
        kprobe_trap_handler(&mut table, 0x9_0004),
        TrapStage::SecondStage { addr: 0x8000, user_data: 17, has_post_handler: true }
    );
    assert_eq!(table.get(0x8000).unwrap().active_count, 1);
    // after the handler that runs after the instruction
    assert!(kprobe_finish(&mut table, &mut tf, 0x8000, true));
    assert_eq!(tf.sepc, 0x8004);
    assert_eq!(table.get(0x8000).unwrap().active_count, 0);

    // removed: the instruction runs without interception
    assert_eq!(
        unregister_kprobe(&mut table, 0x8000),
        Ok(DisarmPlan { addr: 0x8000, buf_addr: 0x9_0000, insn_len: 4 })
    );
    assert_eq!(kprobe_trap_handler(&mut table, 0x8000), TrapStage::NotHandled);
    assert_eq!(kprobe_trap_handler(&mut table, 0x9_0004), TrapStage::NotHandled);
    assert_eq!(table.len(), 0);
}

#[test]
fn probe_on_a_jump_is_emulated() {
    let mut table = KProbes::new();
    let plan = register_kprobe(&mut table, 0x8000, JAL_RA_8, 0x9_0000, args(3)).unwrap();
    assert_eq!(plan.insn_len, 4);
    assert!(table.get(0x8000).unwrap().emulate);
    let mut tf = frame();
    assert_eq!(
        kprobe_trap_handler(&mut table, 0x8000),
        TrapStage::FirstStage { addr: 0x8000, user_data: 3 }
    );
    assert_eq!(
        kprobe_single_step(&table, &mut tf, 0x8000),
        StepOutcome::Emulated { user_data: 3, has_post_handler: true }
    );
    assert_eq!(tf.sepc, 0x8008);
    assert_eq!(tf.general[1], 0x8004);
    assert!(kprobe_finish(&mut table, &mut tf, 0x8000, false));
    assert_eq!(tf.sepc, 0x8008);
    assert_eq!(table.get(0x8000).unwrap().active_count, 0);
}

#[test]
fn probe_on_a_compressed_instruction() {
    let mut table = KProbes::new();
    let plan = register_kprobe(&mut table, 0x8000, 0x1234_0000 | C_LW, 0x9_0000, args(0)).unwrap();
    assert_eq!(plan.insn_len, 2);
    let mut tf = frame();
    assert_eq!(
        kprobe_trap_handler(&mut table, 0x9_0002),
        TrapStage::SecondStage { addr: 0x8000, user_data: 0, has_post_handler: true }
    );
    assert!(kprobe_finish(&mut table, &mut tf, 0x8000, true));
    assert_eq!(tf.sepc, 0x8002);
}

#[test]
fn active_probe_is_not_removed() {
    let mut table = KProbes::new();
    register_kprobe(&mut table, 0x8000, ADDI, 0x9_0000, args(1)).unwrap();
    let before = table.get(0x8000).unwrap();
    assert_eq!(
        kprobe_trap_handler(&mut table, 0x8000),
        TrapStage::FirstStage { addr: 0x8000, user_data: 1 }
    );
    assert_eq!(unregister_kprobe(&mut table, 0x8000), Err(KProbeError::Busy));
    // the probe is still there, and still hit
    let now = table.get(0x8000).unwrap();
    assert_eq!(now, KProbe { active_count: 1, ..before });
    assert_eq!(
        kprobe_trap_handler(&mut table, 0x8000),
        TrapStage::FirstStage { addr: 0x8000, user_data: 1 }
    );
    assert_eq!(table.get(0x8000).unwrap().active_count, 2);
    assert_eq!(unregister_kprobe(&mut table, 0x8000), Err(KProbeError::Busy));
    let mut tf = frame();
    assert!(kprobe_finish(&mut table, &mut tf, 0x8000, true));
    assert_eq!(unregister_kprobe(&mut table, 0x8000), Err(KProbeError::Busy));
    assert!(kprobe_finish(&mut table, &mut tf, 0x8000, true));
    assert!(unregister_kprobe(&mut table, 0x8000).is_ok());
    assert_eq!(unregister_kprobe(&mut table, 0x8000), Err(KProbeError::NotRegistered));
}

#[test]
fn registration_is_refused() {
    let mut table = KProbes::new();
    register_kprobe(&mut table, 0x8000, ADDI, 0x9_0000, args(1)).unwrap();
    // the address has a probe
    assert_eq!(
        register_kprobe(&mut table, 0x8000, ADDI, 0xa_0000, args(2)),
        Err(KProbeError::AlreadyRegistered)
    );
    // the instruction cannot be probed
    assert_eq!(
        register_kprobe(&mut table, 0x8010, 0x0000_000b, 0xa_0000, args(2)),
        Err(KProbeError::Unsupported)
    );
    // the buffer serves another probe
    assert_eq!(
        register_kprobe(&mut table, 0x8010, ADDI, 0x9_0000, args(2)),
        Err(KProbeError::BufferInUse)
    );
    assert_eq!(
        register_kprobe(&mut table, 0x8010, ADDI, usize::MAX - 2, args(2)),
        Err(KProbeError::BufferInUse)
    );
    assert_eq!(table.len(), 1);
    assert_eq!(table.get(0x8000).unwrap().user_data, 1);
    assert_eq!(table.get(0x8010), None);
    let mut tf = frame();
    assert_eq!(kprobe_single_step(&table, &mut tf, 0x8010), StepOutcome::NoProbe);
    assert!(!kprobe_finish(&mut table, &mut tf, 0x8010, true));
}

#[test]
fn probe_plans() {
    let probe = KProbe::new(0x100, false, 5, InstructionBuffer::new(0x2000), C_LW, false);
    assert_eq!(probe.insn_len, 2);
    assert_eq!(probe.active_count, 0);
    assert_eq!(probe.insn_buf.addr(), 0x2000);
    assert_eq!(probe.arm(), ArmPlan { addr: 0x100, buf_addr: 0x2000, insn_len: 2 });
    assert_eq!(probe.disarm(), DisarmPlan { addr: 0x100, buf_addr: 0x2000, insn_len: 2 });
}

fn words(list: &[u32]) -> Vec<u8> {
    let mut bytes = Vec::new();
    for w in list {
        bytes.extend_from_slice(&w.to_le_bytes());
    }
    bytes
}

#[test]
fn finds_the_calls_of_a_function() {
    let jalr_ra = RvInsn::I { op: IOp::Jalr, rd: 1, rs1: 6, imm: 0 }.encode();
    let ret = RvInsn::I { op: IOp::Jalr, rd: 0, rs1: 1, imm: 0 }.encode();
    let j = RvInsn::Jal { rd: 0, imm: 8 }.encode();
    let add = RvInsn::R { op: ROp::Add, rd: 1, rs1: 1, rs2: 1 }.encode();
    assert!(is_function_call(InsnKind::Jal, JAL_RA_8));
    assert!(is_function_call(InsnKind::Jalr, jalr_ra));
    assert!(!is_function_call(InsnKind::Jalr, ret));
    assert!(!is_function_call(InsnKind::Jal, j));
    assert!(!is_function_call(InsnKind::Other, add));
    assert!(is_function_call(InsnKind::CJalr, 0x9782));
    assert!(!is_function_call(InsnKind::CJr, 0x8082));
    let mut code = words(&[ADDI, JAL_RA_8, add]);
    // a compressed instruction shifts what follows by two bytes
    code.extend_from_slice(&(C_LW as u16).to_le_bytes());
    code.extend_from_slice(&words(&[jalr_ra, j, ret, JAL_RA_8]));
    assert_eq!(foreach_function_call(&code, 0x1_0000), vec![0x1_0004, 0x1_000e, 0x1_001a]);
    assert_eq!(foreach_function_call(&[], 0x1_0000), Vec::<usize>::new());
    // an instruction that is cut off ends the scan
    assert_eq!(foreach_function_call(&code[..6], 0), Vec::<usize>::new());
    assert_eq!(foreach_function_call(&code[..8], 0), vec![4]);
    // a compressed call through a register counts, a compressed return not
    let mut short = Vec::new();
    short.extend_from_slice(&0x8082u16.to_le_bytes());
    short.extend_from_slice(&0x9782u16.to_le_bytes());
    short.extend_from_slice(&words(&[JAL_RA_8]));
    assert_eq!(foreach_function_call(&short, 0x100), vec![0x102, 0x104]);
}

#[test]
fn tracing_goes_down_level_by_level() {
    let mut samples = TraceSamples::new();
    let mut probes = KProbes::new();
    let sites = [
        ProbeSite { addr: 0x1004, insn: JAL_RA_8, buf_addr: 0x9_0000 },
        // refused: the buffer is taken
        ProbeSite { addr: 0x1010, insn: JAL_RA_8, buf_addr: 0x9_0000 },
        ProbeSite { addr: 0x1020, insn: JAL_RA_8, buf_addr: 0xa_0000 },
    ];
    let plans = trace_root_function(&mut samples, &mut probes, 0x1000, &sites);
    assert_eq!(
        plans,
        vec![
            ArmPlan { addr: 0x1004, buf_addr: 0x9_0000, insn_len: 4 },
            ArmPlan { addr: 0x1020, buf_addr: 0xa_0000, insn_len: 4 },
        ]
    );
    assert!(probes.get(0x1010).is_none());
    assert!(probes.get(0x1020).unwrap().has_post_handler);
    assert_eq!(samples.calls, vec![0x1004, 0x1020]);
    assert_eq!(samples.targets, vec![(0x1000, 0)]);
    assert_eq!(probes.get(0x1004).unwrap().user_data, 0);

    // the probed calls reach two functions, one of them twice
    let mut tf = frame();
    assert_eq!(dynamic_trace_kprobe_pre_handler(&tf, 0), 0);
    tf.sepc = 0x2000;
    assert_eq!(dynamic_trace_kprobe_post_handler(&mut samples, &tf, 0), 0);
    tf.sepc = 0x3000;
    dynamic_trace_kprobe_post_handler(&mut samples, &tf, 0);
    tf.sepc = 0x2000;
    dynamic_trace_kprobe_post_handler(&mut samples, &tf, 0);
    // a function that is known keeps its depth
    tf.sepc = 0x1000;
    dynamic_trace_kprobe_post_handler(&mut samples, &tf, 0);
    assert_eq!(samples.targets, vec![(0x1000, 0), (0x2000, 1), (0x3000, 1)]);

    assert_eq!(trace_next_step(&mut samples), vec![0x2000, 0x3000]);
    assert_eq!(samples.depth, 1);
    let plans = trace_root_function(&mut samples, &mut probes, 0x2000, &[]);
    assert!(plans.is_empty());
    assert_eq!(samples.targets, vec![(0x1000, 0), (0x2000, 1), (0x3000, 1)]);
    assert_eq!(trace_next_step(&mut samples), Vec::<usize>::new());

    // a probe with a hit in flight stays when the rest is removed
    kprobe_trap_handler(&mut probes, 0x1004);
    let removed = samples.unregister_all(&mut probes);
    assert_eq!(removed, vec![DisarmPlan { addr: 0x1020, buf_addr: 0xa_0000, insn_len: 4 }]);
    assert!(probes.get(0x1004).is_some());
    assert!(probes.get(0x1020).is_none());
}

fn ret_args(limit: Option<usize>) -> KRetProbeArgs {
    KRetProbeArgs { has_entry_handler: true, limit, user_data: 21 }
}

#[test]
fn return_probe_pairs_entry_and_exit() {
    let mut probes = KProbes::new();
    let mut kret = KRetProbes::new(0xf000);
    assert_eq!(kret.trampoline(), 0xf000);
    let plan = register_kretprobe(&mut probes, &mut kret, 0x8000, ADDI, 0x9_0000, ret_args(None));
    assert_eq!(plan, Ok(ArmPlan { addr: 0x8000, buf_addr: 0x9_0000, insn_len: 4 }));
    assert!(!probes.get(0x8000).unwrap().has_post_handler);

    // the function is entered from 0x4444, and from within itself from 0x8100
    let mut tf = frame();
    tf.general[1] = 0x4444;
    assert_eq!(
        kretprobe_entry(&mut kret, &mut tf, 0x8000),
        EntryOutcome::Entered { user_data: 21, has_entry_handler: true }
    );
    assert_eq!(tf.general[1], 0xf000);
    tf.general[1] = 0x8100;
    assert_eq!(
        kretprobe_entry(&mut kret, &mut tf, 0x8000),
        EntryOutcome::Entered { user_data: 21, has_entry_handler: true }
    );
    assert_eq!(tf.general[1], 0xf000);
    assert_eq!(kret.get(0x8000).unwrap().pending, 2);
    // while calls are followed the probe stays
    assert_eq!(unregister_kretprobe(&mut probes, &mut kret, 0x8000), Err(KProbeError::Busy));

    // a trap elsewhere is no return
    tf.sepc = 0x8004;
    assert_eq!(kretprobe_return(&mut kret, &mut tf), ReturnOutcome::NotHandled);
    // the inner call returns first
    tf.sepc = 0xf000;
    assert_eq!(
        kretprobe_return(&mut kret, &mut tf),
        ReturnOutcome::Returned { addr: 0x8000, user_data: 21 }
    );
    assert_eq!((tf.sepc, tf.general[1]), (0x8100, 0x8100));
    tf.sepc = 0xf000;
    assert_eq!(
        kretprobe_return(&mut kret, &mut tf),
        ReturnOutcome::Returned { addr: 0x8000, user_data: 21 }
    );
    assert_eq!((tf.sepc, tf.general[1]), (0x4444, 0x4444));
    assert_eq!(kret.get(0x8000).unwrap().pending, 0);
    // no call is followed any more
    tf.sepc = 0xf000;
    assert_eq!(kretprobe_return(&mut kret, &mut tf), ReturnOutcome::NotHandled);
    assert_eq!(tf.sepc, 0xf000);

    assert_eq!(
        unregister_kretprobe(&mut probes, &mut kret, 0x8000),
        Ok(DisarmPlan { addr: 0x8000, buf_addr: 0x9_0000, insn_len: 4 })
    );
    assert!(kret.get(0x8000).is_none());
    assert!(probes.get(0x8000).is_none());
    assert_eq!(
        unregister_kretprobe(&mut probes, &mut kret, 0x8000),
        Err(KProbeError::NotRegistered)
    );
    assert_eq!(kretprobe_entry(&mut kret, &mut tf, 0x8000), EntryOutcome::NoProbe);
}

#[test]
fn return_probe_limit_and_refusals() {
    let mut probes = KProbes::new();
    let mut kret = KRetProbes::new(0xf000);
    register_kretprobe(&mut probes, &mut kret, 0x8000, ADDI, 0x9_0000, ret_args(Some(1))).unwrap();
    let mut tf = frame();
    tf.general[1] = 0x4444;
    assert!(matches!(kretprobe_entry(&mut kret, &mut tf, 0x8000), EntryOutcome::Entered { .. }));
    // the second call at a time is not followed
    tf.general[1] = 0x5555;
    assert_eq!(kretprobe_entry(&mut kret, &mut tf, 0x8000), EntryOutcome::LimitReached);
    assert_eq!(tf.general[1], 0x5555);
    // a function that has a return probe, or a probe, takes no other
    assert_eq!(
        register_kretprobe(&mut probes, &mut kret, 0x8000, ADDI, 0xa_0000, ret_args(None)),
        Err(KProbeError::AlreadyRegistered)
    );
    register_kprobe(&mut probes, 0x8800, ADDI, 0xb_0000, args(0)).unwrap();
    assert_eq!(
        register_kretprobe(&mut probes, &mut kret, 0x8800, ADDI, 0xc_0000, ret_args(None)),
        Err(KProbeError::AlreadyRegistered)
    );
    assert_eq!(
        register_kretprobe(&mut probes, &mut kret, 0x8900, 0xb, 0xc_0000, ret_args(None)),
        Err(KProbeError::Unsupported)
    );
    assert!(kret.get(0x8800).is_none());
    assert!(kret.get(0x8900).is_none());
    // a hit of the entry in flight keeps the probe in place as well
    tf.sepc = 0xf000;
    kretprobe_return(&mut kret, &mut tf);
    kprobe_trap_handler(&mut probes, 0x8000);
    assert_eq!(unregister_kretprobe(&mut probes, &mut kret, 0x8000), Err(KProbeError::Busy));
    assert!(kret.get(0x8000).is_some());
}

#[test]
fn refusals_as_error_kinds() {
    assert_eq!(KProbeError::AlreadyRegistered.error_code(), BpfErrorCode::AlreadyExists);
    assert_eq!(KProbeError::Unsupported.error_code(), BpfErrorCode::InvalidArgument);
    assert_eq!(KProbeError::BufferInUse.error_code(), BpfErrorCode::InvalidArgument);
    assert_eq!(KProbeError::NotRegistered.error_code(), BpfErrorCode::NoSuchEntry);
    assert_eq!(KProbeError::Busy.error_code(), BpfErrorCode::Busy);
    // a removal that is refused because of a hit in flight is reported as busy
    let mut table = KProbes::new();
    register_kprobe(&mut table, 0x8000, ADDI, 0x9_0000, args(1)).unwrap();
    kprobe_trap_handler(&mut table, 0x8000);
    let refusal = unregister_kprobe(&mut table, 0x8000).unwrap_err();
    assert_eq!(refusal.error_code(), BpfErrorCode::Busy);
    assert_eq!(refusal.error_code().errno(), 16);
}
