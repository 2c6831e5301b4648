use zcore_ebpf::objects::{bpf_map_create, BpfObjects};
use zcore_ebpf::map::MapAttr;
use zcore_ebpf::probe::kprobes::{kprobe_trap_handler, ArmPlan, KProbes, TrapStage};
use zcore_ebpf::probe::kretprobes::KRetProbes;
use zcore_ebpf::objects::BpfObject;
use std::sync::Arc;
use zcore_ebpf::program::BpfProgram;
use zcore_ebpf::probe::trapframe::TrapFrame;
use zcore_ebpf::program::{bpf_program_load_ex, MapFdTable, Verdict};
use zcore_ebpf::retcode::BpfErrorCode;
use zcore_ebpf::symbol::SymbolTable;
use zcore_ebpf::tracepoints::{
    bpf_program_attach, bpf_program_attach_probe, kprobe_handler, kretprobe_entry_handler,
    kretprobe_exit_handler, parse_tracepoint, resolve_symbol, run_attached_programs, AttachStep,
    Attachments, KProbeBPFContext, Tracepoint, TracepointType,
};
use zcore_ebpf::syscall::KPROBE_ATTACH_ATTR_SIZE;
use zcore_ebpf::tracepoints::KprobeAttachAttr;

const ADDI: u32 = 0xfc81_0113;

fn program(objs: &mut BpfObjects) -> u32 {
    let none: Vec<(Vec<u8>, u32)> = Vec::new();
    bpf_program_load_ex(objs, &vec![0x95], MapFdTable::new(&none), Verdict::Accepted, &[]).unwrap()
        as u32
}

fn symbols() -> SymbolTable {
    let mut table = SymbolTable::new();
    table.add_symbol("sys_open", 0x8000);
    table.add_symbol("sys_close", 0x9000);
    table
}

fn shared(objs: &BpfObjects, fds: &[u32]) -> Vec<Arc<BpfProgram>> {
    fds.iter()
        .map(|fd| match objs.get(*fd) {
            Some(BpfObject::Program(p)) => p.clone(),
            _ => panic!("no program under {}", fd),
        })
        .collect()
}

fn same(run: &[Arc<BpfProgram>], expected: &[Arc<BpfProgram>]) -> bool {
    run.len() == expected.len() && run.iter().zip(expected).all(|(a, b)| Arc::ptr_eq(a, b))
}

fn frame(pc: usize) -> TrapFrame {
    TrapFrame { general: [0; 32], sstatus: 0, sepc: pc }
}

#[test]
fn targets_are_parsed() {
    assert_eq!(
        parse_tracepoint(b"kprobe:sys_open"),
        Ok((TracepointType::KProbe, &b"sys_open"[..]))
    );
    assert_eq!(
        parse_tracepoint(b"kretprobe@entry:sys_open"),
        Ok((TracepointType::KRetProbeEntry, &b"sys_open"[..]))
    );
    assert_eq!(
        parse_tracepoint(b"kretprobe@exit:f"),
        Ok((TracepointType::KRetProbeExit, &b"f"[..]))
    );
    // the kind is read in any case
    assert_eq!(parse_tracepoint(b"KProbe:x"), Ok((TracepointType::KProbe, &b"x"[..])));
    assert_eq!(
        parse_tracepoint(b"KRETPROBE@EXIT:x"),
        Ok((TracepointType::KRetProbeExit, &b"x"[..]))
    );
    // the symbol is all that follows the first colon
    assert_eq!(
        parse_tracepoint(b"kprobe:a::b:c"),
        Ok((TracepointType::KProbe, &b"a::b:c"[..]))
    );
    assert_eq!(parse_tracepoint(b"kprobe:"), Ok((TracepointType::KProbe, &b""[..])));
    // no colon, or another kind
    assert_eq!(parse_tracepoint(b"kprobe"), Err(BpfErrorCode::InvalidArgument));
    assert_eq!(parse_tracepoint(b""), Err(BpfErrorCode::InvalidArgument));
    assert_eq!(parse_tracepoint(b"uprobe:f"), Err(BpfErrorCode::InvalidArgument));
    assert_eq!(parse_tracepoint(b"kprobe$f"), Err(BpfErrorCode::InvalidArgument));
    assert_eq!(parse_tracepoint(b"kprobes:f"), Err(BpfErrorCode::InvalidArgument));
    assert_eq!(parse_tracepoint(b"kretprobe:f"), Err(BpfErrorCode::InvalidArgument));
    assert_eq!(parse_tracepoint(b"k[robe:f"), Err(BpfErrorCode::InvalidArgument));
    assert_eq!(parse_tracepoint(b":f"), Err(BpfErrorCode::InvalidArgument));
}

#[test]
fn programs_run_in_attachment_order() {
    let mut objs = BpfObjects::new();
    let mut probes = KProbes::new();
    let mut kret = KRetProbes::new(0xf000);
    let mut attachments = Attachments::new();
    let symbols = symbols();
    let p1 = program(&mut objs);
    let p2 = program(&mut objs);
    let p3 = program(&mut objs);

    // the first attachment needs a probe
    let tp = Tracepoint::new(TracepointType::KProbe, 0x8000);
    assert_eq!(
        bpf_program_attach(&objs, &symbols, &mut attachments, "kprobe:sys_open", p2),
        Ok(AttachStep::NeedsProbe { tracepoint: tp })
    );
    assert_eq!(attachments.program_handles(tp), Vec::<u32>::new());
    assert_eq!(
        bpf_program_attach_probe(&objs, &mut probes, &mut kret, &mut attachments, tp, p2, ADDI, 0x5_0000),
        Ok(ArmPlan { addr: 0x8000, buf_addr: 0x5_0000, insn_len: 4 })
    );
    // later ones are added behind
    assert_eq!(
        bpf_program_attach(&objs, &symbols, &mut attachments, "kprobe:sys_open", p1),
        Ok(AttachStep::Attached)
    );
    assert_eq!(
        bpf_program_attach(&objs, &symbols, &mut attachments, "KPROBE:sys_open", p3),
        Ok(AttachStep::Attached)
    );
    assert_eq!(attachments.program_handles(tp), vec![p2, p1, p3]);
    assert!(same(&attachments.programs(tp), &shared(&objs, &[p2, p1, p3])));

    // one hit runs all of them, in that order
    assert_eq!(
        kprobe_trap_handler(&mut probes, 0x8000),
        TrapStage::FirstStage { addr: 0x8000, user_data: 0x8000 }
    );
    let (ctx, run) = kprobe_handler(&attachments, &frame(0x8000), 0x8000);
    assert!(same(&run, &shared(&objs, &[p2, p1, p3])));
    assert!(!same(&run, &shared(&objs, &[p1, p2, p3])));
    assert_eq!((ctx.ptype, ctx.paddr, ctx.tf.sepc), (0, 0x8000, 0x8000));
    // another tracepoint runs nothing
    let (_, run) = kprobe_handler(&attachments, &frame(0x9000), 0x9000);
    assert!(run.is_empty());
    assert!(kret.get(0x8000).is_none());
}

#[test]
fn duplicate_attachment_is_refused() {
    let mut objs = BpfObjects::new();
    let mut probes = KProbes::new();
    let mut kret = KRetProbes::new(0xf000);
    let mut attachments = Attachments::new();
    let symbols = symbols();
    let p1 = program(&mut objs);
    let tp = Tracepoint::new(TracepointType::KProbe, 0x8000);
    bpf_program_attach_probe(&objs, &mut probes, &mut kret, &mut attachments, tp, p1, ADDI, 0x5_0000)
        .unwrap();
    assert_eq!(
        bpf_program_attach(&objs, &symbols, &mut attachments, "kprobe:sys_open", p1),
        Err(BpfErrorCode::AlreadyExists)
    );
    assert_eq!(attachments.program_handles(tp), vec![p1]);
    // the same program at another tracepoint is no duplicate
    assert_eq!(
        bpf_program_attach(&objs, &symbols, &mut attachments, "kprobe:sys_close", p1),
        Ok(AttachStep::NeedsProbe {
            tracepoint: Tracepoint::new(TracepointType::KProbe, 0x9000)
        })
    );
    // a tracepoint that has an entry takes no second probe
    assert_eq!(
        bpf_program_attach_probe(&objs, &mut probes, &mut kret, &mut attachments, tp, p1, ADDI, 0x6_0000),
        Err(BpfErrorCode::AlreadyExists)
    );
    assert_eq!(probes.len(), 1);
}

#[test]
fn attach_is_refused() {
    let mut objs = BpfObjects::new();
    let mut probes = KProbes::new();
    let mut kret = KRetProbes::new(0xf000);
    let mut attachments = Attachments::new();
    let symbols = symbols();
    let p1 = program(&mut objs);
    let map = bpf_map_create(
        &mut objs,
        MapAttr { map_type: 1, key_size: 1, value_size: 1, max_entries: 1 },
    )
    .unwrap() as u32;
    // no such handle, and a handle of a map
    assert_eq!(
        bpf_program_attach(&objs, &symbols, &mut attachments, "kprobe:sys_open", 5),
        Err(BpfErrorCode::NoSuchEntry)
    );
    assert_eq!(
        bpf_program_attach(&objs, &symbols, &mut attachments, "kprobe:sys_open", map),
        Err(BpfErrorCode::NoSuchEntry)
    );
    // a target that does not read
    assert_eq!(
        bpf_program_attach(&objs, &symbols, &mut attachments, "sys_open", p1),
        Err(BpfErrorCode::InvalidArgument)
    );
    // a symbol without an address
    assert_eq!(
        bpf_program_attach(&objs, &symbols, &mut attachments, "kprobe:sys_read", p1),
        Err(BpfErrorCode::NoSuchEntry)
    );
    let tp = Tracepoint::new(TracepointType::KProbe, 0x8000);
    assert_eq!(
        bpf_program_attach_probe(&objs, &mut probes, &mut kret, &mut attachments, tp, map, ADDI, 0x5_0000),
        Err(BpfErrorCode::NoSuchEntry)
    );
    // an instruction that cannot be probed
    assert_eq!(
        bpf_program_attach_probe(&objs, &mut probes, &mut kret, &mut attachments, tp, p1, 0xb, 0x5_0000),
        Err(BpfErrorCode::InvalidArgument)
    );
    assert_eq!(probes.len(), 0);
    assert_eq!(attachments.program_handles(tp), Vec::<u32>::new());
    assert_eq!(resolve_symbol(&symbols, b"sys_close"), Some(0x9000));
    assert_eq!(resolve_symbol(&symbols, b"sys_clos"), None);
}

#[test]
fn return_probe_creates_both_tracepoints() {
    let mut objs = BpfObjects::new();
    let mut probes = KProbes::new();
    let mut kret = KRetProbes::new(0xf000);
    let mut attachments = Attachments::new();
    let symbols = symbols();
    let p1 = program(&mut objs);
    let p2 = program(&mut objs);
    let entry = Tracepoint::new(TracepointType::KRetProbeEntry, 0x9000);
    let exit = Tracepoint::new(TracepointType::KRetProbeExit, 0x9000);
    assert_eq!(entry.dual(), Some(exit));
    assert_eq!(exit.dual(), Some(entry));
    assert_eq!(Tracepoint::new(TracepointType::KProbe, 1).dual(), None);
    assert_eq!(
        bpf_program_attach(&objs, &symbols, &mut attachments, "kretprobe@exit:sys_close", p1),
        Ok(AttachStep::NeedsProbe { tracepoint: exit })
    );
    bpf_program_attach_probe(&objs, &mut probes, &mut kret, &mut attachments, exit, p1, ADDI, 0x5_0000)
        .unwrap();
    assert!(!probes.get(0x9000).unwrap().has_post_handler);
    let noted = kret.get(0x9000).unwrap();
    assert_eq!((noted.has_entry_handler, noted.limit, noted.user_data), (true, None, 0x9000));
    assert_eq!(attachments.program_handles(exit), vec![p1]);
    assert_eq!(attachments.program_handles(entry), Vec::<u32>::new());
    // the entry has an entry of its own now: no second probe is needed
    assert_eq!(
        bpf_program_attach(&objs, &symbols, &mut attachments, "kretprobe@entry:sys_close", p2),
        Ok(AttachStep::Attached)
    );
    let tf = frame(0x9000);
    let (ctx, run) = kretprobe_entry_handler(&attachments, &tf, 0x9000);
    assert_eq!(ctx.ptype, 1);
    assert!(same(&run, &shared(&objs, &[p2])));
    let (ctx, run) = kretprobe_exit_handler(&attachments, &tf, 0x9000);
    assert_eq!(ctx.ptype, 2);
    assert!(same(&run, &shared(&objs, &[p1])));
    let (ctx, run) = run_attached_programs(&attachments, &exit, &tf, 9);
    assert_eq!((ctx.ptype, ctx.paddr), (9, 0x9000));
    assert!(same(&run, &shared(&objs, &[p1])));
    // a program stays attached when its handle is closed
    zcore_ebpf::objects::bpf_map_close(&mut objs, p1).unwrap();
    let (_, run) = kretprobe_exit_handler(&attachments, &tf, 0x9000);
    assert_eq!(run.len(), 1);
    assert!(run[0].jited_code().is_some());
    // a plain probe at the address of the return probe is refused
    let plain = Tracepoint::new(TracepointType::KProbe, 0x9000);
    assert_eq!(
        bpf_program_attach_probe(
            &objs,
            &mut probes,
            &mut kret,
            &mut attachments,
            plain,
            p2,
            ADDI,
            0x6_0000
        ),
        Err(BpfErrorCode::AlreadyExists)
    );
    // and the handle that was closed stands for nothing
    assert_eq!(
        bpf_program_attach_probe(
            &objs,
            &mut probes,
            &mut kret,
            &mut attachments,
            plain,
            p1,
            ADDI,
            0x6_0000
        ),
        Err(BpfErrorCode::NoSuchEntry)
    );
}

#[test]
fn context_holds_the_frame() {
    let tf = frame(0x44);
    let ctx = KProbeBPFContext::new(&tf, 0x40, 2);
    assert_eq!((ctx.ptype, ctx.paddr, ctx.tf.sepc), (2, 0x40, 0x44));
    let mut bytes = Vec::new();
    bytes.extend_from_slice(&0x1000u64.to_le_bytes());
    bytes.extend_from_slice(&15u32.to_le_bytes());
    bytes.extend_from_slice(&0x7000_0001u32.to_le_bytes());
    assert_eq!(bytes.len(), KPROBE_ATTACH_ATTR_SIZE);
    let attr = KprobeAttachAttr::from_bytes(&bytes).unwrap();
    assert_eq!((attr.target, attr.str_len, attr.prog_fd), (0x1000, 15, 0x7000_0001));
    assert!(KprobeAttachAttr::from_bytes(&bytes[1..]).is_none());
}
