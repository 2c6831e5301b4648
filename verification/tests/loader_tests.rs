use zcore_ebpf::elf::{ElfObject, ElfRelocation, ElfSection, ElfSymbol, EM_BPF};
use zcore_ebpf::objects::{BpfObject, BpfObjects, BPF_FD_BASE};
use zcore_ebpf::program::{
    bpf_program_load_ex, bpf_program_relocate, MapFdTable, Verdict, PROGRAM_STACK_SIZE,
};
use zcore_ebpf::retcode::BpfErrorCode;
use zcore_ebpf::syscall::sys_bpf_program_load_ex;

fn section(name: &str, offset: usize, size: usize) -> ElfSection {
    ElfSection {
        name: Some(name.as_bytes().to_vec()),
        offset,
        size,
        symbols: None,
        relocations: None,
    }
}

fn symbol(name: &str) -> ElfSymbol {
    ElfSymbol { name: Some(name.as_bytes().to_vec()) }
}

fn binding(name: &str, fd: u32) -> (Vec<u8>, u32) {
    (name.as_bytes().to_vec(), fd)
}

// An object with 64 bytes of text at offset 32 and the symbols
// "", "counts", "main", "events".
fn object(relocations: Vec<ElfRelocation>) -> ElfObject {
    let mut symtab = section(".symtab", 0, 0);
    symtab.symbols = Some(vec![
        ElfSymbol { name: None },
        symbol("counts"),
        symbol("main"),
        symbol("events"),
    ]);
    let mut rel = section(".rel.text", 0, 0);
    rel.relocations = Some(relocations);
    ElfObject {
        machine: EM_BPF,
        sections: vec![section("", 0, 0), section(".text", 32, 64), symtab, rel],
    }
}

fn file() -> Vec<u8> {
    (0..128u32).map(|i| i as u8).collect()
}

fn read_u32(bytes: &[u8], at: usize) -> u32 {
    u32::from_le_bytes([bytes[at], bytes[at + 1], bytes[at + 2], bytes[at + 3]])
}

#[test]
fn relocation_patches_both_halves() {
    let map_info = vec![binding("counts", 3), binding("events", 9)];
    let table = MapFdTable::new(&map_info);
    assert_eq!(table.as_vec().clone(), vec![3, 9]);
    let elf = object(vec![
        ElfRelocation { offset: 0, symbol: 1, rel_type: 1 },
        ElfRelocation { offset: 32, symbol: 3, rel_type: 1 },
        ElfRelocation { offset: 16, symbol: 3, rel_type: 10 },
    ]);
    let mut prog = file();
    let original = prog.clone();
    let insns = bpf_program_relocate(&mut prog, &elf, &map_info, &table).unwrap();
    let base = table.addr() as u64;
    // the address of slot 0 at the first site
    assert_eq!(read_u32(&prog, 32 + 4), base as u32);
    assert_eq!(read_u32(&prog, 32 + 12), (base >> 32) as u32);
    // the address of slot 1 at the second
    let slot1 = base + 4;
    assert_eq!(read_u32(&prog, 64 + 4), slot1 as u32);
    assert_eq!(read_u32(&prog, 64 + 12), (slot1 >> 32) as u32);
    // the call-style encoding at the third
    let call = slot1 / 8 - 1;
    assert_eq!(read_u32(&prog, 48 + 4), call as u32);
    assert_eq!(read_u32(&prog, 48 + 12), (call >> 32) as u32);
    // nothing else changed
    for i in 0..prog.len() {
        let patched = [36, 44, 52, 60, 68, 76].iter().any(|s| i >= *s && i < *s + 4);
        if !patched {
            assert_eq!(prog[i], original[i], "byte {}", i);
        }
    }
    // the instruction stream is the text, word by word
    assert_eq!(insns.len(), 8);
    for (i, word) in insns.iter().enumerate() {
        let at = 32 + 8 * i;
        let mut bytes = [0u8; 8];
        bytes.copy_from_slice(&prog[at..at + 8]);
        assert_eq!(*word, u64::from_le_bytes(bytes));
    }
}

#[test]
fn relocation_keeps_the_table_address_fixed() {
    let map_info = vec![binding("counts", 3)];
    let table = MapFdTable::new(&map_info);
    assert_eq!(table.addr(), table.as_vec().as_ptr() as usize);
}

#[test]
fn unresolved_bindings_fail_the_load() {
    // two bindings, one symbol of that name
    let map_info = vec![binding("counts", 3), binding("missing", 9)];
    let table = MapFdTable::new(&map_info);
    let elf = object(vec![ElfRelocation { offset: 0, symbol: 1, rel_type: 1 }]);
    let mut prog = file();
    assert_eq!(
        bpf_program_relocate(&mut prog, &elf, &map_info, &table),
        Err(BpfErrorCode::ResolutionIncomplete)
    );
    assert_eq!(prog, file());
    // no bindings and no symbol of a binding: nothing to resolve
    let none: Vec<(Vec<u8>, u32)> = Vec::new();
    let table = MapFdTable::new(&none);
    let insns = bpf_program_relocate(&mut prog, &elf, &none, &table).unwrap();
    assert_eq!(insns.len(), 8);
    assert_eq!(prog, file());
    // a symbol table without entries resolves nothing
    let mut elf = object(vec![]);
    elf.sections[2].symbols = None;
    let map_info = vec![binding("counts", 3)];
    let table = MapFdTable::new(&map_info);
    assert_eq!(
        bpf_program_relocate(&mut prog, &elf, &map_info, &table),
        Err(BpfErrorCode::ResolutionIncomplete)
    );
    assert_eq!(prog, file());
}

#[test]
fn wrong_machine_is_invalid() {
    let mut elf = object(vec![]);
    elf.machine = 243;
    let none: Vec<(Vec<u8>, u32)> = Vec::new();
    let table = MapFdTable::new(&none);
    let mut prog = file();
    assert_eq!(
        bpf_program_relocate(&mut prog, &elf, &none, &table),
        Err(BpfErrorCode::InvalidArgument)
    );
    // a file that is refused at once keeps its bytes
    assert_eq!(prog, file());
}

#[test]
fn missing_sections_are_no_such_entry() {
    let none: Vec<(Vec<u8>, u32)> = Vec::new();
    let table = MapFdTable::new(&none);
    let mut prog = file();
    // no .symtab
    let mut elf = object(vec![]);
    elf.sections[2].name = Some(b".other".to_vec());
    assert_eq!(
        bpf_program_relocate(&mut prog, &elf, &none, &table),
        Err(BpfErrorCode::NoSuchEntry)
    );
    assert_eq!(prog, file());
    // no .text, which is also the target of .rel.text
    let mut elf = object(vec![]);
    elf.sections[1].name = Some(b".data".to_vec());
    assert_eq!(
        bpf_program_relocate(&mut prog, &elf, &none, &table),
        Err(BpfErrorCode::NoSuchEntry)
    );
    assert_eq!(elf.find_section_by_name(b".text"), None);
    assert_eq!(elf.find_section_by_name(b".symtab"), Some(2));
}

#[test]
fn malformed_relocation_sections_are_invalid() {
    let none: Vec<(Vec<u8>, u32)> = Vec::new();
    let table = MapFdTable::new(&none);
    let mut prog = file();
    // a relocation section without a name
    let mut elf = object(vec![]);
    elf.sections[3].name = None;
    assert_eq!(
        bpf_program_relocate(&mut prog, &elf, &none, &table),
        Err(BpfErrorCode::InvalidArgument)
    );
    // a name shorter than ".rel"
    let mut elf = object(vec![]);
    elf.sections[3].name = Some(b".re".to_vec());
    assert_eq!(
        bpf_program_relocate(&mut prog, &elf, &none, &table),
        Err(BpfErrorCode::InvalidArgument)
    );
    // a site past the end of the file
    let map_info = vec![binding("counts", 3)];
    let table = MapFdTable::new(&map_info);
    let elf = object(vec![ElfRelocation { offset: 96, symbol: 1, rel_type: 1 }]);
    assert_eq!(
        bpf_program_relocate(&mut prog, &elf, &map_info, &table),
        Err(BpfErrorCode::InvalidArgument)
    );
    let elf = object(vec![ElfRelocation { offset: u64::MAX, symbol: 1, rel_type: 1 }]);
    assert_eq!(
        bpf_program_relocate(&mut prog, &elf, &map_info, &table),
        Err(BpfErrorCode::InvalidArgument)
    );
    // text past the end of the file
    let mut elf = object(vec![]);
    elf.sections[1].size = 200;
    let none: Vec<(Vec<u8>, u32)> = Vec::new();
    let table = MapFdTable::new(&none);
    assert_eq!(
        bpf_program_relocate(&mut prog, &elf, &none, &table),
        Err(BpfErrorCode::InvalidArgument)
    );
}

#[test]
fn other_relocations_and_symbols_are_passed_over() {
    let map_info = vec![binding("counts", 3)];
    let table = MapFdTable::new(&map_info);
    let elf = object(vec![
        // a symbol that names no map
        ElfRelocation { offset: 0, symbol: 2, rel_type: 1 },
        // a symbol index past the table
        ElfRelocation { offset: 0, symbol: 77, rel_type: 1 },
        // a type that writes nothing
        ElfRelocation { offset: 0, symbol: 1, rel_type: 2 },
    ]);
    let mut prog = file();
    assert!(bpf_program_relocate(&mut prog, &elf, &map_info, &table).is_ok());
    assert_eq!(prog, file());
}

#[test]
fn last_binding_of_a_name_wins() {
    let map_info = vec![binding("counts", 3), binding("counts", 4)];
    let table = MapFdTable::new(&map_info);
    let mut elf = object(vec![ElfRelocation { offset: 0, symbol: 1, rel_type: 1 }]);
    // two symbols of the name make up the count of two bindings
    elf.sections[2].symbols = Some(vec![symbol("counts"), symbol("counts")]);
    let mut prog = file();
    assert!(bpf_program_relocate(&mut prog, &elf, &map_info, &table).is_ok());
    let slot1 = table.addr() as u64 + 4;
    assert_eq!(read_u32(&prog, 32 + 4), slot1 as u32);
}

const EXIT: u64 = 0x95;

#[test]
fn load_registers_the_compiled_program() {
    let mut objs = BpfObjects::new();
    let none: Vec<(Vec<u8>, u32)> = Vec::new();
    let insns = vec![0xb7u64 | (42u64 << 32), EXIT];
    let fd = bpf_program_load_ex(
        &mut objs,
        &insns,
        MapFdTable::new(&none),
        Verdict::Accepted,
        &[1, 2],
    )
    .unwrap();
    assert_eq!(fd as u32, BPF_FD_BASE);
    let program = match objs.get(fd as u32) {
        Some(BpfObject::Program(p)) => p.clone(),
        _ => panic!("no program"),
    };
    let code = program.jited_code().unwrap();
    // prologue, one word for the move, one for the exit, epilogue, padding, table
    assert_eq!(code[0], 0xfc81_0113);
    assert_eq!(code[11], 0x02a0_0793);
    assert_eq!(code.len(), 11 + 2 + 10 + 1 + 4);
    assert_eq!(PROGRAM_STACK_SIZE, 512);
    // the next program has the next handle
    let fd2 = sys_bpf_program_load_ex(
        &mut objs,
        &insns,
        MapFdTable::new(&none),
        Verdict::Skipped,
        &[],
    );
    assert_eq!(fd2 as u32, BPF_FD_BASE + 1);
}

#[test]
fn rejected_and_uncompilable_programs_are_invalid() {
    let mut objs = BpfObjects::new();
    let none: Vec<(Vec<u8>, u32)> = Vec::new();
    let insns = vec![EXIT];
    assert_eq!(
        bpf_program_load_ex(&mut objs, &insns, MapFdTable::new(&none), Verdict::Rejected, &[]),
        Err(BpfErrorCode::InvalidArgument)
    );
    // an opcode that the compiler does not lower
    let insns = vec![0xd4u64, EXIT];
    assert_eq!(
        bpf_program_load_ex(&mut objs, &insns, MapFdTable::new(&none), Verdict::Accepted, &[]),
        Err(BpfErrorCode::InvalidArgument)
    );
    assert_eq!(
        sys_bpf_program_load_ex(&mut objs, &insns, MapFdTable::new(&none), Verdict::Accepted, &[]),
        -1
    );
    assert!(objs.get(BPF_FD_BASE).is_none());
}
