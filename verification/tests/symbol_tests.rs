use zcore_ebpf::helpers::{
    bpf_helper_get_current_comm, bpf_helper_get_current_pid_tgid, bpf_helper_get_smp_processor_id,
    bpf_helper_ktime_get_ns, bpf_helper_map_delete_elem, bpf_helper_map_lookup_elem,
    bpf_helper_map_update_elem, bpf_helper_nop, bpf_helper_trace_printk, helper_at, pid_tgid,
    BpfHelper, HELPER_FN_COUNT,
};
use zcore_ebpf::map::MapAttr;
use zcore_ebpf::objects::{bpf_map_create, BpfObjects};
use zcore_ebpf::program::{MapFdEntry, ProgramLoadExAttr};
use zcore_ebpf::retcode::BpfErrorCode;
use zcore_ebpf::symbol::{
    find_function_range, init_symbol_table, parse_hex, parse_symbol_line, symbol_to_addr,
    SymbolTable,
};
use zcore_ebpf::syscall::ThreadLike;

const LISTING: &str = "ffffffc080200000 T _start\n\
ffffffc080200040 t rust_main\n\
ffffffc0802001a0 T <core::fmt::Error as   core::fmt::Debug>::fmt\n\
ffffffc080201000 T zcore::main\r\n";

#[test]
fn listing_is_parsed() {
    let table = SymbolTable::init(LISTING).unwrap();
    assert_eq!(
        table.kernel_symbols,
        vec![
            (b"_start".to_vec(), 0xffff_ffc0_8020_0000usize),
            (b"rust_main".to_vec(), 0xffff_ffc0_8020_0040),
            (b"<core::fmt::Error as core::fmt::Debug>::fmt".to_vec(), 0xffff_ffc0_8020_01a0),
            (b"zcore::main".to_vec(), 0xffff_ffc0_8020_1000),
        ]
    );
    assert_eq!(table.translate("rust_main"), Some(0xffff_ffc0_8020_0040));
    assert_eq!(table.translate("main"), None);
    assert_eq!(table.translate_bytes(b"zcore::main"), Some(0xffff_ffc0_8020_1000));
    assert_eq!(SymbolTable::init("").unwrap().kernel_symbols.len(), 0);
}

#[test]
fn malformed_listing_is_refused() {
    // a line without a type
    assert!(SymbolTable::init("80200000\n").is_none());
    // an empty line
    assert!(SymbolTable::init("10 T a\n\n20 T b\n").is_none());
    // an address that is no number
    assert!(SymbolTable::init("8020000g T a\n").is_none());
    assert!(SymbolTable::init("0x10 T a\n").is_none());
    let mut table = SymbolTable::new();
    assert_eq!(
        table.init_kernel_symbols("10 T a\n20 T\n30 T c\n"),
        Ok(())
    );
    assert_eq!(
        table.kernel_symbols,
        vec![(b"a".to_vec(), 0x10), (b"".to_vec(), 0x20), (b"c".to_vec(), 0x30)]
    );
    let mut table = SymbolTable::new();
    assert_eq!(
        table.init_kernel_symbols("10 T a\nzz T b\n30 T c\n"),
        Err(BpfErrorCode::InvalidArgument)
    );
    // the symbols before the bad line stay
    assert_eq!(table.kernel_symbols, vec![(b"a".to_vec(), 0x10)]);
}

#[test]
fn lines_and_numbers() {
    assert_eq!(parse_symbol_line(b"  1f \t T   a  b\t c  "), Some((b"a b c".to_vec(), 0x1f)));
    assert_eq!(parse_symbol_line(b"1F t x"), Some((b"x".to_vec(), 0x1f)));
    assert_eq!(parse_symbol_line(b"1f"), None);
    assert_eq!(parse_symbol_line(b""), None);
    assert_eq!(parse_symbol_line(b"   "), None);
    assert_eq!(parse_hex(b"0"), Some(0));
    assert_eq!(parse_hex(b"00ff"), Some(255));
    assert_eq!(parse_hex(b"AbCdEf"), Some(0xabcdef));
    assert_eq!(parse_hex(b"ffffffffffffffff"), Some(usize::MAX));
    assert_eq!(parse_hex(b"10000000000000000"), None);
    assert_eq!(parse_hex(b""), None);
    assert_eq!(parse_hex(b"12g"), None);
    assert_eq!(parse_hex(b"+12"), None);
}

#[test]
fn symbols_are_found_by_address() {
    let table = SymbolTable::init("10 T a\n20 T b\n20 T b2\n40 T c\n").unwrap();
    assert_eq!(table.find_symbol(0x0f), None);
    assert_eq!(table.find_symbol(0x10), Some((0, 0x10)));
    assert_eq!(table.find_symbol(0x1f), Some((0, 0x10)));
    // among symbols of one address the last is found
    assert_eq!(table.find_symbol(0x20), Some((2, 0x20)));
    assert_eq!(table.find_symbol(0x3f), Some((2, 0x20)));
    assert_eq!(table.find_symbol(usize::MAX), Some((3, 0x40)));
    assert_eq!(table.symbol_name(2), b"b2");
    // the range of a function ends at the next symbol above its entry
    assert_eq!(find_function_range(&table.kernel_symbols, 0x10), Some((0x10, 0x20)));
    assert_eq!(find_function_range(&table.kernel_symbols, 0x20), Some((0x20, 0x40)));
    assert_eq!(find_function_range(&table.kernel_symbols, 0x05), Some((0x05, 0x10)));
    assert_eq!(find_function_range(&table.kernel_symbols, 0x40), None);
    assert_eq!(find_function_range(&Vec::new(), 0x40), None);
}

#[test]
fn table_that_is_not_set_up_has_no_addresses() {
    let mut table: Option<SymbolTable> = None;
    assert_eq!(symbol_to_addr(&table, "a"), None);
    init_symbol_table(&mut table, "10 T a\n");
    assert_eq!(symbol_to_addr(&table, "a"), Some(0x10));
    assert_eq!(symbol_to_addr(&table, "b"), None);
    init_symbol_table(&mut table, "nonsense\n");
    assert!(table.is_none());
}

struct Thread(u64);

impl ThreadLike for Thread {
    fn get_pid(&self) -> u64 {
        self.0
    }

    fn get_tid(&self) -> u64 {
        self.0 + 1
    }

    fn get_name(&self) -> String {
        String::from("init")
    }
}

#[test]
fn helpers_compute() {
    assert_eq!(bpf_helper_nop(1, 2, 3, 4, 5), 0);
    assert_eq!(pid_tgid(7), (7 << 32) | 7);
    assert_eq!(pid_tgid(0x1_0000_0003), 0x3_0000_0000u64 as i64 | 0x1_0000_0003);
    assert_eq!(bpf_helper_get_current_pid_tgid(&Thread(9)), (9 << 32) | 9);
    assert_eq!(bpf_helper_ktime_get_ns(123_456_789), 123_456_789);
    assert_eq!(bpf_helper_ktime_get_ns((1u128 << 64) + 5), 5);
    assert_eq!(bpf_helper_get_smp_processor_id(3), 3);
    let mut dst = vec![9u8; 2];
    assert_eq!(bpf_helper_get_current_comm(b"init", 16, &mut dst), 4);
    assert_eq!(dst, b"init\0".to_vec());
    assert_eq!(bpf_helper_get_current_comm(b"init", 4, &mut dst), 4);
    assert_eq!(bpf_helper_get_current_comm(b"init", 3, &mut dst), -1);
    assert_eq!(dst, b"init\0".to_vec());
    assert_eq!(HELPER_FN_COUNT, 17);
    assert_eq!(helper_at(0), Some(BpfHelper::Nop));
    assert_eq!(helper_at(1), Some(BpfHelper::MapLookupElem));
    assert_eq!(helper_at(2), Some(BpfHelper::MapUpdateElem));
    assert_eq!(helper_at(3), Some(BpfHelper::MapDeleteElem));
    assert_eq!(helper_at(6), Some(BpfHelper::TracePrintk));
    assert_eq!(helper_at(9), Some(BpfHelper::Nop));
    assert_eq!(helper_at(14), Some(BpfHelper::GetCurrentPidTgid));
    assert_eq!(helper_at(16), Some(BpfHelper::GetCurrentComm));
    assert_eq!(helper_at(17), None);
}

#[test]
fn trace_printk_formats() {
    assert_eq!(
        bpf_helper_trace_printk("pid {} opened {} with {}", 7, 42, 3),
        (String::from("pid 7 opened 42 with 3"), 0)
    );
    // arguments that are left over are dropped, and `{{` is a brace
    assert_eq!(bpf_helper_trace_printk("{{}} {}", 1, 2, 3).0, "{} 1");
    assert_eq!(bpf_helper_trace_printk("{}{}{}{}", 1, 2, 3).0, "123");
    assert_eq!(bpf_helper_trace_printk("plain", 1, 2, 3).0, "plain");
}

#[test]
fn map_helpers_return_minus_one_on_refusal() {
    let mut objs = BpfObjects::new();
    let fd = bpf_map_create(
        &mut objs,
        MapAttr { map_type: 1, key_size: 2, value_size: 1, max_entries: 1 },
    )
    .unwrap() as u64;
    let mut value = vec![5u8];
    assert_eq!(bpf_helper_map_lookup_elem(&mut objs, fd, b"ab", &mut value), -1);
    assert_eq!(bpf_helper_map_update_elem(&mut objs, fd, b"ab", &mut value, 0), 0);
    assert_eq!(bpf_helper_map_update_elem(&mut objs, fd, b"cd", &mut value, 0), -1);
    let mut out = Vec::new();
    assert_eq!(bpf_helper_map_lookup_elem(&mut objs, fd, b"ab", &mut out), 0);
    assert_eq!(out, vec![5]);
    assert_eq!(bpf_helper_map_delete_elem(&mut objs, fd, b"ab"), 0);
    assert_eq!(bpf_helper_map_delete_elem(&mut objs, fd, b"ab"), -1);
    assert_eq!(bpf_helper_map_lookup_elem(&mut objs, 1, b"ab", &mut out), -1);
}

#[test]
fn load_attributes_are_read_from_bytes() {
    let mut bytes = Vec::new();
    bytes.extend_from_slice(&0x4000_0000u64.to_le_bytes());
    bytes.extend_from_slice(&4096u32.to_le_bytes());
    bytes.extend_from_slice(&2u32.to_le_bytes());
    bytes.extend_from_slice(&0x5000_0000u64.to_le_bytes());
    let attr = ProgramLoadExAttr::from_bytes(&bytes).unwrap();
    assert_eq!(
        (attr.elf_prog, attr.elf_size, attr.map_array_len, attr.map_array),
        (0x4000_0000, 4096, 2, 0x5000_0000)
    );
    assert!(ProgramLoadExAttr::from_bytes(&bytes[..20]).is_none());
    let mut bytes = Vec::new();
    bytes.extend_from_slice(&0x6000_0000u64.to_le_bytes());
    bytes.extend_from_slice(&0x7000_0002u32.to_le_bytes());
    bytes.extend_from_slice(&[0; 4]);
    let entry = MapFdEntry::from_bytes(&bytes).unwrap();
    assert_eq!((entry.name, entry.fd), (0x6000_0000, 0x7000_0002));
    assert!(MapFdEntry::from_bytes(&bytes[..8]).is_none());
}
