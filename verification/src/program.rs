//! Loading a program: the table of map handles that its code refers to, the
//! relocation of those references in the object file, and the compiled
//! program that results.

use vstd::prelude::*;
use crate::consts::{R_BPF_64_64, R_BPF_64_32};
use crate::retcode::BpfErrorCode;
use crate::elf::{
    ElfObject, ElfSection, ElfSymbol, ElfRelocation, EM_BPF, symbol_name, section_name,
    spec_find_section, symtab_name, text_name, symtab_name_bytes, text_name_bytes,
};
use crate::map::internal::bytes_equal;
use crate::retcode::BpfResult;
use crate::objects::{
    BpfObjects, BpfObject, BPF_FD_BASE, BPF_FD_END, bpf_allocate_fd, bpf_object_create_program,
};
use crate::jit::compile::{JitContext, compile};
use crate::jit::model::{JitModel, spec_compile};

verus! {

/// A map handle bound to a symbol name, as a load request gives it.
#[derive(Clone, Copy, Debug)]
pub struct MapFdEntry {
    /// The user-space address of the name.
    pub name: u64,
    /// The handle of the map.
    pub fd: u32,
}

/// The arguments of a load request. The addresses are user-space addresses.
#[derive(Clone, Copy, Debug)]
pub struct ProgramLoadExAttr {
    pub elf_prog: u64,
    pub elf_size: u32,
    pub map_array_len: u32,
    pub map_array: u64,
}

/// The map handles that a program refers to, one four-byte slot for each
/// binding, at an address that stays fixed while the program lives.
pub struct MapFdTable {
    fds: Vec<u32>,
    addr: usize,
}

/// Calls `Vec::as_ptr` of std and returns the address of the first element
/// of the vector as a number. Nothing is claimed of the address: it is
/// where the allocator put the vector.
#[verifier::external_body]
fn vec_address(v: &Vec<u32>) -> (addr: usize) {
    v.as_ptr() as usize
}

/// A compiled program: its native code and the table of map handles that
/// the code refers to. Nothing in it changes once it is made.
pub struct BpfProgram {
    bpf_insns: Option<Vec<u64>>,
    jited_prog: Option<Vec<u32>>,
    /// The handles of the maps that the program was bound to.
    pub map_fd_table: Option<MapFdTable>,
}

impl BpfProgram {
    /// The native code of the program.
    pub closed spec fn code(&self) -> Option<Seq<u32>> {
        match self.jited_prog {
            Some(c) => Some(c@),
            None => None,
        }
    }

    /// The table of map handles of the program.
    pub closed spec fn map_table(&self) -> Option<MapFdTable> {
        self.map_fd_table
    }

    /// A program of the given native code and map handles. The eBPF
    /// instructions are not kept.
    pub fn new(code: Vec<u32>, map_fd_table: MapFdTable) -> (p: Self)
        ensures
            p.code() == Some(code@),
            p.map_table() == Some(map_fd_table),
    {
        Self { bpf_insns: None, jited_prog: Some(code), map_fd_table: Some(map_fd_table) }
    }

    /// The native code of the program.
    pub fn jited_code(&self) -> (c: Option<&Vec<u32>>)
        ensures
            match c {
                Some(code) => self.code() == Some(code@),
                None => self.code() is None,
            },
    {
        self.jited_prog.as_ref()
    }
}

/// The names and handles of bindings as contracts speak of them.
pub open spec fn bindings(map_info: Seq<(Vec<u8>, u32)>) -> Seq<(Seq<u8>, u32)> {
    Seq::new(map_info.len(), |i: int| (map_info[i].0@, map_info[i].1))
}

impl MapFdTable {
    /// The handles in the table.
    pub closed spec fn fds(&self) -> Seq<u32> {
        self.fds@
    }

    /// The address of the first slot.
    pub closed spec fn spec_addr(&self) -> usize {
        self.addr
    }

    /// A table with the handle of each binding, in order.
    pub fn new(map_info: &[(Vec<u8>, u32)]) -> (table: Self)
        ensures
            table.fds().len() == map_info@.len(),
            forall|i: int| 0 <= i < map_info@.len() ==> table.fds()[i] == map_info@[i].1,
    {
        let n: usize = map_info.len();
        let mut fds: Vec<u32> = Vec::with_capacity(n);
        let mut i: usize = 0;
        while i < n
            invariant
                i <= n,
                n == map_info@.len(),
                fds@.len() == i,
                forall|k: int| 0 <= k < i ==> fds@[k] == map_info@[k].1,
            decreases n - i,
        {
            fds.push(map_info[i].1);
            i += 1;
        }
        let addr: usize = vec_address(&fds);
        Self { fds, addr }
    }

    /// The address of the first slot.
    #[verifier::when_used_as_spec(spec_addr)]
    pub fn addr(&self) -> (a: usize)
        ensures
            a == self.spec_addr(),
    {
        self.addr
    }

    /// The handles in the table.
    pub fn as_vec(&self) -> (v: &Vec<u32>)
        ensures
            v@ == self.fds(),
    {
        &self.fds
    }
}

/// The index of the last binding whose name is `name`.
pub open spec fn last_binding(map_info: Seq<(Seq<u8>, u32)>, name: Seq<u8>) -> Option<int>
    decreases map_info.len(),
{
    if map_info.len() == 0 {
        None
    } else if map_info.last().0 == name {
        Some(map_info.len() - 1)
    } else {
        last_binding(map_info.drop_last(), name)
    }
}

/// The binding that a symbol resolves to: the last one of its name.
pub open spec fn resolve_symbol(symbol: ElfSymbol, map_info: Seq<(Seq<u8>, u32)>) -> Option<int> {
    match symbol_name(symbol) {
        Some(name) => last_binding(map_info, name),
        None => None,
    }
}

/// For each symbol, the binding that it resolves to.
pub open spec fn resolve_symbols(symbols: Seq<ElfSymbol>, map_info: Seq<(Seq<u8>, u32)>) -> Seq<
    Option<int>,
> {
    Seq::new(symbols.len(), |i: int| resolve_symbol(symbols[i], map_info))
}

/// How many of the first `n` entries are resolved.
pub open spec fn resolved_count(resolved: Seq<Option<int>>, n: int) -> int
    decreases n,
{
    if n <= 0 {
        0
    } else {
        resolved_count(resolved, n - 1) + if resolved[n - 1] is Some {
            1int
        } else {
            0int
        }
    }
}

/// The symbols of a section; none where it is no symbol table.
pub open spec fn section_symbols(section: ElfSection) -> Seq<ElfSymbol> {
    match section.symbols {
        Some(s) => s@,
        None => Seq::empty(),
    }
}

/// Byte `k` of a number, counted from the least significant.
pub open spec fn byte_of(v: int, k: int) -> u8 {
    if k == 0 {
        (v % 0x100) as u8
    } else if k == 1 {
        ((v / 0x100) % 0x100) as u8
    } else if k == 2 {
        ((v / 0x1_0000) % 0x100) as u8
    } else {
        ((v / 0x100_0000) % 0x100) as u8
    }
}

/// The bytes with a 32-bit number written at `at`, least significant byte
/// first.
pub open spec fn write_u32(bytes: Seq<u8>, at: int, v: u32) -> Seq<u8> {
    bytes.update(at, byte_of(v as int, 0)).update(at + 1, byte_of(v as int, 1)).update(
        at + 2,
        byte_of(v as int, 2),
    ).update(at + 3, byte_of(v as int, 3))
}

/// The 32-bit number that the four bytes at `at` spell.
pub open spec fn read_u32(bytes: Seq<u8>, at: int) -> int {
    bytes[at] + bytes[at + 1] * 0x100 + bytes[at + 2] * 0x1_0000 + bytes[at + 3] * 0x100_0000
}

/// The 64-bit number that the eight bytes at `at` spell.
pub open spec fn read_u64(bytes: Seq<u8>, at: int) -> int {
    read_u32(bytes, at) + read_u32(bytes, at + 4) * 0x1_0000_0000
}

/// The bytes with the 16-byte instruction at `site` patched: the low half
/// of `value` goes into the immediate of its first word, at `site + 4`, the
/// high half into the immediate of its second word, at `site + 12`.
pub open spec fn patch_site(bytes: Seq<u8>, site: int, value: u64) -> Seq<u8> {
    write_u32(
        write_u32(bytes, site + 4, (value % 0x1_0000_0000) as u32),
        site + 12,
        (value / 0x1_0000_0000) as u32,
    )
}

/// The value that a relocation of the given type writes for the address
/// `addr`: the address itself for the 64-bit immediate load, `addr / 8 - 1`
/// for the call-style relocation. Other types write nothing.
pub open spec fn reloc_value(rel_type: u32, addr: u64) -> Option<u64> {
    if rel_type == R_BPF_64_64 {
        Some(addr)
    } else if rel_type == R_BPF_64_32 {
        Some(
            if addr / 8 == 0 {
                0xffff_ffff_ffff_ffffu64
            } else {
                (addr / 8 - 1) as u64
            },
        )
    } else {
        None
    }
}

/// The bytes after one relocation entry is applied to the section at
/// `base`. An entry whose symbol resolves to no binding, or whose type
/// writes nothing, changes nothing. An entry is refused if the slot address
/// does not fit 64 bits or the instruction does not lie within the file.
pub open spec fn apply_relocation(
    bytes: Seq<u8>,
    base: int,
    rel: ElfRelocation,
    resolved: Seq<Option<int>>,
    table_addr: int,
) -> Result<Seq<u8>, BpfErrorCode> {
    if rel.symbol < resolved.len() && resolved[rel.symbol as int] is Some {
        let addr = table_addr + 4 * resolved[rel.symbol as int].unwrap();
        if addr > u64::MAX {
            Err(BpfErrorCode::InvalidArgument)
        } else {
            match reloc_value(rel.rel_type, addr as u64) {
                None => Ok(bytes),
                Some(value) => if base + rel.offset + 16 <= bytes.len() {
                    Ok(patch_site(bytes, base + rel.offset, value))
                } else {
                    Err(BpfErrorCode::InvalidArgument)
                },
            }
        }
    } else {
        Ok(bytes)
    }
}

/// The bytes after the first `n` entries are applied in order.
pub open spec fn apply_relocations(
    bytes: Seq<u8>,
    base: int,
    rels: Seq<ElfRelocation>,
    n: int,
    resolved: Seq<Option<int>>,
    table_addr: int,
) -> Result<Seq<u8>, BpfErrorCode>
    decreases n,
{
    if n <= 0 {
        Ok(bytes)
    } else {
        match apply_relocations(bytes, base, rels, n - 1, resolved, table_addr) {
            Err(e) => Err(e),
            Ok(b) => apply_relocation(b, base, rels[n - 1], resolved, table_addr),
        }
    }
}

/// The bytes after the relocation entries of one section are applied. The
/// section that is relocated is the one whose name follows the first four
/// bytes, `.rel`, of the name of the relocation section. A section that
/// holds no relocation entries changes nothing.
pub open spec fn relocate_section(
    bytes: Seq<u8>,
    sections: Seq<ElfSection>,
    i: int,
    resolved: Seq<Option<int>>,
    table_addr: int,
) -> Result<Seq<u8>, BpfErrorCode> {
    match sections[i].relocations {
        None => Ok(bytes),
        Some(rels) => match section_name(sections[i]) {
            None => Err(BpfErrorCode::InvalidArgument),
            Some(name) => if name.len() < 4 {
                Err(BpfErrorCode::InvalidArgument)
            } else {
                match spec_find_section(sections, name.subrange(4, name.len() as int)) {
                    None => Err(BpfErrorCode::NoSuchEntry),
                    Some(target) => apply_relocations(
                        bytes,
                        sections[target].offset as int,
                        rels@,
                        rels@.len() as int,
                        resolved,
                        table_addr,
                    ),
                }
            },
        },
    }
}

/// The bytes after the first `n` sections are relocated in order.
pub open spec fn relocate_sections(
    bytes: Seq<u8>,
    sections: Seq<ElfSection>,
    n: int,
    resolved: Seq<Option<int>>,
    table_addr: int,
) -> Result<Seq<u8>, BpfErrorCode>
    decreases n,
{
    if n <= 0 {
        Ok(bytes)
    } else {
        match relocate_sections(bytes, sections, n - 1, resolved, table_addr) {
            Err(e) => Err(e),
            Ok(b) => relocate_section(b, sections, n - 1, resolved, table_addr),
        }
    }
}

/// The instruction words of a section of `size` bytes at `offset`: as many
/// whole 64-bit little-endian words as it holds.
pub open spec fn section_words(bytes: Seq<u8>, offset: int, size: int) -> Seq<u64> {
    Seq::new((size / 8) as nat, |i: int| read_u64(bytes, offset + 8 * i) as u64)
}

/// What relocation makes of an object file: the patched bytes and the
/// instruction stream of `.text`, or the reason for refusal.
///
/// The machine type must be that of eBPF, else `InvalidArgument`. There
/// must be a `.symtab` section, else `NoSuchEntry`. The symbols that
/// resolve to a binding must be as many as the bindings, else
/// `ResolutionIncomplete`. Every relocation section is then applied, and
/// the `.text` section, which must exist (`NoSuchEntry`) and lie within the
/// file (`InvalidArgument`), is read.
pub open spec fn spec_relocate(
    bytes: Seq<u8>,
    elf: ElfObject,
    map_info: Seq<(Seq<u8>, u32)>,
    table_addr: int,
) -> Result<(Seq<u8>, Seq<u64>), BpfErrorCode> {
    if elf.machine != EM_BPF {
        Err(BpfErrorCode::InvalidArgument)
    } else {
        match spec_find_section(elf.sections@, symtab_name()) {
            None => Err(BpfErrorCode::NoSuchEntry),
            Some(symtab) => {
                let resolved = resolve_symbols(section_symbols(elf.sections@[symtab]), map_info);
                if resolved_count(resolved, resolved.len() as int) != map_info.len() {
                    Err(BpfErrorCode::ResolutionIncomplete)
                } else {
                    match relocate_sections(
                        bytes,
                        elf.sections@,
                        elf.sections@.len() as int,
                        resolved,
                        table_addr,
                    ) {
                        Err(e) => Err(e),
                        Ok(patched) => match spec_find_section(elf.sections@, text_name()) {
                            None => Err(BpfErrorCode::NoSuchEntry),
                            Some(text) => {
                                let section = elf.sections@[text];
                                if section.offset + section.size <= patched.len() {
                                    Ok(
                                        (
                                            patched,
                                            section_words(
                                                patched,
                                                section.offset as int,
                                                section.size as int,
                                            ),
                                        ),
                                    )
                                } else {
                                    Err(BpfErrorCode::InvalidArgument)
                                }
                            },
                        },
                    }
                }
            },
        }
    }
}

// The index of the last binding whose name is `name`.
fn find_binding(map_info: &[(Vec<u8>, u32)], name: &[u8]) -> (r: Option<usize>)
    ensures
        match r {
            Some(i) => last_binding(bindings(map_info@), name@) == Some(i as int) && i
                < map_info@.len(),
            None => last_binding(bindings(map_info@), name@) == None::<int>,
        },
{
    let mut i: usize = map_info.len();
    assert(bindings(map_info@).take(i as int) =~= bindings(map_info@));
    while i > 0
        invariant
            i <= map_info@.len(),
            last_binding(bindings(map_info@), name@) == last_binding(
                bindings(map_info@).take(i as int),
                name@,
            ),
        decreases i,
    {
        let ghost prefix = bindings(map_info@).take(i as int);
        proof {
            assert(prefix.drop_last() =~= bindings(map_info@).take(i - 1));
            assert(prefix.last() == bindings(map_info@)[i - 1]);
        }
        if bytes_equal(map_info[i - 1].0.as_slice(), name) {
            return Some(i - 1);
        }
        i -= 1;
    }
    assert(bindings(map_info@).take(0) =~= Seq::<(Seq<u8>, u32)>::empty()) by {
        assert(bindings(map_info@).take(0).len() == 0);
    }
    None
}

// For each symbol of a section the binding that it resolves to, and how
// many resolve.
fn resolve_section_symbols(section: &ElfSection, map_info: &[(Vec<u8>, u32)]) -> (r: (
    Vec<Option<usize>>,
    usize,
))
    ensures
        resolved_view(r.0@) == resolve_symbols(section_symbols(*section), bindings(map_info@)),
        r.1 == resolved_count(resolved_view(r.0@), r.0@.len() as int),
        forall|i: int| 0 <= i < r.0@.len() ==> (#[trigger] r.0@[i] matches Some(k) ==> k
            < map_info@.len()),
{
    let mut resolved: Vec<Option<usize>> = Vec::new();
    let mut count: usize = 0;
    match &section.symbols {
        None => {
            assert(resolved_view(resolved@) =~= resolve_symbols(
                section_symbols(*section),
                bindings(map_info@),
            ));
        },
        Some(symbols) => {
            let n: usize = symbols.len();
            let mut i: usize = 0;
            while i < n
                invariant
                    i <= n,
                    n == symbols@.len(),
                    resolved@.len() == i,
                    count <= i,
                    count == resolved_count(resolved_view(resolved@), i as int),
                    forall|k: int|
                        0 <= k < i ==> resolved_view(resolved@)[k] == resolve_symbol(
                            symbols@[k],
                            bindings(map_info@),
                        ),
                    forall|k: int| 0 <= k < i ==> (#[trigger] resolved@[k] matches Some(b) ==> b
                        < map_info@.len()),
                decreases n - i,
            {
                let binding: Option<usize> = match &symbols[i].name {
                    Some(name) => find_binding(map_info, name.as_slice()),
                    None => None,
                };
                let ghost before = resolved_view(resolved@);
                resolved.push(binding);
                proof {
                    let after = resolved_view(resolved@);
                    assert forall|k: int| 0 <= k < i implies after[k] == before[k] by {}
                    lemma_resolved_count_prefix(before, after, i as int);
                }
                if binding.is_some() {
                    count += 1;
                }
                i += 1;
            }
            assert(resolved_view(resolved@) =~= resolve_symbols(
                section_symbols(*section),
                bindings(map_info@),
            ));
        },
    }
    (resolved, count)
}

/// The resolved bindings as contracts speak of them.
pub open spec fn resolved_view(resolved: Seq<Option<usize>>) -> Seq<Option<int>> {
    Seq::new(
        resolved.len(),
        |i: int|
            match resolved[i] {
                Some(k) => Some(k as int),
                None => None,
            },
    )
}

// The count over a prefix depends on the prefix only.
proof fn lemma_resolved_count_prefix(a: Seq<Option<int>>, b: Seq<Option<int>>, n: int)
    requires
        0 <= n <= a.len(),
        n <= b.len(),
        forall|k: int| 0 <= k < n ==> a[k] == b[k],
    ensures
        resolved_count(a, n) == resolved_count(b, n),
        0 <= resolved_count(a, n) <= n,
    decreases n,
{
    if n > 0 {
        lemma_resolved_count_prefix(a, b, n - 1);
    }
}

// Writes a 32-bit number at `at`, least significant byte first.
fn write_u32_at(prog: &mut Vec<u8>, at: usize, v: u32)
    requires
        at + 4 <= old(prog)@.len(),
    ensures
        final(prog)@ == write_u32(old(prog)@, at as int, v),
        final(prog)@.len() == old(prog)@.len(),
{
    let len: usize = prog.len();
    assert(at + 4 <= len);
    prog.set(at, (v % 0x100) as u8);
    prog.set(at + 1, ((v / 0x100) % 0x100) as u8);
    prog.set(at + 2, ((v / 0x1_0000) % 0x100) as u8);
    prog.set(at + 3, ((v / 0x100_0000) % 0x100) as u8);
}

// Applies one relocation entry to the section at `base`.
fn relocate_entry(
    prog: &mut Vec<u8>,
    base: usize,
    rel: &ElfRelocation,
    resolved: &Vec<Option<usize>>,
    table_addr: usize,
) -> (r: Result<(), BpfErrorCode>)
    ensures
        final(prog)@.len() == old(prog)@.len(),
        match r {
            Ok(()) => apply_relocation(
                old(prog)@,
                base as int,
                *rel,
                resolved_view(resolved@),
                table_addr as int,
            ) == Ok::<Seq<u8>, BpfErrorCode>(final(prog)@),
            Err(e) => apply_relocation(
                old(prog)@,
                base as int,
                *rel,
                resolved_view(resolved@),
                table_addr as int,
            ) == Err::<Seq<u8>, BpfErrorCode>(e),
        },
{
    let sym_idx: usize = rel.symbol as usize;
    if sym_idx >= resolved.len() {
        return Ok(());
    }
    let map_idx: usize = match resolved[sym_idx] {
        Some(k) => k,
        None => {
            return Ok(());
        },
    };
    let wide: u128 = table_addr as u128 + 4 * (map_idx as u128);
    if wide > u64::MAX as u128 {
        return Err(BpfErrorCode::InvalidArgument);
    }
    let addr: u64 = wide as u64;
    let value: u64 = if rel.rel_type == R_BPF_64_64 {
        // the load of a 64-bit immediate
        addr
    } else if rel.rel_type == R_BPF_64_32 {
        // the call-style relocation
        if addr / 8 == 0 {
            0xffff_ffff_ffff_ffff
        } else {
            addr / 8 - 1
        }
    } else {
        return Ok(());
    };
    let end: u128 = base as u128 + rel.offset as u128 + 16;
    if end > prog.len() as u128 {
        return Err(BpfErrorCode::InvalidArgument);
    }
    let site: usize = (end - 16) as usize;
    write_u32_at(prog, site + 4, (value % 0x1_0000_0000) as u32);
    write_u32_at(prog, site + 12, (value / 0x1_0000_0000) as u32);
    Ok(())
}

/// Whether an object file is refused before any of its bytes is patched:
/// for its machine type, for want of a `.symtab` section, or because the
/// symbols that resolve to a binding are not as many as the bindings.
pub open spec fn refused_unpatched(elf: ElfObject, map_info: Seq<(Seq<u8>, u32)>) -> bool {
    elf.machine != EM_BPF || match spec_find_section(elf.sections@, symtab_name()) {
        None => true,
        Some(symtab) => {
            let resolved = resolve_symbols(section_symbols(elf.sections@[symtab]), map_info);
            resolved_count(resolved, resolved.len() as int) != map_info.len()
        },
    }
}

/// Relocates the map references of an object file in place and returns the
/// instruction stream of its `.text` section. `table` is the table of map
/// handles that the references are bound to.
///
/// A file that is refused for its machine type, for want of a `.symtab`
/// section or for symbols that do not resolve keeps its bytes. On a later
/// refusal the bytes may have been patched in part; nothing is installed
/// from them.
#[verifier::loop_isolation(false)]
pub fn bpf_program_relocate(
    prog: &mut Vec<u8>,
    elf: &ElfObject,
    map_info: &[(Vec<u8>, u32)],
    table: &MapFdTable,
) -> (r: Result<Vec<u64>, BpfErrorCode>)
    ensures
        final(prog)@.len() == old(prog)@.len(),
        refused_unpatched(*elf, bindings(map_info@)) ==> final(prog)@ == old(prog)@,
        match r {
            Ok(insns) => spec_relocate(
                old(prog)@,
                *elf,
                bindings(map_info@),
                table.spec_addr() as int,
            ) == Ok::<(Seq<u8>, Seq<u64>), BpfErrorCode>((final(prog)@, insns@)),
            Err(e) => spec_relocate(
                old(prog)@,
                *elf,
                bindings(map_info@),
                table.spec_addr() as int,
            ) == Err::<(Seq<u8>, Seq<u64>), BpfErrorCode>(e),
        },
{
    // the machine type must be that of eBPF
    if elf.machine != EM_BPF {
        return Err(BpfErrorCode::InvalidArgument);
    }
    let symtab_name = symtab_name_bytes();
    let symtab: usize = match elf.find_section_by_name(symtab_name.as_slice()) {
        Some(i) => i,
        None => {
            return Err(BpfErrorCode::NoSuchEntry);
        },
    };
    // which symbols name a map
    let (resolved, count) = resolve_section_symbols(&elf.sections[symtab], map_info);
    if count != map_info.len() {
        return Err(BpfErrorCode::ResolutionIncomplete);
    }
    let table_addr: usize = table.addr();
    let n: usize = elf.sections.len();
    let mut i: usize = 0;
    while i < n
        invariant
            i <= n,
            n == elf.sections@.len(),
            prog@.len() == old(prog)@.len(),
            relocate_sections(
                old(prog)@,
                elf.sections@,
                i as int,
                resolved_view(resolved@),
                table_addr as int,
            ) == Ok::<Seq<u8>, BpfErrorCode>(prog@),
        decreases n - i,
    {
        let section = &elf.sections[i];
        match &section.relocations {
            None => {},
            Some(rels) => {
                let name = match &section.name {
                    Some(name) => name,
                    None => {
                        proof {
                            lemma_relocate_sections_fails(
                                old(prog)@,
                                elf.sections@,
                                i + 1,
                                n as int,
                                resolved_view(resolved@),
                                table_addr as int,
                            );
                        }
                        return Err(BpfErrorCode::InvalidArgument);
                    },
                };
                if name.len() < 4 {
                    proof {
                        lemma_relocate_sections_fails(
                            old(prog)@,
                            elf.sections@,
                            i + 1,
                            n as int,
                            resolved_view(resolved@),
                            table_addr as int,
                        );
                    }
                    return Err(BpfErrorCode::InvalidArgument);
                }
                // the name of the section to patch follows ".rel"
                let target_name = vstd::slice::slice_subrange(name.as_slice(), 4, name.len());
                let target: usize = match elf.find_section_by_name(target_name) {
                    Some(t) => t,
                    None => {
                        proof {
                            lemma_relocate_sections_fails(
                                old(prog)@,
                                elf.sections@,
                                i + 1,
                                n as int,
                                resolved_view(resolved@),
                                table_addr as int,
                            );
                        }
                        return Err(BpfErrorCode::NoSuchEntry);
                    },
                };
                let base: usize = elf.sections[target].offset;
                let ghost before = prog@;
                let count: usize = rels.len();
                let mut k: usize = 0;
                while k < count
                    invariant
                        k <= count,
                        count == rels@.len(),
                        prog@.len() == old(prog)@.len(),
                        apply_relocations(
                            before,
                            base as int,
                            rels@,
                            k as int,
                            resolved_view(resolved@),
                            table_addr as int,
                        ) == Ok::<Seq<u8>, BpfErrorCode>(prog@),
                    decreases count - k,
                {
                    match relocate_entry(prog, base, &rels[k], &resolved, table_addr) {
                        Ok(()) => {},
                        Err(e) => {
                            proof {
                                lemma_apply_relocations_fails(
                                    before,
                                    base as int,
                                    rels@,
                                    k + 1,
                                    count as int,
                                    resolved_view(resolved@),
                                    table_addr as int,
                                );
                                lemma_relocate_sections_fails(
                                    old(prog)@,
                                    elf.sections@,
                                    i + 1,
                                    n as int,
                                    resolved_view(resolved@),
                                    table_addr as int,
                                );
                            }
                            return Err(e);
                        },
                    }
                    k += 1;
                }
            },
        }
        i += 1;
    }
    let text_name = text_name_bytes();
    let text: usize = match elf.find_section_by_name(text_name.as_slice()) {
        Some(t) => t,
        None => {
            return Err(BpfErrorCode::NoSuchEntry);
        },
    };
    let offset: usize = elf.sections[text].offset;
    let size: usize = elf.sections[text].size;
    if offset as u128 + size as u128 > prog.len() as u128 {
        return Err(BpfErrorCode::InvalidArgument);
    }
    Ok(read_words(prog, offset, size))
}

// The 64-bit little-endian words of `size` bytes at `offset`.
fn read_words(bytes: &Vec<u8>, offset: usize, size: usize) -> (words: Vec<u64>)
    requires
        offset + size <= bytes@.len(),
    ensures
        words@ == section_words(bytes@, offset as int, size as int),
{
    let len: usize = bytes.len();
    let count: usize = size / 8;
    let mut words: Vec<u64> = Vec::with_capacity(count);
    let mut i: usize = 0;
    while i < count
        invariant
            i <= count,
            count == size / 8,
            offset + size <= bytes@.len(),
            len == bytes@.len(),
            words@.len() == i,
            forall|k: int|
                0 <= k < i ==> words@[k] == read_u64(bytes@, offset + 8 * k) as u64,
        decreases count - i,
    {
        let at: usize = offset + 8 * i;
        let low: u64 = bytes[at] as u64 + (bytes[at + 1] as u64) * 0x100 + (bytes[at + 2] as u64)
            * 0x1_0000 + (bytes[at + 3] as u64) * 0x100_0000;
        let high: u64 = bytes[at + 4] as u64 + (bytes[at + 5] as u64) * 0x100 + (bytes[at
            + 6] as u64) * 0x1_0000 + (bytes[at + 7] as u64) * 0x100_0000;
        words.push(low + high * 0x1_0000_0000);
        i += 1;
    }
    assert(words@ =~= section_words(bytes@, offset as int, size as int));
    words
}

// Once the entries up to `k` fail, all of them fail alike.
proof fn lemma_apply_relocations_fails(
    bytes: Seq<u8>,
    base: int,
    rels: Seq<ElfRelocation>,
    k: int,
    n: int,
    resolved: Seq<Option<int>>,
    table_addr: int,
)
    requires
        0 <= k <= n,
        apply_relocations(bytes, base, rels, k, resolved, table_addr) is Err,
    ensures
        apply_relocations(bytes, base, rels, n, resolved, table_addr) == apply_relocations(
            bytes,
            base,
            rels,
            k,
            resolved,
            table_addr,
        ),
    decreases n - k,
{
    if k < n {
        lemma_apply_relocations_fails(bytes, base, rels, k, n - 1, resolved, table_addr);
    }
}

// Once the sections up to `k` fail, all of them fail alike.
proof fn lemma_relocate_sections_fails(
    bytes: Seq<u8>,
    sections: Seq<ElfSection>,
    k: int,
    n: int,
    resolved: Seq<Option<int>>,
    table_addr: int,
)
    requires
        0 <= k <= n,
        relocate_sections(bytes, sections, k, resolved, table_addr) is Err,
    ensures
        relocate_sections(bytes, sections, n, resolved, table_addr) == relocate_sections(
            bytes,
            sections,
            k,
            resolved,
            table_addr,
        ),
    decreases n - k,
{
    if k < n {
        lemma_relocate_sections_fails(bytes, sections, k, n - 1, resolved, table_addr);
    }
}

/// Overwriting a site and reading it back gives the value that was
/// written: the low half at `site + 4`, the high half at `site + 12`.
/// Nothing else in the file changes.
pub proof fn lemma_patch_site_reads_back(bytes: Seq<u8>, site: int, value: u64)
    requires
        0 <= site,
        site + 16 <= bytes.len(),
    ensures
        ({
            let patched = patch_site(bytes, site, value);
            &&& patched.len() == bytes.len()
            &&& read_u32(patched, site + 4) + read_u32(patched, site + 12) * 0x1_0000_0000 == value
            &&& forall|i: int|
                0 <= i < bytes.len() && !(site + 4 <= i < site + 8) && !(site + 12 <= i < site + 16)
                    ==> patched[i] == bytes[i]
        }),
{
    let low = (value % 0x1_0000_0000) as u32;
    let high = (value / 0x1_0000_0000) as u32;
    lemma_bytes_of_u32(low);
    lemma_bytes_of_u32(high);
}

// The four bytes of a number spell the number.
proof fn lemma_bytes_of_u32(v: u32)
    ensures
        byte_of(v as int, 0) + byte_of(v as int, 1) * 0x100 + byte_of(v as int, 2) * 0x1_0000
            + byte_of(v as int, 3) * 0x100_0000 == v,
{
}

/// What the analysis of a program came to.
#[derive(Clone, Copy, Debug, PartialEq, Eq, Structural)]
pub enum Verdict {
    /// The analyzer accepted the program.
    Accepted,
    /// The analyzer rejected the program.
    Rejected,
    /// The program was not analyzed, by an explicit decision of the caller.
    Skipped,
}

/// The stack that a loaded program is given, in bytes.
pub const PROGRAM_STACK_SIZE: usize = 512;

/// The native code of a program that is loaded, or the reason for refusal:
/// a program that the analyzer rejected, or that the compiler refuses, is
/// an `InvalidArgument`.
pub open spec fn spec_load(verdict: Verdict, insns: Seq<u64>, helpers: Seq<u64>) -> Result<
    Seq<u32>,
    BpfErrorCode,
> {
    if verdict == Verdict::Rejected {
        Err(BpfErrorCode::InvalidArgument)
    } else {
        match spec_compile(JitModel::empty(), insns, helpers, PROGRAM_STACK_SIZE) {
            Ok(m) => Ok(m.code),
            Err(_) => Err(BpfErrorCode::InvalidArgument),
        }
    }
}

/// What `bpf_program_load_ex` returns: the next handle, or the reason for
/// refusal. A program that is not loaded is refused as `spec_load` says; a
/// program for which no handle is left is refused with `OutOfMemory`.
pub open spec fn spec_load_result(
    objs: &BpfObjects,
    verdict: Verdict,
    insns: Seq<u64>,
    helpers: Seq<u64>,
) -> BpfResult {
    match spec_load(verdict, insns, helpers) {
        Err(e) => Err(e),
        Ok(_) => if objs.next_fd() < BPF_FD_END {
            Ok(objs.next_fd() as usize)
        } else {
            Err(BpfErrorCode::OutOfMemory)
        },
    }
}

/// Compiles a relocated instruction stream and puts the program under a
/// new handle, which was free before. `verdict` is what the analysis of
/// the stream came to, `table` the table of map handles that the stream
/// was relocated against, and `helpers` the addresses of the helper
/// functions. On refusal nothing changes.
pub fn bpf_program_load_ex(
    objs: &mut BpfObjects,
    insns: &Vec<u64>,
    table: MapFdTable,
    verdict: Verdict,
    helpers: &[u64],
) -> (r: BpfResult)
    requires
        old(objs).wf(),
    ensures
        final(objs).wf(),
        final(objs).keeps_slots(old(objs), None),
        r == spec_load_result(old(objs), verdict, insns@, helpers@),
        match r {
            Ok(fd) => {
                &&& BPF_FD_BASE <= fd < BPF_FD_END
                &&& !old(objs)@.contains_key(fd as u32)
                &&& final(objs).next_fd() == fd + 1
                &&& spec_load(verdict, insns@, helpers@) matches Ok(code)
                &&& final(objs)@.dom() == old(objs)@.dom().insert(fd as u32)
                &&& final(objs)@[fd as u32] matches BpfObject::Program(p)
                &&& p.code() == Some(code)
                &&& p.map_table() == Some(table)
                &&& forall|k: u32| #[trigger]
                    old(objs)@.contains_key(k) ==> final(objs)@[k] == old(objs)@[k]
            },
            Err(e) => {
                &&& final(objs)@ == old(objs)@
                &&& final(objs).next_fd() == old(objs).next_fd()
            },
        },
{
    if verdict == Verdict::Rejected {
        return Err(BpfErrorCode::InvalidArgument);
    }
    let mut jit_ctx = JitContext::new(insns.as_slice());
    match compile(&mut jit_ctx, helpers, PROGRAM_STACK_SIZE) {
        Ok(()) => {},
        Err(_) => {
            return Err(BpfErrorCode::InvalidArgument);
        },
    }
    let fd: u32 = match bpf_allocate_fd(objs) {
        Some(fd) => fd,
        None => {
            return Err(BpfErrorCode::OutOfMemory);
        },
    };
    let compiled_code: Vec<u32> = jit_ctx.into_code();
    let program = BpfProgram::new(compiled_code, table);
    bpf_object_create_program(objs, fd, program);
    Ok(fd as usize)
}

} // verus!
