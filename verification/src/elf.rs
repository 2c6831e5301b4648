//! A relocatable eBPF object as the loader reads it: its machine type and,
//! for each section, the name, the place of its bytes in the file, and the
//! symbols or relocation entries that it holds. The container itself is
//! read elsewhere.

use vstd::prelude::*;
use crate::map::internal::bytes_equal;

verus! {

/// The machine type of an eBPF object.
pub const EM_BPF: u16 = 247;

/// One entry of a symbol table.
pub struct ElfSymbol {
    /// The name of the symbol; `None` where it cannot be read.
    pub name: Option<Vec<u8>>,
}

/// One entry of a relocation section.
#[derive(Clone, Copy, Debug, PartialEq, Eq, Structural)]
pub struct ElfRelocation {
    /// The byte offset, in the section that is relocated, of the
    /// instruction to patch.
    pub offset: u64,
    /// The symbol table index of the symbol that the entry refers to.
    pub symbol: u32,
    /// The relocation type.
    pub rel_type: u32,
}

/// One section of an object.
pub struct ElfSection {
    /// The name of the section; `None` where it cannot be read.
    pub name: Option<Vec<u8>>,
    /// The byte offset of the contents of the section in the file.
    pub offset: usize,
    /// The size of the contents in bytes.
    pub size: usize,
    /// The symbols, if the section is a symbol table with 64-bit entries.
    pub symbols: Option<Vec<ElfSymbol>>,
    /// The entries, if the section is a relocation section without addends
    /// and with 64-bit entries.
    pub relocations: Option<Vec<ElfRelocation>>,
}

/// An object file, parsed.
pub struct ElfObject {
    /// The machine type of the header.
    pub machine: u16,
    /// The sections in the order of the section header table.
    pub sections: Vec<ElfSection>,
}

/// The bytes of `.symtab`.
pub open spec fn symtab_name() -> Seq<u8> {
    seq![0x2eu8, 0x73, 0x79, 0x6d, 0x74, 0x61, 0x62]
}

/// The bytes of `.text`.
pub open spec fn text_name() -> Seq<u8> {
    seq![0x2eu8, 0x74, 0x65, 0x78, 0x74]
}

/// The name of a section as contracts speak of it.
pub open spec fn section_name(s: ElfSection) -> Option<Seq<u8>> {
    match s.name {
        Some(n) => Some(n@),
        None => None,
    }
}

/// The name of a symbol as contracts speak of it.
pub open spec fn symbol_name(s: ElfSymbol) -> Option<Seq<u8>> {
    match s.name {
        Some(n) => Some(n@),
        None => None,
    }
}

/// The index of the first section, from `from` on, whose name is `name`;
/// the number of sections if there is none.
pub open spec fn find_section_from(sections: Seq<ElfSection>, name: Seq<u8>, from: int) -> int
    decreases sections.len() - from,
{
    if from < 0 || from >= sections.len() {
        sections.len() as int
    } else if section_name(sections[from]) == Some(name) {
        from
    } else {
        find_section_from(sections, name, from + 1)
    }
}

/// The index of the first section whose name is `name`.
pub open spec fn spec_find_section(sections: Seq<ElfSection>, name: Seq<u8>) -> Option<int> {
    if find_section_from(sections, name, 0) < sections.len() {
        Some(find_section_from(sections, name, 0))
    } else {
        None
    }
}

/// What `find_section_from` finds is a section of that name, and no section
/// before it has the name.
pub proof fn lemma_find_section_from(sections: Seq<ElfSection>, name: Seq<u8>, from: int)
    requires
        0 <= from <= sections.len(),
    ensures
        from <= find_section_from(sections, name, from) <= sections.len(),
        find_section_from(sections, name, from) < sections.len() ==> section_name(
            sections[find_section_from(sections, name, from)],
        ) == Some(name),
        forall|i: int|
            from <= i < find_section_from(sections, name, from) ==> section_name(
                #[trigger] sections[i],
            ) != Some(name),
    decreases sections.len() - from,
{
    if from < sections.len() && section_name(sections[from]) != Some(name) {
        lemma_find_section_from(sections, name, from + 1);
    }
}

impl ElfObject {
    /// The first section whose name is `name`.
    pub fn find_section_by_name(&self, name: &[u8]) -> (r: Option<usize>)
        ensures
            match r {
                Some(i) => spec_find_section(self.sections@, name@) == Some(i as int) && i
                    < self.sections@.len(),
                None => spec_find_section(self.sections@, name@) == None::<int>,
            },
    {
        let n: usize = self.sections.len();
        let mut i: usize = 0;
        while i < n
            invariant
                i <= n,
                n == self.sections@.len(),
                find_section_from(self.sections@, name@, 0) == find_section_from(
                    self.sections@,
                    name@,
                    i as int,
                ),
            decreases n - i,
        {
            let found: bool = match &self.sections[i].name {
                Some(section_name) => bytes_equal(section_name.as_slice(), name),
                None => false,
            };
            if found {
                return Some(i);
            }
            i += 1;
        }
        None
    }
}

/// The name `.symtab`.
pub fn symtab_name_bytes() -> (name: Vec<u8>)
    ensures
        name@ == symtab_name(),
{
    let mut name: Vec<u8> = Vec::new();
    name.push(0x2e);
    name.push(0x73);
    name.push(0x79);
    name.push(0x6d);
    name.push(0x74);
    name.push(0x61);
    name.push(0x62);
    assert(name@ =~= symtab_name());
    name
}

/// The name `.text`.
pub fn text_name_bytes() -> (name: Vec<u8>)
    ensures
        name@ == text_name(),
{
    let mut name: Vec<u8> = Vec::new();
    name.push(0x2e);
    name.push(0x74);
    name.push(0x65);
    name.push(0x78);
    name.push(0x74);
    assert(name@ =~= text_name());
    name
}

} // verus!
