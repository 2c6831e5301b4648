//! The kernel symbol table: names and addresses, in the order of the
//! addresses.

use vstd::prelude::*;
use vstd::string::{StrSliceExecFns, StringSliceAdditionalSpecFns};
use crate::map::internal::bytes_equal;
use crate::retcode::BpfErrorCode;

verus! {

/// The symbols of the kernel. Names are byte strings.
pub struct SymbolTable {
    /// The symbols; lookups by address take them to be in ascending order
    /// of address.
    pub kernel_symbols: Vec<(Vec<u8>, usize)>,
}

/// The names and addresses of symbols as contracts speak of them.
pub open spec fn symbols_view(symbols: Seq<(Vec<u8>, usize)>) -> Seq<(Seq<u8>, usize)> {
    Seq::new(symbols.len(), |i: int| (symbols[i].0@, symbols[i].1))
}

/// Whether the addresses ascend.
pub open spec fn sorted_by_addr(symbols: Seq<(Seq<u8>, usize)>) -> bool {
    forall|i: int, j: int|
        0 <= i <= j < symbols.len() ==> (#[trigger] symbols[i]).1 <= (#[trigger] symbols[j]).1
}

/// The index of the first symbol, from `from` on, whose name is `name`;
/// the number of symbols if there is none.
pub open spec fn first_named(symbols: Seq<(Seq<u8>, usize)>, name: Seq<u8>, from: int) -> int
    decreases symbols.len() - from,
{
    if from < 0 || from >= symbols.len() {
        symbols.len() as int
    } else if symbols[from].0 == name {
        from
    } else {
        first_named(symbols, name, from + 1)
    }
}

/// The address of the first symbol whose name is `name`.
pub open spec fn spec_translate(symbols: Seq<(Seq<u8>, usize)>, name: Seq<u8>) -> Option<usize> {
    if first_named(symbols, name, 0) < symbols.len() {
        Some(symbols[first_named(symbols, name, 0)].1)
    } else {
        None
    }
}

/// How many symbols, in a table in ascending order, stand at or below `addr`.
pub open spec fn is_rank(symbols: Seq<(Seq<u8>, usize)>, addr: usize, r: int) -> bool {
    &&& 0 <= r <= symbols.len()
    &&& forall|i: int| 0 <= i < r ==> (#[trigger] symbols[i]).1 <= addr
    &&& forall|i: int| r <= i < symbols.len() ==> (#[trigger] symbols[i]).1 > addr
}

// The number of symbols at or below `addr`, by binary search.
fn rank(symbols: &Vec<(Vec<u8>, usize)>, addr: usize) -> (r: usize)
    requires
        sorted_by_addr(symbols_view(symbols@)),
    ensures
        is_rank(symbols_view(symbols@), addr, r as int),
{
    let ghost view = symbols_view(symbols@);
    let mut l: usize = 0;
    let mut r: usize = symbols.len();
    while l < r
        invariant
            l <= r <= symbols@.len(),
            view == symbols_view(symbols@),
            sorted_by_addr(view),
            forall|i: int| 0 <= i < l ==> (#[trigger] view[i]).1 <= addr,
            forall|i: int| r <= i < view.len() ==> (#[trigger] view[i]).1 > addr,
        decreases r - l,
    {
        let m: usize = l + (r - l) / 2;
        assert(view[m as int].1 == symbols@[m as int].1);
        if symbols[m].1 <= addr {
            assert forall|i: int| 0 <= i < m + 1 implies (#[trigger] view[i]).1 <= addr by {
                assert(view[i].1 <= view[m as int].1);
            }
            l = m + 1;
        } else {
            assert forall|i: int| m <= i < view.len() implies (#[trigger] view[i]).1 > addr by {
                assert(view[m as int].1 <= view[i].1);
            }
            r = m;
        }
    }
    l
}

impl SymbolTable {
    /// The symbols as contracts speak of them.
    pub open spec fn symbols(&self) -> Seq<(Seq<u8>, usize)> {
        symbols_view(self.kernel_symbols@)
    }

    /// A table without symbols.
    pub fn new() -> (table: Self)
        ensures
            table.symbols() == Seq::<(Seq<u8>, usize)>::empty(),
    {
        let table = Self { kernel_symbols: Vec::new() };
        assert(table.symbols() =~= Seq::<(Seq<u8>, usize)>::empty());
        table
    }

    /// Appends a symbol.
    pub fn add_symbol(&mut self, name: &str, addr: usize)
        ensures
            final(self).symbols() == old(self).symbols().push((name.spec_bytes(), addr)),
    {
        self.add_symbol_bytes(name.as_bytes_vec(), addr);
    }

    /// Appends a symbol whose name is given in bytes.
    pub fn add_symbol_bytes(&mut self, name: Vec<u8>, addr: usize)
        ensures
            final(self).symbols() == old(self).symbols().push((name@, addr)),
    {
        self.kernel_symbols.push((name, addr));
        assert(self.symbols() =~= old(self).symbols().push((name@, addr)));
    }

    /// The address of the first symbol of the given name.
    pub fn translate(&self, name: &str) -> (r: Option<usize>)
        ensures
            r == spec_translate(self.symbols(), name.spec_bytes()),
    {
        self.translate_bytes(name.as_bytes())
    }

    /// The address of the first symbol of the given name.
    pub fn translate_bytes(&self, name: &[u8]) -> (r: Option<usize>)
        ensures
            r == spec_translate(self.symbols(), name@),
    {
        let n: usize = self.kernel_symbols.len();
        let mut i: usize = 0;
        while i < n
            invariant
                i <= n,
                n == self.kernel_symbols@.len(),
                first_named(self.symbols(), name@, 0) == first_named(
                    self.symbols(),
                    name@,
                    i as int,
                ),
            decreases n - i,
        {
            if bytes_equal(self.kernel_symbols[i].0.as_slice(), name) {
                return Some(self.kernel_symbols[i].1);
            }
            i += 1;
        }
        None
    }

    /// The last symbol at or below `addr`: its index and its address. The
    /// name stands at that index in `kernel_symbols`.
    pub fn find_symbol(&self, addr: usize) -> (r: Option<(usize, usize)>)
        requires
            sorted_by_addr(self.symbols()),
        ensures
            match r {
                Some((index, start)) => {
                    &&& is_rank(self.symbols(), addr, index + 1)
                    &&& start == self.symbols()[index as int].1
                    &&& start <= addr
                },
                None => is_rank(self.symbols(), addr, 0),
            },
    {
        let l: usize = rank(&self.kernel_symbols, addr);
        if l > 0 {
            assert(self.symbols()[l - 1].1 == self.kernel_symbols@[l - 1].1);
            Some((l - 1, self.kernel_symbols[l - 1].1))
        } else {
            None
        }
    }

    /// The name of the symbol at `index`.
    pub fn symbol_name(&self, index: usize) -> (name: &[u8])
        requires
            index < self.symbols().len(),
        ensures
            name@ == self.symbols()[index as int].0,
    {
        self.kernel_symbols[index].0.as_slice()
    }
}

/// The range of code of the function that starts at `entry`: from `entry`
/// to the first symbol above it. There is none if no symbol stands above
/// `entry`.
pub fn find_function_range(symbols: &Vec<(Vec<u8>, usize)>, entry: usize) -> (r: Option<
    (usize, usize),
>)
    requires
        sorted_by_addr(symbols_view(symbols@)),
    ensures
        match r {
            Some((begin, end)) => {
                &&& begin == entry
                &&& exists|k: int|
                    is_rank(symbols_view(symbols@), entry, k) && k < symbols@.len()
                        && symbols_view(symbols@)[k].1 == end
                &&& end > entry
            },
            None => is_rank(symbols_view(symbols@), entry, symbols@.len() as int),
        },
{
    let r: usize = rank(symbols, entry);
    if r < symbols.len() {
        assert(symbols_view(symbols@)[r as int].1 == symbols@[r as int].1);
        Some((entry, symbols[r].1))
    } else {
        None
    }
}

/// In a table in ascending order, the number of symbols at or below an
/// address is determined.
pub proof fn lemma_rank_unique(symbols: Seq<(Seq<u8>, usize)>, addr: usize, a: int, b: int)
    requires
        is_rank(symbols, addr, a),
        is_rank(symbols, addr, b),
    ensures
        a == b,
{
    if a < b {
        assert(symbols[a].1 <= addr);
    } else if b < a {
        assert(symbols[b].1 <= addr);
    }
}

/// The address of a symbol in a table that may not have been set up yet.
/// There is no address where there is no table or no such symbol.
pub fn symbol_to_addr(table: &Option<SymbolTable>, name: &str) -> (r: Option<usize>)
    ensures
        r == match table {
            Some(t) => spec_translate(t.symbols(), name.spec_bytes()),
            None => None,
        },
{
    match table {
        Some(t) => t.translate(name),
        None => None,
    }
}

/// Whether a byte is white space: a blank, or one of the control
/// characters from tab to carriage return.
pub open spec fn is_space(b: u8) -> bool {
    b == 0x20 || (0x09 <= b <= 0x0d)
}

/// The first index at or after `i` that holds no white space; the length
/// if there is none.
pub open spec fn skip_spaces(line: Seq<u8>, i: int) -> int
    decreases line.len() - i,
{
    if i < 0 || i >= line.len() {
        line.len() as int
    } else if is_space(line[i]) {
        skip_spaces(line, i + 1)
    } else {
        i
    }
}

/// The first index at or after `i` that holds white space; the length if
/// there is none.
pub open spec fn word_end(line: Seq<u8>, i: int) -> int
    decreases line.len() - i,
{
    if i < 0 || i >= line.len() {
        line.len() as int
    } else if is_space(line[i]) {
        i
    } else {
        word_end(line, i + 1)
    }
}

/// The words from `i` on, with one blank between each two.
pub open spec fn join_words(line: Seq<u8>, i: int) -> Seq<u8>
    decreases line.len() - i,
    via join_words_decreases
{
    let start = skip_spaces(line, i);
    let end = word_end(line, start);
    if i < 0 || start >= line.len() {
        Seq::empty()
    } else if skip_spaces(line, end) >= line.len() {
        line.subrange(start, end)
    } else {
        line.subrange(start, end).push(0x20) + join_words(line, end)
    }
}

#[via_fn]
proof fn join_words_decreases(line: Seq<u8>, i: int) {
    if 0 <= i <= line.len() {
        lemma_scan_bounds(line, i);
        let start = skip_spaces(line, i);
        if start < line.len() {
            lemma_skip_lands(line, i);
            lemma_scan_bounds(line, start + 1);
        }
    }
}

/// The value of a hexadecimal digit.
pub open spec fn hex_digit(b: u8) -> Option<int> {
    if 0x30 <= b <= 0x39 {
        Some(b - 0x30)
    } else if 0x61 <= b <= 0x66 {
        Some(b - 0x61 + 10)
    } else if 0x41 <= b <= 0x46 {
        Some(b - 0x41 + 10)
    } else {
        None
    }
}

/// The number that hexadecimal digits spell; `None` where a byte is no
/// digit, where there is no digit, or where the number does not fit a
/// machine word.
pub open spec fn spec_parse_hex(digits: Seq<u8>) -> Option<int>
    decreases digits.len(),
{
    if digits.len() == 0 {
        None
    } else {
        match hex_digit(digits.last()) {
            None => None,
            Some(d) => if digits.len() == 1 {
                Some(d)
            } else {
                match spec_parse_hex(digits.drop_last()) {
                    None => None,
                    Some(v) => if v * 16 + d > usize::MAX {
                        None
                    } else {
                        Some(v * 16 + d)
                    },
                }
            },
        }
    }
}

/// The symbol that a line of a symbol listing gives: the first word is the
/// address in hexadecimal, the second the type, which is not kept, and the
/// rest, joined by single blanks, the name. `None` for a line with fewer
/// than two words or an address that does not read.
pub open spec fn spec_parse_line(line: Seq<u8>) -> Option<(Seq<u8>, usize)> {
    let a_start = skip_spaces(line, 0);
    let a_end = word_end(line, a_start);
    let t_start = skip_spaces(line, a_end);
    let t_end = word_end(line, t_start);
    if a_start >= line.len() || t_start >= line.len() {
        None
    } else {
        match spec_parse_hex(line.subrange(a_start, a_end)) {
            None => None,
            Some(addr) => Some((join_words(line, t_end), addr as usize)),
        }
    }
}

/// The index of the first line feed at or after `i`; the length if there
/// is none.
pub open spec fn line_end(text: Seq<u8>, i: int) -> int
    decreases text.len() - i,
{
    if i < 0 || i >= text.len() {
        text.len() as int
    } else if text[i] == 0x0a {
        i
    } else {
        line_end(text, i + 1)
    }
}

/// The symbols of the lines of a listing from `i` on, appended to
/// `symbols`; or `InvalidArgument` at the first line that gives no symbol.
pub open spec fn spec_parse_symbols(
    symbols: Seq<(Seq<u8>, usize)>,
    text: Seq<u8>,
    i: int,
) -> Result<Seq<(Seq<u8>, usize)>, BpfErrorCode>
    decreases text.len() + 1 - i,
{
    if i < 0 || i >= text.len() {
        Ok(symbols)
    } else {
        proof {
            lemma_scan_bounds(text, i);
        }
        let end = line_end(text, i);
        match spec_parse_line(text.subrange(i, end)) {
            None => Err(BpfErrorCode::InvalidArgument),
            Some(symbol) => spec_parse_symbols(symbols.push(symbol), text, end + 1),
        }
    }
}

// Past the end of the text there are no lines.
proof fn lemma_parse_symbols_past_end(symbols: Seq<(Seq<u8>, usize)>, text: Seq<u8>, i: int)
    ensures
        i >= text.len() ==> spec_parse_symbols(symbols, text, i) == Ok::<
            Seq<(Seq<u8>, usize)>,
            BpfErrorCode,
        >(symbols),
{
}

// Where `skip_spaces` stops within the line, there is no white space.
proof fn lemma_skip_lands(line: Seq<u8>, i: int)
    requires
        0 <= i <= line.len(),
    ensures
        skip_spaces(line, i) < line.len() ==> !is_space(line[skip_spaces(line, i)]),
    decreases line.len() - i,
{
    if i < line.len() && is_space(line[i]) {
        lemma_skip_lands(line, i + 1);
    }
}

/// A scan stops at or after the index it starts from, within the line.
pub proof fn lemma_scan_bounds(line: Seq<u8>, i: int)
    requires
        0 <= i <= line.len(),
    ensures
        i <= skip_spaces(line, i) <= line.len(),
        i <= word_end(line, i) <= line.len(),
        i <= line_end(line, i) <= line.len(),
    decreases line.len() - i,
{
    if i < line.len() {
        lemma_scan_bounds(line, i + 1);
    }
}

fn is_space_byte(b: u8) -> (r: bool)
    ensures
        r == is_space(b),
{
    b == 0x20 || (0x09 <= b && b <= 0x0d)
}

fn skip_spaces_from(line: &[u8], i: usize) -> (r: usize)
    requires
        i <= line@.len(),
    ensures
        r == skip_spaces(line@, i as int),
        i <= r <= line@.len(),
        r < line@.len() ==> !is_space(line@[r as int]),
{
    let n: usize = line.len();
    let mut k: usize = i;
    while k < n && is_space_byte(line[k])
        invariant
            i <= k <= n,
            n == line@.len(),
            skip_spaces(line@, i as int) == skip_spaces(line@, k as int),
        decreases n - k,
    {
        k += 1;
    }
    k
}

fn word_end_from(line: &[u8], i: usize) -> (r: usize)
    requires
        i <= line@.len(),
    ensures
        r == word_end(line@, i as int),
        i <= r <= line@.len(),
        i < line@.len() && !is_space(line@[i as int]) ==> r > i,
{
    let n: usize = line.len();
    let mut k: usize = i;
    while k < n && !is_space_byte(line[k])
        invariant
            i <= k <= n,
            n == line@.len(),
            word_end(line@, i as int) == word_end(line@, k as int),
        decreases n - k,
    {
        k += 1;
    }
    k
}

fn hex_value(b: u8) -> (r: Option<u8>)
    ensures
        match r {
            Some(d) => hex_digit(b) == Some(d as int) && d < 16,
            None => hex_digit(b) is None,
        },
{
    if 0x30 <= b && b <= 0x39 {
        Some(b - 0x30)
    } else if 0x61 <= b && b <= 0x66 {
        Some(b - 0x61 + 10)
    } else if 0x41 <= b && b <= 0x46 {
        Some(b - 0x41 + 10)
    } else {
        None
    }
}

/// Reads a number in hexadecimal digits.
pub fn parse_hex(digits: &[u8]) -> (r: Option<usize>)
    ensures
        match r {
            Some(v) => spec_parse_hex(digits@) == Some(v as int),
            None => spec_parse_hex(digits@) is None,
        },
{
    let n: usize = digits.len();
    if n == 0 {
        return None;
    }
    let mut value: usize = 0;
    let mut i: usize = 0;
    while i < n
        invariant
            i <= n,
            n == digits@.len(),
            n > 0,
            i > 0 ==> spec_parse_hex(digits@.take(i as int)) == Some(value as int),
            i == 0 ==> value == 0,
        decreases n - i,
    {
        let ghost prefix = digits@.take(i + 1);
        proof {
            assert(prefix.drop_last() =~= digits@.take(i as int));
            assert(prefix.last() == digits@[i as int]);
        }
        let d: u8 = match hex_value(digits[i]) {
            Some(d) => d,
            None => {
                proof {
                    lemma_parse_hex_fails(digits@, i + 1);
                }
                return None;
            },
        };
        if value > (usize::MAX - d as usize) / 16 {
            proof {
                assert(value * 16 + d > usize::MAX);
                lemma_parse_hex_fails(digits@, i + 1);
            }
            return None;
        }
        value = value * 16 + d as usize;
        i += 1;
    }
    assert(digits@.take(n as int) =~= digits@);
    Some(value)
}

// Once a prefix of the digits fails to read, all of them fail.
proof fn lemma_parse_hex_fails(digits: Seq<u8>, k: int)
    requires
        0 < k <= digits.len(),
        spec_parse_hex(digits.take(k)) is None,
    ensures
        spec_parse_hex(digits) is None,
    decreases digits.len() - k,
{
    if k == digits.len() {
        assert(digits.take(k) =~= digits);
    } else {
        assert(digits.take(k + 1).drop_last() =~= digits.take(k));
        lemma_parse_hex_fails(digits, k + 1);
    }
}

// The words from `i` on, with one blank between each two.
fn join_words_from(line: &[u8], i: usize) -> (name: Vec<u8>)
    requires
        i <= line@.len(),
    ensures
        name@ == join_words(line@, i as int),
{
    let n: usize = line.len();
    let mut name: Vec<u8> = Vec::new();
    let mut pos: usize = i;
    loop
        invariant
            i <= pos <= n,
            n == line@.len(),
            join_words(line@, i as int) == name@ + join_words(line@, pos as int),
        decreases n - pos,
    {
        let start: usize = skip_spaces_from(line, pos);
        if start >= n {
            assert(join_words(line@, pos as int) =~= Seq::<u8>::empty());
            assert(name@ + Seq::<u8>::empty() =~= name@);
            return name;
        }
        let end: usize = word_end_from(line, start);
        let ghost before = name@;
        let mut k: usize = start;
        while k < end
            invariant
                start <= k <= end <= n,
                n == line@.len(),
                name@ == before + line@.subrange(start as int, k as int),
            decreases end - k,
        {
            name.push(line[k]);
            k += 1;
            assert(name@ =~= before + line@.subrange(start as int, k as int));
        }
        let next: usize = skip_spaces_from(line, end);
        if next >= n {
            assert(join_words(line@, pos as int) == line@.subrange(start as int, end as int));
            return name;
        }
        name.push(0x20);
        proof {
            assert(join_words(line@, pos as int) == line@.subrange(start as int, end as int).push(
                0x20,
            ) + join_words(line@, end as int));
            assert(name@ + join_words(line@, end as int) =~= before + (line@.subrange(
                start as int,
                end as int,
            ).push(0x20) + join_words(line@, end as int)));
        }
        pos = end;
    }
}

/// Reads one line of a symbol listing.
pub fn parse_symbol_line(line: &[u8]) -> (r: Option<(Vec<u8>, usize)>)
    ensures
        match r {
            Some((name, addr)) => spec_parse_line(line@) == Some((name@, addr)),
            None => spec_parse_line(line@) is None,
        },
{
    let n: usize = line.len();
    let a_start: usize = skip_spaces_from(line, 0);
    if a_start >= n {
        return None;
    }
    let a_end: usize = word_end_from(line, a_start);
    let t_start: usize = skip_spaces_from(line, a_end);
    if t_start >= n {
        return None;
    }
    let t_end: usize = word_end_from(line, t_start);
    let addr: usize = match parse_hex(vstd::slice::slice_subrange(line, a_start, a_end)) {
        Some(addr) => addr,
        None => {
            return None;
        },
    };
    Some((join_words_from(line, t_end), addr))
}

impl SymbolTable {
    /// Appends the symbols of a listing with one symbol to the line:
    /// address, type and name. It stops with `InvalidArgument` at the first
    /// line that gives no symbol; the symbols of the lines before it stay.
    pub fn init_kernel_symbols(&mut self, kernel_symbols: &str) -> (r: Result<(), BpfErrorCode>)
        ensures
            match r {
                Ok(()) => spec_parse_symbols(old(self).symbols(), kernel_symbols.spec_bytes(), 0)
                    == Ok::<Seq<(Seq<u8>, usize)>, BpfErrorCode>(final(self).symbols()),
                Err(e) => spec_parse_symbols(old(self).symbols(), kernel_symbols.spec_bytes(), 0)
                    == Err::<Seq<(Seq<u8>, usize)>, BpfErrorCode>(e),
            },
    {
        let text = kernel_symbols.as_bytes();
        let n: usize = text.len();
        let mut pos: usize = 0;
        while pos < n
            invariant
                pos <= n,
                n == text@.len(),
                text@ == kernel_symbols.spec_bytes(),
                spec_parse_symbols(old(self).symbols(), text@, 0) == spec_parse_symbols(
                    self.symbols(),
                    text@,
                    pos as int,
                ),
            decreases n - pos,
        {
            let mut end: usize = pos;
            while end < n && text[end] != 0x0a
                invariant
                    pos <= end <= n,
                    n == text@.len(),
                    line_end(text@, pos as int) == line_end(text@, end as int),
                decreases n - end,
            {
                end += 1;
            }
            match parse_symbol_line(vstd::slice::slice_subrange(text, pos, end)) {
                Some((name, addr)) => {
                    self.add_symbol_bytes(name, addr);
                },
                None => {
                    return Err(BpfErrorCode::InvalidArgument);
                },
            }
            proof {
                lemma_parse_symbols_past_end(self.symbols(), text@, end + 1);
                lemma_parse_symbols_past_end(self.symbols(), text@, n as int);
            }
            pos = if end >= n {
                n
            } else {
                end + 1
            };
        }
        Ok(())
    }

    /// The table of a listing; `None` where a line gives no symbol.
    pub fn init(symtab: &str) -> (r: Option<SymbolTable>)
        ensures
            match r {
                Some(table) => spec_parse_symbols(Seq::empty(), symtab.spec_bytes(), 0) == Ok::<
                    Seq<(Seq<u8>, usize)>,
                    BpfErrorCode,
                >(table.symbols()),
                None => spec_parse_symbols(Seq::empty(), symtab.spec_bytes(), 0) is Err,
            },
    {
        let mut table = Self::new();
        match table.init_kernel_symbols(symtab) {
            Ok(()) => Some(table),
            Err(_) => None,
        }
    }
}

/// Sets up the table from a listing. Where a line gives no symbol there is
/// no table afterwards.
pub fn init_symbol_table(table: &mut Option<SymbolTable>, symtab: &str)
    ensures
        match *final(table) {
            Some(t) => spec_parse_symbols(Seq::empty(), symtab.spec_bytes(), 0) == Ok::<
                Seq<(Seq<u8>, usize)>,
                BpfErrorCode,
            >(t.symbols()),
            None => spec_parse_symbols(Seq::empty(), symtab.spec_bytes(), 0) is Err,
        },
{
    *table = SymbolTable::init(symtab);
}

} // verus!
