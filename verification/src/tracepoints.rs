//! Tracepoints: where programs are attached, and which programs run, in
//! which order, when a probe is hit.

use vstd::prelude::*;
use vstd::string::StringSliceAdditionalSpecFns;
use std::sync::Arc;
use std::collections::BTreeMap;
use crate::retcode::BpfErrorCode;
use crate::objects::{BpfObjects};
use crate::program::BpfProgram;
use crate::symbol::{SymbolTable, spec_translate};
use crate::probe::trapframe::TrapFrame;
use crate::probe::arch::{spec_insn_length, spec_insn_kind, step_type, SingleStepType};
use crate::probe::kprobes::{
    KProbes, KProbe, InstructionBuffer, KProbeArgs, KProbeError, ArmPlan, register_kprobe, spec_register,
};
use crate::probe::kretprobes::{KRetProbes, KRetProbeArgs, KRetProbe, register_kretprobe};

verus! {

broadcast use vstd::std_specs::btree::group_btree_axioms;

/// The arguments of an attach request. The target is a user-space address.
#[derive(Clone, Copy, Debug)]
pub struct KprobeAttachAttr {
    pub target: u64,
    pub str_len: u32,
    pub prog_fd: u32,
}

/// The kinds of tracepoint.
#[derive(Clone, Copy, Debug, PartialEq, Eq, Structural)]
pub enum TracepointType {
    KProbe,
    KRetProbeEntry,
    KRetProbeExit,
}

/// A point that programs are attached to: a kind and the address of the
/// probed function.
#[derive(Clone, Copy, Debug, PartialEq, Eq, Structural)]
pub struct Tracepoint {
    pub tp_type: TracepointType,
    pub token: usize,
}

impl Tracepoint {
    pub fn new(tp_type: TracepointType, token: usize) -> (tp: Self)
        ensures
            tp == (Tracepoint { tp_type, token }),
    {
        Self { tp_type, token }
    }

    /// The other tracepoint of a return probe: the exit for the entry and
    /// the entry for the exit. A plain probe has none.
    pub open spec fn spec_dual(self) -> Option<Tracepoint> {
        match self.tp_type {
            TracepointType::KProbe => None,
            TracepointType::KRetProbeEntry => Some(
                Tracepoint { tp_type: TracepointType::KRetProbeExit, token: self.token },
            ),
            TracepointType::KRetProbeExit => Some(
                Tracepoint { tp_type: TracepointType::KRetProbeEntry, token: self.token },
            ),
        }
    }

    /// The other tracepoint of a return probe.
    pub fn dual(&self) -> (r: Option<Tracepoint>)
        ensures
            r == self.spec_dual(),
    {
        match self.tp_type {
            TracepointType::KProbe => None,
            TracepointType::KRetProbeEntry => Some(
                Tracepoint::new(TracepointType::KRetProbeExit, self.token),
            ),
            TracepointType::KRetProbeExit => Some(
                Tracepoint::new(TracepointType::KRetProbeEntry, self.token),
            ),
        }
    }
}

/// What a program sees of the probe that runs it: the kind of tracepoint
/// (0 for a probe, 1 and 2 for the entry and the exit of a return probe),
/// the probed address, and the trapped registers.
#[derive(Clone, Copy, Debug)]
pub struct KProbeBPFContext {
    pub ptype: usize,
    pub paddr: usize,
    pub tf: TrapFrame,
}

impl KProbeBPFContext {
    pub fn new(tf: &TrapFrame, probed_addr: usize, t: usize) -> (ctx: Self)
        ensures
            ctx.ptype == t,
            ctx.paddr == probed_addr,
            ctx.tf == *tf,
    {
        KProbeBPFContext { ptype: t, paddr: probed_addr, tf: *tf }
    }
}

/// The lower-case form of an ASCII letter; any other byte as it is.
pub open spec fn lower(b: u8) -> u8 {
    if 0x41 <= b <= 0x5a {
        (b + 0x20) as u8
    } else {
        b
    }
}

/// Whether two byte strings are equal but for the case of ASCII letters.
pub open spec fn eq_ignore_case(a: Seq<u8>, b: Seq<u8>) -> bool {
    &&& a.len() == b.len()
    &&& forall|i: int| 0 <= i < a.len() ==> lower(#[trigger] a[i]) == lower(b[i])
}

/// The bytes of `kprobe`.
pub open spec fn kprobe_word() -> Seq<u8> {
    seq![0x6bu8, 0x70, 0x72, 0x6f, 0x62, 0x65]
}

/// The bytes of `kretprobe@entry`.
pub open spec fn kretprobe_entry_word() -> Seq<u8> {
    seq![
        0x6bu8,
        0x72,
        0x65,
        0x74,
        0x70,
        0x72,
        0x6f,
        0x62,
        0x65,
        0x40,
        0x65,
        0x6e,
        0x74,
        0x72,
        0x79,
    ]
}

/// The bytes of `kretprobe@exit`.
pub open spec fn kretprobe_exit_word() -> Seq<u8> {
    seq![0x6bu8, 0x72, 0x65, 0x74, 0x70, 0x72, 0x6f, 0x62, 0x65, 0x40, 0x65, 0x78, 0x69, 0x74]
}

/// The index of the first colon from `from` on; the length if there is none.
pub open spec fn first_colon(target: Seq<u8>, from: int) -> int
    decreases target.len() - from,
{
    if from < 0 || from >= target.len() {
        target.len() as int
    } else if target[from] == 0x3a {
        from
    } else {
        first_colon(target, from + 1)
    }
}

/// The kind that a word names, whatever the case of its letters.
pub open spec fn tracepoint_type_of(word: Seq<u8>) -> Option<TracepointType> {
    if eq_ignore_case(word, kprobe_word()) {
        Some(TracepointType::KProbe)
    } else if eq_ignore_case(word, kretprobe_entry_word()) {
        Some(TracepointType::KRetProbeEntry)
    } else if eq_ignore_case(word, kretprobe_exit_word()) {
        Some(TracepointType::KRetProbeExit)
    } else {
        None
    }
}

/// What a target of the form `<kind>:<symbol>` names: the kind, which is
/// one of `kprobe`, `kretprobe@entry` and `kretprobe@exit` in any case, and
/// the symbol, which is all that follows the first colon. A target without
/// a colon or with another kind is refused with `InvalidArgument`.
pub open spec fn spec_parse_tracepoint(target: Seq<u8>) -> Result<
    (TracepointType, Seq<u8>),
    BpfErrorCode,
> {
    let pos = first_colon(target, 0);
    if pos >= target.len() {
        Err(BpfErrorCode::InvalidArgument)
    } else {
        match tracepoint_type_of(target.subrange(0, pos)) {
            Some(t) => Ok((t, target.subrange(pos + 1, target.len() as int))),
            None => Err(BpfErrorCode::InvalidArgument),
        }
    }
}

fn to_lower(b: u8) -> (r: u8)
    ensures
        r == lower(b),
{
    if 0x41 <= b && b <= 0x5a {
        b + 0x20
    } else {
        b
    }
}

fn eq_ignore_ascii_case(a: &[u8], b: &[u8]) -> (r: bool)
    ensures
        r == eq_ignore_case(a@, b@),
{
    if a.len() != b.len() {
        return false;
    }
    let n: usize = a.len();
    let mut i: usize = 0;
    while i < n
        invariant
            i <= n,
            n == a@.len(),
            n == b@.len(),
            forall|k: int| 0 <= k < i ==> lower(#[trigger] a@[k]) == lower(b@[k]),
        decreases n - i,
    {
        if to_lower(a[i]) != to_lower(b[i]) {
            return false;
        }
        i += 1;
    }
    true
}

fn kprobe_word_bytes() -> (w: Vec<u8>)
    ensures
        w@ == kprobe_word(),
{
    let mut w: Vec<u8> = Vec::new();
    w.push(0x6b);
    w.push(0x70);
    w.push(0x72);
    w.push(0x6f);
    w.push(0x62);
    w.push(0x65);
    assert(w@ =~= kprobe_word());
    w
}

fn kretprobe_word_bytes(exit: bool) -> (w: Vec<u8>)
    ensures
        w@ == (if exit {
            kretprobe_exit_word()
        } else {
            kretprobe_entry_word()
        }),
{
    let mut w: Vec<u8> = Vec::new();
    w.push(0x6b);
    w.push(0x72);
    w.push(0x65);
    w.push(0x74);
    w.push(0x70);
    w.push(0x72);
    w.push(0x6f);
    w.push(0x62);
    w.push(0x65);
    w.push(0x40);
    w.push(0x65);
    if exit {
        w.push(0x78);
        w.push(0x69);
        w.push(0x74);
        assert(w@ =~= kretprobe_exit_word());
    } else {
        w.push(0x6e);
        w.push(0x74);
        w.push(0x72);
        w.push(0x79);
        assert(w@ =~= kretprobe_entry_word());
    }
    w
}

/// Reads a target of the form `<kind>:<symbol>`.
pub fn parse_tracepoint<'a>(target: &'a [u8]) -> (r: Result<(TracepointType, &'a [u8]), BpfErrorCode>)
    ensures
        match r {
            Ok((t, name)) => spec_parse_tracepoint(target@) == Ok::<
                (TracepointType, Seq<u8>),
                BpfErrorCode,
            >((t, name@)),
            Err(e) => spec_parse_tracepoint(target@) == Err::<
                (TracepointType, Seq<u8>),
                BpfErrorCode,
            >(e),
        },
{
    let n: usize = target.len();
    let mut pos: usize = 0;
    while pos < n && target[pos] != 0x3a
        invariant
            pos <= n,
            n == target@.len(),
            first_colon(target@, 0) == first_colon(target@, pos as int),
        decreases n - pos,
    {
        pos += 1;
    }
    if pos >= n {
        return Err(BpfErrorCode::InvalidArgument);
    }
    let type_str = vstd::slice::slice_subrange(target, 0, pos);
    let fn_name = vstd::slice::slice_subrange(target, pos + 1, n);
    // which kind of tracepoint
    let kprobe = kprobe_word_bytes();
    let entry = kretprobe_word_bytes(false);
    let exit = kretprobe_word_bytes(true);
    let tp_type: TracepointType = if eq_ignore_ascii_case(type_str, kprobe.as_slice()) {
        TracepointType::KProbe
    } else if eq_ignore_ascii_case(type_str, entry.as_slice()) {
        TracepointType::KRetProbeEntry
    } else if eq_ignore_ascii_case(type_str, exit.as_slice()) {
        TracepointType::KRetProbeExit
    } else {
        return Err(BpfErrorCode::InvalidArgument);
    };
    Ok((tp_type, fn_name))
}

/// The address of a symbol.
pub fn resolve_symbol(symbols: &SymbolTable, symbol: &[u8]) -> (r: Option<usize>)
    ensures
        r == spec_translate(symbols.symbols(), symbol@),
{
    symbols.translate_bytes(symbol)
}

/// A program at a tracepoint, with the handle that it was attached under.
pub struct AttachedProgram {
    pub fd: u32,
    pub program: Arc<BpfProgram>,
}

/// The handles of a list of programs.
pub open spec fn program_fds(programs: Seq<AttachedProgram>) -> Seq<u32> {
    Seq::new(programs.len(), |i: int| programs[i].fd)
}

/// The programs of a list, without their handles.
pub open spec fn shared_programs(programs: Seq<AttachedProgram>) -> Seq<Arc<BpfProgram>> {
    Seq::new(programs.len(), |i: int| programs[i].program)
}

/// The number that a kind of tracepoint is ordered by.
pub open spec fn kind_number(tp_type: TracepointType) -> u8 {
    match tp_type {
        TracepointType::KProbe => 0,
        TracepointType::KRetProbeEntry => 1,
        TracepointType::KRetProbeExit => 2,
    }
}

/// The pair of numbers that a tracepoint is found by: its address and the
/// number of its kind. Two tracepoints with the same pair are the same.
pub open spec fn point_key(tp: Tracepoint) -> (usize, u8) {
    (tp.token, kind_number(tp.tp_type))
}

/// The programs attached to each tracepoint: a map from the pair of
/// numbers of a tracepoint to its programs, in the order in which they were
/// attached.
pub struct Attachments {
    points: BTreeMap<(usize, u8), Vec<AttachedProgram>>,
}

/// What remains to do for an attach request.
#[derive(Clone, Copy, Debug, PartialEq, Eq, Structural)]
pub enum AttachStep {
    /// The program was added to the programs of its tracepoint.
    Attached,
    /// The tracepoint is new: a probe has to be set at its address, by
    /// `bpf_program_attach_probe`, before the program is attached.
    NeedsProbe { tracepoint: Tracepoint },
}

/// Calls `Arc::clone` of std, which returns a second pointer to the same
/// allocation: the value behind the result is the value behind the
/// argument.
#[verifier::external_body]
fn share_program(program: &Arc<BpfProgram>) -> (r: Arc<BpfProgram>)
    ensures
        r == *program,
{
    Arc::clone(program)
}

impl Attachments {
    /// The tracepoints that have an entry, each with its programs in the
    /// order in which they were attached.
    pub closed spec fn table(&self) -> Map<Tracepoint, Seq<AttachedProgram>> {
        Map::new(
            |tp: Tracepoint| self.points@.contains_key(point_key(tp)),
            |tp: Tracepoint| self.points@[point_key(tp)]@,
        )
    }

    /// Whether the tracepoint has an entry.
    pub open spec fn has(&self, tp: Tracepoint) -> bool {
        self.table().contains_key(tp)
    }

    /// The programs of a tracepoint, in the order in which they run.
    pub open spec fn list(&self, tp: Tracepoint) -> Seq<AttachedProgram> {
        self.table()[tp]
    }

    /// The handles of the programs of a tracepoint, in the order in which
    /// they run.
    pub open spec fn fds(&self, tp: Tracepoint) -> Seq<u32> {
        program_fds(self.list(tp))
    }

    /// No attachments.
    pub fn new() -> (a: Self)
        ensures
            a.table() == Map::<Tracepoint, Seq<AttachedProgram>>::empty(),
    {
        let a = Self { points: BTreeMap::new() };
        assert(a.table() =~= Map::<Tracepoint, Seq<AttachedProgram>>::empty());
        a
    }

    // The pair of numbers of a tracepoint.
    fn key_of(tp: Tracepoint) -> (key: (usize, u8))
        ensures
            key == point_key(tp),
    {
        let number: u8 = match tp.tp_type {
            TracepointType::KProbe => 0,
            TracepointType::KRetProbeEntry => 1,
            TracepointType::KRetProbeExit => 2,
        };
        (tp.token, number)
    }

    // The programs of a tracepoint, if it has an entry.
    fn get(&self, tp: Tracepoint) -> (r: Option<&Vec<AttachedProgram>>)
        ensures
            match r {
                Some(list) => self.has(tp) && self.list(tp) == list@,
                None => !self.has(tp),
            },
    {
        let key = Attachments::key_of(tp);
        self.points.get(&key)
    }

    /// The programs of a tracepoint, in the order in which they run; none
    /// for a tracepoint without an entry.
    pub fn programs(&self, tp: Tracepoint) -> (r: Vec<Arc<BpfProgram>>)
        ensures
            r@ == (if self.has(tp) {
                shared_programs(self.list(tp))
            } else {
                Seq::<Arc<BpfProgram>>::empty()
            }),
    {
        let mut out: Vec<Arc<BpfProgram>> = Vec::new();
        match self.get(tp) {
            None => {},
            Some(list) => {
                let n: usize = list.len();
                let mut k: usize = 0;
                while k < n
                    invariant
                        k <= n,
                        n == list@.len(),
                        out@.len() == k,
                        forall|j: int| 0 <= j < k ==> out@[j] == list@[j].program,
                    decreases n - k,
                {
                    out.push(share_program(&list[k].program));
                    k += 1;
                }
                assert(out@ =~= shared_programs(list@));
            },
        }
        out
    }

    /// The handles of the programs of a tracepoint, in the order in which
    /// they run; none for a tracepoint without an entry.
    pub fn program_handles(&self, tp: Tracepoint) -> (r: Vec<u32>)
        ensures
            r@ == (if self.has(tp) {
                self.fds(tp)
            } else {
                Seq::<u32>::empty()
            }),
    {
        let mut out: Vec<u32> = Vec::new();
        match self.get(tp) {
            None => {},
            Some(list) => {
                let n: usize = list.len();
                let mut k: usize = 0;
                while k < n
                    invariant
                        k <= n,
                        n == list@.len(),
                        out@.len() == k,
                        forall|j: int| 0 <= j < k ==> out@[j] == list@[j].fd,
                    decreases n - k,
                {
                    out.push(list[k].fd);
                    k += 1;
                }
                assert(out@ =~= program_fds(list@));
            },
        }
        out
    }

    // Adds a program behind the programs of a tracepoint that has an entry.
    fn push_program(&mut self, tp: Tracepoint, program: AttachedProgram)
        requires
            old(self).has(tp),
        ensures
            final(self).table() == old(self).table().insert(tp, old(self).list(tp).push(program)),
    {
        let key = Attachments::key_of(tp);
        let mut list: Vec<AttachedProgram> = match self.points.remove(&key) {
            Some(list) => list,
            None => Vec::new(),
        };
        list.push(program);
        let _ = self.points.insert(key, list);
        proof {
            assert(self.table() =~= old(self).table().insert(
                tp,
                old(self).list(tp).push(program),
            ));
        }
    }

    // Gives a tracepoint the given programs, in place of those it had.
    fn insert(&mut self, tp: Tracepoint, programs: Vec<AttachedProgram>)
        ensures
            final(self).table() == old(self).table().insert(tp, programs@),
    {
        let ghost list = programs@;
        let key = Attachments::key_of(tp);
        let _ = self.points.insert(key, programs);
        proof {
            assert(self.table() =~= old(self).table().insert(tp, list));
        }
    }
}

/// Whether a handle stands for a program.
pub open spec fn is_program_fd(objs: &BpfObjects, fd: u32) -> bool {
    objs@.contains_key(fd) && objs@[fd] is Program
}

/// The program under a handle that stands for one.
pub open spec fn program_under(objs: &BpfObjects, fd: u32) -> Arc<BpfProgram> {
    objs@[fd]->Program_0
}

/// What an attach request comes to before any probe is set.
///
/// The handle must stand for a program, else `NoSuchEntry`. The target
/// must read as `<kind>:<symbol>`, else `InvalidArgument`, and the symbol
/// must have an address, else `NoSuchEntry`. Where the tracepoint has an
/// entry, the program is added behind its programs, unless it is among
/// them already, which is refused with `AlreadyExists`. Where it has none,
/// a probe is needed first.
pub open spec fn spec_attach(
    objs: &BpfObjects,
    symbols: Seq<(Seq<u8>, usize)>,
    attachments: &Attachments,
    target: Seq<u8>,
    prog_fd: u32,
) -> Result<AttachStep, BpfErrorCode> {
    if !is_program_fd(objs, prog_fd) {
        Err(BpfErrorCode::NoSuchEntry)
    } else {
        match spec_parse_tracepoint(target) {
            Err(e) => Err(e),
            Ok((tp_type, name)) => match spec_translate(symbols, name) {
                None => Err(BpfErrorCode::NoSuchEntry),
                Some(addr) => {
                    let tp = Tracepoint { tp_type, token: addr };
                    if attachments.has(tp) {
                        if attachments.fds(tp).contains(prog_fd) {
                            Err(BpfErrorCode::AlreadyExists)
                        } else {
                            Ok(AttachStep::Attached)
                        }
                    } else {
                        Ok(AttachStep::NeedsProbe { tracepoint: tp })
                    }
                },
            },
        }
    }
}

// The program under a handle, shared.
fn program_of(objs: &BpfObjects, fd: u32) -> (r: Option<Arc<BpfProgram>>)
    ensures
        match r {
            Some(p) => is_program_fd(objs, fd) && p == program_under(objs, fd),
            None => !is_program_fd(objs, fd),
        },
{
    match objs.get(fd) {
        Some(obj) => match obj.is_program() {
            Some(p) => Some(share_program(p)),
            None => None,
        },
        None => None,
    }
}

/// Attaches the program under `prog_fd` to the tracepoint that `target`
/// names. Only an attachment to a tracepoint that has an entry is carried
/// out here; for a new tracepoint the answer is `NeedsProbe`, and nothing
/// has changed.
#[verifier::loop_isolation(false)]
pub fn bpf_program_attach(
    objs: &BpfObjects,
    symbols: &SymbolTable,
    attachments: &mut Attachments,
    target: &str,
    prog_fd: u32,
) -> (r: Result<AttachStep, BpfErrorCode>)
    ensures
        r == spec_attach(objs, symbols.symbols(), old(attachments), target.spec_bytes(), prog_fd),
        match r {
            Ok(AttachStep::Attached) => {
                let tp = Tracepoint {
                    tp_type: spec_parse_tracepoint(target.spec_bytes()).unwrap().0,
                    token: spec_translate(
                        symbols.symbols(),
                        spec_parse_tracepoint(target.spec_bytes()).unwrap().1,
                    ).unwrap(),
                };
                &&& final(attachments).table() == old(attachments).table().insert(
                    tp,
                    old(attachments).list(tp).push(
                        (AttachedProgram { fd: prog_fd, program: program_under(objs, prog_fd) }),
                    ),
                )
                &&& final(attachments).has(tp)
                &&& final(attachments).list(tp) == old(attachments).list(tp).push(
                    (AttachedProgram { fd: prog_fd, program: program_under(objs, prog_fd) }),
                )
                &&& final(attachments).fds(tp) == old(attachments).fds(tp).push(prog_fd)
                &&& forall|other: Tracepoint|
                    other != tp ==> (#[trigger] final(attachments).has(other) == old(attachments).has(other)) && (old(attachments).has(other) ==> final(attachments).list(other)
                        == old(attachments).list(other))
            },
            _ => final(attachments).table() == old(attachments).table(),
        },
{
    // the handle must stand for a program
    let program: Arc<BpfProgram> = match program_of(objs, prog_fd) {
        Some(p) => p,
        None => {
            return Err(BpfErrorCode::NoSuchEntry);
        },
    };
    let (tp_type, fn_name) = match parse_tracepoint(target.as_bytes()) {
        Ok(parsed) => parsed,
        Err(e) => {
            return Err(e);
        },
    };
    let addr: usize = match resolve_symbol(symbols, fn_name) {
        Some(addr) => addr,
        None => {
            return Err(BpfErrorCode::NoSuchEntry);
        },
    };
    let tracepoint = Tracepoint::new(tp_type, addr);
    match attachments.get(tracepoint) {
        Some(list) => {
            let n: usize = list.len();
            let mut k: usize = 0;
            while k < n
                invariant
                    k <= n,
                    n == list@.len(),
                    forall|j: int| 0 <= j < k ==> list@[j].fd != prog_fd,
                decreases n - k,
            {
                if list[k].fd == prog_fd {
                    proof {
                        assert(program_fds(list@)[k as int] == prog_fd);
                    }
                    return Err(BpfErrorCode::AlreadyExists);
                }
                k += 1;
            }
            proof {
                assert(!program_fds(list@).contains(prog_fd)) by {
                    if program_fds(list@).contains(prog_fd) {
                        let j = choose|j: int|
                            0 <= j < program_fds(list@).len() && program_fds(list@)[j] == prog_fd;
                        assert(list@[j].fd != prog_fd);
                    }
                }
            }
            attachments.push_program(tracepoint, AttachedProgram { fd: prog_fd, program });
            proof {
                assert(program_fds(attachments.list(tracepoint)) =~= program_fds(
                    old(attachments).list(tracepoint),
                ).push(prog_fd));
            }
            Ok(AttachStep::Attached)
        },
        None => Ok(AttachStep::NeedsProbe { tracepoint }),
    }
}

/// Sets the probe of a new tracepoint and attaches the program under
/// `prog_fd` as its first program. `insn` is the first 32 bits at the
/// address of the tracepoint, and `buf_addr` the address of a page for the
/// copy of the instruction. A plain tracepoint gets a probe; the entry or
/// the exit of a function gets a return probe with both handlers and
/// without a limit, and the other tracepoint of the two is given an entry
/// without programs.
///
/// It refuses a handle that stands for no program with `NoSuchEntry`, a
/// tracepoint that has an entry with `AlreadyExists`, a function that has a
/// return probe with `AlreadyExists`, and what the probe engine refuses
/// with the error kind of that refusal. On refusal nothing changes.
pub fn bpf_program_attach_probe(
    objs: &BpfObjects,
    probes: &mut KProbes,
    kret: &mut KRetProbes,
    attachments: &mut Attachments,
    tracepoint: Tracepoint,
    prog_fd: u32,
    insn: u32,
    buf_addr: usize,
) -> (r: Result<ArmPlan, BpfErrorCode>)
    requires
        old(probes).wf(),
    ensures
        final(probes).wf(),
        final(kret)@.instances == old(kret)@.instances,
        final(kret)@.trampoline == old(kret)@.trampoline,
        match r {
            Ok(plan) => {
                &&& is_program_fd(objs, prog_fd)
                &&& !old(attachments).has(tracepoint)
                &&& spec_register(
                    old(probes),
                    tracepoint.token,
                    spec_insn_length(insn),
                    spec_insn_kind(insn),
                    buf_addr,
                ) is Ok
                &&& plan == (ArmPlan {
                    addr: tracepoint.token,
                    buf_addr,
                    insn_len: spec_insn_length(insn),
                })
                &&& final(probes)@ == old(probes)@.insert(
                    tracepoint.token,
                    KProbe {
                        addr: tracepoint.token,
                        has_post_handler: false,
                        user_data: tracepoint.token,
                        insn_buf: InstructionBuffer { addr: buf_addr },
                        insn,
                        insn_len: spec_insn_length(insn),
                        active_count: 0,
                        emulate: step_type(spec_insn_length(insn), spec_insn_kind(insn))
                            == SingleStepType::Emulate,
                    },
                )
                &&& final(probes).buffer_index() == old(probes).buffer_index().insert(
                    (buf_addr + spec_insn_length(insn)) as usize,
                    tracepoint.token,
                )
                &&& final(kret)@.probes == (if tracepoint.tp_type == TracepointType::KProbe {
                    old(kret)@.probes
                } else {
                    old(kret)@.probes.insert(
                        tracepoint.token,
                        KRetProbe {
                            addr: tracepoint.token,
                            has_entry_handler: true,
                            limit: None,
                            user_data: tracepoint.token,
                            pending: 0,
                        },
                    )
                })
                &&& final(attachments).table() == (match tracepoint.spec_dual() {
                    None => old(attachments).table().insert(
                        tracepoint,
                        seq![AttachedProgram { fd: prog_fd, program: program_under(objs, prog_fd) }],
                    ),
                    Some(dual) => old(attachments).table().insert(
                        tracepoint,
                        seq![AttachedProgram { fd: prog_fd, program: program_under(objs, prog_fd) }],
                    ).insert(dual, Seq::<AttachedProgram>::empty()),
                })
                &&& final(attachments).has(tracepoint)
                &&& final(attachments).list(tracepoint) == seq![
                    AttachedProgram { fd: prog_fd, program: program_under(objs, prog_fd) },
                ]
                &&& tracepoint.spec_dual() matches Some(dual) ==> final(attachments).has(dual)
                    && final(attachments).list(dual) == Seq::<AttachedProgram>::empty()
                &&& forall|other: Tracepoint|
                    other != tracepoint && tracepoint.spec_dual() != Some(other) ==> (
                    #[trigger] final(attachments).has(other) == old(attachments).has(other)) && (
                    old(attachments).has(other) ==> final(attachments).list(other) == old(attachments).list(other))
            },
            Err(e) => {
                &&& final(probes)@ == old(probes)@
                &&& final(probes).buffer_index() == old(probes).buffer_index()
                &&& final(kret)@ == old(kret)@
                &&& final(attachments).table() == old(attachments).table()
                &&& e == (if !is_program_fd(objs, prog_fd) {
                    BpfErrorCode::NoSuchEntry
                } else if old(attachments).has(tracepoint) {
                    BpfErrorCode::AlreadyExists
                } else if tracepoint.tp_type != TracepointType::KProbe && old(kret)@.probes.contains_key(tracepoint.token) {
                    BpfErrorCode::AlreadyExists
                } else {
                    (spec_register(
                        old(probes),
                        tracepoint.token,
                        spec_insn_length(insn),
                        spec_insn_kind(insn),
                        buf_addr,
                    )->Err_0).spec_error_code()
                })
                &&& is_program_fd(objs, prog_fd) && !old(attachments).has(tracepoint) && (
                tracepoint.tp_type == TracepointType::KProbe || !old(kret)@.probes.contains_key(
                    tracepoint.token,
                )) ==> spec_register(
                    old(probes),
                    tracepoint.token,
                    spec_insn_length(insn),
                    spec_insn_kind(insn),
                    buf_addr,
                ) is Err
            },
        },
{
    let program: Arc<BpfProgram> = match program_of(objs, prog_fd) {
        Some(p) => p,
        None => {
            return Err(BpfErrorCode::NoSuchEntry);
        },
    };
    if attachments.get(tracepoint).is_some() {
        return Err(BpfErrorCode::AlreadyExists);
    }
    let registered: Result<ArmPlan, KProbeError> = match tracepoint.tp_type {
        TracepointType::KProbe => {
            let args = KProbeArgs { has_post_handler: false, user_data: tracepoint.token };
            register_kprobe(probes, tracepoint.token, insn, buf_addr, args)
        },
        _ => {
            let args = KRetProbeArgs {
                has_entry_handler: true,
                limit: None,
                user_data: tracepoint.token,
            };
            register_kretprobe(probes, kret, tracepoint.token, insn, buf_addr, args)
        },
    };
    let plan: ArmPlan = match registered {
        Ok(plan) => plan,
        Err(e) => {
            return Err(e.error_code());
        },
    };
    let mut first: Vec<AttachedProgram> = Vec::new();
    first.push(AttachedProgram { fd: prog_fd, program });
    assert(first@ =~= seq![
        AttachedProgram { fd: prog_fd, program: program_under(objs, prog_fd) },
    ]);
    match tracepoint.dual() {
        None => {
            attachments.insert(tracepoint, first);
        },
        Some(dual_tp) => {
            attachments.insert(tracepoint, first);
            let none: Vec<AttachedProgram> = Vec::new();
            attachments.insert(dual_tp, none);
        },
    }
    Ok(plan)
}

/// What runs when a probe is hit: the context that the programs are given
/// and the programs, in the order in which they were attached.
pub fn run_attached_programs(
    attachments: &Attachments,
    tracepoint: &Tracepoint,
    tf: &TrapFrame,
    ptype: usize,
) -> (r: (KProbeBPFContext, Vec<Arc<BpfProgram>>))
    ensures
        r.0.ptype == ptype,
        r.0.paddr == tracepoint.token,
        r.0.tf == *tf,
        r.1@ == (if attachments.has(*tracepoint) {
            shared_programs(attachments.list(*tracepoint))
        } else {
            Seq::<Arc<BpfProgram>>::empty()
        }),
{
    let ctx = KProbeBPFContext::new(tf, tracepoint.token, ptype);
    (ctx, attachments.programs(*tracepoint))
}

/// What runs before the instruction of a plain probe at `probed_addr`.
pub fn kprobe_handler(attachments: &Attachments, tf: &TrapFrame, probed_addr: usize) -> (r: (
    KProbeBPFContext,
    Vec<Arc<BpfProgram>>,
))
    ensures
        r.0.ptype == 0,
        r.0.paddr == probed_addr,
        r.0.tf == *tf,
        ({
            let tp = Tracepoint { tp_type: TracepointType::KProbe, token: probed_addr };
            r.1@ == (if attachments.has(tp) {
                shared_programs(attachments.list(tp))
            } else {
                Seq::<Arc<BpfProgram>>::empty()
            })
        }),
{
    let tracepoint = Tracepoint::new(TracepointType::KProbe, probed_addr);
    run_attached_programs(attachments, &tracepoint, tf, 0)
}

/// What runs at the entry of a function under a return probe.
pub fn kretprobe_entry_handler(attachments: &Attachments, tf: &TrapFrame, probed_addr: usize) -> (r: (
    KProbeBPFContext,
    Vec<Arc<BpfProgram>>,
))
    ensures
        r.0.ptype == 1,
        r.0.paddr == probed_addr,
        r.0.tf == *tf,
        ({
            let tp = Tracepoint { tp_type: TracepointType::KRetProbeEntry, token: probed_addr };
            r.1@ == (if attachments.has(tp) {
                shared_programs(attachments.list(tp))
            } else {
                Seq::<Arc<BpfProgram>>::empty()
            })
        }),
{
    let tracepoint = Tracepoint::new(TracepointType::KRetProbeEntry, probed_addr);
    run_attached_programs(attachments, &tracepoint, tf, 1)
}

/// What runs at the exit of a function under a return probe.
pub fn kretprobe_exit_handler(attachments: &Attachments, tf: &TrapFrame, probed_addr: usize) -> (r: (
    KProbeBPFContext,
    Vec<Arc<BpfProgram>>,
))
    ensures
        r.0.ptype == 2,
        r.0.paddr == probed_addr,
        r.0.tf == *tf,
        ({
            let tp = Tracepoint { tp_type: TracepointType::KRetProbeExit, token: probed_addr };
            r.1@ == (if attachments.has(tp) {
                shared_programs(attachments.list(tp))
            } else {
                Seq::<Arc<BpfProgram>>::empty()
            })
        }),
{
    let tracepoint = Tracepoint::new(TracepointType::KRetProbeExit, probed_addr);
    run_attached_programs(attachments, &tracepoint, tf, 2)
}

} // verus!
