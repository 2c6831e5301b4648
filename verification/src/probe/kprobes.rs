//! The table of probes and the decisions of the probe engine.
//!
//! The engine decides; the kernel acts. Registering a probe returns what
//! the kernel has to write into memory, and a trap is handled in stages
//! between which the kernel runs the handlers of the probe.

use vstd::prelude::*;
use std::collections::BTreeMap;
use crate::probe::arch::{
    SingleStepType, InsnKind, get_insn_length, get_insn_kind, insn_step_type, emulate_kind,
    spec_insn_length, spec_insn_kind, step_type, spec_emulate,
};
use crate::probe::trapframe::TrapFrame;
use crate::retcode::BpfErrorCode;

verus! {

broadcast use vstd::std_specs::btree::group_btree_axioms;

/// The page that holds the out-of-line copy of a probed instruction.
#[derive(Clone, Copy, Debug, PartialEq, Eq, Structural)]
pub struct InstructionBuffer {
    pub addr: usize,
}

impl InstructionBuffer {
    /// The buffer at `addr`.
    pub fn new(addr: usize) -> (buf: Self)
        ensures
            buf.addr == addr,
    {
        Self { addr }
    }

    /// The address of the buffer.
    pub fn addr(&self) -> (addr: usize)
        ensures
            addr == self.addr,
    {
        self.addr
    }
}

/// What is registered with a probe.
#[derive(Clone, Copy, Debug, PartialEq, Eq, Structural)]
pub struct KProbeArgs {
    /// Whether a handler runs after the probed instruction, besides the one
    /// that runs before it.
    pub has_post_handler: bool,
    /// A value of the owner's, handed to the handlers.
    pub user_data: usize,
}

/// The state of one probe.
#[derive(Clone, Copy, Debug, PartialEq, Eq, Structural)]
pub struct KProbe {
    /// The address of the probed instruction.
    pub addr: usize,
    pub has_post_handler: bool,
    pub user_data: usize,
    /// Where the copy of the instruction stands, followed by a breakpoint.
    pub insn_buf: InstructionBuffer,
    /// The first 32 bits at the probed address before the breakpoint was
    /// written.
    pub insn: u32,
    /// The length of the probed instruction: 2 or 4.
    pub insn_len: usize,
    /// How many hits of the probe are in flight.
    pub active_count: usize,
    /// Whether the instruction is emulated in place of running out of line.
    pub emulate: bool,
}

impl KProbe {
    /// The address of the breakpoint that follows the copy of the
    /// instruction in the buffer.
    pub open spec fn next_bp_addr(self) -> int {
        self.insn_buf.addr + self.insn_len
    }

    /// A probe that is not yet armed and has no hit in flight.
    pub fn new(
        addr: usize,
        has_post_handler: bool,
        user_data: usize,
        insn_buf: InstructionBuffer,
        insn: u32,
        emulate: bool,
    ) -> (probe: Self)
        ensures
            probe == (KProbe {
                addr,
                has_post_handler,
                user_data,
                insn_buf,
                insn,
                insn_len: spec_insn_length(insn),
                active_count: 0,
                emulate,
            }),
    {
        Self {
            addr,
            has_post_handler,
            user_data,
            insn_buf,
            insn,
            insn_len: get_insn_length(insn),
            active_count: 0,
            emulate,
        }
    }

    /// What arming the probe writes: the copy of the instruction and a
    /// breakpoint behind it into the buffer, and a breakpoint over the
    /// instruction itself.
    pub fn arm(&self) -> (plan: ArmPlan)
        ensures
            plan == (ArmPlan { addr: self.addr, buf_addr: self.insn_buf.addr, insn_len: self.insn_len }),
    {
        ArmPlan { addr: self.addr, buf_addr: self.insn_buf.addr, insn_len: self.insn_len }
    }

    /// What disarming the probe writes: the instruction, from the buffer,
    /// back over the breakpoint.
    pub fn disarm(&self) -> (plan: DisarmPlan)
        ensures
            plan == (DisarmPlan {
                addr: self.addr,
                buf_addr: self.insn_buf.addr,
                insn_len: self.insn_len,
            }),
    {
        DisarmPlan { addr: self.addr, buf_addr: self.insn_buf.addr, insn_len: self.insn_len }
    }
}

/// What the kernel does to arm a probe: copy `insn_len` bytes from `addr`
/// to `buf_addr`, write a breakpoint at `buf_addr + insn_len`, write a
/// breakpoint of `insn_len` bytes at `addr`, and flush the instruction
/// cache.
#[derive(Clone, Copy, Debug, PartialEq, Eq, Structural)]
pub struct ArmPlan {
    pub addr: usize,
    pub buf_addr: usize,
    pub insn_len: usize,
}

/// What the kernel does to disarm a probe: copy `insn_len` bytes from
/// `buf_addr` back to `addr`, flush the instruction cache, and release the
/// buffer.
#[derive(Clone, Copy, Debug, PartialEq, Eq, Structural)]
pub struct DisarmPlan {
    pub addr: usize,
    pub buf_addr: usize,
    pub insn_len: usize,
}

/// Why a probe was not registered or removed.
#[derive(Clone, Copy, Debug, PartialEq, Eq, Structural)]
pub enum KProbeError {
    /// There is a probe at the address already.
    AlreadyRegistered,
    /// The instruction at the address cannot be probed.
    Unsupported,
    /// The buffer serves another probe, or ends past the address space.
    BufferInUse,
    /// There is no probe at the address.
    NotRegistered,
    /// A hit of the probe is in flight.
    Busy,
}

impl KProbeError {
    /// The error kind that a refusal of the probe engine is reported as.
    pub open spec fn spec_error_code(self) -> BpfErrorCode {
        match self {
            KProbeError::AlreadyRegistered => BpfErrorCode::AlreadyExists,
            KProbeError::Unsupported => BpfErrorCode::InvalidArgument,
            KProbeError::BufferInUse => BpfErrorCode::InvalidArgument,
            KProbeError::NotRegistered => BpfErrorCode::NoSuchEntry,
            KProbeError::Busy => BpfErrorCode::Busy,
        }
    }

    /// The error kind that a refusal of the probe engine is reported as: a
    /// probe that exists is `AlreadyExists`; an instruction that cannot be
    /// probed, or a buffer that cannot be used, is `InvalidArgument`; a
    /// probe that does not exist is `NoSuchEntry`; and a probe with a hit
    /// in flight is `Busy`.
    pub fn error_code(self) -> (e: BpfErrorCode)
        ensures
            e == self.spec_error_code(),
    {
        match self {
            KProbeError::AlreadyRegistered => BpfErrorCode::AlreadyExists,
            KProbeError::Unsupported => BpfErrorCode::InvalidArgument,
            KProbeError::BufferInUse => BpfErrorCode::InvalidArgument,
            KProbeError::NotRegistered => BpfErrorCode::NoSuchEntry,
            KProbeError::Busy => BpfErrorCode::Busy,
        }
    }
}

/// What a breakpoint trap is, to the probe engine.
#[derive(Clone, Copy, Debug, PartialEq, Eq, Structural)]
pub enum TrapStage {
    /// The trap belongs to no probe.
    NotHandled,
    /// The breakpoint of the probe at `addr` was hit: the handler that runs
    /// before the instruction is due, then `kprobe_single_step`.
    FirstStage { addr: usize, user_data: usize },
    /// The copy of the instruction of the probe at `addr` has run: the
    /// handler that runs after the instruction is due, if there is one,
    /// then `kprobe_finish`.
    SecondStage { addr: usize, user_data: usize, has_post_handler: bool },
}

/// How the instruction under a probe was stepped over.
#[derive(Clone, Copy, Debug, PartialEq, Eq, Structural)]
pub enum StepOutcome {
    /// There is no probe at the address.
    NoProbe,
    /// The instruction was emulated: the handler that runs after it is due
    /// at once, if there is one, then `kprobe_finish`.
    Emulated { user_data: usize, has_post_handler: bool },
    /// The program counter now points at the copy of the instruction; the
    /// breakpoint behind the copy brings the second stage.
    Redirected,
}

/// The probes by address, and the probe of each buffer breakpoint.
pub struct KProbes {
    probes: BTreeMap<usize, KProbe>,
    addr_map: BTreeMap<usize, usize>,
}

impl View for KProbes {
    type V = Map<usize, KProbe>;

    closed spec fn view(&self) -> Map<usize, KProbe> {
        self.probes@
    }
}

impl KProbes {
    /// For each breakpoint that follows a copy, the address of its probe.
    pub closed spec fn buffer_index(&self) -> Map<usize, usize> {
        self.addr_map@
    }

    /// Every probe stands under its own address, has an instruction of 2 or
    /// 4 bytes, and is found again from the breakpoint behind its copy;
    /// and every such breakpoint leads to a probe.
    pub open spec fn wf(&self) -> bool {
        &&& forall|a: usize| #[trigger]
            self@.contains_key(a) ==> {
                &&& self@[a].addr == a
                &&& (self@[a].insn_len == 2 || self@[a].insn_len == 4)
                &&& self@[a].next_bp_addr() <= usize::MAX
                &&& self.buffer_index().contains_key(self@[a].next_bp_addr() as usize)
                &&& self.buffer_index()[self@[a].next_bp_addr() as usize] == a
            }
        &&& forall|b: usize| #[trigger]
            self.buffer_index().contains_key(b) ==> {
                &&& self@.contains_key(self.buffer_index()[b])
                &&& self@[self.buffer_index()[b]].next_bp_addr() == b
            }
    }

    /// A table without probes.
    pub fn new() -> (table: Self)
        ensures
            table@ == Map::<usize, KProbe>::empty(),
            table.buffer_index() == Map::<usize, usize>::empty(),
            table.wf(),
    {
        Self { probes: BTreeMap::new(), addr_map: BTreeMap::new() }
    }

    /// The probe at an address.
    pub fn get(&self, addr: usize) -> (r: Option<KProbe>)
        ensures
            match r {
                Some(p) => self@.contains_key(addr) && self@[addr] == p,
                None => !self@.contains_key(addr),
            },
    {
        match self.probes.get(&addr) {
            Some(p) => Some(*p),
            None => None,
        }
    }

    /// The number of probes.
    pub fn len(&self) -> (n: usize)
        ensures
            n == self@.len(),
    {
        self.probes.len()
    }

    // Replaces the state of the probe at `addr`, keeping its place and buffer.
    fn store(&mut self, addr: usize, probe: KProbe)
        requires
            old(self).wf(),
            old(self)@.contains_key(addr),
            probe.addr == addr,
            probe.insn_len == old(self)@[addr].insn_len,
            probe.insn_buf == old(self)@[addr].insn_buf,
        ensures
            final(self).wf(),
            final(self)@ == old(self)@.insert(addr, probe),
            final(self).buffer_index() == old(self).buffer_index(),
    {
        let _ = self.probes.insert(addr, probe);
        proof {
            assert forall|a: usize| #[trigger] self@.contains_key(a) implies {
                &&& self@[a].addr == a
                &&& (self@[a].insn_len == 2 || self@[a].insn_len == 4)
                &&& self@[a].next_bp_addr() <= usize::MAX
                &&& self.buffer_index().contains_key(self@[a].next_bp_addr() as usize)
                &&& self.buffer_index()[self@[a].next_bp_addr() as usize] == a
            } by {
                assert(old(self)@.contains_key(a));
            }
            assert forall|b: usize| #[trigger] self.buffer_index().contains_key(b) implies {
                &&& self@.contains_key(self.buffer_index()[b])
                &&& self@[self.buffer_index()[b]].next_bp_addr() == b
            } by {
                assert(old(self).buffer_index().contains_key(b));
                assert(old(self)@.contains_key(old(self).buffer_index()[b]));
            }
        }
    }
}

/// What `register_kprobe` decides for an instruction of the given length
/// and kind.
pub open spec fn spec_register(
    table: &KProbes,
    addr: usize,
    len: usize,
    kind: InsnKind,
    buf_addr: usize,
) -> Result<(), KProbeError> {
    if table@.contains_key(addr) {
        Err(KProbeError::AlreadyRegistered)
    } else if step_type(len, kind) == SingleStepType::Unsupported {
        Err(KProbeError::Unsupported)
    } else if buf_addr + len > usize::MAX || table.buffer_index().contains_key(
        (buf_addr + len) as usize,
    ) {
        Err(KProbeError::BufferInUse)
    } else {
        Ok(())
    }
}

/// Registers a probe at `addr` for an instruction whose length and kind are
/// known. `insn` is the first 32 bits at `addr`, and `buf_addr` the
/// address of a page that is to hold the copy of the instruction.
///
/// It refuses, in this order: an address that has a probe; an instruction
/// that cannot be probed; a buffer whose breakpoint address serves another
/// probe. On refusal nothing changes.
pub fn register_kprobe_of_kind(
    table: &mut KProbes,
    addr: usize,
    insn: u32,
    kind: InsnKind,
    buf_addr: usize,
    args: KProbeArgs,
) -> (r: Result<ArmPlan, KProbeError>)
    requires
        old(table).wf(),
    ensures
        final(table).wf(),
        match r {
            Ok(plan) => {
                &&& spec_register(old(table), addr, spec_insn_length(insn), kind, buf_addr) is Ok
                &&& plan == (ArmPlan { addr, buf_addr, insn_len: spec_insn_length(insn) })
                &&& final(table)@ == old(table)@.insert(
                    addr,
                    KProbe {
                        addr,
                        has_post_handler: args.has_post_handler,
                        user_data: args.user_data,
                        insn_buf: InstructionBuffer { addr: buf_addr },
                        insn,
                        insn_len: spec_insn_length(insn),
                        active_count: 0,
                        emulate: step_type(spec_insn_length(insn), kind) == SingleStepType::Emulate,
                    },
                )
                &&& final(table).buffer_index() == old(table).buffer_index().insert(
                    (buf_addr + spec_insn_length(insn)) as usize,
                    addr,
                )
            },
            Err(e) => spec_register(old(table), addr, spec_insn_length(insn), kind, buf_addr)
                == Err::<(), KProbeError>(e) && final(table)@ == old(table)@ && final(table).buffer_index() == old(table).buffer_index(),
        },
{
    if table.probes.contains_key(&addr) {
        return Err(KProbeError::AlreadyRegistered);
    }
    let len: usize = get_insn_length(insn);
    let insn_type = insn_step_type(len, kind);
    if insn_type == SingleStepType::Unsupported {
        return Err(KProbeError::Unsupported);
    }
    let emulate: bool = insn_type == SingleStepType::Emulate;
    if buf_addr > usize::MAX - len {
        return Err(KProbeError::BufferInUse);
    }
    // the breakpoint behind the copy is hit if the instruction is not emulated
    let next_bp_addr: usize = buf_addr + len;
    if table.addr_map.contains_key(&next_bp_addr) {
        return Err(KProbeError::BufferInUse);
    }
    let probe = KProbe::new(
        addr,
        args.has_post_handler,
        args.user_data,
        InstructionBuffer::new(buf_addr),
        insn,
        emulate,
    );
    let plan = probe.arm();
    let _ = table.addr_map.insert(next_bp_addr, addr);
    let _ = table.probes.insert(addr, probe);
    proof {
        assert forall|a: usize| #[trigger] table@.contains_key(a) implies {
            &&& table@[a].addr == a
            &&& (table@[a].insn_len == 2 || table@[a].insn_len == 4)
            &&& table@[a].next_bp_addr() <= usize::MAX
            &&& table.buffer_index().contains_key(table@[a].next_bp_addr() as usize)
            &&& table.buffer_index()[table@[a].next_bp_addr() as usize] == a
        } by {
            if a != addr {
                assert(old(table)@.contains_key(a));
                assert(old(table).buffer_index().contains_key(
                    old(table)@[a].next_bp_addr() as usize,
                ));
            }
        }
        assert forall|b: usize| #[trigger] table.buffer_index().contains_key(b) implies {
            &&& table@.contains_key(table.buffer_index()[b])
            &&& table@[table.buffer_index()[b]].next_bp_addr() == b
        } by {
            if b != next_bp_addr {
                assert(old(table).buffer_index().contains_key(b));
                assert(old(table)@.contains_key(old(table).buffer_index()[b]));
            }
        }
    }
    Ok(plan)
}

/// Registers a probe at `addr`. `insn` is the first 32 bits at `addr`, and
/// `buf_addr` the address of a page that is to hold the copy of the
/// instruction. On success the kernel carries out the plan that is
/// returned.
pub fn register_kprobe(
    table: &mut KProbes,
    addr: usize,
    insn: u32,
    buf_addr: usize,
    args: KProbeArgs,
) -> (r: Result<ArmPlan, KProbeError>)
    requires
        old(table).wf(),
    ensures
        final(table).wf(),
        match r {
            Ok(plan) => {
                &&& spec_register(
                    old(table),
                    addr,
                    spec_insn_length(insn),
                    spec_insn_kind(insn),
                    buf_addr,
                ) is Ok
                &&& plan == (ArmPlan { addr, buf_addr, insn_len: spec_insn_length(insn) })
                &&& final(table)@ == old(table)@.insert(
                    addr,
                    KProbe {
                        addr,
                        has_post_handler: args.has_post_handler,
                        user_data: args.user_data,
                        insn_buf: InstructionBuffer { addr: buf_addr },
                        insn,
                        insn_len: spec_insn_length(insn),
                        active_count: 0,
                        emulate: step_type(spec_insn_length(insn), spec_insn_kind(insn))
                            == SingleStepType::Emulate,
                    },
                )
                &&& final(table).buffer_index() == old(table).buffer_index().insert(
                    (buf_addr + spec_insn_length(insn)) as usize,
                    addr,
                )
            },
            Err(e) => spec_register(
                old(table),
                addr,
                spec_insn_length(insn),
                spec_insn_kind(insn),
                buf_addr,
            ) == Err::<(), KProbeError>(e) && final(table)@ == old(table)@ && final(table).buffer_index() == old(table).buffer_index(),
        },
{
    let kind = get_insn_kind(insn);
    register_kprobe_of_kind(table, addr, insn, kind, buf_addr, args)
}

/// Removes the probe at `addr`. A probe with a hit in flight is not
/// removed: the call is refused with `Busy` and the probe stays as it is.
/// On success the kernel carries out the plan that is returned.
pub fn unregister_kprobe(table: &mut KProbes, addr: usize) -> (r: Result<DisarmPlan, KProbeError>)
    requires
        old(table).wf(),
    ensures
        final(table).wf(),
        match r {
            Ok(plan) => {
                &&& old(table)@.contains_key(addr)
                &&& old(table)@[addr].active_count == 0
                &&& plan == (DisarmPlan {
                    addr,
                    buf_addr: old(table)@[addr].insn_buf.addr,
                    insn_len: old(table)@[addr].insn_len,
                })
                &&& final(table)@ == old(table)@.remove(addr)
                &&& final(table).buffer_index() == old(table).buffer_index().remove(
                    old(table)@[addr].next_bp_addr() as usize,
                )
            },
            Err(e) => {
                &&& final(table)@ == old(table)@
                &&& final(table).buffer_index() == old(table).buffer_index()
                &&& e == (if old(table)@.contains_key(addr) {
                    KProbeError::Busy
                } else {
                    KProbeError::NotRegistered
                })
                &&& old(table)@.contains_key(addr) ==> old(table)@[addr].active_count > 0
            },
        },
{
    let probe: KProbe = match table.get(addr) {
        Some(p) => p,
        None => {
            return Err(KProbeError::NotRegistered);
        },
    };
    if probe.active_count > 0 {
        return Err(KProbeError::Busy);
    }
    let plan = probe.disarm();
    let next_bp_addr: usize = probe.insn_buf.addr + probe.insn_len;
    let _ = table.addr_map.remove(&next_bp_addr);
    let _ = table.probes.remove(&addr);
    proof {
        assert forall|a: usize| #[trigger] table@.contains_key(a) implies {
            &&& table@[a].addr == a
            &&& (table@[a].insn_len == 2 || table@[a].insn_len == 4)
            &&& table@[a].next_bp_addr() <= usize::MAX
            &&& table.buffer_index().contains_key(table@[a].next_bp_addr() as usize)
            &&& table.buffer_index()[table@[a].next_bp_addr() as usize] == a
        } by {
            assert(old(table)@.contains_key(a));
            assert(old(table).buffer_index().contains_key(old(table)@[a].next_bp_addr() as usize));
        }
        assert forall|b: usize| #[trigger] table.buffer_index().contains_key(b) implies {
            &&& table@.contains_key(table.buffer_index()[b])
            &&& table@[table.buffer_index()[b]].next_bp_addr() == b
        } by {
            assert(old(table).buffer_index().contains_key(b));
            assert(old(table)@.contains_key(old(table).buffer_index()[b]));
        }
    }
    Ok(plan)
}

/// What a breakpoint trap at `pc` is. A trap at the address of a probe is
/// a first stage, and counts as a hit in flight from now on; a trap at the
/// breakpoint behind the copy of a probed instruction is the second stage
/// of that probe; any other trap is not handled.
pub fn kprobe_trap_handler(table: &mut KProbes, pc: usize) -> (stage: TrapStage)
    requires
        old(table).wf(),
    ensures
        final(table).wf(),
        final(table).buffer_index() == old(table).buffer_index(),
        final(table)@.dom() == old(table)@.dom(),
        if old(table)@.contains_key(pc) {
            let probe = old(table)@[pc];
            &&& stage == (TrapStage::FirstStage { addr: pc, user_data: probe.user_data })
            &&& final(table)@ == old(table)@.insert(
                pc,
                KProbe {
                    active_count: if probe.active_count < usize::MAX {
                        (probe.active_count + 1) as usize
                    } else {
                        probe.active_count
                    },
                    ..probe
                },
            )
        } else if old(table).buffer_index().contains_key(pc) {
            let probe = old(table)@[old(table).buffer_index()[pc]];
            &&& stage == (TrapStage::SecondStage {
                addr: probe.addr,
                user_data: probe.user_data,
                has_post_handler: probe.has_post_handler,
            })
            &&& final(table)@ == old(table)@
        } else {
            stage == TrapStage::NotHandled && final(table)@ == old(table)@
        },
{
    match table.get(pc) {
        Some(probe) => {
            // the breakpoint is hit for the first time
            let count: usize = if probe.active_count < usize::MAX {
                probe.active_count + 1
            } else {
                probe.active_count
            };
            table.store(pc, KProbe { active_count: count, ..probe });
            proof {
                assert(table@.dom() =~= old(table)@.dom());
            }
            return TrapStage::FirstStage { addr: pc, user_data: probe.user_data };
        },
        None => {},
    }
    let orig_addr: usize = match table.addr_map.get(&pc) {
        Some(a) => *a,
        None => {
            return TrapStage::NotHandled;
        },
    };
    match table.get(orig_addr) {
        Some(probe) => TrapStage::SecondStage {
            addr: orig_addr,
            user_data: probe.user_data,
            has_post_handler: probe.has_post_handler,
        },
        None => TrapStage::NotHandled,
    }
}

/// Steps over the instruction of the probe at `addr`, after the handler
/// that runs before it. An instruction that is emulated has its effect on
/// the trapped registers at once; any other is left to run from its copy,
/// to which the program counter is set.
pub fn kprobe_single_step(table: &KProbes, tf: &mut TrapFrame, addr: usize) -> (r: StepOutcome)
    requires
        table.wf(),
    ensures
        if !table@.contains_key(addr) {
            r == StepOutcome::NoProbe && *final(tf) == *old(tf)
        } else if table@[addr].emulate {
            &&& r == (StepOutcome::Emulated {
                user_data: table@[addr].user_data,
                has_post_handler: table@[addr].has_post_handler,
            })
            &&& *final(tf) == spec_emulate(
                *old(tf),
                spec_insn_kind(table@[addr].insn),
                table@[addr].insn,
                addr,
            )
        } else {
            r == StepOutcome::Redirected && *final(tf) == (TrapFrame {
                sepc: table@[addr].insn_buf.addr,
                ..*old(tf)
            })
        },
{
    let probe: KProbe = match table.get(addr) {
        Some(p) => p,
        None => {
            return StepOutcome::NoProbe;
        },
    };
    if probe.emulate {
        let kind = get_insn_kind(probe.insn);
        let _ = emulate_kind(tf, kind, probe.insn, probe.addr);
        return StepOutcome::Emulated {
            user_data: probe.user_data,
            has_post_handler: probe.has_post_handler,
        };
    }
    // the copy runs for real; the breakpoint behind it brings the second stage
    tf.sepc = probe.insn_buf.addr;
    StepOutcome::Redirected
}

/// Ends a hit of the probe at `addr`, after the handler that runs after
/// the instruction: the hit is no longer in flight. After a second stage
/// the program counter is set behind the probed instruction.
pub fn kprobe_finish(table: &mut KProbes, tf: &mut TrapFrame, addr: usize, second_stage: bool) -> (done:
    bool)
    requires
        old(table).wf(),
    ensures
        final(table).wf(),
        final(table).buffer_index() == old(table).buffer_index(),
        final(table)@.dom() == old(table)@.dom(),
        done == old(table)@.contains_key(addr),
        if old(table)@.contains_key(addr) {
            let probe = old(table)@[addr];
            &&& final(table)@ == old(table)@.insert(
                addr,
                KProbe {
                    active_count: if probe.active_count > 0 {
                        (probe.active_count - 1) as usize
                    } else {
                        0
                    },
                    ..probe
                },
            )
            &&& *final(tf) == (if second_stage {
                TrapFrame {
                    sepc: if addr + probe.insn_len <= usize::MAX {
                        (addr + probe.insn_len) as usize
                    } else {
                        (addr + probe.insn_len - usize::MAX - 1) as usize
                    },
                    ..*old(tf)
                }
            } else {
                *old(tf)
            })
        } else {
            final(table)@ == old(table)@ && *final(tf) == *old(tf)
        },
{
    let probe: KProbe = match table.get(addr) {
        Some(p) => p,
        None => {
            return false;
        },
    };
    let count: usize = if probe.active_count > 0 {
        probe.active_count - 1
    } else {
        0
    };
    table.store(addr, KProbe { active_count: count, ..probe });
    proof {
        assert(table@.dom() =~= old(table)@.dom());
    }
    if second_stage {
        tf.sepc = if addr > usize::MAX - probe.insn_len {
            probe.insn_len - (usize::MAX - addr) - 1
        } else {
            addr + probe.insn_len
        };
    }
    true
}

} // verus!
