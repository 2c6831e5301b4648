//! Return probes: a probe at the entry of a function, and the return of
//! the function caught by a trampoline.
//!
//! When the entry is hit, the return address of the call is put aside and
//! replaced by the address of the trampoline, where a breakpoint stands.
//! When the function returns there, the call that returns is the one that
//! was entered last; its return address is put back.

use vstd::prelude::*;
use std::collections::BTreeMap;
use crate::probe::kprobes::{
    KProbes, KProbe, InstructionBuffer, KProbeArgs, KProbeError, ArmPlan, DisarmPlan, register_kprobe, unregister_kprobe,
    spec_register,
};
use crate::probe::arch::{spec_insn_length, spec_insn_kind, step_type, SingleStepType};
use crate::probe::trapframe::{
    TrapFrame, spec_get_reg, spec_set_reg, get_trapframe_ra, set_trapframe_ra, get_trapframe_pc,
    set_trapframe_pc,
};

verus! {

broadcast use vstd::std_specs::btree::group_btree_axioms;

/// What is registered with a return probe.
#[derive(Clone, Copy, Debug, PartialEq, Eq, Structural)]
pub struct KRetProbeArgs {
    /// Whether a handler runs at the entry of the function, besides the
    /// one that runs at its exit.
    pub has_entry_handler: bool,
    /// The most calls that are followed at a time; `None` for no limit.
    pub limit: Option<usize>,
    /// A value of the owner's, handed to the handlers.
    pub user_data: usize,
}

/// The state of one return probe.
#[derive(Clone, Copy, Debug, PartialEq, Eq, Structural)]
pub struct KRetProbe {
    /// The entry address of the function.
    pub addr: usize,
    pub has_entry_handler: bool,
    pub limit: Option<usize>,
    pub user_data: usize,
    /// How many calls of the function are being followed.
    pub pending: usize,
}

/// A call that is being followed: the function and the return address that
/// was put aside.
#[derive(Clone, Copy, Debug, PartialEq, Eq, Structural)]
pub struct ReturnInstance {
    pub addr: usize,
    pub ret_addr: usize,
}

/// What the hit of an entry came to.
#[derive(Clone, Copy, Debug, PartialEq, Eq, Structural)]
pub enum EntryOutcome {
    /// There is no return probe at the address.
    NoProbe,
    /// As many calls as the limit allows are being followed: this one is
    /// not.
    LimitReached,
    /// The call is followed: the entry handler is due, if there is one.
    Entered { user_data: usize, has_entry_handler: bool },
}

impl EntryOutcome {
    /// Whether the handler that the probe at the entry carries is due
    /// after this outcome: always at an address without a return probe,
    /// never for a call that is not followed, and for a followed call if
    /// the return probe has an entry handler.
    pub open spec fn spec_entry_handler_due(self) -> bool {
        match self {
            EntryOutcome::NoProbe => true,
            EntryOutcome::LimitReached => false,
            EntryOutcome::Entered { has_entry_handler, .. } => has_entry_handler,
        }
    }

    /// Whether the handler that the probe at the entry carries is due
    /// after this outcome.
    pub fn entry_handler_due(&self) -> (due: bool)
        ensures
            due == self.spec_entry_handler_due(),
    {
        match self {
            EntryOutcome::NoProbe => true,
            EntryOutcome::LimitReached => false,
            EntryOutcome::Entered { has_entry_handler, .. } => *has_entry_handler,
        }
    }
}

/// What a trap at the trampoline came to.
#[derive(Clone, Copy, Debug, PartialEq, Eq, Structural)]
pub enum ReturnOutcome {
    /// The trap is not at the trampoline, or no call is being followed.
    NotHandled,
    /// The function at `addr` has returned: the exit handler is due.
    Returned { addr: usize, user_data: usize },
}

/// The return probes as contracts speak of them.
pub struct KRetModel {
    pub probes: Map<usize, KRetProbe>,
    /// The calls that are being followed, the last entered last.
    pub instances: Seq<ReturnInstance>,
    pub trampoline: usize,
}

impl KRetModel {
    /// Whether a call of the function at `addr` is followed when it is
    /// entered.
    pub open spec fn follows(self, addr: usize) -> bool {
        &&& self.probes.contains_key(addr)
        &&& match self.probes[addr].limit {
            Some(limit) => self.probes[addr].pending < limit,
            None => true,
        }
        &&& self.probes[addr].pending < usize::MAX
    }

    /// The state and the registers after the entry of the function at
    /// `addr` is hit: a call that is followed has its return address put
    /// aside and replaced by the trampoline.
    pub open spec fn enter(self, tf: TrapFrame, addr: usize) -> (KRetModel, TrapFrame) {
        if self.follows(addr) {
            (
                KRetModel {
                    probes: self.probes.insert(
                        addr,
                        KRetProbe {
                            pending: (self.probes[addr].pending + 1) as usize,
                            ..self.probes[addr]
                        },
                    ),
                    instances: self.instances.push(
                        ReturnInstance { addr, ret_addr: spec_get_reg(tf, 1) },
                    ),
                    ..self
                },
                spec_set_reg(tf, 1, self.trampoline),
            )
        } else {
            (self, tf)
        }
    }

    /// Whether a trap with these registers is the return of a call that is
    /// being followed.
    pub open spec fn is_return(self, tf: TrapFrame) -> bool {
        tf.sepc == self.trampoline && self.instances.len() > 0
    }

    /// The state and the registers after a function has returned to the
    /// trampoline: the call that was entered last is no longer followed,
    /// and execution goes on at its return address.
    pub open spec fn leave(self, tf: TrapFrame) -> (KRetModel, TrapFrame) {
        if self.is_return(tf) {
            let last = self.instances.last();
            (
                KRetModel {
                    probes: if self.probes.contains_key(last.addr) {
                        self.probes.insert(
                            last.addr,
                            KRetProbe {
                                pending: if self.probes[last.addr].pending > 0 {
                                    (self.probes[last.addr].pending - 1) as usize
                                } else {
                                    0
                                },
                                ..self.probes[last.addr]
                            },
                        )
                    } else {
                        self.probes
                    },
                    instances: self.instances.drop_last(),
                    ..self
                },
                spec_set_reg(TrapFrame { sepc: last.ret_addr, ..tf }, 1, last.ret_addr),
            )
        } else {
            (self, tf)
        }
    }
}

/// Entry and exit come in pairs: when a call that is followed returns to
/// the trampoline, execution goes on at the return address that the call
/// was entered with, whatever the function did to the other registers,
/// and the calls that were followed before are followed as before.
pub proof fn lemma_enter_then_leave(m: KRetModel, tf: TrapFrame, addr: usize, at_return: TrapFrame)
    requires
        m.follows(addr),
        at_return.sepc == m.trampoline,
    ensures
        ({
            let entered = m.enter(tf, addr);
            let left = entered.0.leave(at_return);
            &&& spec_get_reg(entered.1, 1) == m.trampoline
            &&& left.1.sepc == spec_get_reg(tf, 1)
            &&& spec_get_reg(left.1, 1) == spec_get_reg(tf, 1)
            &&& left.0.instances == m.instances
            &&& left.0.probes == m.probes
        }),
{
    let entered = m.enter(tf, addr);
    assert(entered.0.instances.drop_last() =~= m.instances);
    let left = entered.0.leave(at_return);
    assert(left.0.probes =~= m.probes);
    vstd::array::axiom_spec_array_update(tf.general, 1, m.trampoline);
    vstd::array::axiom_spec_array_update(
        at_return.general,
        1,
        entered.0.instances.last().ret_addr,
    );
}

/// The return probes, the calls that are being followed, and the address
/// of the trampoline.
pub struct KRetProbes {
    probes: BTreeMap<usize, KRetProbe>,
    instances: Vec<ReturnInstance>,
    trampoline: usize,
}

impl View for KRetProbes {
    type V = KRetModel;

    closed spec fn view(&self) -> KRetModel {
        KRetModel {
            probes: self.probes@,
            instances: self.instances@,
            trampoline: self.trampoline,
        }
    }
}

impl KRetProbes {
    /// No return probes. `trampoline` is the address of a breakpoint that
    /// the kernel has set up for functions to return to.
    pub fn new(trampoline: usize) -> (table: Self)
        ensures
            table@ == (KRetModel {
                probes: Map::empty(),
                instances: Seq::empty(),
                trampoline,
            }),
    {
        Self { probes: BTreeMap::new(), instances: Vec::new(), trampoline }
    }

    /// The return probe at an address.
    pub fn get(&self, addr: usize) -> (r: Option<KRetProbe>)
        ensures
            match r {
                Some(p) => self@.probes.contains_key(addr) && self@.probes[addr] == p,
                None => !self@.probes.contains_key(addr),
            },
    {
        match self.probes.get(&addr) {
            Some(p) => Some(*p),
            None => None,
        }
    }

    /// The address of the trampoline.
    pub fn trampoline(&self) -> (t: usize)
        ensures
            t == self@.trampoline,
    {
        self.trampoline
    }
}

/// Registers a return probe at the entry `addr` of a function: a probe is
/// set at the entry, as `register_kprobe` does, and the function is noted.
/// A function that has a return probe is refused like an address that has a
/// probe.
pub fn register_kretprobe(
    kprobes: &mut KProbes,
    table: &mut KRetProbes,
    addr: usize,
    insn: u32,
    buf_addr: usize,
    args: KRetProbeArgs,
) -> (r: Result<ArmPlan, KProbeError>)
    requires
        old(kprobes).wf(),
    ensures
        final(kprobes).wf(),
        final(table)@.instances == old(table)@.instances,
        final(table)@.trampoline == old(table)@.trampoline,
        match r {
            Ok(plan) => {
                &&& !old(table)@.probes.contains_key(addr)
                &&& spec_register(
                    old(kprobes),
                    addr,
                    spec_insn_length(insn),
                    spec_insn_kind(insn),
                    buf_addr,
                ) is Ok
                &&& plan == (ArmPlan { addr, buf_addr, insn_len: spec_insn_length(insn) })
                &&& final(kprobes)@ == old(kprobes)@.insert(
                    addr,
                    KProbe {
                        addr,
                        has_post_handler: false,
                        user_data: args.user_data,
                        insn_buf: InstructionBuffer { addr: buf_addr },
                        insn,
                        insn_len: spec_insn_length(insn),
                        active_count: 0,
                        emulate: step_type(spec_insn_length(insn), spec_insn_kind(insn))
                            == SingleStepType::Emulate,
                    },
                )
                &&& final(kprobes).buffer_index() == old(kprobes).buffer_index().insert(
                    (buf_addr + spec_insn_length(insn)) as usize,
                    addr,
                )
                &&& final(table)@.probes == old(table)@.probes.insert(
                    addr,
                    KRetProbe {
                        addr,
                        has_entry_handler: args.has_entry_handler,
                        limit: args.limit,
                        user_data: args.user_data,
                        pending: 0,
                    },
                )
            },
            Err(e) => {
                &&& final(kprobes)@ == old(kprobes)@
                &&& final(kprobes).buffer_index() == old(kprobes).buffer_index()
                &&& final(table)@ == old(table)@
                &&& e == (if old(table)@.probes.contains_key(addr) {
                    KProbeError::AlreadyRegistered
                } else {
                    spec_register(
                        old(kprobes),
                        addr,
                        spec_insn_length(insn),
                        spec_insn_kind(insn),
                        buf_addr,
                    )->Err_0
                })
                &&& !old(table)@.probes.contains_key(addr) ==> spec_register(
                    old(kprobes),
                    addr,
                    spec_insn_length(insn),
                    spec_insn_kind(insn),
                    buf_addr,
                ) is Err
            },
        },
{
    if table.probes.contains_key(&addr) {
        return Err(KProbeError::AlreadyRegistered);
    }
    let entry_args = KProbeArgs { has_post_handler: false, user_data: args.user_data };
    match register_kprobe(kprobes, addr, insn, buf_addr, entry_args) {
        Ok(plan) => {
            let _ = table.probes.insert(
                addr,
                KRetProbe {
                    addr,
                    has_entry_handler: args.has_entry_handler,
                    limit: args.limit,
                    user_data: args.user_data,
                    pending: 0,
                },
            );
            Ok(plan)
        },
        Err(e) => Err(e),
    }
}

/// Removes the return probe of the function at `addr`, and the probe at its
/// entry. A return probe with a call that is being followed, or with a hit
/// of its entry in flight, is not removed: the call is refused with `Busy`.
pub fn unregister_kretprobe(kprobes: &mut KProbes, table: &mut KRetProbes, addr: usize) -> (r: Result<
    DisarmPlan,
    KProbeError,
>)
    requires
        old(kprobes).wf(),
    ensures
        final(kprobes).wf(),
        final(table)@.instances == old(table)@.instances,
        final(table)@.trampoline == old(table)@.trampoline,
        match r {
            Ok(plan) => {
                &&& old(table)@.probes.contains_key(addr)
                &&& old(table)@.probes[addr].pending == 0
                &&& old(kprobes)@.contains_key(addr)
                &&& old(kprobes)@[addr].active_count == 0
                &&& final(kprobes)@ == old(kprobes)@.remove(addr)
                &&& final(table)@.probes == old(table)@.probes.remove(addr)
                &&& plan.addr == addr
            },
            Err(e) => {
                &&& final(kprobes)@ == old(kprobes)@
                &&& final(kprobes).buffer_index() == old(kprobes).buffer_index()
                &&& final(table)@ == old(table)@
                &&& e == (if !old(table)@.probes.contains_key(addr) || !old(kprobes)@.contains_key(
                    addr,
                ) {
                    KProbeError::NotRegistered
                } else {
                    KProbeError::Busy
                })
                &&& e == KProbeError::Busy ==> old(table)@.probes[addr].pending > 0 || old(kprobes)@[addr].active_count > 0
            },
        },
{
    let probe: KRetProbe = match table.get(addr) {
        Some(p) => p,
        None => {
            return Err(KProbeError::NotRegistered);
        },
    };
    if kprobes.get(addr).is_none() {
        return Err(KProbeError::NotRegistered);
    }
    if probe.pending > 0 {
        return Err(KProbeError::Busy);
    }
    match unregister_kprobe(kprobes, addr) {
        Ok(plan) => {
            let _ = table.probes.remove(&addr);
            Ok(plan)
        },
        Err(e) => Err(e),
    }
}

/// The entry of the function at `addr` is hit: a call that is followed
/// has its return address put aside and replaced by the trampoline.
pub fn kretprobe_entry(table: &mut KRetProbes, tf: &mut TrapFrame, addr: usize) -> (r: EntryOutcome)
    ensures
        (final(table)@, *final(tf)) == old(table)@.enter(*old(tf), addr),
        r == (if !old(table)@.probes.contains_key(addr) {
            EntryOutcome::NoProbe
        } else if !old(table)@.follows(addr) {
            EntryOutcome::LimitReached
        } else {
            EntryOutcome::Entered {
                user_data: old(table)@.probes[addr].user_data,
                has_entry_handler: old(table)@.probes[addr].has_entry_handler,
            }
        }),
{
    let probe: KRetProbe = match table.get(addr) {
        Some(p) => p,
        None => {
            return EntryOutcome::NoProbe;
        },
    };
    let room: bool = match probe.limit {
        Some(limit) => probe.pending < limit,
        None => true,
    };
    if !room || probe.pending == usize::MAX {
        return EntryOutcome::LimitReached;
    }
    let _ = table.probes.insert(addr, KRetProbe { pending: probe.pending + 1, ..probe });
    table.instances.push(ReturnInstance { addr, ret_addr: get_trapframe_ra(tf) });
    set_trapframe_ra(tf, table.trampoline);
    EntryOutcome::Entered {
        user_data: probe.user_data,
        has_entry_handler: probe.has_entry_handler,
    }
}

/// A breakpoint trap that may be the return of a function to the
/// trampoline: if it is, the call that was entered last is no longer
/// followed, and execution goes on at its return address.
pub fn kretprobe_return(table: &mut KRetProbes, tf: &mut TrapFrame) -> (r: ReturnOutcome)
    ensures
        (final(table)@, *final(tf)) == old(table)@.leave(*old(tf)),
        r == (if old(table)@.is_return(*old(tf)) {
            ReturnOutcome::Returned {
                addr: old(table)@.instances.last().addr,
                user_data: if old(table)@.probes.contains_key(
                    old(table)@.instances.last().addr,
                ) {
                    old(table)@.probes[old(table)@.instances.last().addr].user_data
                } else {
                    0
                },
            }
        } else {
            ReturnOutcome::NotHandled
        }),
{
    if get_trapframe_pc(tf) != table.trampoline || table.instances.len() == 0 {
        return ReturnOutcome::NotHandled;
    }
    let last: ReturnInstance = match table.instances.pop() {
        Some(i) => i,
        None => {
            return ReturnOutcome::NotHandled;
        },
    };
    let user_data: usize = match table.get(last.addr) {
        Some(probe) => {
            let pending: usize = if probe.pending > 0 {
                probe.pending - 1
            } else {
                0
            };
            let _ = table.probes.insert(last.addr, KRetProbe { pending, ..probe });
            probe.user_data
        },
        None => 0,
    };
    set_trapframe_pc(tf, last.ret_addr);
    set_trapframe_ra(tf, last.ret_addr);
    ReturnOutcome::Returned { addr: last.addr, user_data }
}

} // verus!
