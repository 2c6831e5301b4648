//! Dynamic tracing: probes on the calls of a function, and on the calls of
//! the functions that those reach, one level at a time.

use vstd::prelude::*;
use crate::probe::kprobes::{
    KProbes, KProbe, KProbeArgs, InstructionBuffer, ArmPlan, DisarmPlan, register_kprobe,
    unregister_kprobe,
};
use crate::probe::arch::{spec_insn_length, spec_insn_kind, step_type, SingleStepType};
use crate::probe::trapframe::{TrapFrame, get_trapframe_pc};

verus! {

/// A call instruction to probe: its address, the first 32 bits at that
/// address, and the address of a page for the copy of the instruction.
#[derive(Clone, Copy, Debug, PartialEq, Eq, Structural)]
pub struct ProbeSite {
    pub addr: usize,
    pub insn: u32,
    pub buf_addr: usize,
}

/// What tracing has found so far.
pub struct TraceSamples {
    /// The depth of the functions whose calls are probed at present.
    pub depth: usize,
    /// The functions that were seen, each with its depth, in the order in
    /// which they were first seen.
    pub targets: Vec<(usize, usize)>,
    /// The addresses of the call instructions that carry a probe.
    pub calls: Vec<usize>,
}

/// The place of the function at `addr` among the targets from `from` on;
/// the number of targets if it is not among them.
pub open spec fn target_index(targets: Seq<(usize, usize)>, addr: usize, from: int) -> int
    decreases targets.len() - from,
{
    if from < 0 || from >= targets.len() {
        targets.len() as int
    } else if targets[from].0 == addr {
        from
    } else {
        target_index(targets, addr, from + 1)
    }
}

/// The targets with the depth of the function at `addr` set: in place if
/// it is among them, behind them if not.
pub open spec fn set_target(targets: Seq<(usize, usize)>, addr: usize, depth: usize) -> Seq<
    (usize, usize),
> {
    let i = target_index(targets, addr, 0);
    if i < targets.len() {
        targets.update(i, (addr, depth))
    } else {
        targets.push((addr, depth))
    }
}

/// The functions of the given depth among the first `n` targets, in order.
pub open spec fn targets_at_depth(targets: Seq<(usize, usize)>, depth: usize, n: int) -> Seq<usize>
    decreases n,
{
    if n <= 0 {
        Seq::empty()
    } else if targets[n - 1].1 == depth {
        targets_at_depth(targets, depth, n - 1).push(targets[n - 1].0)
    } else {
        targets_at_depth(targets, depth, n - 1)
    }
}

/// The depth after a step: one more, as far as a machine word counts.
pub open spec fn next_depth(depth: usize) -> usize {
    if depth < usize::MAX {
        (depth + 1) as usize
    } else {
        depth
    }
}

/// Whether the probe at `addr` can be removed: there is one, and no hit of
/// it is in flight.
pub open spec fn removable(probes: Map<usize, KProbe>, addr: usize) -> bool {
    probes.contains_key(addr) && probes[addr].active_count == 0
}

/// The probes that are left after the probes at the first `n` of the
/// addresses were removed in turn, as far as each could be removed.
pub open spec fn probes_after_removal(
    probes: Map<usize, KProbe>,
    calls: Seq<usize>,
    n: int,
) -> Map<usize, KProbe>
    decreases n,
{
    if n <= 0 {
        probes
    } else {
        let before = probes_after_removal(probes, calls, n - 1);
        if removable(before, calls[n - 1]) {
            before.remove(calls[n - 1])
        } else {
            before
        }
    }
}

/// The buffer breakpoints that are left after the probes at the first `n`
/// of the addresses were removed in turn.
pub open spec fn buffers_after_removal(
    probes: Map<usize, KProbe>,
    buffers: Map<usize, usize>,
    calls: Seq<usize>,
    n: int,
) -> Map<usize, usize>
    decreases n,
{
    if n <= 0 {
        buffers
    } else {
        let before = probes_after_removal(probes, calls, n - 1);
        let left = buffers_after_removal(probes, buffers, calls, n - 1);
        if removable(before, calls[n - 1]) {
            left.remove(before[calls[n - 1]].next_bp_addr() as usize)
        } else {
            left
        }
    }
}

/// What the kernel has to do for the probes that were removed among those
/// at the first `n` of the addresses, in the order of the addresses.
pub open spec fn removal_plans(probes: Map<usize, KProbe>, calls: Seq<usize>, n: int) -> Seq<
    DisarmPlan,
>
    decreases n,
{
    if n <= 0 {
        Seq::empty()
    } else {
        let before = probes_after_removal(probes, calls, n - 1);
        let plans = removal_plans(probes, calls, n - 1);
        if removable(before, calls[n - 1]) {
            plans.push(
                DisarmPlan {
                    addr: calls[n - 1],
                    buf_addr: before[calls[n - 1]].insn_buf.addr,
                    insn_len: before[calls[n - 1]].insn_len,
                },
            )
        } else {
            plans
        }
    }
}

impl TraceSamples {
    /// Nothing found, at depth 0.
    pub fn new() -> (samples: Self)
        ensures
            samples.depth == 0,
            samples.targets@.len() == 0,
            samples.calls@.len() == 0,
    {
        Self { depth: 0, targets: Vec::new(), calls: Vec::new() }
    }

    // The place of a function among the targets.
    fn find_target(&self, addr: usize) -> (r: usize)
        ensures
            r == target_index(self.targets@, addr, 0),
            r <= self.targets@.len(),
            r < self.targets@.len() ==> self.targets@[r as int].0 == addr,
    {
        let n: usize = self.targets.len();
        let mut i: usize = 0;
        while i < n
            invariant
                i <= n,
                n == self.targets@.len(),
                target_index(self.targets@, addr, 0) == target_index(self.targets@, addr, i as int),
            decreases n - i,
        {
            if self.targets[i].0 == addr {
                return i;
            }
            i += 1;
        }
        n
    }

    /// Notes that the function at `pc` was called from a probed call: a
    /// function that is seen for the first time is one level below the
    /// present depth.
    pub fn record_target(&mut self, pc: usize)
        ensures
            final(self).depth == old(self).depth,
            final(self).calls@ == old(self).calls@,
            final(self).targets@ == (if target_index(old(self).targets@, pc, 0) < old(self).targets@.len() {
                old(self).targets@
            } else {
                old(self).targets@.push((pc, next_depth(old(self).depth)))
            }),
    {
        if self.find_target(pc) >= self.targets.len() {
            let below: usize = if self.depth < usize::MAX {
                self.depth + 1
            } else {
                self.depth
            };
            self.targets.push((pc, below));
        }
    }

    /// Removes the probes of all call instructions that carry one, in the
    /// order in which the calls were noted, and returns what the kernel has
    /// to do for each probe that was removed. A probe with a hit in flight
    /// stays, and so does every probe at another address.
    pub fn unregister_all(&self, probes: &mut KProbes) -> (plans: Vec<DisarmPlan>)
        requires
            old(probes).wf(),
        ensures
            final(probes).wf(),
            final(probes)@ == probes_after_removal(
                old(probes)@,
                self.calls@,
                self.calls@.len() as int,
            ),
            final(probes).buffer_index() == buffers_after_removal(
                old(probes)@,
                old(probes).buffer_index(),
                self.calls@,
                self.calls@.len() as int,
            ),
            plans@ == removal_plans(old(probes)@, self.calls@, self.calls@.len() as int),
    {
        let mut plans: Vec<DisarmPlan> = Vec::new();
        let n: usize = self.calls.len();
        let mut i: usize = 0;
        while i < n
            invariant
                i <= n,
                n == self.calls@.len(),
                probes.wf(),
                probes@ == probes_after_removal(old(probes)@, self.calls@, i as int),
                probes.buffer_index() == buffers_after_removal(
                    old(probes)@,
                    old(probes).buffer_index(),
                    self.calls@,
                    i as int,
                ),
                plans@ == removal_plans(old(probes)@, self.calls@, i as int),
            decreases n - i,
        {
            match unregister_kprobe(probes, self.calls[i]) {
                Ok(plan) => {
                    plans.push(plan);
                },
                Err(_) => {},
            }
            i += 1;
        }
        plans
    }
}

/// The removal of probes removes nothing but probes at the given
/// addresses, and a probe that a plan was returned for is gone.
pub proof fn lemma_removal(probes: Map<usize, KProbe>, calls: Seq<usize>, n: int)
    requires
        0 <= n <= calls.len(),
    ensures
        probes_after_removal(probes, calls, n).dom().subset_of(probes.dom()),
        removal_plans(probes, calls, n).len() <= n,
        forall|a: usize|
            probes.contains_key(a) && !calls.take(n).contains(a) ==> #[trigger] probes_after_removal(
                probes,
                calls,
                n,
            ).contains_key(a) && probes_after_removal(probes, calls, n)[a] == probes[a],
        forall|a: usize|
            #[trigger] probes_after_removal(probes, calls, n).contains_key(a)
                ==> probes_after_removal(probes, calls, n)[a] == probes[a],
        forall|i: int|
            0 <= i < removal_plans(probes, calls, n).len() ==> !probes_after_removal(
                probes,
                calls,
                n,
            ).contains_key((#[trigger] removal_plans(probes, calls, n)[i]).addr),
    decreases n,
{
    if n > 0 {
        lemma_removal(probes, calls, n - 1);
        let before = probes_after_removal(probes, calls, n - 1);
        let after = probes_after_removal(probes, calls, n);
        assert forall|a: usize|
            probes.contains_key(a) && !calls.take(n).contains(a) implies #[trigger] after.contains_key(
            a,
        ) && after[a] == probes[a] by {
            assert(calls.take(n)[n - 1] == calls[n - 1]);
            if calls.take(n - 1).contains(a) {
                let k = choose|k: int|
                    0 <= k < calls.take(n - 1).len() && #[trigger] calls.take(n - 1)[k] == a;
                assert(calls.take(n)[k] == a);
            }
            assert(before.contains_key(a));
        }
        assert forall|i: int| 0 <= i < removal_plans(probes, calls, n).len() implies !after.contains_key(
            (#[trigger] removal_plans(probes, calls, n)[i]).addr,
        ) by {
            let earlier = removal_plans(probes, calls, n - 1);
            if i < earlier.len() {
                assert(removal_plans(probes, calls, n)[i] == earlier[i]);
                assert(!before.contains_key(earlier[i].addr));
            }
        }
    }
}

/// The handler that runs before a probed call: it does nothing.
pub fn dynamic_trace_kprobe_pre_handler(_tf: &TrapFrame, _data: usize) -> (r: isize)
    ensures
        r == 0,
{
    0
}

/// The handler that runs after a probed call, when the program counter is
/// at the function that was called: it notes the function.
pub fn dynamic_trace_kprobe_post_handler(samples: &mut TraceSamples, tf: &TrapFrame, _data: usize) -> (r:
    isize)
    ensures
        r == 0,
        final(samples).depth == old(samples).depth,
        final(samples).calls@ == old(samples).calls@,
        final(samples).targets@ == (if target_index(old(samples).targets@, tf.sepc, 0) < old(samples).targets@.len() {
            old(samples).targets@
        } else {
            old(samples).targets@.push((tf.sepc, next_depth(old(samples).depth)))
        }),
{
    let pc: usize = get_trapframe_pc(tf);
    samples.record_target(pc);
    0
}

/// Whether a probe is set at a site: the address has no probe, the
/// instruction can be probed, and the breakpoint behind its copy serves no
/// other probe.
pub open spec fn site_accepted(
    probes: Map<usize, KProbe>,
    buffers: Map<usize, usize>,
    site: ProbeSite,
) -> bool {
    let len = spec_insn_length(site.insn);
    &&& !probes.contains_key(site.addr)
    &&& step_type(len, spec_insn_kind(site.insn)) != SingleStepType::Unsupported
    &&& site.buf_addr + len <= usize::MAX
    &&& !buffers.contains_key((site.buf_addr + len) as usize)
}

/// The probe that tracing sets at a site: it has a handler that runs after
/// the call and carries the depth at which it was set.
pub open spec fn site_probe(site: ProbeSite, depth: usize) -> KProbe {
    KProbe {
        addr: site.addr,
        has_post_handler: true,
        user_data: depth,
        insn_buf: InstructionBuffer { addr: site.buf_addr },
        insn: site.insn,
        insn_len: spec_insn_length(site.insn),
        active_count: 0,
        emulate: step_type(spec_insn_length(site.insn), spec_insn_kind(site.insn))
            == SingleStepType::Emulate,
    }
}

/// The probes after a probe was set at each of the first `n` sites in
/// turn, as far as each was accepted.
pub open spec fn probes_after_sites(
    probes: Map<usize, KProbe>,
    buffers: Map<usize, usize>,
    sites: Seq<ProbeSite>,
    depth: usize,
    n: int,
) -> Map<usize, KProbe>
    decreases n,
{
    if n <= 0 {
        probes
    } else {
        let before = probes_after_sites(probes, buffers, sites, depth, n - 1);
        let held = buffers_after_sites(probes, buffers, sites, depth, n - 1);
        if site_accepted(before, held, sites[n - 1]) {
            before.insert(sites[n - 1].addr, site_probe(sites[n - 1], depth))
        } else {
            before
        }
    }
}

/// The buffer breakpoints after a probe was set at each of the first `n`
/// sites in turn, as far as each was accepted.
pub open spec fn buffers_after_sites(
    probes: Map<usize, KProbe>,
    buffers: Map<usize, usize>,
    sites: Seq<ProbeSite>,
    depth: usize,
    n: int,
) -> Map<usize, usize>
    decreases n,
{
    if n <= 0 {
        buffers
    } else {
        let before = probes_after_sites(probes, buffers, sites, depth, n - 1);
        let held = buffers_after_sites(probes, buffers, sites, depth, n - 1);
        if site_accepted(before, held, sites[n - 1]) {
            held.insert(
                (sites[n - 1].buf_addr + spec_insn_length(sites[n - 1].insn)) as usize,
                sites[n - 1].addr,
            )
        } else {
            held
        }
    }
}

/// What the kernel has to do for the probes that were set among the first
/// `n` sites, in the order of the sites.
pub open spec fn site_plans(
    probes: Map<usize, KProbe>,
    buffers: Map<usize, usize>,
    sites: Seq<ProbeSite>,
    depth: usize,
    n: int,
) -> Seq<ArmPlan>
    decreases n,
{
    if n <= 0 {
        Seq::empty()
    } else {
        let before = probes_after_sites(probes, buffers, sites, depth, n - 1);
        let held = buffers_after_sites(probes, buffers, sites, depth, n - 1);
        let plans = site_plans(probes, buffers, sites, depth, n - 1);
        if site_accepted(before, held, sites[n - 1]) {
            plans.push(
                ArmPlan {
                    addr: sites[n - 1].addr,
                    buf_addr: sites[n - 1].buf_addr,
                    insn_len: spec_insn_length(sites[n - 1].insn),
                },
            )
        } else {
            plans
        }
    }
}

/// The addresses that plans are for, in order.
pub open spec fn plan_addrs(plans: Seq<ArmPlan>) -> Seq<usize> {
    Seq::new(plans.len(), |i: int| plans[i].addr)
}

/// Puts a probe on each of the call instructions of the function at
/// `fn_entry`, and notes the function at the present depth. The sites are
/// taken in turn; a call instruction whose probe is refused is passed
/// over. Returns what the kernel has to do for each probe that was set;
/// the addresses of those probes are added to the calls that carry one.
pub fn trace_root_function(
    samples: &mut TraceSamples,
    probes: &mut KProbes,
    fn_entry: usize,
    sites: &[ProbeSite],
) -> (plans: Vec<ArmPlan>)
    requires
        old(probes).wf(),
    ensures
        final(probes).wf(),
        final(samples).depth == old(samples).depth,
        final(samples).targets@ == set_target(old(samples).targets@, fn_entry, old(samples).depth),
        final(probes)@ == probes_after_sites(
            old(probes)@,
            old(probes).buffer_index(),
            sites@,
            old(samples).depth,
            sites@.len() as int,
        ),
        final(probes).buffer_index() == buffers_after_sites(
            old(probes)@,
            old(probes).buffer_index(),
            sites@,
            old(samples).depth,
            sites@.len() as int,
        ),
        plans@ == site_plans(
            old(probes)@,
            old(probes).buffer_index(),
            sites@,
            old(samples).depth,
            sites@.len() as int,
        ),
        final(samples).calls@ == old(samples).calls@ + plan_addrs(plans@),
{
    let mut plans: Vec<ArmPlan> = Vec::new();
    let n: usize = sites.len();
    let mut i: usize = 0;
    while i < n
        invariant
            i <= n,
            n == sites@.len(),
            probes.wf(),
            samples.depth == old(samples).depth,
            samples.targets@ == old(samples).targets@,
            probes@ == probes_after_sites(
                old(probes)@,
                old(probes).buffer_index(),
                sites@,
                samples.depth,
                i as int,
            ),
            probes.buffer_index() == buffers_after_sites(
                old(probes)@,
                old(probes).buffer_index(),
                sites@,
                samples.depth,
                i as int,
            ),
            plans@ == site_plans(
                old(probes)@,
                old(probes).buffer_index(),
                sites@,
                samples.depth,
                i as int,
            ),
            samples.calls@ == old(samples).calls@ + plan_addrs(plans@),
        decreases n - i,
    {
        let site = sites[i];
        let args = KProbeArgs { has_post_handler: true, user_data: samples.depth };
        let ghost plans_before = plans@;
        let ghost calls_before = samples.calls@;
        match register_kprobe(probes, site.addr, site.insn, site.buf_addr, args) {
            Ok(plan) => {
                samples.calls.push(site.addr);
                plans.push(plan);
                proof {
                    assert(plan_addrs(plans@) =~= plan_addrs(plans_before).push(site.addr));
                    assert(samples.calls@ =~= old(samples).calls@ + plan_addrs(plans@));
                }
            },
            Err(_) => {},
        }
        i += 1;
    }
    let at: usize = samples.find_target(fn_entry);
    if at < samples.targets.len() {
        samples.targets.set(at, (fn_entry, samples.depth));
    } else {
        samples.targets.push((fn_entry, samples.depth));
    }
    plans
}

/// Goes one level down: the depth grows by one, and the functions that
/// were seen at the new depth are returned, to be traced in turn.
pub fn trace_next_step(samples: &mut TraceSamples) -> (target_fns: Vec<usize>)
    ensures
        final(samples).depth == next_depth(old(samples).depth),
        final(samples).targets@ == old(samples).targets@,
        final(samples).calls@ == old(samples).calls@,
        target_fns@ == targets_at_depth(
            old(samples).targets@,
            next_depth(old(samples).depth),
            old(samples).targets@.len() as int,
        ),
{
    let mut target_fns: Vec<usize> = Vec::new();
    if samples.depth < usize::MAX {
        samples.depth += 1;
    }
    let n: usize = samples.targets.len();
    let mut i: usize = 0;
    while i < n
        invariant
            i <= n,
            n == samples.targets@.len(),
            samples.depth == next_depth(old(samples).depth),
            samples.targets@ == old(samples).targets@,
            samples.calls@ == old(samples).calls@,
            target_fns@ == targets_at_depth(samples.targets@, samples.depth, i as int),
        decreases n - i,
    {
        if samples.targets[i].1 == samples.depth {
            target_fns.push(samples.targets[i].0);
        }
        i += 1;
    }
    target_fns
}

} // verus!
