//! The helper functions that compiled programs call, as far as they
//! compute: each takes what the kernel looked up for it and returns the
//! number that the program sees.

use vstd::prelude::*;
use crate::retcode::{BpfResult};
use crate::objects::{
    BpfObjects, spec_map_op, bpf_map_lookup_elem, bpf_map_update_elem, bpf_map_delete_elem,
};
use crate::map::{MapOpAttr, BpfMapOp};
use crate::syscall::ThreadLike;

verus! {

/// The number of entries of the helper table.
pub const HELPER_FN_COUNT: usize = 17;

/// The helpers by their place in the helper table.
#[derive(Clone, Copy, Debug, PartialEq, Eq, Structural)]
pub enum BpfHelper {
    Nop,
    MapLookupElem,
    MapUpdateElem,
    MapDeleteElem,
    ProbeRead,
    KtimeGetNs,
    TracePrintk,
    GetPrandomU32,
    GetSmpProcessorId,
    GetCurrentPidTgid,
    GetCurrentComm,
}

/// The helper at each place of the table. The places of helpers that do
/// not exist hold the helper that does nothing.
pub open spec fn spec_helper_at(index: usize) -> Option<BpfHelper> {
    if index >= HELPER_FN_COUNT {
        None
    } else if index == 1 {
        Some(BpfHelper::MapLookupElem)
    } else if index == 2 {
        Some(BpfHelper::MapUpdateElem)
    } else if index == 3 {
        Some(BpfHelper::MapDeleteElem)
    } else if index == 4 {
        Some(BpfHelper::ProbeRead)
    } else if index == 5 {
        Some(BpfHelper::KtimeGetNs)
    } else if index == 6 {
        Some(BpfHelper::TracePrintk)
    } else if index == 7 {
        Some(BpfHelper::GetPrandomU32)
    } else if index == 8 {
        Some(BpfHelper::GetSmpProcessorId)
    } else if index == 14 {
        Some(BpfHelper::GetCurrentPidTgid)
    } else if index == 16 {
        Some(BpfHelper::GetCurrentComm)
    } else {
        Some(BpfHelper::Nop)
    }
}

/// The helper at a place of the table.
pub fn helper_at(index: usize) -> (r: Option<BpfHelper>)
    ensures
        r == spec_helper_at(index),
{
    if index >= HELPER_FN_COUNT {
        None
    } else if index == 1 {
        Some(BpfHelper::MapLookupElem)
    } else if index == 2 {
        Some(BpfHelper::MapUpdateElem)
    } else if index == 3 {
        Some(BpfHelper::MapDeleteElem)
    } else if index == 4 {
        Some(BpfHelper::ProbeRead)
    } else if index == 5 {
        Some(BpfHelper::KtimeGetNs)
    } else if index == 6 {
        Some(BpfHelper::TracePrintk)
    } else if index == 7 {
        Some(BpfHelper::GetPrandomU32)
    } else if index == 8 {
        Some(BpfHelper::GetSmpProcessorId)
    } else if index == 14 {
        Some(BpfHelper::GetCurrentPidTgid)
    } else if index == 16 {
        Some(BpfHelper::GetCurrentComm)
    } else {
        Some(BpfHelper::Nop)
    }
}

/// The number that a program sees for the result of a map operation: the
/// value on success and -1 on refusal.
pub open spec fn helper_result(r: BpfResult) -> i64 {
    match r {
        Ok(val) => val as i64,
        Err(_) => -1i64,
    }
}

fn to_helper_result(r: BpfResult) -> (n: i64)
    ensures
        n == helper_result(r),
{
    match r {
        Ok(val) => #[verifier::truncate]
        (val as i64),
        Err(_) => -1,
    }
}

/// Looks up `key` in the map under `fd` and leaves the value in `value`.
pub fn bpf_helper_map_lookup_elem(
    objs: &mut BpfObjects,
    fd: u64,
    key: &[u8],
    value: &mut Vec<u8>,
) -> (r: i64)
    requires
        old(objs).wf(),
    ensures
        final(objs).wf(),
        final(objs).same_except(old(objs), fd as u32),
        final(objs).keeps_slots(old(objs), None),
        match old(objs).map_model(fd as u32) {
            None => r == -1 && final(value)@ == old(value)@,
            Some(m) => match spec_map_op(m, BpfMapOp::LookUp, key@, old(value)@, 0) {
                Ok((after, out)) => r == 0 && final(value)@ == out,
                Err(_) => r == -1 && final(value)@ == old(value)@,
            },
        },
{
    let attr = MapOpAttr { map_fd: #[verifier::truncate]
    (fd as u32), key: 0, value_or_nextkey: 0, flags: 0 };
    to_helper_result(bpf_map_lookup_elem(objs, attr, key, value))
}

/// Stores `value` under `key` in the map under `fd`.
pub fn bpf_helper_map_update_elem(
    objs: &mut BpfObjects,
    fd: u64,
    key: &[u8],
    value: &mut Vec<u8>,
    flags: u64,
) -> (r: i64)
    requires
        old(objs).wf(),
    ensures
        final(objs).wf(),
        final(objs).same_except(old(objs), fd as u32),
        final(objs).keeps_slots(old(objs), None),
        final(value)@ == old(value)@,
        match old(objs).map_model(fd as u32) {
            None => r == -1 && final(objs)@ == old(objs)@,
            Some(m) => match spec_map_op(m, BpfMapOp::Update, key@, old(value)@, flags) {
                Ok((after, out)) => r == 0 && final(objs).map_model(fd as u32) == Some(after),
                Err(_) => r == -1 && final(objs).map_model(fd as u32) == Some(m),
            },
        },
{
    let attr = MapOpAttr { map_fd: #[verifier::truncate]
    (fd as u32), key: 0, value_or_nextkey: 0, flags };
    to_helper_result(bpf_map_update_elem(objs, attr, key, value))
}

/// Removes the pair under `key` from the map under `fd`.
pub fn bpf_helper_map_delete_elem(objs: &mut BpfObjects, fd: u64, key: &[u8]) -> (r: i64)
    requires
        old(objs).wf(),
    ensures
        final(objs).wf(),
        final(objs).same_except(old(objs), fd as u32),
        final(objs).keeps_slots(old(objs), Some((fd as u32, key@))),
        match old(objs).map_model(fd as u32) {
            None => r == -1 && final(objs)@ == old(objs)@,
            Some(m) => match spec_map_op(m, BpfMapOp::Delete, key@, Seq::<u8>::empty(), 0) {
                Ok((after, out)) => r == 0 && final(objs).map_model(fd as u32) == Some(after),
                Err(_) => r == -1 && final(objs).map_model(fd as u32) == Some(m),
            },
        },
{
    let attr = MapOpAttr { map_fd: #[verifier::truncate]
    (fd as u32), key: 0, value_or_nextkey: 0, flags: 0 };
    let mut unused: Vec<u8> = Vec::new();
    to_helper_result(bpf_map_delete_elem(objs, attr, key, &mut unused))
}

/// The helper that does nothing.
pub fn bpf_helper_nop(_1: u64, _2: u64, _3: u64, _4: u64, _5: u64) -> (r: i64)
    ensures
        r == 0,
{
    0
}

/// The time of the kernel clock in nanoseconds, as a program sees it: the
/// low 64 bits of `now`.
pub fn bpf_helper_ktime_get_ns(now: u128) -> (r: i64)
    ensures
        r == now as i64,
{
    #[verifier::truncate]
    (now as i64)
}

/// The number of the processor, as a program sees it.
pub fn bpf_helper_get_smp_processor_id(cpu: u8) -> (r: i64)
    ensures
        r == cpu,
{
    cpu as i64
}

/// The process and thread group of a thread, as a program sees them: the
/// process id in both halves of a 64-bit number.
pub open spec fn spec_pid_tgid(pid: u64) -> i64 {
    ((pid << 32) | pid) as i64
}

/// The process and thread group of the current thread. The thread group
/// is the process.
pub fn bpf_helper_get_current_pid_tgid<T: ThreadLike>(thread: &T) -> (r: i64)
    ensures
        exists|pid: u64| r == #[trigger] spec_pid_tgid(pid),
{
    let pid: u64 = thread.get_pid();
    pid_tgid(pid)
}

/// The process id in both halves of a 64-bit number.
pub fn pid_tgid(pid: u64) -> (r: i64)
    ensures
        r == spec_pid_tgid(pid),
{
    #[verifier::truncate]
    (((pid << 32) | pid) as i64)
}

/// What `bpf_helper_get_current_comm` leaves in `dst` and returns for a
/// thread of the given name: the name and a zero byte, and the length of
/// the name; or nothing and -1 if the name is longer than the buffer, or
/// than a signed 64-bit number can say.
pub open spec fn spec_current_comm(name: Seq<u8>, buf_size: u64) -> (Seq<u8>, i64) {
    if name.len() > buf_size || name.len() > i64::MAX {
        (Seq::empty(), -1i64)
    } else {
        (name.push(0), name.len() as i64)
    }
}

/// Copies the name of the current thread, and a zero byte behind it, into
/// `dst`.
pub fn bpf_helper_get_current_comm(name: &[u8], buf_size: u64, dst: &mut Vec<u8>) -> (r: i64)
    ensures
        r == spec_current_comm(name@, buf_size).1,
        r >= 0 ==> final(dst)@ == spec_current_comm(name@, buf_size).0,
        r < 0 ==> final(dst)@ == old(dst)@,
{
    let len: usize = name.len();
    if len as u128 > buf_size as u128 || len as u128 > i64::MAX as u128 {
        return -1;
    }
    dst.clear();
    dst.extend_from_slice(name);
    dst.push(0);
    assert(dst@ =~= name@.push(0));
    len as i64
}

/// The text that `dyn_fmt` makes of a format string and three numbers:
/// each `{}` in turn is replaced by the next number.
pub uninterp spec fn trace_text(fmt: Seq<char>, p1: u64, p2: u64, p3: u64) -> Seq<char>;

/// Formats with `dyn_fmt::Arguments::new`, which replaces each `{}` of the
/// format string by the next argument, drops arguments that are left over
/// and puts nothing where an argument is missing. The result is a function
/// of the format string and the numbers alone; its name in contracts is
/// `trace_text`.
#[verifier::external_body]
fn format_trace(fmt: &str, p1: u64, p2: u64, p3: u64) -> (text: String)
    ensures
        text@ == trace_text(fmt@, p1, p2, p3),
{
    dyn_fmt::Arguments::new(fmt, &[p1, p2, p3]).to_string()
}

/// The text that a program's `trace_printk` writes to the console, and the
/// number that the program sees.
pub fn bpf_helper_trace_printk(fmt: &str, p1: u64, p2: u64, p3: u64) -> (r: (String, i64))
    ensures
        r.0@ == trace_text(fmt@, p1, p2, p3),
        r.1 == 0,
{
    (format_trace(fmt, p1, p2, p3), 0)
}

} // verus!
