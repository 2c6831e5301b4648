//! The boundary to the system call layer: reading the attribute structures
//! of the `bpf` system call from bytes, and turning results into the
//! numbers that user space sees.

use vstd::prelude::*;
use crate::consts::BpfCommand;
use crate::retcode::{BpfErrorCode, BpfResult};
use crate::map::{MapAttr, MapOpAttr};
use crate::objects::{
    BpfObjects, BpfObject, BPF_FD_BASE, bpf_map_create, spec_map_create, spec_map_create_result,
    bpf_map_ops, bpf_map_get_attr, spec_map_op, spec_map_ops_result,
};
use crate::map::BpfMapOp;
use crate::map::internal::InternalMapAttr;
use crate::program::{
    MapFdTable, MapFdEntry, ProgramLoadExAttr, Verdict, bpf_program_load_ex, spec_load,
    spec_load_result, read_u32, read_u64,
};
use crate::tracepoints::KprobeAttachAttr;

verus! {

/// What the helpers read of a thread.
pub trait ThreadLike {
    fn get_pid(&self) -> u64;

    fn get_tid(&self) -> u64;

    fn get_name(&self) -> String;
}

/// The number that user space sees for a result: the value, reduced to 32
/// bits, on success and -1 on refusal.
pub open spec fn spec_convert_result(result: BpfResult) -> i32 {
    match result {
        Ok(val) => val as i32,
        Err(_) => -1i32,
    }
}

/// The number that user space sees for a result.
pub fn convert_result(result: BpfResult) -> (r: i32)
    ensures
        r == spec_convert_result(result),
{
    match result {
        Ok(val) => #[verifier::truncate]
        (val as i32),
        Err(_) => -1,
    }
}

/// The command that a `bpf` system call carries out. A number that names no
/// command, and a command that is not carried out, are refused with
/// `NotImplemented`.
pub open spec fn spec_command(cmd: i32) -> Result<BpfCommand, BpfErrorCode> {
    match BpfCommand::spec_try_from(cmd) {
        None => Err(BpfErrorCode::NotImplemented),
        Some(BpfCommand::BPF_PROG_LOAD) => Err(BpfErrorCode::NotImplemented),
        Some(BpfCommand::BPF_PROG_DETACH) => Err(BpfErrorCode::NotImplemented),
        Some(c) => Ok(c),
    }
}

/// The command that a `bpf` system call carries out.
pub fn sys_bpf(cmd: i32) -> (r: Result<BpfCommand, BpfErrorCode>)
    ensures
        r == spec_command(cmd),
{
    match BpfCommand::try_from(cmd) {
        None => Err(BpfErrorCode::NotImplemented),
        Some(BpfCommand::BPF_PROG_LOAD) => Err(BpfErrorCode::NotImplemented),
        Some(BpfCommand::BPF_PROG_DETACH) => Err(BpfErrorCode::NotImplemented),
        Some(c) => Ok(c),
    }
}

// The 32-bit little-endian number at `at`.
fn get_u32(bytes: &[u8], at: usize) -> (v: u32)
    requires
        at + 4 <= bytes@.len(),
    ensures
        v == read_u32(bytes@, at as int),
{
    let len: usize = bytes.len();
    (bytes[at] as u32) + (bytes[at + 1] as u32) * 0x100 + (bytes[at + 2] as u32) * 0x1_0000 + (
    bytes[at + 3] as u32) * 0x100_0000
}

// The 64-bit little-endian number at `at`.
fn get_u64(bytes: &[u8], at: usize) -> (v: u64)
    requires
        at + 8 <= bytes@.len(),
    ensures
        v == read_u64(bytes@, at as int),
{
    let len: usize = bytes.len();
    get_u32(bytes, at) as u64 + (get_u32(bytes, at + 4) as u64) * 0x1_0000_0000
}

/// The size of a `MapAttr` in bytes.
pub const MAP_ATTR_SIZE: usize = 16;

/// The size of a `MapOpAttr` in bytes.
pub const MAP_OP_ATTR_SIZE: usize = 32;

/// The size of a `KprobeAttachAttr` in bytes.
pub const KPROBE_ATTACH_ATTR_SIZE: usize = 16;

/// The size of a `ProgramLoadExAttr` in bytes.
pub const PROGRAM_LOAD_EX_ATTR_SIZE: usize = 24;

/// The size of a `MapFdEntry` in bytes.
pub const MAP_FD_ENTRY_SIZE: usize = 16;

/// The attributes that 16 bytes spell: four 32-bit numbers.
pub open spec fn spec_map_attr(bytes: Seq<u8>) -> Option<MapAttr> {
    if bytes.len() != MAP_ATTR_SIZE {
        None
    } else {
        Some(
            MapAttr {
                map_type: read_u32(bytes, 0) as u32,
                key_size: read_u32(bytes, 4) as u32,
                value_size: read_u32(bytes, 8) as u32,
                max_entries: read_u32(bytes, 12) as u32,
            },
        )
    }
}

/// The arguments of a map operation that 32 bytes spell: the handle, four
/// bytes of padding, and three 64-bit numbers.
pub open spec fn spec_map_op_attr(bytes: Seq<u8>) -> Option<MapOpAttr> {
    if bytes.len() != MAP_OP_ATTR_SIZE {
        None
    } else {
        Some(
            MapOpAttr {
                map_fd: read_u32(bytes, 0) as u32,
                key: read_u64(bytes, 8) as u64,
                value_or_nextkey: read_u64(bytes, 16) as u64,
                flags: read_u64(bytes, 24) as u64,
            },
        )
    }
}

impl MapAttr {
    /// Reads the attributes of a map.
    pub fn from_bytes(bytes: &[u8]) -> (r: Option<MapAttr>)
        ensures
            r == spec_map_attr(bytes@),
    {
        if bytes.len() != MAP_ATTR_SIZE {
            return None;
        }
        Some(
            MapAttr {
                map_type: get_u32(bytes, 0),
                key_size: get_u32(bytes, 4),
                value_size: get_u32(bytes, 8),
                max_entries: get_u32(bytes, 12),
            },
        )
    }
}

impl MapOpAttr {
    /// Reads the arguments of a map operation.
    pub fn from_bytes(bytes: &[u8]) -> (r: Option<MapOpAttr>)
        ensures
            r == spec_map_op_attr(bytes@),
    {
        if bytes.len() != MAP_OP_ATTR_SIZE {
            return None;
        }
        Some(
            MapOpAttr {
                map_fd: get_u32(bytes, 0),
                key: get_u64(bytes, 8),
                value_or_nextkey: get_u64(bytes, 16),
                flags: get_u64(bytes, 24),
            },
        )
    }
}

impl KprobeAttachAttr {
    /// Reads the arguments of an attach request: the address of the target
    /// string, its length and the handle of the program.
    pub fn from_bytes(bytes: &[u8]) -> (r: Option<KprobeAttachAttr>)
        ensures
            match r {
                Some(a) => bytes@.len() == KPROBE_ATTACH_ATTR_SIZE && a.target == read_u64(bytes@, 0)
                    && a.str_len == read_u32(bytes@, 8) && a.prog_fd == read_u32(bytes@, 12),
                None => bytes@.len() != KPROBE_ATTACH_ATTR_SIZE,
            },
    {
        if bytes.len() != KPROBE_ATTACH_ATTR_SIZE {
            return None;
        }
        Some(
            KprobeAttachAttr {
                target: get_u64(bytes, 0),
                str_len: get_u32(bytes, 8),
                prog_fd: get_u32(bytes, 12),
            },
        )
    }
}

impl ProgramLoadExAttr {
    /// Reads the arguments of a load request: the address and the size of
    /// the object file, and the length and the address of the bindings.
    pub fn from_bytes(bytes: &[u8]) -> (r: Option<ProgramLoadExAttr>)
        ensures
            match r {
                Some(a) => bytes@.len() == PROGRAM_LOAD_EX_ATTR_SIZE && a.elf_prog == read_u64(
                    bytes@,
                    0,
                ) && a.elf_size == read_u32(bytes@, 8) && a.map_array_len == read_u32(bytes@, 12)
                    && a.map_array == read_u64(bytes@, 16),
                None => bytes@.len() != PROGRAM_LOAD_EX_ATTR_SIZE,
            },
    {
        if bytes.len() != PROGRAM_LOAD_EX_ATTR_SIZE {
            return None;
        }
        Some(
            ProgramLoadExAttr {
                elf_prog: get_u64(bytes, 0),
                elf_size: get_u32(bytes, 8),
                map_array_len: get_u32(bytes, 12),
                map_array: get_u64(bytes, 16),
            },
        )
    }
}

impl MapFdEntry {
    /// Reads one binding: the address of the name and the handle.
    pub fn from_bytes(bytes: &[u8]) -> (r: Option<MapFdEntry>)
        ensures
            match r {
                Some(e) => bytes@.len() == MAP_FD_ENTRY_SIZE && e.name == read_u64(bytes@, 0)
                    && e.fd == read_u32(bytes@, 8),
                None => bytes@.len() != MAP_FD_ENTRY_SIZE,
            },
    {
        if bytes.len() != MAP_FD_ENTRY_SIZE {
            return None;
        }
        Some(MapFdEntry { name: get_u64(bytes, 0), fd: get_u32(bytes, 8) })
    }
}

/// Creates a map from the bytes of its attributes and returns the handle,
/// a number from `BPF_FD_BASE` on that was free before. It returns -1, and
/// changes nothing, exactly where the bytes are not those of a `MapAttr`,
/// the attributes are refused or no handle is left.
pub fn sys_bpf_map_create(objs: &mut BpfObjects, attr: &[u8]) -> (r: i32)
    requires
        old(objs).wf(),
    ensures
        final(objs).wf(),
        final(objs).keeps_slots(old(objs), None),
        match spec_map_attr(attr@) {
            None => r == -1 && final(objs)@ == old(objs)@ && final(objs).next_fd() == old(objs).next_fd(),
            Some(a) => match spec_map_create_result(old(objs), a) {
                Ok(fd) => {
                    &&& r == fd
                    &&& BPF_FD_BASE <= r
                    &&& !old(objs)@.contains_key(fd as u32)
                    &&& final(objs).next_fd() == fd + 1
                    &&& spec_map_create(a) matches Ok((kind, sizes))
                    &&& final(objs).map_model(fd as u32) matches Some(m)
                    &&& m.kind == kind
                    &&& m.attr == sizes
                    &&& m.wf()
                    &&& final(objs)@.dom() == old(objs)@.dom().insert(fd as u32)
                    &&& forall|k: u32| #[trigger]
                        old(objs)@.contains_key(k) ==> final(objs)@[k] == old(objs)@[k]
                },
                Err(_) => r == -1 && final(objs)@ == old(objs)@ && final(objs).next_fd() == old(objs).next_fd(),
            },
        },
{
    match MapAttr::from_bytes(attr) {
        None => -1,
        Some(map_attr) => convert_result(bpf_map_create(objs, map_attr)),
    }
}

/// The arguments of a map operation and the sizes of the map that they
/// name, for the kernel to copy the key and the value in by. `None` where
/// the bytes are not those of a `MapOpAttr` or the handle stands for no
/// map.
pub fn map_op_sizes(objs: &BpfObjects, attr: &[u8]) -> (r: Option<(MapOpAttr, InternalMapAttr)>)
    ensures
        match r {
            Some((a, sizes)) => {
                &&& spec_map_op_attr(attr@) == Some(a)
                &&& objs.map_model(a.map_fd) matches Some(m)
                &&& m.attr == sizes
            },
            None => spec_map_op_attr(attr@) matches Some(a) ==> objs.map_model(a.map_fd) is None,
        },
{
    let op_attr = MapOpAttr::from_bytes(attr)?;
    let sizes = bpf_map_get_attr(objs, op_attr.map_fd)?;
    Some((op_attr, sizes))
}

/// What a map operation with the given attribute bytes returns to user
/// space: -1 where the bytes are not those of a `MapOpAttr`, and the result
/// of the operation otherwise.
pub open spec fn spec_sys_map_op(
    objs: &BpfObjects,
    attr: Seq<u8>,
    op: BpfMapOp,
    key: Seq<u8>,
    value: Seq<u8>,
) -> i32 {
    match spec_map_op_attr(attr) {
        None => -1i32,
        Some(a) => spec_convert_result(
            spec_map_ops_result(objs, a.map_fd, op, key, value, a.flags),
        ),
    }
}

/// The key that an operation may remove, with the handle of its map: the
/// key of a delete.
pub open spec fn removed_key(attr: Seq<u8>, op: BpfMapOp, key: Seq<u8>) -> Option<(u32, Seq<u8>)> {
    match spec_map_op_attr(attr) {
        Some(a) => if op == BpfMapOp::Delete {
            Some((a.map_fd, key))
        } else {
            None
        },
        None => None,
    }
}

// One operation on an element of the map that the attribute bytes name.
fn sys_map_op(
    objs: &mut BpfObjects,
    attr: &[u8],
    op: BpfMapOp,
    key: &[u8],
    value: &mut Vec<u8>,
) -> (r: i32)
    requires
        old(objs).wf(),
    ensures
        final(objs).wf(),
        r == spec_sys_map_op(old(objs), attr@, op, key@, old(value)@),
        final(objs)@.dom() == old(objs)@.dom(),
        final(objs).keeps_slots(old(objs), removed_key(attr@, op, key@)),
        match spec_map_op_attr(attr@) {
            None => final(objs)@ == old(objs)@ && final(value)@ == old(value)@,
            Some(a) => final(objs).same_except(old(objs), a.map_fd) && match old(objs).map_model(
                a.map_fd,
            ) {
                None => final(objs)@ == old(objs)@ && final(value)@ == old(value)@,
                Some(m) => match spec_map_op(m, op, key@, old(value)@, a.flags) {
                    Ok((after, out)) => final(objs).map_model(a.map_fd) == Some(after) && final(value)@ == out,
                    Err(_) => final(objs).map_model(a.map_fd) == Some(m) && final(value)@ == old(value)@,
                },
            },
        },
{
    match MapOpAttr::from_bytes(attr) {
        None => -1,
        Some(a) => convert_result(bpf_map_ops(objs, a.map_fd, op, key, value, a.flags)),
    }
}

/// The lookup command: leaves the value under `key` in `value`.
pub fn sys_bpf_map_lookup_elem(objs: &mut BpfObjects, attr: &[u8], key: &[u8], value: &mut Vec<u8>) -> (r:
    i32)
    requires
        old(objs).wf(),
    ensures
        final(objs).wf(),
        r == spec_sys_map_op(old(objs), attr@, BpfMapOp::LookUp, key@, old(value)@),
        final(objs)@.dom() == old(objs)@.dom(),
        final(objs).keeps_slots(old(objs), removed_key(attr@, BpfMapOp::LookUp, key@)),
        r == 0 ==> ({
            &&& spec_map_op_attr(attr@) matches Some(a)
            &&& old(objs).map_model(a.map_fd) matches Some(m)
            &&& m.lookup(key@) == Ok::<Seq<u8>, BpfErrorCode>(final(value)@)
        }),
        r != 0 ==> final(value)@ == old(value)@,
{
    sys_map_op(objs, attr, BpfMapOp::LookUp, key, value)
}

/// The update command: stores `value` under `key`.
pub fn sys_bpf_map_update_elem(objs: &mut BpfObjects, attr: &[u8], key: &[u8], value: &mut Vec<u8>) -> (r:
    i32)
    requires
        old(objs).wf(),
    ensures
        final(objs).wf(),
        r == spec_sys_map_op(old(objs), attr@, BpfMapOp::Update, key@, old(value)@),
        final(objs)@.dom() == old(objs)@.dom(),
        final(objs).keeps_slots(old(objs), removed_key(attr@, BpfMapOp::Update, key@)),
        final(value)@ == old(value)@,
        r == 0 ==> ({
            &&& spec_map_op_attr(attr@) matches Some(a)
            &&& old(objs).map_model(a.map_fd) matches Some(m)
            &&& m.update(key@, old(value)@, a.flags) matches Ok(after)
            &&& final(objs).map_model(a.map_fd) == Some(after)
        }),
{
    sys_map_op(objs, attr, BpfMapOp::Update, key, value)
}

/// The delete command: removes the pair under `key`.
pub fn sys_bpf_map_delete_elem(objs: &mut BpfObjects, attr: &[u8], key: &[u8]) -> (r: i32)
    requires
        old(objs).wf(),
    ensures
        final(objs).wf(),
        r == spec_sys_map_op(old(objs), attr@, BpfMapOp::Delete, key@, Seq::<u8>::empty()),
        final(objs)@.dom() == old(objs)@.dom(),
        final(objs).keeps_slots(old(objs), removed_key(attr@, BpfMapOp::Delete, key@)),
        r == 0 ==> ({
            &&& spec_map_op_attr(attr@) matches Some(a)
            &&& old(objs).map_model(a.map_fd) matches Some(m)
            &&& m.delete(key@) matches Ok(after)
            &&& final(objs).map_model(a.map_fd) == Some(after)
        }),
{
    let mut unused: Vec<u8> = Vec::new();
    sys_map_op(objs, attr, BpfMapOp::Delete, key, &mut unused)
}

/// The iteration command: leaves the key that follows `key` in `next_key`.
pub fn sys_bpf_map_get_next_key(
    objs: &mut BpfObjects,
    attr: &[u8],
    key: &[u8],
    next_key: &mut Vec<u8>,
) -> (r: i32)
    requires
        old(objs).wf(),
    ensures
        final(objs).wf(),
        r == spec_sys_map_op(old(objs), attr@, BpfMapOp::GetNextKey, key@, old(next_key)@),
        final(objs)@.dom() == old(objs)@.dom(),
        final(objs).keeps_slots(old(objs), removed_key(attr@, BpfMapOp::GetNextKey, key@)),
        r == 0 ==> ({
            &&& spec_map_op_attr(attr@) matches Some(a)
            &&& old(objs).map_model(a.map_fd) matches Some(m)
            &&& m.next_key(key@) == Ok::<Seq<u8>, BpfErrorCode>(final(next_key)@)
        }),
        r != 0 ==> final(next_key)@ == old(next_key)@,
{
    sys_map_op(objs, attr, BpfMapOp::GetNextKey, key, next_key)
}

/// Loads a program and returns its handle, a number from `BPF_FD_BASE` on
/// that was free before. It returns -1, and changes nothing, exactly where
/// the program is refused or no handle is left.
pub fn sys_bpf_program_load_ex(
    objs: &mut BpfObjects,
    insns: &Vec<u64>,
    table: MapFdTable,
    verdict: Verdict,
    helpers: &[u64],
) -> (r: i32)
    requires
        old(objs).wf(),
    ensures
        final(objs).wf(),
        final(objs).keeps_slots(old(objs), None),
        match spec_load_result(old(objs), verdict, insns@, helpers@) {
            Ok(fd) => {
                &&& r == fd
                &&& BPF_FD_BASE <= r
                &&& !old(objs)@.contains_key(fd as u32)
                &&& final(objs).next_fd() == fd + 1
                &&& spec_load(verdict, insns@, helpers@) matches Ok(code)
                &&& final(objs)@.dom() == old(objs)@.dom().insert(fd as u32)
                &&& final(objs)@[fd as u32] matches BpfObject::Program(p)
                &&& p.code() == Some(code)
                &&& p.map_table() == Some(table)
                &&& forall|k: u32| #[trigger]
                    old(objs)@.contains_key(k) ==> final(objs)@[k] == old(objs)@[k]
            },
            Err(_) => r == -1 && final(objs)@ == old(objs)@ && final(objs).next_fd() == old(objs).next_fd(),
        },
{
    convert_result(bpf_program_load_ex(objs, insns, table, verdict, helpers))
}

} // verus!
