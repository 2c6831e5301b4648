//! The object table: maps and programs under integer handles, and the map
//! operations that go through a handle.
//!
//! The table is a plain value. The kernel that embeds it keeps one and
//! guards it with a lock of its own.

use vstd::prelude::*;
use std::collections::BTreeMap;
use std::sync::Arc;
use crate::consts::{BPF_MAP_TYPE_ARRAY, BPF_MAP_TYPE_HASH};
use crate::retcode::{BpfErrorCode, BpfResult};
use crate::map::{MapAttr, MapOpAttr, BpfMapOp, MapInstance};
use crate::map::internal::{BpfMap, InternalMapAttr, MapModel, MapKind};
use crate::map::laws::{lemma_hash_update_keeps_slots, lemma_hash_delete_keeps_slots};
use crate::map::array::ArrayMap;
use crate::map::hash::HashMap;
use crate::program::BpfProgram;

verus! {

broadcast use vstd::std_specs::btree::group_btree_axioms;

/// The first handle that is given out. Handles of ordinary files stay
/// below it.
pub const BPF_FD_BASE: u32 = 0x7000_0000;

/// The end of the handles: every handle is below it, and so stays a
/// positive number when it is returned as a signed 32-bit result.
pub const BPF_FD_END: u32 = 0x8000_0000;

/// What a handle stands for.
pub enum BpfObject {
    MapObject(MapInstance),
    Program(Arc<BpfProgram>),
}

impl BpfObject {
    /// The map, if the object is one.
    pub fn is_map(&self) -> (r: Option<&MapInstance>)
        ensures
            match r {
                Some(m) => *self == BpfObject::MapObject(*m),
                None => self is Program,
            },
    {
        match self {
            BpfObject::MapObject(map) => Some(map),
            _ => None,
        }
    }

    /// The program, if the object is one.
    pub fn is_program(&self) -> (r: Option<&Arc<BpfProgram>>)
        ensures
            match r {
                Some(p) => *self == BpfObject::Program(*p),
                None => self is MapObject,
            },
    {
        match self {
            BpfObject::Program(program) => Some(program),
            _ => None,
        }
    }
}

/// The table of objects and the counter that handles come from.
pub struct BpfObjects {
    next_fd: u32,
    objects: BTreeMap<u32, BpfObject>,
}

impl View for BpfObjects {
    type V = Map<u32, BpfObject>;

    closed spec fn view(&self) -> Map<u32, BpfObject> {
        self.objects@
    }
}

/// What an operation on one element makes of a map and of the buffer that
/// was handed in: the map and the buffer after it, or the reason for
/// refusal. A key or a value of the wrong size is refused with
/// `InvalidArgument`.
pub open spec fn spec_map_op(
    m: MapModel,
    op: BpfMapOp,
    key: Seq<u8>,
    value: Seq<u8>,
    flags: u64,
) -> Result<(MapModel, Seq<u8>), BpfErrorCode> {
    if key.len() != m.attr.key_size {
        Err(BpfErrorCode::InvalidArgument)
    } else {
        match op {
            BpfMapOp::LookUp => match m.lookup(key) {
                Ok(v) => Ok((m, v)),
                Err(e) => Err(e),
            },
            BpfMapOp::Update => if value.len() != m.attr.value_size {
                Err(BpfErrorCode::InvalidArgument)
            } else {
                match m.update(key, value, flags) {
                    Ok(after) => Ok((after, value)),
                    Err(e) => Err(e),
                }
            },
            BpfMapOp::Delete => match m.delete(key) {
                Ok(after) => Ok((after, value)),
                Err(e) => Err(e),
            },
            BpfMapOp::GetNextKey => match m.next_key(key) {
                Ok(k) => Ok((m, k)),
                Err(e) => Err(e),
            },
        }
    }
}

/// The slot that the helper-side lookup names for a key stays the same
/// for as long as the map holds the key: an operation on one element of a
/// well-formed map leaves every key that the map holds its slot, but for
/// the key that a delete removes.
pub proof fn lemma_map_op_keeps_slots(
    m: MapModel,
    op: BpfMapOp,
    key: Seq<u8>,
    value: Seq<u8>,
    flags: u64,
    held: Seq<u8>,
)
    requires
        m.wf(),
        spec_map_op(m, op, key, value, flags) is Ok,
        m.slot(held) is Ok,
        !(op == BpfMapOp::Delete && held == key),
    ensures
        spec_map_op(m, op, key, value, flags).unwrap().0.slot(held) == m.slot(held),
{
    match op {
        BpfMapOp::Update => {
            if m.kind == MapKind::Hash {
                lemma_hash_update_keeps_slots(m, key, value, flags);
            }
        },
        BpfMapOp::Delete => {
            if m.kind == MapKind::Hash {
                lemma_hash_delete_keeps_slots(m, key);
            }
        },
        _ => {},
    }
}

/// What an operation on one element of the map under a handle returns: 0
/// on success; `NoSuchEntry` where the handle stands for no map; and the
/// error of the operation otherwise.
pub open spec fn spec_map_ops_result(
    objs: &BpfObjects,
    fd: u32,
    op: BpfMapOp,
    key: Seq<u8>,
    value: Seq<u8>,
    flags: u64,
) -> BpfResult {
    match objs.map_model(fd) {
        None => Err(BpfErrorCode::NoSuchEntry),
        Some(m) => match spec_map_op(m, op, key, value, flags) {
            Ok(_) => Ok(0),
            Err(e) => Err(e),
        },
    }
}

impl BpfObjects {
    /// The handle that is given out next.
    pub closed spec fn next_fd(&self) -> u32 {
        self.next_fd
    }

    /// The handle that is given out next is not below `BPF_FD_BASE` and
    /// not above `BPF_FD_END`. Every handle of the table has been given
    /// out: it is not below `BPF_FD_BASE` and below the next handle, which
    /// is therefore free. Every map in the table is consistent.
    pub open spec fn wf(&self) -> bool {
        &&& BPF_FD_BASE <= self.next_fd() <= BPF_FD_END
        &&& forall|fd: u32| #[trigger]
            self@.contains_key(fd) ==> BPF_FD_BASE <= fd < self.next_fd()
        &&& forall|fd: u32| #[trigger]
            self@.contains_key(fd) ==> (self@[fd] matches BpfObject::MapObject(m) ==> m.inv())
    }

    /// Whether a handle has been given out.
    pub open spec fn given_out(&self, fd: u32) -> bool {
        BPF_FD_BASE <= fd < self.next_fd()
    }

    /// The map under a handle, as contracts speak of it; `None` where the
    /// handle is free or stands for a program.
    pub open spec fn map_model(&self, fd: u32) -> Option<MapModel> {
        if self@.contains_key(fd) {
            match self@[fd] {
                BpfObject::MapObject(m) => Some(m.model()),
                BpfObject::Program(_) => None,
            }
        } else {
            None
        }
    }

    /// The slot that the helper-side lookup names for `key` in the map
    /// under `fd`: `NoSuchEntry` where the handle stands for no map or the
    /// map does not hold the key, `InvalidArgument` for a key of the wrong
    /// size.
    pub open spec fn slot_of(&self, fd: u32, key: Seq<u8>) -> Result<int, BpfErrorCode> {
        match self.map_model(fd) {
            None => Err(BpfErrorCode::NoSuchEntry),
            Some(m) => if key.len() != m.attr.key_size {
                Err(BpfErrorCode::InvalidArgument)
            } else {
                m.slot(key)
            },
        }
    }

    /// Every key that a map of `before` held has the slot that it had, but
    /// for the one key that was removed from the map under one handle, if
    /// `removed` names one.
    pub open spec fn keeps_slots(&self, before: &BpfObjects, removed: Option<(u32, Seq<u8>)>) -> bool {
        forall|fd: u32, held: Seq<u8>|
            (#[trigger] before.slot_of(fd, held)) is Ok && removed != Some((fd, held))
                ==> self.slot_of(fd, held) == before.slot_of(fd, held)
    }

    /// The two tables differ at most under `fd`.
    pub open spec fn same_except(&self, other: &BpfObjects, fd: u32) -> bool {
        &&& self@.dom() == other@.dom()
        &&& self.next_fd() == other.next_fd()
        &&& forall|k: u32| k != fd && #[trigger] self@.contains_key(k) ==> self@[k] == other@[k]
    }

    /// An empty table whose first handle is `BPF_FD_BASE`.
    pub fn new() -> (objs: Self)
        ensures
            objs@ == Map::<u32, BpfObject>::empty(),
            objs.next_fd() == BPF_FD_BASE,
            objs.wf(),
    {
        Self { next_fd: BPF_FD_BASE, objects: BTreeMap::new() }
    }

    /// The object under a handle.
    pub fn get(&self, fd: u32) -> (r: Option<&BpfObject>)
        ensures
            match r {
                Some(obj) => self@.contains_key(fd) && self@[fd] == *obj,
                None => !self@.contains_key(fd),
            },
    {
        self.objects.get(&fd)
    }
}

/// Gives out the next handle. Handles count up from `BPF_FD_BASE`; each is
/// given out once, and none is in use when it is given out. When the
/// handles below `BPF_FD_END` are spent, none is given out and nothing
/// changes.
pub fn bpf_allocate_fd(objs: &mut BpfObjects) -> (r: Option<u32>)
    requires
        old(objs).wf(),
    ensures
        final(objs).wf(),
        final(objs)@ == old(objs)@,
        match r {
            Some(fd) => {
                &&& fd == old(objs).next_fd()
                &&& BPF_FD_BASE <= fd < BPF_FD_END
                &&& !old(objs)@.contains_key(fd)
                &&& final(objs).next_fd() == fd + 1
                &&& final(objs).given_out(fd)
            },
            None => old(objs).next_fd() == BPF_FD_END && final(objs).next_fd() == BPF_FD_END,
        },
{
    let fd: u32 = objs.next_fd;
    if fd >= BPF_FD_END {
        return None;
    }
    objs.next_fd = fd + 1;
    proof {
        assert forall|k: u32| #[trigger] objs@.contains_key(k) implies BPF_FD_BASE <= k
            < objs.next_fd() by {
            assert(old(objs)@.contains_key(k));
        }
        assert forall|k: u32| #[trigger] objs@.contains_key(k) implies (
        objs@[k] matches BpfObject::MapObject(m) ==> m.inv()) by {
            assert(old(objs)@.contains_key(k));
        }
    }
    Some(fd)
}

/// Puts an object under a handle that has been given out, in place of
/// what stood there.
pub fn bpf_object_create(objs: &mut BpfObjects, fd: u32, obj: BpfObject)
    requires
        old(objs).wf(),
        old(objs).given_out(fd),
        obj matches BpfObject::MapObject(m) ==> m.inv(),
    ensures
        final(objs)@ == old(objs)@.insert(fd, obj),
        final(objs).next_fd() == old(objs).next_fd(),
        final(objs).wf(),
{
    let _ = objs.objects.insert(fd, obj);
    proof {
        assert forall|k: u32| #[trigger] objs@.contains_key(k) implies BPF_FD_BASE <= k
            < objs.next_fd() by {
            if k != fd {
                assert(old(objs)@.contains_key(k));
            }
        }
        assert forall|k: u32| #[trigger] objs@.contains_key(k) implies (
        objs@[k] matches BpfObject::MapObject(m) ==> m.inv()) by {
            if k != fd {
                assert(old(objs)@.contains_key(k));
            }
        }
    }
}

/// Puts a map under a handle that has been given out.
pub fn bpf_object_create_map(objs: &mut BpfObjects, fd: u32, map: MapInstance)
    requires
        old(objs).wf(),
        old(objs).given_out(fd),
        map.inv(),
    ensures
        final(objs)@ == old(objs)@.insert(fd, BpfObject::MapObject(map)),
        final(objs).next_fd() == old(objs).next_fd(),
        final(objs).wf(),
{
    bpf_object_create(objs, fd, BpfObject::MapObject(map));
}

/// Puts a program under a handle that has been given out.
pub fn bpf_object_create_program(objs: &mut BpfObjects, fd: u32, prog: BpfProgram)
    requires
        old(objs).wf(),
        old(objs).given_out(fd),
    ensures
        final(objs)@ == old(objs)@.insert(fd, BpfObject::Program(Arc::new(prog))),
        final(objs).next_fd() == old(objs).next_fd(),
        final(objs).wf(),
{
    bpf_object_create(objs, fd, BpfObject::Program(Arc::new(prog)));
}

/// Takes the object under a handle out of the table.
pub fn bpf_object_remove(objs: &mut BpfObjects, fd: u32) -> (r: Option<BpfObject>)
    requires
        old(objs).wf(),
    ensures
        final(objs)@ == old(objs)@.remove(fd),
        final(objs).next_fd() == old(objs).next_fd(),
        final(objs).wf(),
        match r {
            Some(obj) => old(objs)@.contains_key(fd) && old(objs)@[fd] == obj,
            None => !old(objs)@.contains_key(fd),
        },
{
    let r = objs.objects.remove(&fd);
    proof {
        assert forall|k: u32| #[trigger] objs@.contains_key(k) implies BPF_FD_BASE <= k
            < objs.next_fd() by {
            assert(old(objs)@.contains_key(k));
        }
        assert forall|k: u32| #[trigger] objs@.contains_key(k) implies (
        objs@[k] matches BpfObject::MapObject(m) ==> m.inv()) by {
            assert(old(objs)@.contains_key(k));
        }
    }
    r
}

/// What `bpf_map_create` makes of the attributes: the sizes of the map, or
/// the reason for refusal. The type must be array or hash; the keys of an
/// array map must have four bytes; and the storage of an array map must be
/// of a size that the machine can address.
pub open spec fn spec_map_create(attr: MapAttr) -> Result<(MapKind, InternalMapAttr), BpfErrorCode> {
    let sizes = InternalMapAttr {
        key_size: attr.key_size as usize,
        value_size: attr.value_size as usize,
        max_entries: attr.max_entries as usize,
    };
    if attr.map_type == BPF_MAP_TYPE_ARRAY {
        if attr.key_size != 4 || attr.max_entries * attr.value_size > usize::MAX {
            Err(BpfErrorCode::InvalidArgument)
        } else {
            Ok((MapKind::Array, sizes))
        }
    } else if attr.map_type == BPF_MAP_TYPE_HASH {
        Ok((MapKind::Hash, sizes))
    } else {
        Err(BpfErrorCode::InvalidArgument)
    }
}

/// What `bpf_map_create` returns: the next handle, or the reason for
/// refusal. Attributes that are refused are refused as `spec_map_create`
/// says; a map for which no handle is left is refused with `OutOfMemory`.
pub open spec fn spec_map_create_result(objs: &BpfObjects, attr: MapAttr) -> BpfResult {
    match spec_map_create(attr) {
        Err(e) => Err(e),
        Ok(_) => if objs.next_fd() < BPF_FD_END {
            Ok(objs.next_fd() as usize)
        } else {
            Err(BpfErrorCode::OutOfMemory)
        },
    }
}

/// Creates a map and returns its handle, which was free before. A new
/// array map holds zero bytes in every slot, a new hash map no pair. On
/// refusal nothing changes.
pub fn bpf_map_create(objs: &mut BpfObjects, attr: MapAttr) -> (r: BpfResult)
    requires
        old(objs).wf(),
    ensures
        final(objs).wf(),
        final(objs).keeps_slots(old(objs), None),
        r == spec_map_create_result(old(objs), attr),
        match r {
            Ok(fd) => {
                &&& BPF_FD_BASE <= fd < BPF_FD_END
                &&& !old(objs)@.contains_key(fd as u32)
                &&& final(objs).next_fd() == fd + 1
                &&& spec_map_create(attr) matches Ok((kind, sizes))
                &&& final(objs).map_model(fd as u32) matches Some(m)
                &&& m.kind == kind
                &&& m.attr == sizes
                &&& m.wf()
                &&& (kind == MapKind::Hash ==> m.entries.len() == 0 && m.slots.len() == 0)
                &&& (kind == MapKind::Array ==> forall|i: int|
                    0 <= i < m.entries.len() ==> (#[trigger] m.entries[i]).1 == Seq::new(
                        sizes.value_size as nat,
                        |k: int| 0u8,
                    ))
                &&& final(objs)@.dom() == old(objs)@.dom().insert(fd as u32)
                &&& forall|k: u32| #[trigger]
                    old(objs)@.contains_key(k) ==> final(objs)@[k] == old(objs)@[k]
            },
            Err(e) => final(objs)@ == old(objs)@ && final(objs).next_fd() == old(objs).next_fd(),
        },
{
    let internal_attr = InternalMapAttr {
        key_size: attr.key_size as usize,
        value_size: attr.value_size as usize,
        max_entries: attr.max_entries as usize,
    };
    if attr.map_type == BPF_MAP_TYPE_ARRAY {
        // the slot number of an array is four bytes
        if internal_attr.key_size != 4 {
            return Err(BpfErrorCode::InvalidArgument);
        }
        assert(attr.max_entries * attr.value_size <= 0xffff_ffff * 0xffff_ffff) by (nonlinear_arith)
            requires
                attr.max_entries <= 0xffff_ffff,
                attr.value_size <= 0xffff_ffff,
        ;
        if attr.max_entries as u64 * attr.value_size as u64 > usize::MAX as u64 {
            return Err(BpfErrorCode::InvalidArgument);
        }
        let fd: u32 = match bpf_allocate_fd(objs) {
            Some(fd) => fd,
            None => {
                return Err(BpfErrorCode::OutOfMemory);
            },
        };
        let map = ArrayMap::new(internal_attr);
        bpf_object_create_map(objs, fd, MapInstance::Array(map));
        Ok(fd as usize)
    } else if attr.map_type == BPF_MAP_TYPE_HASH {
        let fd: u32 = match bpf_allocate_fd(objs) {
            Some(fd) => fd,
            None => {
                return Err(BpfErrorCode::OutOfMemory);
            },
        };
        let map = HashMap::new(internal_attr);
        bpf_object_create_map(objs, fd, MapInstance::Hash(map));
        Ok(fd as usize)
    } else {
        Err(BpfErrorCode::InvalidArgument)
    }
}

/// Removes the object under a handle. A handle that stands for nothing is
/// refused with `NoSuchEntry`.
pub fn bpf_map_close(objs: &mut BpfObjects, fd: u32) -> (r: BpfResult)
    requires
        old(objs).wf(),
    ensures
        final(objs).wf(),
        final(objs)@ == old(objs)@.remove(fd),
        match r {
            Ok(n) => n == 0 && old(objs)@.contains_key(fd),
            Err(e) => e == BpfErrorCode::NoSuchEntry && !old(objs)@.contains_key(fd),
        },
{
    match bpf_object_remove(objs, fd) {
        Some(_) => Ok(0),
        None => Err(BpfErrorCode::NoSuchEntry),
    }
}

/// The sizes of the map under a handle.
pub fn bpf_map_get_attr(objs: &BpfObjects, fd: u32) -> (r: Option<InternalMapAttr>)
    ensures
        match r {
            Some(attr) => objs.map_model(fd) matches Some(m) && m.attr == attr,
            None => objs.map_model(fd) is None,
        },
{
    let obj = objs.get(fd)?;
    let map = obj.is_map()?;
    Some(map.get_attr())
}

/// Carries out an operation on one element of the map under a handle.
/// `value` is the value to store for an update; a lookup leaves the value
/// in it, and `GetNextKey` the next key.
///
/// A handle that stands for no map is refused with `NoSuchEntry`. On
/// refusal neither the table nor `value` changes. Whatever the operation,
/// every key that a map holds keeps the slot that the helper-side lookup
/// names for it, but for the key that a delete removes.
pub fn bpf_map_ops(
    objs: &mut BpfObjects,
    fd: u32,
    op: BpfMapOp,
    key: &[u8],
    value: &mut Vec<u8>,
    flags: u64,
) -> (r: BpfResult)
    requires
        old(objs).wf(),
    ensures
        final(objs).wf(),
        final(objs).same_except(old(objs), fd),
        final(objs).keeps_slots(
            old(objs),
            if op == BpfMapOp::Delete {
                Some((fd, key@))
            } else {
                None
            },
        ),
        r == spec_map_ops_result(old(objs), fd, op, key@, old(value)@, flags),
        match old(objs).map_model(fd) {
            None => r == Err::<usize, BpfErrorCode>(BpfErrorCode::NoSuchEntry) && final(objs)@
                == old(objs)@ && final(value)@ == old(value)@,
            Some(m) => match spec_map_op(m, op, key@, old(value)@, flags) {
                Ok((after, out)) => r == Ok::<usize, BpfErrorCode>(0) && final(objs).map_model(fd)
                    == Some(after) && final(value)@ == out,
                Err(e) => r == Err::<usize, BpfErrorCode>(e) && final(objs).map_model(fd) == Some(
                    m,
                ) && final(value)@ == old(value)@,
            },
        },
{
    let attr: InternalMapAttr = match bpf_map_get_attr(objs, fd) {
        Some(attr) => attr,
        None => {
            return Err(BpfErrorCode::NoSuchEntry);
        },
    };
    if key.len() != attr.key_size {
        return Err(BpfErrorCode::InvalidArgument);
    }
    match op {
        BpfMapOp::LookUp => {
            let obj = objs.get(fd).unwrap();
            let map = obj.is_map().unwrap();
            map.lookup(key, value)
        },
        BpfMapOp::GetNextKey => {
            let obj = objs.get(fd).unwrap();
            let map = obj.is_map().unwrap();
            map.next_key(key, value)
        },
        BpfMapOp::Update => {
            if value.len() != attr.value_size {
                return Err(BpfErrorCode::InvalidArgument);
            }
            let mut map: MapInstance = match bpf_object_remove(objs, fd) {
                Some(BpfObject::MapObject(map)) => map,
                _ => {
                    return Err(BpfErrorCode::NoSuchEntry);
                },
            };
            let r = map.update(key, value.as_slice(), flags);
            bpf_object_create_map(objs, fd, map);
            proof {
                assert(objs@.dom() =~= old(objs)@.dom());
            }
            r
        },
        BpfMapOp::Delete => {
            let mut map: MapInstance = match bpf_object_remove(objs, fd) {
                Some(BpfObject::MapObject(map)) => map,
                _ => {
                    return Err(BpfErrorCode::NoSuchEntry);
                },
            };
            let r = map.delete(key);
            bpf_object_create_map(objs, fd, map);
            proof {
                assert(objs@.dom() =~= old(objs)@.dom());
            }
            r
        },
    }
}

/// Copies the value under `key` in the map under `attr.map_fd` into `value`.
pub fn bpf_map_lookup_elem(
    objs: &mut BpfObjects,
    attr: MapOpAttr,
    key: &[u8],
    value: &mut Vec<u8>,
) -> (r: BpfResult)
    requires
        old(objs).wf(),
    ensures
        final(objs).wf(),
        final(objs).same_except(old(objs), attr.map_fd),
        final(objs).keeps_slots(old(objs), None),
        match old(objs).map_model(attr.map_fd) {
            None => r == Err::<usize, BpfErrorCode>(BpfErrorCode::NoSuchEntry) && final(objs)@
                == old(objs)@ && final(value)@ == old(value)@,
            Some(m) => match spec_map_op(m, BpfMapOp::LookUp, key@, old(value)@, attr.flags) {
                Ok((after, out)) => r == Ok::<usize, BpfErrorCode>(0) && final(objs).map_model(
                    attr.map_fd,
                ) == Some(after) && final(value)@ == out,
                Err(e) => r == Err::<usize, BpfErrorCode>(e) && final(objs).map_model(attr.map_fd)
                    == Some(m) && final(value)@ == old(value)@,
            },
        },
{
    bpf_map_ops(objs, attr.map_fd, BpfMapOp::LookUp, key, value, attr.flags)
}

/// Stores `value` under `key` in the map under `attr.map_fd`, as
/// `attr.flags` say.
pub fn bpf_map_update_elem(
    objs: &mut BpfObjects,
    attr: MapOpAttr,
    key: &[u8],
    value: &mut Vec<u8>,
) -> (r: BpfResult)
    requires
        old(objs).wf(),
    ensures
        final(objs).wf(),
        final(objs).same_except(old(objs), attr.map_fd),
        final(objs).keeps_slots(old(objs), None),
        match old(objs).map_model(attr.map_fd) {
            None => r == Err::<usize, BpfErrorCode>(BpfErrorCode::NoSuchEntry) && final(objs)@
                == old(objs)@ && final(value)@ == old(value)@,
            Some(m) => match spec_map_op(m, BpfMapOp::Update, key@, old(value)@, attr.flags) {
                Ok((after, out)) => r == Ok::<usize, BpfErrorCode>(0) && final(objs).map_model(
                    attr.map_fd,
                ) == Some(after) && final(value)@ == out,
                Err(e) => r == Err::<usize, BpfErrorCode>(e) && final(objs).map_model(attr.map_fd)
                    == Some(m) && final(value)@ == old(value)@,
            },
        },
{
    bpf_map_ops(objs, attr.map_fd, BpfMapOp::Update, key, value, attr.flags)
}

/// Removes the pair under `key` from the map under `attr.map_fd`.
pub fn bpf_map_delete_elem(
    objs: &mut BpfObjects,
    attr: MapOpAttr,
    key: &[u8],
    value: &mut Vec<u8>,
) -> (r: BpfResult)
    requires
        old(objs).wf(),
    ensures
        final(objs).wf(),
        final(objs).same_except(old(objs), attr.map_fd),
        final(objs).keeps_slots(old(objs), Some((attr.map_fd, key@))),
        match old(objs).map_model(attr.map_fd) {
            None => r == Err::<usize, BpfErrorCode>(BpfErrorCode::NoSuchEntry) && final(objs)@
                == old(objs)@ && final(value)@ == old(value)@,
            Some(m) => match spec_map_op(m, BpfMapOp::Delete, key@, old(value)@, attr.flags) {
                Ok((after, out)) => r == Ok::<usize, BpfErrorCode>(0) && final(objs).map_model(
                    attr.map_fd,
                ) == Some(after) && final(value)@ == out,
                Err(e) => r == Err::<usize, BpfErrorCode>(e) && final(objs).map_model(attr.map_fd)
                    == Some(m) && final(value)@ == old(value)@,
            },
        },
{
    bpf_map_ops(objs, attr.map_fd, BpfMapOp::Delete, key, value, attr.flags)
}

/// Copies the key that follows `key` in the map under `attr.map_fd` into
/// `next_key`.
pub fn bpf_map_get_next_key(
    objs: &mut BpfObjects,
    attr: MapOpAttr,
    key: &[u8],
    next_key: &mut Vec<u8>,
) -> (r: BpfResult)
    requires
        old(objs).wf(),
    ensures
        final(objs).wf(),
        final(objs).same_except(old(objs), attr.map_fd),
        final(objs).keeps_slots(old(objs), None),
        match old(objs).map_model(attr.map_fd) {
            None => r == Err::<usize, BpfErrorCode>(BpfErrorCode::NoSuchEntry) && final(objs)@
                == old(objs)@ && final(next_key)@ == old(next_key)@,
            Some(m) => match spec_map_op(
                m,
                BpfMapOp::GetNextKey,
                key@,
                old(next_key)@,
                attr.flags,
            ) {
                Ok((after, out)) => r == Ok::<usize, BpfErrorCode>(0) && final(objs).map_model(
                    attr.map_fd,
                ) == Some(after) && final(next_key)@ == out,
                Err(e) => r == Err::<usize, BpfErrorCode>(e) && final(objs).map_model(attr.map_fd)
                    == Some(m) && final(next_key)@ == old(next_key)@,
            },
        },
{
    bpf_map_ops(objs, attr.map_fd, BpfMapOp::GetNextKey, key, next_key, attr.flags)
}

/// The lookup that helper functions use: the slot of the value under `key`
/// in the map under `fd`. The table stays as it is, and the slot of a key
/// stays the same for as long as the map holds the key, whatever is done
/// to other keys: every operation on the table says so (`keeps_slots`).
pub fn bpf_map_lookup_helper(objs: &BpfObjects, fd: u32, key: &[u8]) -> (r: BpfResult)
    requires
        objs.wf(),
    ensures
        match r {
            Ok(slot) => objs.slot_of(fd, key@) == Ok::<int, BpfErrorCode>(slot as int),
            Err(e) => objs.slot_of(fd, key@) == Err::<int, BpfErrorCode>(e),
        },
{
    let obj = match objs.get(fd) {
        Some(obj) => obj,
        None => {
            return Err(BpfErrorCode::NoSuchEntry);
        },
    };
    let map = match obj.is_map() {
        Some(map) => map,
        None => {
            return Err(BpfErrorCode::NoSuchEntry);
        },
    };
    if key.len() != map.get_attr().key_size {
        return Err(BpfErrorCode::InvalidArgument);
    }
    map.lookup_helper(key)
}

} // verus!
