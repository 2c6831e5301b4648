//! What a map is to its callers: its attributes, its contents as a sequence
//! of key/value pairs, and what each operation returns and changes.

use vstd::prelude::*;
use crate::consts::{BPF_ANY, BPF_EXIST, BPF_NOEXIST};
use crate::retcode::{BpfErrorCode, BpfResult};
use crate::map::MapAttr;

verus! {

/// The sizes of a map, fixed when it is created.
#[derive(Debug, Clone, Copy, PartialEq, Eq, Structural)]
pub struct InternalMapAttr {
    pub key_size: usize,
    pub value_size: usize,
    pub max_entries: usize,
}

impl From<MapAttr> for InternalMapAttr {
    fn from(attr: MapAttr) -> (r: Self) {
        Self {
            key_size: attr.key_size as usize,
            value_size: attr.value_size as usize,
            max_entries: attr.max_entries as usize,
        }
    }
}

impl vstd::std_specs::convert::FromSpecImpl<MapAttr> for InternalMapAttr {
    open spec fn obeys_from_spec() -> bool {
        true
    }

    open spec fn from_spec(attr: MapAttr) -> Self {
        InternalMapAttr {
            key_size: attr.key_size as usize,
            value_size: attr.value_size as usize,
            max_entries: attr.max_entries as usize,
        }
    }
}

/// The two kinds of map.
#[derive(Debug, Clone, Copy, PartialEq, Eq, Structural)]
pub enum MapKind {
    /// Values in slots numbered from zero; the key is the slot number as
    /// four little-endian bytes.
    Array,
    /// Values under arbitrary keys, kept in the order of the hash of the
    /// key and, among equal hashes, in the order of insertion.
    Hash,
}

/// The unsigned number that the first four bytes of a key spell, least
/// significant byte first.
pub open spec fn le_u32(key: Seq<u8>) -> int
    recommends
        key.len() >= 4,
{
    key[0] + key[1] * 0x100 + key[2] * 0x1_0000 + key[3] * 0x100_0000
}

/// The four bytes of a number, least significant first.
pub open spec fn le_bytes(v: int) -> Seq<u8>
    recommends
        0 <= v < 0x1_0000_0000,
{
    seq![
        (v % 0x100) as u8,
        ((v / 0x100) % 0x100) as u8,
        ((v / 0x1_0000) % 0x100) as u8,
        ((v / 0x100_0000) % 0x100) as u8,
    ]
}

/// Four bytes spell the number whose bytes they are.
pub proof fn lemma_le_bytes_of_le_u32(key: Seq<u8>)
    requires
        key.len() == 4,
    ensures
        le_bytes(le_u32(key)) == key,
        0 <= le_u32(key) < 0x1_0000_0000,
{
    let v = le_u32(key);
    let b0 = key[0] as int;
    let b1 = key[1] as int;
    let b2 = key[2] as int;
    let b3 = key[3] as int;
    assert(v % 0x100 == b0);
    assert(v / 0x100 == b1 + b2 * 0x100 + b3 * 0x1_0000);
    assert((v / 0x100) % 0x100 == b1);
    assert(v / 0x1_0000 == b2 + b3 * 0x100);
    assert((v / 0x1_0000) % 0x100 == b2);
    assert(v / 0x100_0000 == b3);
    assert(le_bytes(v) =~= key);
}

/// The bytes of a number spell that number.
pub proof fn lemma_le_u32_of_le_bytes(v: int)
    requires
        0 <= v < 0x1_0000_0000,
    ensures
        le_u32(le_bytes(v)) == v,
        le_bytes(v).len() == 4,
{
}

/// The hash of a key: each byte in turn is added to 131313 times the hash
/// so far, in 32-bit arithmetic.
pub open spec fn spec_hash(key: Seq<u8>) -> u32
    decreases key.len(),
{
    if key.len() == 0 {
        0
    } else {
        ((spec_hash(key.drop_last()) * 131313 + key.last()) % 0x1_0000_0000) as u32
    }
}

/// Whether some pair of `entries` has the key `key`.
pub open spec fn has_key(entries: Seq<(Seq<u8>, Seq<u8>)>, key: Seq<u8>) -> bool {
    exists|i: int| 0 <= i < entries.len() && (#[trigger] entries[i]).0 == key
}

/// The place of a pair with the key `key`.
pub open spec fn key_index(entries: Seq<(Seq<u8>, Seq<u8>)>, key: Seq<u8>) -> int {
    choose|i: int| 0 <= i < entries.len() && (#[trigger] entries[i]).0 == key
}

/// Whether `p` is the place where a key of hash `h` is inserted: behind
/// every pair whose hash is at most `h`, before every pair whose hash is
/// greater.
pub open spec fn is_insert_index(entries: Seq<(Seq<u8>, Seq<u8>)>, h: u32, p: int) -> bool {
    &&& 0 <= p <= entries.len()
    &&& forall|i: int| 0 <= i < p ==> spec_hash((#[trigger] entries[i]).0) <= h
    &&& forall|i: int| p <= i < entries.len() ==> spec_hash((#[trigger] entries[i]).0) > h
}

/// The place where a key of hash `h` is inserted.
pub open spec fn insert_index(entries: Seq<(Seq<u8>, Seq<u8>)>, h: u32) -> int {
    choose|p: int| is_insert_index(entries, h, p)
}

/// Whether `s` is the slot that a new pair is given: the least number that
/// is the slot of no pair.
pub open spec fn is_free_slot(slots: Seq<int>, s: int) -> bool {
    &&& 0 <= s
    &&& !slots.contains(s)
    &&& forall|t: int| 0 <= t < s ==> slots.contains(t)
}

/// The slot that a new pair is given.
pub open spec fn free_slot(slots: Seq<int>) -> int {
    choose|s: int| is_free_slot(slots, s)
}

/// The place of the pair whose slot is `slot`.
pub open spec fn slot_index(slots: Seq<int>, slot: int) -> int {
    choose|i: int| 0 <= i < slots.len() && slots[i] == slot
}

/// Whether the flags of an update name exactly one of the three modes.
pub open spec fn valid_update_flags(flags: u64) -> bool {
    flags == BPF_ANY || flags == BPF_EXIST || flags == BPF_NOEXIST
}

/// A map as contracts speak of it.
pub struct MapModel {
    pub kind: MapKind,
    pub attr: InternalMapAttr,
    /// The pairs of the map in iteration order. An array map has one pair
    /// for each slot, in slot order.
    pub entries: Seq<(Seq<u8>, Seq<u8>)>,
    /// The slots of the pairs of a hash map, in the order of `entries`. A
    /// pair is given its slot when its key is inserted and keeps it until
    /// the key is deleted, wherever in the order the pair comes to stand.
    /// An array map has no such numbers: the slot of a value is its byte
    /// offset.
    pub slots: Seq<int>,
}

impl MapModel {
    /// Every key and value has the size that the attributes give. An array
    /// map has four-byte keys and holds every slot. A hash map holds at
    /// most `max_entries` pairs, no key twice, in the order of their hashes,
    /// and each pair has a slot of its own.
    pub open spec fn wf(self) -> bool {
        &&& self.slots_wf()
        &&& forall|i: int|
            0 <= i < self.entries.len() ==> (#[trigger] self.entries[i]).0.len()
                == self.attr.key_size && self.entries[i].1.len() == self.attr.value_size
        &&& match self.kind {
            MapKind::Array => {
                &&& self.attr.key_size == 4
                &&& self.entries.len() == self.attr.max_entries
                &&& forall|i: int|
                    0 <= i < self.entries.len() ==> (#[trigger] self.entries[i]).0 == le_bytes(i)
            },
            MapKind::Hash => {
                &&& self.entries.len() <= self.attr.max_entries
                &&& forall|i: int, j: int|
                    0 <= i < j < self.entries.len() ==> (#[trigger] self.entries[i]).0 != (
                    #[trigger] self.entries[j]).0
                &&& forall|i: int, j: int|
                    0 <= i <= j < self.entries.len() ==> spec_hash((#[trigger] self.entries[i]).0)
                        <= spec_hash((#[trigger] self.entries[j]).0)
            },
        }
    }

    /// Every pair of a hash map has a slot, and no two pairs have the same.
    pub open spec fn slots_wf(self) -> bool {
        match self.kind {
            MapKind::Array => self.slots.len() == 0,
            MapKind::Hash => {
                &&& self.slots.len() == self.entries.len()
                &&& forall|i: int| 0 <= i < self.slots.len() ==> 0 <= #[trigger] self.slots[i]
                &&& forall|i: int, j: int|
                    0 <= i < j < self.slots.len() ==> #[trigger] self.slots[i]
                        != #[trigger] self.slots[j]
            },
        }
    }

    /// The value under `key`; `NoSuchEntry` for a slot past the end of an
    /// array map or a key that a hash map does not hold.
    pub open spec fn lookup(self, key: Seq<u8>) -> Result<Seq<u8>, BpfErrorCode> {
        match self.kind {
            MapKind::Array => if le_u32(key) >= self.attr.max_entries {
                Err(BpfErrorCode::NoSuchEntry)
            } else {
                Ok(self.entries[le_u32(key)].1)
            },
            MapKind::Hash => if has_key(self.entries, key) {
                Ok(self.entries[key_index(self.entries, key)].1)
            } else {
                Err(BpfErrorCode::NoSuchEntry)
            },
        }
    }

    /// The map after `value` is stored under `key`.
    ///
    /// An array map ignores the flags and refuses a slot past its end with
    /// `NoSuchEntry`. A hash map refuses flags other than `BPF_ANY`,
    /// `BPF_EXIST` and `BPF_NOEXIST` with `InvalidArgument`; a key that is
    /// present under `BPF_NOEXIST` with `AlreadyExists`; a key that is
    /// absent under `BPF_EXIST` with `NoSuchEntry`; and a new key when
    /// `max_entries` pairs are held with `OutOfMemory`. It replaces the
    /// value of a key that is present in place and puts a new pair behind
    /// all pairs whose hash is not greater. The new pair is given the least
    /// slot that no pair has; every other pair keeps its slot.
    pub open spec fn update(self, key: Seq<u8>, value: Seq<u8>, flags: u64) -> Result<
        MapModel,
        BpfErrorCode,
    > {
        match self.kind {
            MapKind::Array => if le_u32(key) >= self.attr.max_entries {
                Err(BpfErrorCode::NoSuchEntry)
            } else {
                Ok(MapModel { entries: self.entries.update(le_u32(key), (key, value)), ..self })
            },
            MapKind::Hash => if !valid_update_flags(flags) {
                Err(BpfErrorCode::InvalidArgument)
            } else if has_key(self.entries, key) {
                if flags == BPF_NOEXIST {
                    Err(BpfErrorCode::AlreadyExists)
                } else {
                    Ok(
                        MapModel {
                            entries: self.entries.update(
                                key_index(self.entries, key),
                                (key, value),
                            ),
                            ..self
                        },
                    )
                }
            } else if flags == BPF_EXIST {
                Err(BpfErrorCode::NoSuchEntry)
            } else if self.entries.len() >= self.attr.max_entries {
                Err(BpfErrorCode::OutOfMemory)
            } else {
                Ok(
                    MapModel {
                        entries: self.entries.insert(
                            insert_index(self.entries, spec_hash(key)),
                            (key, value),
                        ),
                        slots: self.slots.insert(
                            insert_index(self.entries, spec_hash(key)),
                            free_slot(self.slots),
                        ),
                        ..self
                    },
                )
            },
        }
    }

    /// The map after the pair under `key` is removed. An array map refuses
    /// with `InvalidArgument`; a hash map that does not hold the key with
    /// `NoSuchEntry`. The pairs that stay keep their slots.
    pub open spec fn delete(self, key: Seq<u8>) -> Result<MapModel, BpfErrorCode> {
        match self.kind {
            MapKind::Array => Err(BpfErrorCode::InvalidArgument),
            MapKind::Hash => if has_key(self.entries, key) {
                Ok(
                    MapModel {
                        entries: self.entries.remove(key_index(self.entries, key)),
                        slots: self.slots.remove(key_index(self.entries, key)),
                        ..self
                    },
                )
            } else {
                Err(BpfErrorCode::NoSuchEntry)
            },
        }
    }

    /// The key that follows `key` in iteration order.
    ///
    /// An array map gives slot 0 for a slot past its end and the next slot
    /// otherwise. A hash map gives its first key for a key that it does not
    /// hold and the key of the next pair otherwise. Either ends the
    /// iteration with `NoSuchEntry` when nothing follows.
    pub open spec fn next_key(self, key: Seq<u8>) -> Result<Seq<u8>, BpfErrorCode> {
        match self.kind {
            MapKind::Array => if le_u32(key) >= self.attr.max_entries {
                Ok(le_bytes(0))
            } else if le_u32(key) < self.attr.max_entries - 1 {
                Ok(le_bytes(le_u32(key) + 1))
            } else {
                Err(BpfErrorCode::NoSuchEntry)
            },
            MapKind::Hash => if has_key(self.entries, key) {
                if key_index(self.entries, key) + 1 < self.entries.len() {
                    Ok(self.entries[key_index(self.entries, key) + 1].0)
                } else {
                    Err(BpfErrorCode::NoSuchEntry)
                }
            } else if self.entries.len() > 0 {
                Ok(self.entries[0].0)
            } else {
                Err(BpfErrorCode::NoSuchEntry)
            },
        }
    }

    /// The slot that the helper-side lookup names: the byte offset of the
    /// value in the storage of an array map, the slot of the pair in a hash
    /// map. Either stays the same for as long as the map holds the key.
    pub open spec fn slot(self, key: Seq<u8>) -> Result<int, BpfErrorCode> {
        match self.kind {
            MapKind::Array => if le_u32(key) >= self.attr.max_entries {
                Err(BpfErrorCode::NoSuchEntry)
            } else {
                Ok(le_u32(key) * self.attr.value_size)
            },
            MapKind::Hash => if has_key(self.entries, key) {
                Ok(self.slots[key_index(self.entries, key)])
            } else {
                Err(BpfErrorCode::NoSuchEntry)
            },
        }
    }

    /// Whether some pair of a hash map has the slot `slot`.
    pub open spec fn has_slot(self, slot: int) -> bool {
        self.slots.contains(slot)
    }

    /// The value of the pair of a hash map whose slot is `slot`.
    pub open spec fn value_at_slot(self, slot: int) -> Seq<u8> {
        self.entries[slot_index(self.slots, slot)].1
    }
}

/// The operations that every kind of map offers. Keys and values are byte
/// strings of the sizes that the map was created with.
pub trait BpfMap {
    /// The map as contracts speak of it.
    spec fn model(&self) -> MapModel;

    /// The representation is consistent.
    spec fn inv(&self) -> bool;

    /// A consistent map has a well-formed model.
    proof fn lemma_inv_wf(&self)
        requires
            self.inv(),
        ensures
            self.model().wf(),
    ;

    /// Copies the value under `key` into `value`.
    fn lookup(&self, key: &[u8], value: &mut Vec<u8>) -> (r: BpfResult)
        requires
            self.inv(),
            key@.len() == self.model().attr.key_size,
        ensures
            match r {
                Ok(n) => n == 0 && self.model().lookup(key@) == Ok::<Seq<u8>, BpfErrorCode>(
                    final(value)@,
                ),
                Err(e) => self.model().lookup(key@) == Err::<Seq<u8>, BpfErrorCode>(e) && final(value)@ == old(value)@,
            },
    ;

    /// Stores `value` under `key`. Every key that the map holds keeps its
    /// slot.
    fn update(&mut self, key: &[u8], value: &[u8], flags: u64) -> (r: BpfResult)
        requires
            old(self).inv(),
            key@.len() == old(self).model().attr.key_size,
            value@.len() == old(self).model().attr.value_size,
        ensures
            final(self).inv(),
            forall|other: Seq<u8>|
                other != key@ ==> #[trigger] final(self).model().slot(other) == old(self).model().slot(other),
            old(self).model().slot(key@) is Ok ==> final(self).model().slot(key@) == old(self).model().slot(key@),
            match r {
                Ok(n) => n == 0 && old(self).model().update(key@, value@, flags) == Ok::<
                    MapModel,
                    BpfErrorCode,
                >(final(self).model()),
                Err(e) => old(self).model().update(key@, value@, flags) == Err::<
                    MapModel,
                    BpfErrorCode,
                >(e) && final(self).model() == old(self).model(),
            },
    ;

    /// Removes the pair under `key`. Every other key that the map holds
    /// keeps its slot.
    fn delete(&mut self, key: &[u8]) -> (r: BpfResult)
        requires
            old(self).inv(),
            key@.len() == old(self).model().attr.key_size,
        ensures
            final(self).inv(),
            forall|other: Seq<u8>|
                other != key@ ==> #[trigger] final(self).model().slot(other) == old(self).model().slot(other),
            match r {
                Ok(n) => n == 0 && old(self).model().delete(key@) == Ok::<MapModel, BpfErrorCode>(
                    final(self).model(),
                ),
                Err(e) => old(self).model().delete(key@) == Err::<MapModel, BpfErrorCode>(e)
                    && final(self).model() == old(self).model(),
            },
    ;

    /// Copies the key that follows `key` into `next_key`.
    fn next_key(&self, key: &[u8], next_key: &mut Vec<u8>) -> (r: BpfResult)
        requires
            self.inv(),
            key@.len() == self.model().attr.key_size,
        ensures
            match r {
                Ok(n) => n == 0 && self.model().next_key(key@) == Ok::<Seq<u8>, BpfErrorCode>(
                    final(next_key)@,
                ),
                Err(e) => self.model().next_key(key@) == Err::<Seq<u8>, BpfErrorCode>(e) && final(next_key)@ == old(next_key)@,
            },
    ;

    /// The sizes of the map.
    fn get_attr(&self) -> (attr: InternalMapAttr)
        ensures
            attr == self.model().attr,
    ;

    /// The lookup that helper functions use: it names the slot of the value
    /// in place of copying the value.
    fn lookup_helper(&self, key: &[u8]) -> (r: BpfResult)
        requires
            self.inv(),
            key@.len() == self.model().attr.key_size,
        ensures
            match r {
                Ok(slot) => self.model().slot(key@) == Ok::<int, BpfErrorCode>(slot as int),
                Err(e) => self.model().slot(key@) == Err::<int, BpfErrorCode>(e),
            },
    ;
}

/// Replaces the contents of `dst` by those of `src`.
pub fn copy(dst: &mut Vec<u8>, src: &[u8])
    ensures
        final(dst)@ == src@,
{
    dst.clear();
    dst.extend_from_slice(src);
}

/// Whether two byte strings are equal.
pub fn bytes_equal(u: &[u8], v: &[u8]) -> (r: bool)
    ensures
        r == (u@ == v@),
{
    if u.len() != v.len() {
        return false;
    }
    let n: usize = u.len();
    let mut i: usize = 0;
    while i < n
        invariant
            i <= n,
            n == u@.len(),
            n == v@.len(),
            forall|k: int| 0 <= k < i ==> u@[k] == v@[k],
        decreases n - i,
    {
        if u[i] != v[i] {
            return false;
        }
        i += 1;
    }
    assert(u@ =~= v@);
    true
}

/// The little-endian number in the first four bytes of a key.
pub fn read_le_u32(key: &[u8]) -> (v: u32)
    requires
        key@.len() >= 4,
    ensures
        v == le_u32(key@),
{
    (key[0] as u32) + (key[1] as u32) * 0x100 + (key[2] as u32) * 0x1_0000 + (key[3] as u32)
        * 0x100_0000
}

/// Writes a number as four little-endian bytes.
pub fn write_le_u32(dst: &mut Vec<u8>, v: u32)
    ensures
        final(dst)@ == le_bytes(v as int),
        le_u32(final(dst)@) == v,
{
    dst.clear();
    dst.push((v % 0x100) as u8);
    dst.push(((v / 0x100) % 0x100) as u8);
    dst.push(((v / 0x1_0000) % 0x100) as u8);
    dst.push(((v / 0x100_0000) % 0x100) as u8);
    assert(dst@ =~= le_bytes(v as int));
}

/// The hash of a key.
pub fn hash(key: &[u8]) -> (h: u32)
    ensures
        h == spec_hash(key@),
{
    let n: usize = key.len();
    let mut h: u32 = 0;
    let mut i: usize = 0;
    while i < n
        invariant
            i <= n,
            n == key@.len(),
            h == spec_hash(key@.take(i as int)),
        decreases n - i,
    {
        assert(key@.take(i + 1).drop_last() =~= key@.take(i as int));
        h = ((h as u64 * 131313 + key[i] as u64) % 0x1_0000_0000) as u32;
        i += 1;
    }
    assert(key@.take(n as int) =~= key@);
    h
}

} // verus!
