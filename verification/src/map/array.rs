//! The array map: `max_entries` slots of `value_size` bytes in one block of
//! storage that is never reallocated.

use vstd::prelude::*;
use crate::retcode::{BpfErrorCode, BpfResult};
use crate::map::internal::{
    InternalMapAttr, BpfMap, MapModel, MapKind, le_bytes, read_le_u32, write_le_u32,
    lemma_le_bytes_of_le_u32,
};

verus! {

/// A map whose keys are slot numbers.
pub struct ArrayMap {
    attr: InternalMapAttr,
    storage: Vec<u8>,
}

/// The bytes of slot `i` in a block of slots of `value_size` bytes.
pub open spec fn slot_bytes(storage: Seq<u8>, value_size: int, i: int) -> Seq<u8> {
    storage.subrange(i * value_size, i * value_size + value_size)
}

// Slot `i` of `n` lies within `n * size` bytes.
proof fn lemma_slot_bounds(i: int, n: int, size: int)
    requires
        0 <= i < n,
        0 <= size,
    ensures
        0 <= i * size,
        i * size + size <= n * size,
{
    assert(0 <= i * size) by (nonlinear_arith)
        requires
            0 <= i,
            0 <= size,
    ;
    assert(i * size + size <= n * size) by (nonlinear_arith)
        requires
            i < n,
            0 <= size,
    ;
}

// A slot ends before any later slot begins.
proof fn lemma_slots_apart(i: int, j: int, size: int)
    requires
        0 <= i < j,
        0 <= size,
    ensures
        i * size + size <= j * size,
{
    assert(i * size + size <= j * size) by (nonlinear_arith)
        requires
            i < j,
            0 <= size,
    ;
}

// Storing a value in one slot changes the bytes of that slot only.
proof fn lemma_store_slot(
    before: Seq<u8>,
    after: Seq<u8>,
    n: int,
    size: int,
    index: int,
    value: Seq<u8>,
)
    requires
        0 <= index < n,
        0 <= size,
        before.len() == n * size,
        after.len() == n * size,
        value.len() == size,
        forall|j: int| 0 <= j < index * size ==> after[j] == before[j],
        forall|j: int| index * size + size <= j < after.len() ==> after[j] == before[j],
        forall|j: int|
            index * size <= j < index * size + size ==> after[j] == value[j - index * size],
    ensures
        slot_bytes(after, size, index) == value,
        forall|i: int|
            0 <= i < n && i != index ==> #[trigger] slot_bytes(after, size, i) == slot_bytes(
                before,
                size,
                i,
            ),
{
    lemma_slot_bounds(index, n, size);
    assert(slot_bytes(after, size, index) =~= value);
    assert forall|i: int| 0 <= i < n && i != index implies #[trigger] slot_bytes(after, size, i)
        == slot_bytes(before, size, i) by {
        lemma_slot_bounds(i, n, size);
        if i < index {
            lemma_slots_apart(i, index, size);
        } else {
            lemma_slots_apart(index, i, size);
        }
        assert(slot_bytes(after, size, i) =~= slot_bytes(before, size, i));
    }
}

impl ArrayMap {
    /// A map of the given sizes with every value zero.
    pub fn new(attr: InternalMapAttr) -> (map: Self)
        requires
            attr.key_size == 4,
            attr.max_entries <= 0xffff_ffff,
            attr.max_entries * attr.value_size <= usize::MAX,
        ensures
            map.inv(),
            map.model().kind == MapKind::Array,
            map.model().attr == attr,
            map.model().wf(),
            forall|i: int|
                0 <= i < attr.max_entries ==> (#[trigger] map.model().entries[i]).1 == Seq::new(
                    attr.value_size as nat,
                    |k: int| 0u8,
                ),
    {
        let size: usize = attr.max_entries * attr.value_size;
        let storage: Vec<u8> = vec![0u8; size];
        let map = Self { attr, storage };
        proof {
            assert forall|i: int| 0 <= i < attr.max_entries implies (
            #[trigger] map.model().entries[i]).1 == Seq::new(
                attr.value_size as nat,
                |k: int| 0u8,
            ) by {
                lemma_slot_bounds(i, attr.max_entries as int, attr.value_size as int);
                assert(map.model().entries[i].1 =~= Seq::new(
                    attr.value_size as nat,
                    |k: int| 0u8,
                ));
            }
            map.lemma_model_wf();
        }
        map
    }

    /// A consistent map has a well-formed model.
    pub proof fn lemma_model_wf(&self)
        requires
            self.inv(),
        ensures
            self.model().wf(),
            self.model().kind == MapKind::Array,
    {
        let m = self.model();
        assert forall|i: int| 0 <= i < m.entries.len() implies (#[trigger] m.entries[i]).0.len()
            == m.attr.key_size && m.entries[i].1.len() == m.attr.value_size by {
            lemma_slot_bounds(i, self.attr.max_entries as int, self.attr.value_size as int);
        }
    }

    // The byte offset of slot `index` in the storage.
    fn get_element_addr(&self, index: usize) -> (offset: usize)
        requires
            self.inv(),
            index < self.attr.max_entries,
        ensures
            offset == index * self.attr.value_size,
            offset + self.attr.value_size <= self.storage@.len(),
    {
        proof {
            lemma_slot_bounds(
                index as int,
                self.attr.max_entries as int,
                self.attr.value_size as int,
            );
        }
        assert(self.attr.value_size * index == index * self.attr.value_size) by (nonlinear_arith);
        self.attr.value_size * index
    }

    /// The value in the slot at byte offset `slot`, as the helper-side
    /// lookup names it. The storage is never reallocated, so the address of
    /// these bytes stays the same while the map lives.
    pub fn slot_value(&self, slot: usize) -> (value: &[u8])
        requires
            self.inv(),
            slot + self.model().attr.value_size <= self.model().attr.max_entries
                * self.model().attr.value_size,
        ensures
            value@ == self.storage_bytes().subrange(
                slot as int,
                slot + self.model().attr.value_size,
            ),
    {
        let end: usize = slot + self.attr.value_size;
        vstd::slice::slice_subrange(self.storage.as_slice(), slot, end)
    }

    /// The storage as one byte string: slot after slot.
    pub closed spec fn storage_bytes(&self) -> Seq<u8> {
        self.storage@
    }
}

impl BpfMap for ArrayMap {
    /// Slot `i` stands under the key that spells `i`.
    closed spec fn model(&self) -> MapModel {
        MapModel {
            kind: MapKind::Array,
            attr: self.attr,
            entries: Seq::new(
                self.attr.max_entries as nat,
                |i: int| (le_bytes(i), slot_bytes(self.storage@, self.attr.value_size as int, i)),
            ),
            slots: Seq::empty(),
        }
    }

    /// The storage holds exactly the slots, keys are four bytes, and slot
    /// numbers fit 32 bits.
    closed spec fn inv(&self) -> bool {
        &&& self.attr.key_size == 4
        &&& self.attr.max_entries <= 0xffff_ffff
        &&& self.storage@.len() == self.attr.max_entries * self.attr.value_size
        &&& self.attr.max_entries * self.attr.value_size <= usize::MAX
    }

    proof fn lemma_inv_wf(&self) {
        self.lemma_model_wf();
    }

    fn lookup(&self, key: &[u8], value: &mut Vec<u8>) -> (r: BpfResult) {
        let index: usize = read_le_u32(key) as usize;
        if index >= self.attr.max_entries {
            return Err(BpfErrorCode::NoSuchEntry);
        }
        let p: usize = self.get_element_addr(index);
        let n: usize = self.attr.value_size;
        value.clear();
        let mut k: usize = 0;
        while k < n
            invariant
                k <= n,
                n == self.attr.value_size,
                p + n <= self.storage@.len(),
                p + n <= usize::MAX,
                value@ == self.storage@.subrange(p as int, p + k),
            decreases n - k,
        {
            value.push(self.storage[p + k]);
            k += 1;
            assert(value@ =~= self.storage@.subrange(p as int, p + k));
        }
        Ok(0)
    }

    fn update(&mut self, key: &[u8], value: &[u8], _flags: u64) -> (r: BpfResult) {
        let index: usize = read_le_u32(key) as usize;
        if index >= self.attr.max_entries {
            return Err(BpfErrorCode::NoSuchEntry);
        }
        let p: usize = self.get_element_addr(index);
        let n: usize = self.attr.value_size;
        let mut k: usize = 0;
        while k < n
            invariant
                k <= n,
                n == self.attr.value_size,
                n == value@.len(),
                self.attr == old(self).attr,
                self.storage@.len() == old(self).storage@.len(),
                p + n <= self.storage@.len(),
                p + n <= usize::MAX,
                forall|j: int| 0 <= j < p ==> self.storage@[j] == old(self).storage@[j],
                forall|j: int|
                    p + n <= j < self.storage@.len() ==> self.storage@[j] == old(self).storage@[j],
                forall|j: int| p <= j < p + k ==> self.storage@[j] == value@[j - p],
            decreases n - k,
        {
            self.storage.set(p + k, value[k]);
            k += 1;
        }
        proof {
            lemma_le_bytes_of_le_u32(key@);
            lemma_store_slot(
                old(self).storage@,
                self.storage@,
                self.attr.max_entries as int,
                self.attr.value_size as int,
                index as int,
                value@,
            );
            assert(self.model().entries =~= old(self).model().entries.update(
                index as int,
                (key@, value@),
            ));
        }
        Ok(0)
    }

    fn delete(&mut self, _key: &[u8]) -> (r: BpfResult) {
        Err(BpfErrorCode::InvalidArgument)
    }

    fn next_key(&self, key: &[u8], next_key: &mut Vec<u8>) -> (r: BpfResult) {
        let index: usize = read_le_u32(key) as usize;
        if index >= self.attr.max_entries {
            write_le_u32(next_key, 0);
            return Ok(0);
        }
        if index < self.attr.max_entries - 1 {
            write_le_u32(next_key, (index + 1) as u32);
            Ok(0)
        } else {
            Err(BpfErrorCode::NoSuchEntry)
        }
    }

    fn get_attr(&self) -> (attr: InternalMapAttr) {
        self.attr
    }

    fn lookup_helper(&self, key: &[u8]) -> (r: BpfResult) {
        let index: usize = read_le_u32(key) as usize;
        if index >= self.attr.max_entries {
            return Err(BpfErrorCode::NoSuchEntry);
        }
        Ok(self.get_element_addr(index))
    }
}

} // verus!
