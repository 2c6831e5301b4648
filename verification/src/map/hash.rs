//! The hash map: pairs kept in the order of the 32-bit hash of their key
//! and, among equal hashes, in the order in which they were inserted. Each
//! pair has a slot, a number that it keeps while other pairs come and go.

use vstd::prelude::*;
use crate::consts::{BPF_ANY, BPF_EXIST, BPF_NOEXIST};
use crate::retcode::{BpfErrorCode, BpfResult};
use crate::map::laws::{lemma_hash_update_keeps_slots, lemma_hash_delete_keeps_slots};
use crate::map::internal::{
    InternalMapAttr, BpfMap, MapModel, MapKind, spec_hash, has_key, key_index, is_insert_index,
    insert_index, is_free_slot, free_slot, slot_index, copy, bytes_equal, hash,
};

verus! {

/// A map under arbitrary keys of one size.
///
/// The hashes, keys, values and slots of the pairs stand at the same place
/// in four vectors. `used` says of each slot number below its length
/// whether a pair has it.
pub struct HashMap {
    attr: InternalMapAttr,
    hashes: Vec<u32>,
    keys: Vec<Vec<u8>>,
    values: Vec<Vec<u8>>,
    slots: Vec<usize>,
    used: Vec<bool>,
    total_elems: usize,
}

/// The slot numbers that a vector of slots holds.
pub open spec fn slot_numbers(slots: Seq<usize>) -> Seq<int> {
    Seq::new(slots.len(), |i: int| slots[i] as int)
}

/// There is one slot only that a new pair can be given.
pub proof fn lemma_free_slot_unique(slots: Seq<int>, s: int)
    requires
        is_free_slot(slots, s),
    ensures
        free_slot(slots) == s,
{
    let t = free_slot(slots);
    assert(is_free_slot(slots, t));
    if t < s {
        assert(slots.contains(t));
    } else if s < t {
        assert(slots.contains(s));
    }
}

/// Where no slot stands twice, a slot stands at one place only.
pub proof fn lemma_slot_index_unique(slots: Seq<int>, slot: int, i: int)
    requires
        0 <= i < slots.len(),
        slots[i] == slot,
        forall|a: int, b: int| 0 <= a < b < slots.len() ==> #[trigger] slots[a] != #[trigger] slots[b],
    ensures
        slot_index(slots, slot) == i,
{
    let j = slot_index(slots, slot);
    assert(0 <= j < slots.len() && slots[j] == slot);
    if j < i {
        assert(slots[j] != slots[i]);
    } else if i < j {
        assert(slots[i] != slots[j]);
    }
}

/// The pairs that vectors of keys and values hold.
pub open spec fn pairs(keys: Seq<Vec<u8>>, values: Seq<Vec<u8>>) -> Seq<(Seq<u8>, Seq<u8>)> {
    Seq::new(keys.len(), |i: int| (keys[i]@, values[i]@))
}

/// In a sequence ordered by hash there is one place only to insert at.
pub proof fn lemma_insert_index_unique(entries: Seq<(Seq<u8>, Seq<u8>)>, h: u32, p: int)
    requires
        is_insert_index(entries, h, p),
    ensures
        insert_index(entries, h) == p,
{
    let q = insert_index(entries, h);
    assert(is_insert_index(entries, h, q));
    if q < p {
        assert(spec_hash(entries[q].0) <= h);
    } else if p < q {
        assert(spec_hash(entries[p].0) <= h);
    }
}

/// Where no key stands twice, a key stands at one place only.
pub proof fn lemma_key_index_unique(entries: Seq<(Seq<u8>, Seq<u8>)>, key: Seq<u8>, i: int)
    requires
        0 <= i < entries.len(),
        entries[i].0 == key,
        forall|a: int, b: int|
            0 <= a < b < entries.len() ==> (#[trigger] entries[a]).0 != (#[trigger] entries[b]).0,
    ensures
        has_key(entries, key),
        key_index(entries, key) == i,
{
    let j = key_index(entries, key);
    assert(0 <= j < entries.len() && entries[j].0 == key);
    if j < i {
        assert(entries[j].0 != entries[i].0);
    } else if i < j {
        assert(entries[i].0 != entries[j].0);
    }
}

impl HashMap {
    /// The pairs of the map in iteration order.
    pub closed spec fn entries(&self) -> Seq<(Seq<u8>, Seq<u8>)> {
        pairs(self.keys@, self.values@)
    }

    /// The slots of the pairs, in iteration order.
    pub closed spec fn slot_seq(&self) -> Seq<int> {
        slot_numbers(self.slots@)
    }

    /// A consistent hash map has a well-formed model of the hash kind.
    pub proof fn lemma_model_wf(&self)
        requires
            self.inv(),
        ensures
            self.model().wf(),
            self.model().kind == MapKind::Hash,
            self.model().entries == self.entries(),
            self.model().slots == self.slot_seq(),
    {
        self.lemma_inv_wf();
    }

    /// A map of the given sizes that holds no pair.
    pub fn new(attr: InternalMapAttr) -> (map: Self)
        ensures
            map.inv(),
            map.model().kind == MapKind::Hash,
            map.model().attr == attr,
            map.model().entries == Seq::<(Seq<u8>, Seq<u8>)>::empty(),
            map.model().slots == Seq::<int>::empty(),
            map.model().wf(),
    {
        let map = Self {
            attr,
            hashes: Vec::new(),
            keys: Vec::new(),
            values: Vec::new(),
            slots: Vec::new(),
            used: Vec::new(),
            total_elems: 0,
        };
        assert(map.entries() =~= Seq::<(Seq<u8>, Seq<u8>)>::empty());
        assert(map.slot_seq() =~= Seq::<int>::empty());
        map
    }

    /// The number of pairs that the map holds.
    pub fn len(&self) -> (n: usize)
        requires
            self.inv(),
        ensures
            n == self.model().entries.len(),
    {
        self.total_elems
    }

    // The first place whose hash is at least `h` or, if `strict`, greater
    // than `h`.
    fn bound(&self, h: u32, strict: bool) -> (p: usize)
        requires
            self.inv(),
        ensures
            p <= self.hashes@.len(),
            forall|i: int|
                0 <= i < p ==> (if strict {
                    #[trigger] self.hashes@[i] <= h
                } else {
                    self.hashes@[i] < h
                }),
            forall|i: int|
                p <= i < self.hashes@.len() ==> (if strict {
                    #[trigger] self.hashes@[i] > h
                } else {
                    self.hashes@[i] >= h
                }),
    {
        let mut lo: usize = 0;
        let mut hi: usize = self.hashes.len();
        while lo < hi
            invariant
                lo <= hi <= self.hashes@.len(),
                forall|i: int, j: int|
                    0 <= i <= j < self.hashes@.len() ==> #[trigger] self.hashes@[i]
                        <= #[trigger] self.hashes@[j],
                forall|i: int|
                    0 <= i < lo ==> (if strict {
                        #[trigger] self.hashes@[i] <= h
                    } else {
                        self.hashes@[i] < h
                    }),
                forall|i: int|
                    hi <= i < self.hashes@.len() ==> (if strict {
                        #[trigger] self.hashes@[i] > h
                    } else {
                        self.hashes@[i] >= h
                    }),
            decreases hi - lo,
        {
            let mid: usize = lo + (hi - lo) / 2;
            let before: bool = if strict {
                self.hashes[mid] <= h
            } else {
                self.hashes[mid] < h
            };
            if before {
                assert forall|i: int| 0 <= i < mid + 1 implies (if strict {
                    #[trigger] self.hashes@[i] <= h
                } else {
                    self.hashes@[i] < h
                }) by {
                    assert(self.hashes@[i] <= self.hashes@[mid as int]);
                }
                lo = mid + 1;
            } else {
                assert forall|i: int| mid <= i < self.hashes@.len() implies (if strict {
                    #[trigger] self.hashes@[i] > h
                } else {
                    self.hashes@[i] >= h
                }) by {
                    assert(self.hashes@[mid as int] <= self.hashes@[i]);
                }
                hi = mid;
            }
        }
        lo
    }

    // The place of the pair under `key`.
    fn find(&self, key: &[u8]) -> (r: Option<usize>)
        requires
            self.inv(),
        ensures
            match r {
                Some(i) => i < self.entries().len() && has_key(self.entries(), key@) && key_index(
                    self.entries(),
                    key@,
                ) == i,
                None => !has_key(self.entries(), key@),
            },
    {
        let h: u32 = hash(key);
        let start: usize = self.bound(h, false);
        let n: usize = self.hashes.len();
        let mut i: usize = start;
        while i < n && self.hashes[i] == h
            invariant
                self.inv(),
                start <= i <= n,
                n == self.hashes@.len(),
                h == spec_hash(key@),
                forall|j: int| 0 <= j < start ==> #[trigger] self.hashes@[j] < h,
                forall|j: int| start <= j < i ==> (#[trigger] self.entries()[j]).0 != key@,
            decreases n - i,
        {
            if bytes_equal(self.keys[i].as_slice(), key) {
                proof {
                    lemma_key_index_unique(self.entries(), key@, i as int);
                }
                return Some(i);
            }
            i += 1;
        }
        proof {
            assert forall|j: int| 0 <= j < self.entries().len() implies (
            #[trigger] self.entries()[j]).0 != key@ by {
                if j < start {
                    assert(self.hashes@[j] < h);
                } else if j >= i {
                    assert(self.hashes@[i as int] <= self.hashes@[j]);
                }
            }
        }
        None
    }

    // A zeroed buffer of `size` bytes.
    fn alloc_buffer(size: usize) -> (buf: Vec<u8>)
        ensures
            buf@ == Seq::new(size as nat, |i: int| 0u8),
    {
        let buf: Vec<u8> = vec![0u8; size];
        assert(buf@ =~= Seq::new(size as nat, |i: int| 0u8));
        buf
    }

    // Marks the least slot that no pair has as used, and returns it.
    fn claim_slot(used: &mut Vec<bool>, Ghost(slots): Ghost<Seq<int>>) -> (s: usize)
        requires
            forall|i: int|
                0 <= i < slots.len() ==> 0 <= #[trigger] slots[i] < old(used)@.len() && old(
                    used,
                )@[slots[i]],
            forall|t: int| 0 <= t < old(used)@.len() && #[trigger] old(used)@[t] ==> slots.contains(t),
        ensures
            is_free_slot(slots, s as int),
            s < final(used)@.len(),
            final(used)@.len() == (if s < old(used)@.len() {
                old(used)@.len()
            } else {
                old(used)@.len() + 1
            }),
            final(used)@[s as int],
            forall|t: int| 0 <= t < old(used)@.len() && t != s ==> final(used)@[t] == old(used)@[t],
    {
        let n: usize = used.len();
        let mut s: usize = 0;
        while s < n && used[s]
            invariant
                s <= n,
                n == used@.len(),
                used@ == old(used)@,
                forall|t: int| 0 <= t < s ==> #[trigger] used@[t],
            decreases n - s,
        {
            s += 1;
        }
        proof {
            assert forall|t: int| 0 <= t < s implies slots.contains(t) by {
                assert(used@[t]);
            }
            if slots.contains(s as int) {
                let i = choose|i: int| 0 <= i < slots.len() && slots[i] == s as int;
                assert(0 <= slots[i] < used@.len() && used@[slots[i]]);
            }
        }
        if s < n {
            used.set(s, true);
        } else {
            used.push(true);
        }
        s
    }

    /// The value of the pair whose slot is `slot`, as the helper-side
    /// lookup names it.
    pub fn slot_value(&self, slot: usize) -> (value: &[u8])
        requires
            self.inv(),
            self.model().has_slot(slot as int),
        ensures
            value@ == self.model().value_at_slot(slot as int),
    {
        let n: usize = self.slots.len();
        let mut i: usize = 0;
        while i < n && self.slots[i] != slot
            invariant
                self.inv(),
                i <= n,
                n == self.slots@.len(),
                self.model().has_slot(slot as int),
                forall|j: int| 0 <= j < i ==> #[trigger] self.slots@[j] != slot,
            decreases n - i,
        {
            i += 1;
        }
        proof {
            let slots = self.slot_seq();
            assert(slots.contains(slot as int));
            let j = choose|j: int| 0 <= j < slots.len() && slots[j] == slot as int;
            assert(self.slots@[j] == slot);
            assert(i < n);
            assert(slots[i as int] == slot as int);
            assert forall|a: int, b: int| 0 <= a < b < slots.len() implies #[trigger] slots[a]
                != #[trigger] slots[b] by {
                assert(self.slots@[a] != self.slots@[b]);
            }
            lemma_slot_index_unique(slots, slot as int, i as int);
        }
        self.values[i].as_slice()
    }
}

impl BpfMap for HashMap {
    closed spec fn model(&self) -> MapModel {
        MapModel {
            kind: MapKind::Hash,
            attr: self.attr,
            entries: self.entries(),
            slots: self.slot_seq(),
        }
    }

    /// The four vectors have one length, which `total_elems` counts and
    /// `max_entries` bounds; every hash is the hash of its key; keys and
    /// values have the sizes of the map; hashes ascend; no key stands
    /// twice; no slot stands twice, and the slots that stand are those
    /// marked as used.
    closed spec fn inv(&self) -> bool {
        &&& self.hashes@.len() == self.keys@.len()
        &&& self.values@.len() == self.keys@.len()
        &&& self.slots@.len() == self.keys@.len()
        &&& forall|i: int|
            0 <= i < self.slots@.len() ==> #[trigger] self.slots@[i] < self.used@.len()
                && self.used@[self.slots@[i] as int]
        &&& forall|i: int, j: int|
            0 <= i < j < self.slots@.len() ==> #[trigger] self.slots@[i] != #[trigger] self.slots@[j]
        &&& forall|t: int|
            0 <= t < self.used@.len() && #[trigger] self.used@[t] ==> self.slot_seq().contains(t)
        &&& self.total_elems == self.keys@.len()
        &&& self.keys@.len() <= self.attr.max_entries
        &&& forall|i: int|
            0 <= i < self.keys@.len() ==> {
                &&& #[trigger] self.hashes@[i] == spec_hash(self.keys@[i]@)
                &&& self.keys@[i]@.len() == self.attr.key_size
                &&& self.values@[i]@.len() == self.attr.value_size
            }
        &&& forall|i: int, j: int|
            0 <= i <= j < self.hashes@.len() ==> #[trigger] self.hashes@[i]
                <= #[trigger] self.hashes@[j]
        &&& forall|i: int, j: int|
            0 <= i < j < self.keys@.len() ==> (#[trigger] self.keys@[i])@ != (
            #[trigger] self.keys@[j])@
    }

    proof fn lemma_inv_wf(&self) {
        let m = self.model();
        assert forall|i: int, j: int| 0 <= i < j < m.slots.len() implies #[trigger] m.slots[i]
            != #[trigger] m.slots[j] by {
            assert(self.slots@[i] != self.slots@[j]);
        }
        assert forall|i: int, j: int| 0 <= i <= j < m.entries.len() implies spec_hash(
            (#[trigger] m.entries[i]).0,
        ) <= spec_hash((#[trigger] m.entries[j]).0) by {
            assert(self.hashes@[i] <= self.hashes@[j]);
        }
        assert forall|i: int, j: int| 0 <= i < j < m.entries.len() implies (
        #[trigger] m.entries[i]).0 != (#[trigger] m.entries[j]).0 by {
            assert(self.keys@[i]@ != self.keys@[j]@);
        }
        assert forall|i: int| 0 <= i < m.entries.len() implies (#[trigger] m.entries[i]).0.len()
            == m.attr.key_size && m.entries[i].1.len() == m.attr.value_size by {
            assert(self.hashes@[i] == spec_hash(self.keys@[i]@));
        }
    }

    fn lookup(&self, key: &[u8], value: &mut Vec<u8>) -> (r: BpfResult) {
        match self.find(key) {
            Some(i) => {
                copy(value, self.values[i].as_slice());
                Ok(0)
            },
            None => Err(BpfErrorCode::NoSuchEntry),
        }
    }

    fn update(&mut self, key: &[u8], value: &[u8], flags: u64) -> (r: BpfResult) {
        // exactly one of the three modes may be given
        if !(flags == BPF_ANY || flags == BPF_EXIST || flags == BPF_NOEXIST) {
            return Err(BpfErrorCode::InvalidArgument);
        }
        match self.find(key) {
            Some(i) => {
                if flags == BPF_NOEXIST {
                    return Err(BpfErrorCode::AlreadyExists);
                }
                // overwrite the value where it stands
                copy(&mut self.values[i], value);
                proof {
                    assert(self.hashes@[i as int] == spec_hash(self.keys@[i as int]@));
                    assert(self.entries() =~= old(self).entries().update(
                        i as int,
                        (key@, value@),
                    ));
                    assert(self.slot_seq() == old(self).slot_seq());
                    old(self).lemma_inv_wf();
                    lemma_hash_update_keeps_slots(old(self).model(), key@, value@, flags);
                }
                Ok(0)
            },
            None => {
                if flags == BPF_EXIST {
                    return Err(BpfErrorCode::NoSuchEntry);
                }
                if self.total_elems >= self.attr.max_entries {
                    return Err(BpfErrorCode::OutOfMemory);
                }
                // copy the key and the value into buffers of the map's own
                let mut map_key = HashMap::alloc_buffer(self.attr.key_size);
                let mut map_value = HashMap::alloc_buffer(self.attr.value_size);
                copy(&mut map_key, key);
                copy(&mut map_value, value);
                let hashcode: u32 = hash(key);
                let p: usize = self.bound(hashcode, true);
                proof {
                    assert(is_insert_index(old(self).entries(), hashcode, p as int)) by {
                        assert forall|i: int| 0 <= i < p implies spec_hash(
                            (#[trigger] old(self).entries()[i]).0,
                        ) <= hashcode by {
                            assert(self.hashes@[i] <= hashcode);
                        }
                        assert forall|i: int| p <= i < old(self).entries().len() implies spec_hash(
                            (#[trigger] old(self).entries()[i]).0,
                        ) > hashcode by {
                            assert(self.hashes@[i] > hashcode);
                        }
                    }
                    lemma_insert_index_unique(old(self).entries(), hashcode, p as int);
                    assert forall|i: int| 0 <= i < old(self).keys@.len() implies (
                    #[trigger] old(self).keys@[i])@ != key@ by {
                        assert(old(self).entries()[i].0 == old(self).keys@[i]@);
                    }
                }
                proof {
                    assert forall|i: int| 0 <= i < self.slot_seq().len() implies 0
                        <= #[trigger] self.slot_seq()[i] < self.used@.len()
                        && self.used@[self.slot_seq()[i]] by {
                        assert(self.slots@[i] < self.used@.len());
                    }
                }
                let ghost held = self.slot_seq();
                let slot: usize = HashMap::claim_slot(&mut self.used, Ghost(held));
                proof {
                    lemma_free_slot_unique(old(self).slot_seq(), slot as int);
                }
                self.hashes.insert(p, hashcode);
                self.keys.insert(p, map_key);
                self.values.insert(p, map_value);
                self.slots.insert(p, slot);
                self.total_elems += 1;
                proof {
                    assert(self.entries() =~= old(self).entries().insert(
                        p as int,
                        (key@, value@),
                    ));
                    assert(self.slot_seq() =~= old(self).slot_seq().insert(p as int, slot as int));
                    assert forall|i: int| 0 <= i < self.slots@.len() implies #[trigger] self.slots@[i]
                        < self.used@.len() && self.used@[self.slots@[i] as int] by {
                        if i != p {
                            let a = if i < p {
                                i
                            } else {
                                i - 1
                            };
                            assert(old(self).slots@[a] < old(self).used@.len());
                            assert(old(self).slot_seq()[a] == old(self).slots@[a]);
                            assert(old(self).slot_seq().contains(old(self).slots@[a] as int));
                        }
                    }
                    assert forall|i: int, j: int|
                        0 <= i < j < self.slots@.len() implies #[trigger] self.slots@[i]
                        != #[trigger] self.slots@[j] by {
                        let a = if i < p {
                            i
                        } else {
                            i - 1
                        };
                        let b = if j < p {
                            j
                        } else {
                            j - 1
                        };
                        if i != p && j != p {
                            assert(old(self).slots@[a] != old(self).slots@[b]);
                        } else if i == p {
                            assert(old(self).slot_seq()[b] == old(self).slots@[b]);
                            assert(old(self).slot_seq().contains(old(self).slots@[b] as int));
                        } else {
                            assert(old(self).slot_seq()[a] == old(self).slots@[a]);
                            assert(old(self).slot_seq().contains(old(self).slots@[a] as int));
                        }
                    }
                    assert forall|t: int|
                        0 <= t < self.used@.len() && #[trigger] self.used@[t] implies self.slot_seq().contains(
                        t,
                    ) by {
                        if t == slot {
                            assert(self.slot_seq()[p as int] == t);
                        } else {
                            assert(old(self).used@[t]);
                            let a = choose|a: int|
                                0 <= a < old(self).slot_seq().len() && old(self).slot_seq()[a] == t;
                            let a2 = if a < p {
                                a
                            } else {
                                a + 1
                            };
                            assert(self.slot_seq()[a2] == t);
                        }
                    }
                    assert forall|i: int| 0 <= i < self.keys@.len() implies {
                        &&& #[trigger] self.hashes@[i] == spec_hash(self.keys@[i]@)
                        &&& self.keys@[i]@.len() == self.attr.key_size
                        &&& self.values@[i]@.len() == self.attr.value_size
                    } by {
                        if i < p {
                            assert(old(self).hashes@[i] == spec_hash(old(self).keys@[i]@));
                        } else if i > p {
                            assert(old(self).hashes@[i - 1] == spec_hash(old(self).keys@[i - 1]@));
                        }
                    }
                    assert forall|i: int, j: int|
                        0 <= i <= j < self.hashes@.len() implies #[trigger] self.hashes@[i]
                        <= #[trigger] self.hashes@[j] by {
                        let a = if i < p {
                            i
                        } else {
                            i - 1
                        };
                        let b = if j < p {
                            j
                        } else {
                            j - 1
                        };
                        if i != p && j != p {
                            assert(old(self).hashes@[a] <= old(self).hashes@[b]);
                        } else if i == p && j != p {
                            assert(old(self).hashes@[b] > hashcode);
                        } else if j == p && i != p {
                            assert(old(self).hashes@[a] <= hashcode);
                        }
                    }
                    assert forall|i: int, j: int| 0 <= i < j < self.keys@.len() implies (
                    #[trigger] self.keys@[i])@ != (#[trigger] self.keys@[j])@ by {
                        let a = if i < p {
                            i
                        } else {
                            i - 1
                        };
                        let b = if j < p {
                            j
                        } else {
                            j - 1
                        };
                        if i != p && j != p {
                            assert(old(self).keys@[a]@ != old(self).keys@[b]@);
                        } else if i == p {
                            assert(old(self).keys@[b]@ != key@);
                        } else {
                            assert(old(self).keys@[a]@ != key@);
                        }
                    }
                    old(self).lemma_inv_wf();
                    lemma_hash_update_keeps_slots(old(self).model(), key@, value@, flags);
                }
                Ok(0)
            },
        }
    }

    fn delete(&mut self, key: &[u8]) -> (r: BpfResult) {
        match self.find(key) {
            Some(i) => {
                let _ = self.hashes.remove(i);
                let _ = self.keys.remove(i);
                let _ = self.values.remove(i);
                let slot: usize = self.slots.remove(i);
                self.used.set(slot, false);
                self.total_elems -= 1;
                proof {
                    assert(self.entries() =~= old(self).entries().remove(i as int));
                    assert(self.slot_seq() =~= old(self).slot_seq().remove(i as int));
                    assert forall|k: int| 0 <= k < self.slots@.len() implies #[trigger] self.slots@[k]
                        < self.used@.len() && self.used@[self.slots@[k] as int] by {
                        let x = if k < i {
                            k
                        } else {
                            k + 1
                        };
                        assert(old(self).slots@[x] < old(self).used@.len());
                        if x < i {
                            assert(old(self).slots@[x] != old(self).slots@[i as int]);
                        } else {
                            assert(old(self).slots@[i as int] != old(self).slots@[x]);
                        }
                    }
                    assert forall|a: int, b: int|
                        0 <= a < b < self.slots@.len() implies #[trigger] self.slots@[a]
                        != #[trigger] self.slots@[b] by {
                        let x = if a < i {
                            a
                        } else {
                            a + 1
                        };
                        let y = if b < i {
                            b
                        } else {
                            b + 1
                        };
                        assert(old(self).slots@[x] != old(self).slots@[y]);
                    }
                    assert forall|t: int|
                        0 <= t < self.used@.len() && #[trigger] self.used@[t] implies self.slot_seq().contains(
                        t,
                    ) by {
                        assert(old(self).used@[t]);
                        let a = choose|a: int|
                            0 <= a < old(self).slot_seq().len() && old(self).slot_seq()[a] == t;
                        assert(a != i);
                        let a2 = if a < i {
                            a
                        } else {
                            a - 1
                        };
                        assert(self.slot_seq()[a2] == t);
                    }
                    assert forall|k: int| 0 <= k < self.keys@.len() implies {
                        &&& #[trigger] self.hashes@[k] == spec_hash(self.keys@[k]@)
                        &&& self.keys@[k]@.len() == self.attr.key_size
                        &&& self.values@[k]@.len() == self.attr.value_size
                    } by {
                        if k < i {
                            assert(old(self).hashes@[k] == spec_hash(old(self).keys@[k]@));
                        } else {
                            assert(old(self).hashes@[k + 1] == spec_hash(old(self).keys@[k + 1]@));
                        }
                    }
                    assert forall|a: int, b: int|
                        0 <= a <= b < self.hashes@.len() implies #[trigger] self.hashes@[a]
                        <= #[trigger] self.hashes@[b] by {
                        let x = if a < i {
                            a
                        } else {
                            a + 1
                        };
                        let y = if b < i {
                            b
                        } else {
                            b + 1
                        };
                        assert(old(self).hashes@[x] <= old(self).hashes@[y]);
                    }
                    assert forall|a: int, b: int| 0 <= a < b < self.keys@.len() implies (
                    #[trigger] self.keys@[a])@ != (#[trigger] self.keys@[b])@ by {
                        let x = if a < i {
                            a
                        } else {
                            a + 1
                        };
                        let y = if b < i {
                            b
                        } else {
                            b + 1
                        };
                        assert(old(self).keys@[x]@ != old(self).keys@[y]@);
                    }
                    old(self).lemma_inv_wf();
                    lemma_hash_delete_keeps_slots(old(self).model(), key@);
                }
                Ok(0)
            },
            None => Err(BpfErrorCode::NoSuchEntry),
        }
    }

    fn next_key(&self, key: &[u8], next_key: &mut Vec<u8>) -> (r: BpfResult) {
        match self.find(key) {
            Some(i) => {
                if i + 1 < self.keys.len() {
                    copy(next_key, self.keys[i + 1].as_slice());
                    Ok(0)
                } else {
                    Err(BpfErrorCode::NoSuchEntry)
                }
            },
            None => {
                if self.keys.len() > 0 {
                    copy(next_key, self.keys[0].as_slice());
                    Ok(0)
                } else {
                    Err(BpfErrorCode::NoSuchEntry)
                }
            },
        }
    }

    fn get_attr(&self) -> (attr: InternalMapAttr) {
        self.attr
    }

    fn lookup_helper(&self, key: &[u8]) -> (r: BpfResult) {
        match self.find(key) {
            Some(i) => Ok(self.slots[i]),
            None => Err(BpfErrorCode::NoSuchEntry),
        }
    }
}

} // verus!
