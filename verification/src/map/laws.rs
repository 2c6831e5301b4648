//! What holds of every map, proved over the model that the operations are
//! specified by.

use vstd::prelude::*;
use crate::consts::{BPF_ANY, BPF_EXIST, BPF_NOEXIST};
use crate::retcode::BpfErrorCode;
use crate::map::internal::{
    MapModel, MapKind, le_u32, le_bytes, spec_hash, has_key, key_index, is_insert_index,
    insert_index, is_free_slot, free_slot, slot_index, valid_update_flags,
    lemma_le_bytes_of_le_u32,
};
use crate::map::hash::lemma_key_index_unique;

verus! {

/// In an array map, a value stored in a slot within bounds is the value
/// that a lookup of that slot returns, whatever the flags; and the map stays
/// well-formed.
pub proof fn lemma_array_update_then_lookup(
    m: MapModel,
    key: Seq<u8>,
    value: Seq<u8>,
    flags: u64,
)
    requires
        m.wf(),
        m.kind == MapKind::Array,
        key.len() == 4,
        value.len() == m.attr.value_size,
        le_u32(key) < m.attr.max_entries,
    ensures
        m.update(key, value, flags) matches Ok(after) && after.wf() && after.lookup(key) == Ok::<
            Seq<u8>,
            BpfErrorCode,
        >(value),
{
    lemma_le_bytes_of_le_u32(key);
    let after = m.update(key, value, flags).unwrap();
    assert forall|i: int| 0 <= i < after.entries.len() implies (#[trigger] after.entries[i]).0
        == le_bytes(i) by {
        if i != le_u32(key) {
            assert(m.entries[i].0 == le_bytes(i));
        }
    }
    assert forall|i: int| 0 <= i < after.entries.len() implies (
    #[trigger] after.entries[i]).0.len() == after.attr.key_size && after.entries[i].1.len()
        == after.attr.value_size by {
        if i != le_u32(key) {
            assert(m.entries[i].0.len() == m.attr.key_size);
        }
    }
}

/// An array map refuses a slot at or past `max_entries` with `NoSuchEntry`,
/// in a lookup and in an update alike.
pub proof fn lemma_array_out_of_bounds(m: MapModel, key: Seq<u8>, value: Seq<u8>, flags: u64)
    requires
        m.kind == MapKind::Array,
        le_u32(key) >= m.attr.max_entries,
    ensures
        m.lookup(key) == Err::<Seq<u8>, BpfErrorCode>(BpfErrorCode::NoSuchEntry),
        m.update(key, value, flags) == Err::<MapModel, BpfErrorCode>(BpfErrorCode::NoSuchEntry),
{
}

/// The three modes of a hash map update: create-only succeeds exactly for
/// an absent key, replace-only exactly for a present key, and either way
/// the update of a present key or of an absent key below capacity
/// succeeds; an absent key needs room in each mode that creates.
pub proof fn lemma_hash_update_flags(m: MapModel, key: Seq<u8>, value: Seq<u8>)
    requires
        m.kind == MapKind::Hash,
    ensures
        m.update(key, value, BPF_NOEXIST) is Ok <==> !has_key(m.entries, key) && m.entries.len()
            < m.attr.max_entries,
        m.update(key, value, BPF_EXIST) is Ok <==> has_key(m.entries, key),
        m.update(key, value, BPF_ANY) is Ok <==> has_key(m.entries, key) || m.entries.len()
            < m.attr.max_entries,
        has_key(m.entries, key) ==> m.update(key, value, BPF_NOEXIST) == Err::<
            MapModel,
            BpfErrorCode,
        >(BpfErrorCode::AlreadyExists),
        !has_key(m.entries, key) ==> m.update(key, value, BPF_EXIST) == Err::<
            MapModel,
            BpfErrorCode,
        >(BpfErrorCode::NoSuchEntry),
{
}

/// A hash map refuses flags that name none of the three modes, or more than
/// one, with `InvalidArgument`.
pub proof fn lemma_hash_update_bad_flags(m: MapModel, key: Seq<u8>, value: Seq<u8>, flags: u64)
    requires
        m.kind == MapKind::Hash,
        !valid_update_flags(flags),
    ensures
        m.update(key, value, flags) == Err::<MapModel, BpfErrorCode>(
            BpfErrorCode::InvalidArgument,
        ),
{
}

/// A hash map that holds `max_entries` pairs refuses a new key with
/// `OutOfMemory`.
pub proof fn lemma_hash_full(m: MapModel, key: Seq<u8>, value: Seq<u8>, flags: u64)
    requires
        m.kind == MapKind::Hash,
        m.entries.len() >= m.attr.max_entries,
        !has_key(m.entries, key),
        flags == BPF_ANY || flags == BPF_NOEXIST,
    ensures
        m.update(key, value, flags) == Err::<MapModel, BpfErrorCode>(BpfErrorCode::OutOfMemory),
{
}

/// A successful update of a well-formed hash map leaves it well-formed,
/// with the value under the key. It holds one pair more if the key is new
/// and as many as before if not, and every other key keeps its value.
pub proof fn lemma_hash_update_then_lookup(m: MapModel, key: Seq<u8>, value: Seq<u8>, flags: u64)
    requires
        m.wf(),
        m.kind == MapKind::Hash,
        key.len() == m.attr.key_size,
        value.len() == m.attr.value_size,
        m.update(key, value, flags) is Ok,
    ensures
        ({
            let after = m.update(key, value, flags).unwrap();
            &&& after.wf()
            &&& after.lookup(key) == Ok::<Seq<u8>, BpfErrorCode>(value)
            &&& after.entries.len() == m.entries.len() + if has_key(m.entries, key) {
                0int
            } else {
                1int
            }
            &&& forall|other: Seq<u8>| other != key ==> #[trigger] after.lookup(other) == m.lookup(other)
        }),
{
    let after = m.update(key, value, flags).unwrap();
    lemma_hash_update_slots_wf(m, key, value, flags);
    if has_key(m.entries, key) {
        let i = key_index(m.entries, key);
        assert(after.entries == m.entries.update(i, (key, value)));
        assert forall|a: int| 0 <= a < after.entries.len() implies (#[trigger] after.entries[a]).0
            == m.entries[a].0 by {}
        assert forall|a: int, b: int| 0 <= a < b < after.entries.len() implies (
        #[trigger] after.entries[a]).0 != (#[trigger] after.entries[b]).0 by {
            assert(m.entries[a].0 != m.entries[b].0);
        }
        assert forall|a: int, b: int| 0 <= a <= b < after.entries.len() implies spec_hash(
            (#[trigger] after.entries[a]).0,
        ) <= spec_hash((#[trigger] after.entries[b]).0) by {
            assert(spec_hash(m.entries[a].0) <= spec_hash(m.entries[b].0));
        }
        assert forall|a: int| 0 <= a < after.entries.len() implies (
        #[trigger] after.entries[a]).0.len() == after.attr.key_size && after.entries[a].1.len()
            == after.attr.value_size by {
            assert(m.entries[a].0.len() == m.attr.key_size);
        }
        lemma_key_index_unique(after.entries, key, i);
        assert forall|other: Seq<u8>| other != key implies #[trigger] after.lookup(other)
            == m.lookup(other) by {
            if has_key(m.entries, other) {
                let j = key_index(m.entries, other);
                assert(after.entries[j].0 == other);
                lemma_key_index_unique(after.entries, other, j);
            } else if has_key(after.entries, other) {
                let j = key_index(after.entries, other);
                assert(m.entries[j].0 == other);
            }
        }
    } else {
        let h = spec_hash(key);
        let p = insert_index(m.entries, h);
        // a sequence ordered by hash has a place to insert at
        lemma_insert_index_exists(m.entries, h);
        assert(is_insert_index(m.entries, h, p));
        assert(after.entries == m.entries.insert(p, (key, value)));
        assert forall|a: int| 0 <= a < after.entries.len() implies (
        #[trigger] after.entries[a]).0.len() == after.attr.key_size && after.entries[a].1.len()
            == after.attr.value_size by {
            if a < p {
                assert(m.entries[a].0.len() == m.attr.key_size);
            } else if a > p {
                assert(m.entries[a - 1].0.len() == m.attr.key_size);
            }
        }
        assert forall|a: int, b: int| 0 <= a < b < after.entries.len() implies (
        #[trigger] after.entries[a]).0 != (#[trigger] after.entries[b]).0 by {
            let x = if a < p {
                a
            } else {
                a - 1
            };
            let y = if b < p {
                b
            } else {
                b - 1
            };
            if a != p && b != p {
                assert(m.entries[x].0 != m.entries[y].0);
            } else if a == p {
                assert(m.entries[y].0 != key);
            } else {
                assert(m.entries[x].0 != key);
            }
        }
        assert forall|a: int, b: int| 0 <= a <= b < after.entries.len() implies spec_hash(
            (#[trigger] after.entries[a]).0,
        ) <= spec_hash((#[trigger] after.entries[b]).0) by {
            let x = if a < p {
                a
            } else {
                a - 1
            };
            let y = if b < p {
                b
            } else {
                b - 1
            };
            if a != p && b != p {
                assert(spec_hash(m.entries[x].0) <= spec_hash(m.entries[y].0));
            } else if a == p && b != p {
                assert(spec_hash(m.entries[y].0) > h);
            } else if b == p && a != p {
                assert(spec_hash(m.entries[x].0) <= h);
            }
        }
        assert(after.entries[p].0 == key);
        lemma_key_index_unique(after.entries, key, p);
        assert forall|other: Seq<u8>| other != key implies #[trigger] after.lookup(other)
            == m.lookup(other) by {
            if has_key(m.entries, other) {
                let j = key_index(m.entries, other);
                let j2 = if j < p {
                    j
                } else {
                    j + 1
                };
                assert(after.entries[j2] == m.entries[j]);
                lemma_key_index_unique(after.entries, other, j2);
            } else if has_key(after.entries, other) {
                let j = key_index(after.entries, other);
                let j0 = if j < p {
                    j
                } else {
                    j - 1
                };
                assert(m.entries[j0].0 == other);
            }
        }
    }
}

/// A number above every slot of a sequence.
pub open spec fn slot_bound(slots: Seq<int>) -> int
    decreases slots.len(),
{
    if slots.len() == 0 {
        0
    } else if slots.last() >= slot_bound(slots.drop_last()) {
        slots.last() + 1
    } else {
        slot_bound(slots.drop_last())
    }
}

/// No slot of a sequence reaches its bound.
pub proof fn lemma_slot_bound(slots: Seq<int>)
    ensures
        slot_bound(slots) >= 0,
        forall|i: int| 0 <= i < slots.len() ==> #[trigger] slots[i] < slot_bound(slots),
    decreases slots.len(),
{
    if slots.len() > 0 {
        lemma_slot_bound(slots.drop_last());
        assert forall|i: int| 0 <= i < slots.len() implies #[trigger] slots[i] < slot_bound(
            slots,
        ) by {
            if i < slots.len() - 1 {
                assert(slots.drop_last()[i] == slots[i]);
            }
        }
    }
}

/// Below a number that is the slot of no pair there is a least such number.
pub proof fn lemma_least_free_slot(slots: Seq<int>, b: int)
    requires
        0 <= b,
        !slots.contains(b),
    ensures
        exists|s: int| is_free_slot(slots, s),
    decreases b,
{
    if forall|t: int| 0 <= t < b ==> slots.contains(t) {
        assert(is_free_slot(slots, b));
    } else {
        let t = choose|t: int| 0 <= t < b && !slots.contains(t);
        lemma_least_free_slot(slots, t);
    }
}

/// There is always a slot for a new pair.
pub proof fn lemma_free_slot_exists(slots: Seq<int>)
    ensures
        is_free_slot(slots, free_slot(slots)),
{
    lemma_slot_bound(slots);
    let b = slot_bound(slots);
    if slots.contains(b) {
        let i = choose|i: int| 0 <= i < slots.len() && slots[i] == b;
        assert(slots[i] < b);
    }
    lemma_least_free_slot(slots, b);
}

/// A successful update of a well-formed hash map leaves every pair with a
/// slot of its own.
pub proof fn lemma_hash_update_slots_wf(m: MapModel, key: Seq<u8>, value: Seq<u8>, flags: u64)
    requires
        m.wf(),
        m.kind == MapKind::Hash,
        m.update(key, value, flags) is Ok,
    ensures
        m.update(key, value, flags).unwrap().slots_wf(),
{
    let after = m.update(key, value, flags).unwrap();
    if has_key(m.entries, key) {
        assert(after.slots == m.slots);
    } else {
        let p = insert_index(m.entries, spec_hash(key));
        lemma_insert_index_exists(m.entries, spec_hash(key));
        lemma_free_slot_exists(m.slots);
        let s = free_slot(m.slots);
        assert(after.slots == m.slots.insert(p, s));
        assert forall|a: int| 0 <= a < after.slots.len() implies 0 <= #[trigger] after.slots[a] by {
            if a < p {
                assert(0 <= m.slots[a]);
            } else if a > p {
                assert(0 <= m.slots[a - 1]);
            }
        }
        assert forall|a: int, b: int| 0 <= a < b < after.slots.len() implies #[trigger] after.slots[a]
            != #[trigger] after.slots[b] by {
            let x = if a < p {
                a
            } else {
                a - 1
            };
            let y = if b < p {
                b
            } else {
                b - 1
            };
            if a != p && b != p {
                assert(m.slots[x] != m.slots[y]);
            } else if a == p {
                assert(m.slots.contains(m.slots[y]));
            } else {
                assert(m.slots.contains(m.slots[x]));
            }
        }
    }
}

/// The slot that the helper-side lookup names stays the same across an
/// update: after a successful update of a well-formed hash map the key has
/// a slot, the slot that it had if the map held it, and every other key
/// has the slot that it had, or none as before.
pub proof fn lemma_hash_update_keeps_slots(m: MapModel, key: Seq<u8>, value: Seq<u8>, flags: u64)
    requires
        m.wf(),
        m.kind == MapKind::Hash,
        key.len() == m.attr.key_size,
        value.len() == m.attr.value_size,
        m.update(key, value, flags) is Ok,
    ensures
        ({
            let after = m.update(key, value, flags).unwrap();
            &&& after.slot(key) is Ok
            &&& has_key(m.entries, key) ==> after.slot(key) == m.slot(key)
            &&& forall|other: Seq<u8>| other != key ==> #[trigger] after.slot(other) == m.slot(other)
        }),
{
    let after = m.update(key, value, flags).unwrap();
    lemma_hash_update_then_lookup(m, key, value, flags);
    if has_key(m.entries, key) {
        let i = key_index(m.entries, key);
        assert(after.entries[i].0 == key);
        lemma_key_index_unique(after.entries, key, i);
        assert forall|other: Seq<u8>| other != key implies #[trigger] after.slot(other) == m.slot(
            other,
        ) by {
            assert(after.lookup(other) == m.lookup(other));
            if has_key(m.entries, other) {
                let j = key_index(m.entries, other);
                assert(after.entries[j].0 == other);
                lemma_key_index_unique(after.entries, other, j);
            }
        }
    } else {
        let p = insert_index(m.entries, spec_hash(key));
        lemma_insert_index_exists(m.entries, spec_hash(key));
        assert forall|other: Seq<u8>| other != key implies #[trigger] after.slot(other) == m.slot(
            other,
        ) by {
            assert(after.lookup(other) == m.lookup(other));
            if has_key(m.entries, other) {
                let j = key_index(m.entries, other);
                let j2 = if j < p {
                    j
                } else {
                    j + 1
                };
                assert(after.entries[j2] == m.entries[j]);
                lemma_key_index_unique(after.entries, other, j2);
                assert(after.slots[j2] == m.slots[j]);
            }
        }
    }
}

/// The slot that the helper-side lookup names stays the same across a
/// delete: after a key is deleted from a well-formed hash map it has no
/// slot, and every other key has the slot that it had, or none as before.
pub proof fn lemma_hash_delete_keeps_slots(m: MapModel, key: Seq<u8>)
    requires
        m.wf(),
        m.kind == MapKind::Hash,
        m.delete(key) is Ok,
    ensures
        ({
            let after = m.delete(key).unwrap();
            &&& after.slot(key) == Err::<int, BpfErrorCode>(BpfErrorCode::NoSuchEntry)
            &&& forall|other: Seq<u8>| other != key ==> #[trigger] after.slot(other) == m.slot(other)
        }),
{
    let after = m.delete(key).unwrap();
    let i = key_index(m.entries, key);
    lemma_hash_delete_then_lookup(m, key);
    assert forall|other: Seq<u8>| other != key implies #[trigger] after.slot(other) == m.slot(
        other,
    ) by {
        assert(after.lookup(other) == m.lookup(other));
        if has_key(m.entries, other) {
            let j = key_index(m.entries, other);
            let j2 = if j < i {
                j
            } else {
                j - 1
            };
            assert(after.entries[j2] == m.entries[j]);
            lemma_key_index_unique(after.entries, other, j2);
            assert(after.slots[j2] == m.slots[j]);
        }
    }
}

/// In a well-formed hash map the slot of a key names the value that the
/// map holds under the key.
pub proof fn lemma_hash_slot_names_value(m: MapModel, key: Seq<u8>)
    requires
        m.wf(),
        m.kind == MapKind::Hash,
        has_key(m.entries, key),
    ensures
        m.slot(key) is Ok,
        m.has_slot(m.slot(key).unwrap()),
        Ok::<Seq<u8>, BpfErrorCode>(m.value_at_slot(m.slot(key).unwrap())) == m.lookup(key),
{
    let i = key_index(m.entries, key);
    let s = m.slots[i];
    let j = slot_index(m.slots, s);
    assert(0 <= j < m.slots.len() && m.slots[j] == s);
    if j < i {
        assert(m.slots[j] != m.slots[i]);
    } else if i < j {
        assert(m.slots[i] != m.slots[j]);
    }
}

/// In a sequence ordered by hash there is a place to insert a key of any
/// hash at.
pub proof fn lemma_insert_index_exists(entries: Seq<(Seq<u8>, Seq<u8>)>, h: u32)
    requires
        forall|i: int, j: int|
            0 <= i <= j < entries.len() ==> spec_hash((#[trigger] entries[i]).0) <= spec_hash(
                (#[trigger] entries[j]).0,
            ),
    ensures
        is_insert_index(entries, h, insert_index(entries, h)),
    decreases entries.len(),
{
    if entries.len() == 0 {
        assert(is_insert_index(entries, h, 0));
    } else {
        let shorter = entries.drop_last();
        assert forall|i: int, j: int| 0 <= i <= j < shorter.len() implies spec_hash(
            (#[trigger] shorter[i]).0,
        ) <= spec_hash((#[trigger] shorter[j]).0) by {
            assert(spec_hash(entries[i].0) <= spec_hash(entries[j].0));
        }
        lemma_insert_index_exists(shorter, h);
        let q = insert_index(shorter, h);
        if spec_hash(entries.last().0) <= h {
            assert forall|i: int| 0 <= i < entries.len() implies spec_hash(
                (#[trigger] entries[i]).0,
            ) <= h by {
                assert(spec_hash(entries[i].0) <= spec_hash(entries[entries.len() - 1].0));
            }
            assert(is_insert_index(entries, h, entries.len() as int));
        } else {
            assert forall|i: int| 0 <= i < q implies spec_hash((#[trigger] entries[i]).0) <= h by {
                assert(spec_hash(shorter[i].0) <= h);
            }
            assert forall|i: int| q <= i < entries.len() implies spec_hash(
                (#[trigger] entries[i]).0,
            ) > h by {
                if i < shorter.len() {
                    assert(spec_hash(shorter[i].0) > h);
                }
            }
            assert(is_insert_index(entries, h, q));
        }
    }
}

/// After a key is deleted from a well-formed hash map, a lookup of the key
/// finds nothing, the map is well-formed and holds one pair fewer, and
/// every other key keeps its value.
pub proof fn lemma_hash_delete_then_lookup(m: MapModel, key: Seq<u8>)
    requires
        m.wf(),
        m.kind == MapKind::Hash,
        m.delete(key) is Ok,
    ensures
        ({
            let after = m.delete(key).unwrap();
            &&& after.wf()
            &&& after.lookup(key) == Err::<Seq<u8>, BpfErrorCode>(BpfErrorCode::NoSuchEntry)
            &&& after.entries.len() + 1 == m.entries.len()
            &&& forall|other: Seq<u8>| other != key ==> #[trigger] after.lookup(other) == m.lookup(other)
        }),
{
    let i = key_index(m.entries, key);
    let after = m.delete(key).unwrap();
    assert(after.entries == m.entries.remove(i));
    assert(after.slots == m.slots.remove(i));
    assert forall|a: int| 0 <= a < after.slots.len() implies 0 <= #[trigger] after.slots[a] by {
        let x = if a < i {
            a
        } else {
            a + 1
        };
        assert(0 <= m.slots[x]);
    }
    assert forall|a: int, b: int| 0 <= a < b < after.slots.len() implies #[trigger] after.slots[a]
        != #[trigger] after.slots[b] by {
        let x = if a < i {
            a
        } else {
            a + 1
        };
        let y = if b < i {
            b
        } else {
            b + 1
        };
        assert(m.slots[x] != m.slots[y]);
    }
    assert(after.slots_wf());
    assert forall|a: int| 0 <= a < after.entries.len() implies (#[trigger] after.entries[a])
        == m.entries[if a < i {
        a
    } else {
        a + 1
    }] by {}
    assert forall|a: int| 0 <= a < after.entries.len() implies (
    #[trigger] after.entries[a]).0.len() == after.attr.key_size && after.entries[a].1.len()
        == after.attr.value_size by {
        let x = if a < i {
            a
        } else {
            a + 1
        };
        assert(m.entries[x].0.len() == m.attr.key_size);
    }
    assert forall|a: int, b: int| 0 <= a < b < after.entries.len() implies (
    #[trigger] after.entries[a]).0 != (#[trigger] after.entries[b]).0 by {
        let x = if a < i {
            a
        } else {
            a + 1
        };
        let y = if b < i {
            b
        } else {
            b + 1
        };
        assert(m.entries[x].0 != m.entries[y].0);
    }
    assert forall|a: int, b: int| 0 <= a <= b < after.entries.len() implies spec_hash(
        (#[trigger] after.entries[a]).0,
    ) <= spec_hash((#[trigger] after.entries[b]).0) by {
        let x = if a < i {
            a
        } else {
            a + 1
        };
        let y = if b < i {
            b
        } else {
            b + 1
        };
        assert(spec_hash(m.entries[x].0) <= spec_hash(m.entries[y].0));
    }
    if has_key(after.entries, key) {
        let j = key_index(after.entries, key);
        let x = if j < i {
            j
        } else {
            j + 1
        };
        assert(m.entries[x].0 == key);
        if x < i {
            assert(m.entries[x].0 != m.entries[i].0);
        } else {
            assert(m.entries[i].0 != m.entries[x].0);
        }
    }
    assert forall|other: Seq<u8>| other != key implies #[trigger] after.lookup(other) == m.lookup(
        other,
    ) by {
        if has_key(m.entries, other) {
            let j = key_index(m.entries, other);
            let j2 = if j < i {
                j
            } else {
                j - 1
            };
            assert(after.entries[j2] == m.entries[j]);
            lemma_key_index_unique(after.entries, other, j2);
        } else if has_key(after.entries, other) {
            let j = key_index(after.entries, other);
            let x = if j < i {
                j
            } else {
                j + 1
            };
            assert(m.entries[x].0 == other);
        }
    }
}

/// A delete of a key that a hash map does not hold is refused with
/// `NoSuchEntry`, as is the lookup of that key.
pub proof fn lemma_hash_delete_absent(m: MapModel, key: Seq<u8>)
    requires
        m.kind == MapKind::Hash,
        !has_key(m.entries, key),
    ensures
        m.delete(key) == Err::<MapModel, BpfErrorCode>(BpfErrorCode::NoSuchEntry),
        m.lookup(key) == Err::<Seq<u8>, BpfErrorCode>(BpfErrorCode::NoSuchEntry),
{
}

} // verus!
