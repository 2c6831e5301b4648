use zcore_ebpf::consts::{BPF_ANY, BPF_EXIST, BPF_NOEXIST, BPF_MAP_TYPE_ARRAY, BPF_MAP_TYPE_HASH};
use zcore_ebpf::map::internal::{BpfMap, InternalMapAttr};
use zcore_ebpf::map::array::ArrayMap;
use zcore_ebpf::map::hash::HashMap;
use zcore_ebpf::retcode::BpfErrorCode;

fn array(max_entries: usize, value_size: usize) -> ArrayMap {
    ArrayMap::new(InternalMapAttr { key_size: 4, value_size, max_entries })
}

#[test]
fn array_round_trip_every_index() {
    let mut map = array(8, 3);
    for i in 0u32..8 {
        let key = i.to_le_bytes();
        let value = [i as u8, 0xaa, 0x55];
        assert_eq!(map.update(&key, &value, BPF_ANY), Ok(0));
        let mut out = Vec::new();
        assert_eq!(map.lookup(&key, &mut out), Ok(0));
        assert_eq!(out, value.to_vec());
    }
    // earlier slots keep their values
    let mut out = Vec::new();
    assert_eq!(map.lookup(&0u32.to_le_bytes(), &mut out), Ok(0));
    assert_eq!(out, vec![0, 0xaa, 0x55]);
}

#[test]
fn array_starts_zeroed() {
    let map = array(2, 4);
    let mut out = vec![9u8];
    assert_eq!(map.lookup(&1u32.to_le_bytes(), &mut out), Ok(0));
    assert_eq!(out, vec![0, 0, 0, 0]);
}

#[test]
fn array_out_of_bounds_is_no_such_entry() {
    let mut map = array(4, 2);
    let mut out = vec![7u8];
    assert_eq!(map.lookup(&4u32.to_le_bytes(), &mut out), Err(BpfErrorCode::NoSuchEntry));
    assert_eq!(out, vec![7u8]);
    assert_eq!(map.update(&4u32.to_le_bytes(), &[1, 2], BPF_ANY), Err(BpfErrorCode::NoSuchEntry));
    assert_eq!(
        map.update(&0xffff_ffffu32.to_le_bytes(), &[1, 2], BPF_ANY),
        Err(BpfErrorCode::NoSuchEntry)
    );
    assert_eq!(map.lookup_helper(&9u32.to_le_bytes()), Err(BpfErrorCode::NoSuchEntry));
}

#[test]
fn array_delete_is_invalid() {
    let mut map = array(4, 2);
    assert_eq!(map.delete(&0u32.to_le_bytes()), Err(BpfErrorCode::InvalidArgument));
}

#[test]
fn array_next_key_walks_the_slots() {
    let map = array(3, 1);
    let mut next = Vec::new();
    // a key past the end starts the iteration
    assert_eq!(map.next_key(&100u32.to_le_bytes(), &mut next), Ok(0));
    assert_eq!(next, 0u32.to_le_bytes().to_vec());
    assert_eq!(map.next_key(&0u32.to_le_bytes(), &mut next), Ok(0));
    assert_eq!(next, 1u32.to_le_bytes().to_vec());
    assert_eq!(map.next_key(&1u32.to_le_bytes(), &mut next), Ok(0));
    assert_eq!(next, 2u32.to_le_bytes().to_vec());
    assert_eq!(map.next_key(&2u32.to_le_bytes(), &mut next), Err(BpfErrorCode::NoSuchEntry));
    assert_eq!(next, 2u32.to_le_bytes().to_vec());
}

#[test]
fn array_lookup_helper_gives_byte_offset() {
    let mut map = array(4, 8);
    assert_eq!(map.update(&2u32.to_le_bytes(), &[1, 2, 3, 4, 5, 6, 7, 8], BPF_ANY), Ok(0));
    let slot = map.lookup_helper(&2u32.to_le_bytes()).unwrap();
    assert_eq!(slot, 16);
    assert_eq!(map.slot_value(slot), &[1, 2, 3, 4, 5, 6, 7, 8]);
    assert_eq!(map.get_attr().max_entries, 4);
}

fn hash(max_entries: usize) -> HashMap {
    HashMap::new(InternalMapAttr { key_size: 2, value_size: 2, max_entries })
}

#[test]
fn hash_flag_semantics() {
    let mut map = hash(4);
    let k = [1u8, 2];
    // replace-only on an absent key
    assert_eq!(map.update(&k, &[0, 0], BPF_EXIST), Err(BpfErrorCode::NoSuchEntry));
    // create-only on an absent key
    assert_eq!(map.update(&k, &[1, 1], BPF_NOEXIST), Ok(0));
    // create-only on a present key
    assert_eq!(map.update(&k, &[2, 2], BPF_NOEXIST), Err(BpfErrorCode::AlreadyExists));
    // replace-only on a present key
    assert_eq!(map.update(&k, &[3, 3], BPF_EXIST), Ok(0));
    let mut out = Vec::new();
    assert_eq!(map.lookup(&k, &mut out), Ok(0));
    assert_eq!(out, vec![3, 3]);
    // either
    assert_eq!(map.update(&k, &[4, 4], BPF_ANY), Ok(0));
    assert_eq!(map.update(&[9, 9], &[5, 5], BPF_ANY), Ok(0));
    assert_eq!(map.lookup(&k, &mut out), Ok(0));
    assert_eq!(out, vec![4, 4]);
    assert_eq!(map.len(), 2);
}

#[test]
fn hash_bad_flags_are_invalid() {
    let mut map = hash(4);
    assert_eq!(map.update(&[1, 2], &[0, 0], 3), Err(BpfErrorCode::InvalidArgument));
    assert_eq!(map.update(&[1, 2], &[0, 0], 4), Err(BpfErrorCode::InvalidArgument));
    assert_eq!(map.len(), 0);
}

#[test]
fn hash_capacity_is_out_of_memory() {
    let mut map = hash(3);
    for i in 0u8..3 {
        assert_eq!(map.update(&[i, 0], &[i, i], BPF_ANY), Ok(0));
    }
    assert_eq!(map.update(&[3, 0], &[3, 3], BPF_ANY), Err(BpfErrorCode::OutOfMemory));
    assert_eq!(map.update(&[3, 0], &[3, 3], BPF_NOEXIST), Err(BpfErrorCode::OutOfMemory));
    // a present key can still be replaced
    assert_eq!(map.update(&[1, 0], &[7, 7], BPF_ANY), Ok(0));
    assert_eq!(map.len(), 3);
}

#[test]
fn hash_delete_then_lookup() {
    let mut map = hash(4);
    assert_eq!(map.update(&[1, 2], &[5, 6], BPF_ANY), Ok(0));
    assert_eq!(map.update(&[3, 4], &[7, 8], BPF_ANY), Ok(0));
    assert_eq!(map.delete(&[1, 2]), Ok(0));
    let mut out = vec![1u8];
    assert_eq!(map.lookup(&[1, 2], &mut out), Err(BpfErrorCode::NoSuchEntry));
    assert_eq!(out, vec![1u8]);
    assert_eq!(map.delete(&[1, 2]), Err(BpfErrorCode::NoSuchEntry));
    assert_eq!(map.lookup(&[3, 4], &mut out), Ok(0));
    assert_eq!(out, vec![7, 8]);
    assert_eq!(map.len(), 1);
}

fn rolling_hash(key: &[u8]) -> u32 {
    let mut h: u32 = 0;
    for &b in key {
        h = h.wrapping_mul(131313).wrapping_add(b as u32);
    }
    h
}

#[test]
fn hash_function_is_the_rolling_hash() {
    assert_eq!(zcore_ebpf::map::internal::hash(&[]), 0);
    assert_eq!(zcore_ebpf::map::internal::hash(&[1]), 1);
    assert_eq!(zcore_ebpf::map::internal::hash(&[1, 2]), 131313 + 2);
    let key = [0xff, 0xfe, 0xfd, 0xfc, 0x10, 0x20, 0x30, 0x40];
    assert_eq!(zcore_ebpf::map::internal::hash(&key), rolling_hash(&key));
}

#[test]
fn hash_next_key_follows_hash_order() {
    let mut map = hash(8);
    // inserted out of hash order
    let keys: [[u8; 2]; 4] = [[9, 9], [0, 1], [5, 0], [0, 2]];
    for k in keys.iter() {
        assert_eq!(map.update(k, &[0, 0], BPF_ANY), Ok(0));
    }
    let mut sorted: Vec<[u8; 2]> = keys.to_vec();
    sorted.sort_by_key(|k| rolling_hash(k));
    let mut next = Vec::new();
    // an absent key starts the iteration
    assert_eq!(map.next_key(&[0xee, 0xee], &mut next), Ok(0));
    assert_eq!(next, sorted[0].to_vec());
    for i in 0..3 {
        assert_eq!(map.next_key(&sorted[i], &mut next), Ok(0));
        assert_eq!(next, sorted[i + 1].to_vec());
    }
    assert_eq!(map.next_key(&sorted[3], &mut next), Err(BpfErrorCode::NoSuchEntry));
    let empty = hash(2);
    assert_eq!(empty.next_key(&[0, 0], &mut next), Err(BpfErrorCode::NoSuchEntry));
}

#[test]
fn hash_lookup_helper_names_the_value() {
    let mut map = hash(4);
    assert_eq!(map.update(&[0, 1], &[5, 6], BPF_ANY), Ok(0));
    assert_eq!(map.update(&[0, 2], &[7, 8], BPF_ANY), Ok(0));
    let slot = map.lookup_helper(&[0, 2]).unwrap();
    assert_eq!(map.slot_value(slot), &[7, 8]);
    assert_eq!(map.lookup_helper(&[4, 4]), Err(BpfErrorCode::NoSuchEntry));
}

#[test]
fn hash_slot_stays_while_the_key_stays() {
    let mut map = hash(4);
    // the key of the greatest hash comes first and is pushed back by the
    // keys that follow
    assert_eq!(map.update(&[0, 2], &[7, 8], BPF_ANY), Ok(0));
    assert_eq!(map.lookup_helper(&[0, 2]), Ok(0));
    assert_eq!(map.update(&[0, 1], &[5, 6], BPF_ANY), Ok(0));
    assert_eq!(map.update(&[0, 0], &[3, 4], BPF_ANY), Ok(0));
    assert_eq!(map.lookup_helper(&[0, 2]), Ok(0));
    assert_eq!(map.lookup_helper(&[0, 1]), Ok(1));
    assert_eq!(map.lookup_helper(&[0, 0]), Ok(2));
    assert_eq!(map.slot_value(0), &[7, 8]);
    assert_eq!(map.slot_value(1), &[5, 6]);
    assert_eq!(map.slot_value(2), &[3, 4]);
    // a new value stands in the same slot
    assert_eq!(map.update(&[0, 2], &[9, 9], BPF_EXIST), Ok(0));
    assert_eq!(map.lookup_helper(&[0, 2]), Ok(0));
    assert_eq!(map.slot_value(0), &[9, 9]);
    // a delete leaves the slots of the other keys
    assert_eq!(map.delete(&[0, 1]), Ok(0));
    assert_eq!(map.lookup_helper(&[0, 1]), Err(BpfErrorCode::NoSuchEntry));
    assert_eq!(map.lookup_helper(&[0, 2]), Ok(0));
    assert_eq!(map.lookup_helper(&[0, 0]), Ok(2));
    // the least free slot is given to the next new key
    assert_eq!(map.update(&[0, 3], &[1, 1], BPF_NOEXIST), Ok(0));
    assert_eq!(map.lookup_helper(&[0, 3]), Ok(1));
    assert_eq!(map.update(&[0, 4], &[2, 2], BPF_NOEXIST), Ok(0));
    assert_eq!(map.lookup_helper(&[0, 4]), Ok(3));
    assert_eq!(map.slot_value(1), &[1, 1]);
    assert_eq!(map.slot_value(3), &[2, 2]);
    assert_eq!(map.lookup_helper(&[0, 2]), Ok(0));
    assert_eq!(map.lookup_helper(&[0, 0]), Ok(2));
}

#[test]
fn map_type_constants() {
    assert_eq!(BPF_MAP_TYPE_HASH, 1);
    assert_eq!(BPF_MAP_TYPE_ARRAY, 2);
}
