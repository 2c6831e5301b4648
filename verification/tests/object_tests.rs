use zcore_ebpf::consts::{
    BpfCommand, BPF_ANY, BPF_EXIST, BPF_MAP_TYPE_ARRAY, BPF_MAP_TYPE_HASH,
    BPF_MAP_TYPE_PROG_ARRAY, BPF_NOEXIST,
};
use zcore_ebpf::map::internal::InternalMapAttr;
use zcore_ebpf::map::{BpfMapOp, MapAttr, MapOpAttr};
use zcore_ebpf::objects::{
    bpf_allocate_fd, bpf_map_close, bpf_map_create, bpf_map_delete_elem, bpf_map_get_attr,
    bpf_map_get_next_key, bpf_map_lookup_elem, bpf_map_lookup_helper, bpf_map_ops,
    bpf_map_update_elem, bpf_object_remove, BpfObjects, BPF_FD_BASE, BPF_FD_END,
};
use zcore_ebpf::retcode::BpfErrorCode;
use zcore_ebpf::syscall::{
    convert_result, map_op_sizes, sys_bpf, sys_bpf_map_create, sys_bpf_map_delete_elem,
    sys_bpf_map_get_next_key, sys_bpf_map_lookup_elem, sys_bpf_map_update_elem,
};

fn attr(map_type: u32, key_size: u32, value_size: u32, max_entries: u32) -> MapAttr {
    MapAttr { map_type, key_size, value_size, max_entries }
}

fn op(fd: u32, flags: u64) -> MapOpAttr {
    MapOpAttr { map_fd: fd, key: 0, value_or_nextkey: 0, flags }
}

#[test]
fn handles_count_up_from_the_base() {
    let mut objs = BpfObjects::new();
    assert_eq!(bpf_allocate_fd(&mut objs), Some(0x7000_0000));
    assert_eq!(bpf_allocate_fd(&mut objs), Some(0x7000_0001));
    let fd = bpf_map_create(&mut objs, attr(BPF_MAP_TYPE_HASH, 4, 4, 2)).unwrap();
    assert_eq!(fd as u32, BPF_FD_BASE + 2);
    // a handle is not given out again after its object is closed
    assert_eq!(bpf_map_close(&mut objs, fd as u32), Ok(0));
    let next = bpf_map_create(&mut objs, attr(BPF_MAP_TYPE_HASH, 4, 4, 2)).unwrap();
    assert_eq!(next as u32, BPF_FD_BASE + 3);
    assert!(BPF_FD_END > BPF_FD_BASE);
    assert_eq!(BPF_FD_END, 0x8000_0000);
}

#[test]
fn system_call_returns_the_handle_or_minus_one() {
    let mut objs = BpfObjects::new();
    let mut bytes = Vec::new();
    for field in [BPF_MAP_TYPE_ARRAY, 4, 8, 2] {
        bytes.extend_from_slice(&field.to_le_bytes());
    }
    assert_eq!(sys_bpf_map_create(&mut objs, &bytes), 0x7000_0000);
    assert_eq!(sys_bpf_map_create(&mut objs, &bytes), 0x7000_0001);
    // refused attributes: nothing is created and no handle is used up
    let mut refused = Vec::new();
    for field in [BPF_MAP_TYPE_ARRAY, 8u32, 8, 2] {
        refused.extend_from_slice(&field.to_le_bytes());
    }
    assert_eq!(sys_bpf_map_create(&mut objs, &refused), -1);
    assert_eq!(sys_bpf_map_create(&mut objs, &bytes[..15]), -1);
    assert_eq!(sys_bpf_map_create(&mut objs, &bytes), 0x7000_0002);
}

#[test]
fn helper_lookup_slot_stays_across_other_keys() {
    let mut objs = BpfObjects::new();
    let hash = bpf_map_create(&mut objs, attr(BPF_MAP_TYPE_HASH, 2, 2, 8)).unwrap() as u32;
    let mut value = vec![1u8, 1];
    // the hash of a key of two bytes is its second byte where the first is 0
    assert_eq!(bpf_map_update_elem(&mut objs, op(hash, BPF_ANY), &[0, 9], &mut value), Ok(0));
    let slot = bpf_map_lookup_helper(&objs, hash, &[0, 9]).unwrap();
    for low in [3u8, 1, 7, 12] {
        assert_eq!(
            bpf_map_update_elem(&mut objs, op(hash, BPF_ANY), &[0, low], &mut value),
            Ok(0)
        );
        assert_eq!(bpf_map_lookup_helper(&objs, hash, &[0, 9]), Ok(slot));
    }
    assert_eq!(bpf_map_delete_elem(&mut objs, op(hash, 0), &[0, 3], &mut value), Ok(0));
    assert_eq!(bpf_map_lookup_helper(&objs, hash, &[0, 9]), Ok(slot));
    assert_eq!(bpf_map_update_elem(&mut objs, op(hash, BPF_EXIST), &[0, 9], &mut value), Ok(0));
    assert_eq!(bpf_map_lookup_helper(&objs, hash, &[0, 9]), Ok(slot));
    assert_eq!(bpf_map_delete_elem(&mut objs, op(hash, 0), &[0, 9], &mut value), Ok(0));
    assert_eq!(
        bpf_map_lookup_helper(&objs, hash, &[0, 9]),
        Err(BpfErrorCode::NoSuchEntry)
    );
}

#[test]
fn map_create_validates_attributes() {
    let mut objs = BpfObjects::new();
    // the key of an array is four bytes
    assert_eq!(
        bpf_map_create(&mut objs, attr(BPF_MAP_TYPE_ARRAY, 8, 4, 2)),
        Err(BpfErrorCode::InvalidArgument)
    );
    // unsupported types
    assert_eq!(
        bpf_map_create(&mut objs, attr(0, 4, 4, 2)),
        Err(BpfErrorCode::InvalidArgument)
    );
    assert_eq!(
        bpf_map_create(&mut objs, attr(BPF_MAP_TYPE_PROG_ARRAY, 4, 4, 2)),
        Err(BpfErrorCode::InvalidArgument)
    );
    // nothing was registered, and no handle was used up
    let fd = bpf_map_create(&mut objs, attr(BPF_MAP_TYPE_ARRAY, 4, 8, 16)).unwrap();
    assert_eq!(fd as u32, BPF_FD_BASE);
    assert_eq!(
        bpf_map_get_attr(&objs, fd as u32),
        Some(InternalMapAttr { key_size: 4, value_size: 8, max_entries: 16 })
    );
    assert_eq!(bpf_map_get_attr(&objs, 5), None);
}

#[test]
fn operations_go_through_the_handle() {
    let mut objs = BpfObjects::new();
    let array = bpf_map_create(&mut objs, attr(BPF_MAP_TYPE_ARRAY, 4, 2, 4)).unwrap() as u32;
    let hash = bpf_map_create(&mut objs, attr(BPF_MAP_TYPE_HASH, 3, 2, 4)).unwrap() as u32;
    let mut value = vec![7u8, 8];
    assert_eq!(
        bpf_map_update_elem(&mut objs, op(array, BPF_ANY), &2u32.to_le_bytes(), &mut value),
        Ok(0)
    );
    assert_eq!(
        bpf_map_update_elem(&mut objs, op(hash, BPF_NOEXIST), b"abc", &mut value),
        Ok(0)
    );
    let mut out = Vec::new();
    assert_eq!(bpf_map_lookup_elem(&mut objs, op(array, 0), &2u32.to_le_bytes(), &mut out), Ok(0));
    assert_eq!(out, vec![7, 8]);
    assert_eq!(bpf_map_lookup_elem(&mut objs, op(hash, 0), b"abc", &mut out), Ok(0));
    assert_eq!(out, vec![7, 8]);
    assert_eq!(
        bpf_map_lookup_elem(&mut objs, op(hash, 0), b"abd", &mut out),
        Err(BpfErrorCode::NoSuchEntry)
    );
    // the two maps are independent
    assert_eq!(bpf_map_delete_elem(&mut objs, op(hash, 0), b"abc", &mut out), Ok(0));
    assert_eq!(bpf_map_lookup_elem(&mut objs, op(array, 0), &2u32.to_le_bytes(), &mut out), Ok(0));
    assert_eq!(
        bpf_map_delete_elem(&mut objs, op(array, 0), &2u32.to_le_bytes(), &mut out),
        Err(BpfErrorCode::InvalidArgument)
    );
    let mut next = Vec::new();
    assert_eq!(
        bpf_map_get_next_key(&mut objs, op(array, 0), &0u32.to_le_bytes(), &mut next),
        Ok(0)
    );
    assert_eq!(next, 1u32.to_le_bytes().to_vec());
    assert_eq!(
        bpf_map_get_next_key(&mut objs, op(hash, 0), b"abc", &mut next),
        Err(BpfErrorCode::NoSuchEntry)
    );
    assert_eq!(bpf_map_lookup_helper(&objs, array, &3u32.to_le_bytes()), Ok(6));
    assert_eq!(
        bpf_map_lookup_helper(&objs, hash, b"abc"),
        Err(BpfErrorCode::NoSuchEntry)
    );
}

#[test]
fn wrong_sizes_and_handles_are_refused() {
    let mut objs = BpfObjects::new();
    let hash = bpf_map_create(&mut objs, attr(BPF_MAP_TYPE_HASH, 3, 2, 4)).unwrap() as u32;
    let mut value = vec![7u8, 8];
    // no such handle
    assert_eq!(
        bpf_map_ops(&mut objs, 1, BpfMapOp::Update, b"abc", &mut value, BPF_ANY),
        Err(BpfErrorCode::NoSuchEntry)
    );
    // a key of the wrong size
    assert_eq!(
        bpf_map_ops(&mut objs, hash, BpfMapOp::Update, b"ab", &mut value, BPF_ANY),
        Err(BpfErrorCode::InvalidArgument)
    );
    assert_eq!(
        bpf_map_ops(&mut objs, hash, BpfMapOp::LookUp, b"abcd", &mut value, 0),
        Err(BpfErrorCode::InvalidArgument)
    );
    assert_eq!(
        bpf_map_lookup_helper(&objs, hash, b"abcd"),
        Err(BpfErrorCode::InvalidArgument)
    );
    // a value of the wrong size
    let mut long = vec![1u8, 2, 3];
    assert_eq!(
        bpf_map_ops(&mut objs, hash, BpfMapOp::Update, b"abc", &mut long, BPF_ANY),
        Err(BpfErrorCode::InvalidArgument)
    );
    // bad flags, and replace-only on a fresh key
    assert_eq!(
        bpf_map_ops(&mut objs, hash, BpfMapOp::Update, b"abc", &mut value, 3),
        Err(BpfErrorCode::InvalidArgument)
    );
    assert_eq!(
        bpf_map_ops(&mut objs, hash, BpfMapOp::Update, b"abc", &mut value, BPF_EXIST),
        Err(BpfErrorCode::NoSuchEntry)
    );
    assert_eq!(value, vec![7, 8]);
}

#[test]
fn close_removes_the_object() {
    let mut objs = BpfObjects::new();
    let fd = bpf_map_create(&mut objs, attr(BPF_MAP_TYPE_HASH, 1, 1, 1)).unwrap() as u32;
    assert_eq!(bpf_map_close(&mut objs, fd), Ok(0));
    assert_eq!(bpf_map_close(&mut objs, fd), Err(BpfErrorCode::NoSuchEntry));
    assert_eq!(bpf_map_get_attr(&objs, fd), None);
    assert!(bpf_object_remove(&mut objs, fd).is_none());
    let mut out = Vec::new();
    assert_eq!(
        bpf_map_lookup_elem(&mut objs, op(fd, 0), b"a", &mut out),
        Err(BpfErrorCode::NoSuchEntry)
    );
}

#[test]
fn hash_map_capacity_through_the_table() {
    let mut objs = BpfObjects::new();
    let fd = bpf_map_create(&mut objs, attr(BPF_MAP_TYPE_HASH, 1, 1, 3)).unwrap() as u32;
    let mut v = vec![0u8];
    for k in 0u8..3 {
        assert_eq!(bpf_map_update_elem(&mut objs, op(fd, BPF_ANY), &[k], &mut v), Ok(0));
    }
    assert_eq!(
        bpf_map_update_elem(&mut objs, op(fd, BPF_ANY), &[3], &mut v),
        Err(BpfErrorCode::OutOfMemory)
    );
}

#[test]
fn commands_and_results() {
    assert_eq!(sys_bpf(0), Ok(BpfCommand::BPF_MAP_CREATE));
    assert_eq!(sys_bpf(1), Ok(BpfCommand::BPF_MAP_LOOKUP_ELEM));
    assert_eq!(sys_bpf(2), Ok(BpfCommand::BPF_MAP_UPDATE_ELEM));
    assert_eq!(sys_bpf(3), Ok(BpfCommand::BPF_MAP_DELETE_ELEM));
    assert_eq!(sys_bpf(4), Ok(BpfCommand::BPF_MAP_GET_NEXT_KEY));
    assert_eq!(sys_bpf(8), Ok(BpfCommand::BPF_PROG_ATTACH));
    assert_eq!(sys_bpf(1000), Ok(BpfCommand::BPF_PROG_LOAD_EX));
    // recognised but not carried out
    assert_eq!(sys_bpf(5), Err(BpfErrorCode::NotImplemented));
    assert_eq!(sys_bpf(9), Err(BpfErrorCode::NotImplemented));
    // not recognised
    assert_eq!(sys_bpf(6), Err(BpfErrorCode::NotImplemented));
    assert_eq!(sys_bpf(-1), Err(BpfErrorCode::NotImplemented));
    assert_eq!(BpfCommand::try_from(7), None);
    assert_eq!(BpfCommand::BPF_PROG_LOAD_EX.number(), 1000);
    assert_eq!(convert_result(Ok(0x7000_0001)), 0x7000_0001);
    assert_eq!(convert_result(Err(BpfErrorCode::Busy)), -1);
    assert_eq!(BpfErrorCode::NoSuchEntry.errno(), 2);
    assert_eq!(BpfErrorCode::InvalidArgument.errno(), 22);
    assert_eq!(BpfErrorCode::AlreadyExists.errno(), 17);
    assert_eq!(BpfErrorCode::OutOfMemory.errno(), 12);
    assert_eq!(BpfErrorCode::NotImplemented.errno(), 38);
    assert_eq!(BpfErrorCode::Busy.errno(), 16);
}

#[test]
fn attributes_are_read_from_bytes() {
    let mut bytes = Vec::new();
    for word in [BPF_MAP_TYPE_HASH, 8, 16, 1024].iter() {
        bytes.extend_from_slice(&word.to_le_bytes());
    }
    assert_eq!(MapAttr::from_bytes(&bytes), Some(attr(BPF_MAP_TYPE_HASH, 8, 16, 1024)));
    assert_eq!(MapAttr::from_bytes(&bytes[..15]), None);
    let mut objs = BpfObjects::new();
    assert_eq!(sys_bpf_map_create(&mut objs, &bytes), BPF_FD_BASE as i32);
    assert_eq!(sys_bpf_map_create(&mut objs, &bytes[1..]), -1);
    bytes[4] = 9;
    bytes[0] = 2;
    assert_eq!(sys_bpf_map_create(&mut objs, &bytes), -1);

    let mut bytes = Vec::new();
    bytes.extend_from_slice(&0x7000_0005u32.to_le_bytes());
    bytes.extend_from_slice(&[0xee; 4]);
    bytes.extend_from_slice(&0x1122_3344_5566_7788u64.to_le_bytes());
    bytes.extend_from_slice(&0x99aa_bbcc_ddee_ff00u64.to_le_bytes());
    bytes.extend_from_slice(&2u64.to_le_bytes());
    assert_eq!(
        MapOpAttr::from_bytes(&bytes),
        Some(MapOpAttr {
            map_fd: 0x7000_0005,
            key: 0x1122_3344_5566_7788,
            value_or_nextkey: 0x99aa_bbcc_ddee_ff00,
            flags: 2,
        })
    );
    bytes.push(0);
    assert_eq!(MapOpAttr::from_bytes(&bytes), None);
}

fn op_bytes(fd: u32, flags: u64) -> Vec<u8> {
    let mut bytes = Vec::new();
    bytes.extend_from_slice(&fd.to_le_bytes());
    bytes.extend_from_slice(&[0; 4]);
    bytes.extend_from_slice(&0x1000u64.to_le_bytes());
    bytes.extend_from_slice(&0x2000u64.to_le_bytes());
    bytes.extend_from_slice(&flags.to_le_bytes());
    bytes
}

#[test]
fn map_commands_from_attribute_bytes() {
    let mut objs = BpfObjects::new();
    let fd = bpf_map_create(&mut objs, attr(BPF_MAP_TYPE_HASH, 2, 3, 2)).unwrap() as u32;
    let (op_attr, sizes) = map_op_sizes(&objs, &op_bytes(fd, 0)).unwrap();
    assert_eq!((op_attr.map_fd, op_attr.key, op_attr.value_or_nextkey), (fd, 0x1000, 0x2000));
    assert_eq!((sizes.key_size, sizes.value_size, sizes.max_entries), (2, 3, 2));
    assert!(map_op_sizes(&objs, &op_bytes(fd + 1, 0)).is_none());
    assert!(map_op_sizes(&objs, &op_bytes(fd, 0)[1..]).is_none());

    let mut value = vec![1u8, 2, 3];
    assert_eq!(sys_bpf_map_update_elem(&mut objs, &op_bytes(fd, BPF_EXIST), b"ab", &mut value), -1);
    assert_eq!(sys_bpf_map_update_elem(&mut objs, &op_bytes(fd, BPF_ANY), b"ab", &mut value), 0);
    assert_eq!(
        sys_bpf_map_update_elem(&mut objs, &op_bytes(fd, BPF_NOEXIST), b"ab", &mut value),
        -1
    );
    let mut out = Vec::new();
    assert_eq!(sys_bpf_map_lookup_elem(&mut objs, &op_bytes(fd, 0), b"ab", &mut out), 0);
    assert_eq!(out, vec![1, 2, 3]);
    assert_eq!(sys_bpf_map_lookup_elem(&mut objs, &op_bytes(fd, 0), b"cd", &mut out), -1);
    assert_eq!(sys_bpf_map_lookup_elem(&mut objs, &op_bytes(fd, 0)[..31], b"ab", &mut out), -1);
    let mut next = Vec::new();
    assert_eq!(sys_bpf_map_get_next_key(&mut objs, &op_bytes(fd, 0), b"zz", &mut next), 0);
    assert_eq!(next, b"ab".to_vec());
    assert_eq!(sys_bpf_map_get_next_key(&mut objs, &op_bytes(fd, 0), b"ab", &mut next), -1);
    assert_eq!(sys_bpf_map_delete_elem(&mut objs, &op_bytes(fd, 0), b"ab"), 0);
    assert_eq!(sys_bpf_map_delete_elem(&mut objs, &op_bytes(fd, 0), b"ab"), -1);
    assert_eq!(sys_bpf_map_delete_elem(&mut objs, &op_bytes(9, 0), b"ab"), -1);
}
