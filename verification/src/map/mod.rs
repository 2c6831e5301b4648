//! Maps: fixed-schema key/value stores that both the kernel side and the
//! compiled programs reach.

use vstd::prelude::*;
use crate::retcode::{BpfResult};
use crate::map::internal::{BpfMap, InternalMapAttr, MapModel};
use crate::map::array::ArrayMap;
use crate::map::hash::HashMap;

pub mod internal;
pub mod array;
pub mod hash;
pub mod laws;

verus! {

/// The attributes that a map is created with.
#[derive(Debug, Clone, Copy, PartialEq, Eq, Structural)]
pub struct MapAttr {
    pub map_type: u32,
    pub key_size: u32,
    pub value_size: u32,
    pub max_entries: u32,
}

/// The arguments of an operation on one element of a map. The key and the
/// value are user-space addresses.
#[derive(Debug, Clone, Copy, PartialEq, Eq, Structural)]
pub struct MapOpAttr {
    pub map_fd: u32,
    pub key: u64,
    pub value_or_nextkey: u64,
    pub flags: u64,
}

/// The operations on one element of a map.
#[derive(Debug, Clone, Copy, PartialEq, Eq, Structural)]
pub enum BpfMapOp {
    LookUp,
    Update,
    Delete,
    GetNextKey,
}

/// A map of either kind.
pub enum MapInstance {
    Array(ArrayMap),
    Hash(HashMap),
}

impl BpfMap for MapInstance {
    open spec fn model(&self) -> MapModel {
        match self {
            MapInstance::Array(m) => m.model(),
            MapInstance::Hash(m) => m.model(),
        }
    }

    open spec fn inv(&self) -> bool {
        match self {
            MapInstance::Array(m) => m.inv(),
            MapInstance::Hash(m) => m.inv(),
        }
    }

    proof fn lemma_inv_wf(&self) {
        match self {
            MapInstance::Array(m) => m.lemma_inv_wf(),
            MapInstance::Hash(m) => m.lemma_inv_wf(),
        }
    }

    fn lookup(&self, key: &[u8], value: &mut Vec<u8>) -> (r: BpfResult) {
        match self {
            MapInstance::Array(m) => m.lookup(key, value),
            MapInstance::Hash(m) => m.lookup(key, value),
        }
    }

    fn update(&mut self, key: &[u8], value: &[u8], flags: u64) -> (r: BpfResult) {
        match self {
            MapInstance::Array(m) => m.update(key, value, flags),
            MapInstance::Hash(m) => m.update(key, value, flags),
        }
    }

    fn delete(&mut self, key: &[u8]) -> (r: BpfResult) {
        match self {
            MapInstance::Array(m) => m.delete(key),
            MapInstance::Hash(m) => m.delete(key),
        }
    }

    fn next_key(&self, key: &[u8], next_key: &mut Vec<u8>) -> (r: BpfResult) {
        match self {
            MapInstance::Array(m) => m.next_key(key, next_key),
            MapInstance::Hash(m) => m.next_key(key, next_key),
        }
    }

    fn get_attr(&self) -> (attr: InternalMapAttr) {
        match self {
            MapInstance::Array(m) => m.get_attr(),
            MapInstance::Hash(m) => m.get_attr(),
        }
    }

    fn lookup_helper(&self, key: &[u8]) -> (r: BpfResult) {
        match self {
            MapInstance::Array(m) => m.lookup_helper(key),
            MapInstance::Hash(m) => m.lookup_helper(key),
        }
    }
}

} // verus!
