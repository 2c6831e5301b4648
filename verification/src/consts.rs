//! Numbers of the `bpf` system call interface.

use vstd::prelude::*;

verus! {

// eBPF map types
pub const BPF_MAP_TYPE_UNSPEC: u32 = 0;
pub const BPF_MAP_TYPE_HASH: u32 = 1;
pub const BPF_MAP_TYPE_ARRAY: u32 = 2;
pub const BPF_MAP_TYPE_PROG_ARRAY: u32 = 3;

// eBPF relocation types of LLVM
pub const R_BPF_NONE: u32 = 0;
pub const R_BPF_64_64: u32 = 1;
pub const R_BPF_64_ABS64: u32 = 2;
pub const R_BPF_64_ABS32: u32 = 3;
pub const R_BPF_64_NODYLD32: u32 = 4;
pub const R_BPF_64_32: u32 = 10;

// flags of a map update
pub const BPF_ANY: u64 = 0;
pub const BPF_NOEXIST: u64 = 1;
pub const BPF_EXIST: u64 = 2;
pub const BPF_F_LOCK: u64 = 4;

/// The commands of the `bpf` system call.
#[allow(non_camel_case_types)]
#[derive(Clone, Copy, Debug, PartialEq, Eq, Structural)]
pub enum BpfCommand {
    BPF_MAP_CREATE,
    BPF_MAP_LOOKUP_ELEM,
    BPF_MAP_UPDATE_ELEM,
    BPF_MAP_DELETE_ELEM,
    BPF_MAP_GET_NEXT_KEY,
    BPF_PROG_LOAD,
    BPF_PROG_ATTACH,
    BPF_PROG_DETACH,
    BPF_PROG_LOAD_EX,
}

impl BpfCommand {
    /// The command that a number stands for.
    pub open spec fn spec_try_from(cmd: i32) -> Option<BpfCommand> {
        if cmd == 0 {
            Some(BpfCommand::BPF_MAP_CREATE)
        } else if cmd == 1 {
            Some(BpfCommand::BPF_MAP_LOOKUP_ELEM)
        } else if cmd == 2 {
            Some(BpfCommand::BPF_MAP_UPDATE_ELEM)
        } else if cmd == 3 {
            Some(BpfCommand::BPF_MAP_DELETE_ELEM)
        } else if cmd == 4 {
            Some(BpfCommand::BPF_MAP_GET_NEXT_KEY)
        } else if cmd == 5 {
            Some(BpfCommand::BPF_PROG_LOAD)
        } else if cmd == 8 {
            Some(BpfCommand::BPF_PROG_ATTACH)
        } else if cmd == 9 {
            Some(BpfCommand::BPF_PROG_DETACH)
        } else if cmd == 1000 {
            Some(BpfCommand::BPF_PROG_LOAD_EX)
        } else {
            None
        }
    }

    /// The number of a command.
    pub open spec fn spec_number(self) -> i32 {
        match self {
            BpfCommand::BPF_MAP_CREATE => 0,
            BpfCommand::BPF_MAP_LOOKUP_ELEM => 1,
            BpfCommand::BPF_MAP_UPDATE_ELEM => 2,
            BpfCommand::BPF_MAP_DELETE_ELEM => 3,
            BpfCommand::BPF_MAP_GET_NEXT_KEY => 4,
            BpfCommand::BPF_PROG_LOAD => 5,
            BpfCommand::BPF_PROG_ATTACH => 8,
            BpfCommand::BPF_PROG_DETACH => 9,
            BpfCommand::BPF_PROG_LOAD_EX => 1000,
        }
    }

    /// Reads a command number; `None` for a number that names no command.
    pub fn try_from(cmd: i32) -> (r: Option<BpfCommand>)
        ensures
            r == Self::spec_try_from(cmd),
            r matches Some(c) ==> c.spec_number() == cmd,
    {
        if cmd == 0 {
            Some(BpfCommand::BPF_MAP_CREATE)
        } else if cmd == 1 {
            Some(BpfCommand::BPF_MAP_LOOKUP_ELEM)
        } else if cmd == 2 {
            Some(BpfCommand::BPF_MAP_UPDATE_ELEM)
        } else if cmd == 3 {
            Some(BpfCommand::BPF_MAP_DELETE_ELEM)
        } else if cmd == 4 {
            Some(BpfCommand::BPF_MAP_GET_NEXT_KEY)
        } else if cmd == 5 {
            Some(BpfCommand::BPF_PROG_LOAD)
        } else if cmd == 8 {
            Some(BpfCommand::BPF_PROG_ATTACH)
        } else if cmd == 9 {
            Some(BpfCommand::BPF_PROG_DETACH)
        } else if cmd == 1000 {
            Some(BpfCommand::BPF_PROG_LOAD_EX)
        } else {
            None
        }
    }

    /// The number of this command.
    pub fn number(self) -> (n: i32)
        ensures
            n == self.spec_number(),
            Self::spec_try_from(n) == Some(self),
    {
        match self {
            BpfCommand::BPF_MAP_CREATE => 0,
            BpfCommand::BPF_MAP_LOOKUP_ELEM => 1,
            BpfCommand::BPF_MAP_UPDATE_ELEM => 2,
            BpfCommand::BPF_MAP_DELETE_ELEM => 3,
            BpfCommand::BPF_MAP_GET_NEXT_KEY => 4,
            BpfCommand::BPF_PROG_LOAD => 5,
            BpfCommand::BPF_PROG_ATTACH => 8,
            BpfCommand::BPF_PROG_DETACH => 9,
            BpfCommand::BPF_PROG_LOAD_EX => 1000,
        }
    }
}

} // verus!
