//! Error kinds shared by every part of the subsystem.

use vstd::prelude::*;

verus! {

/// Why an operation was refused.
#[derive(Clone, Copy, Debug, PartialEq, Eq, Structural)]
pub enum BpfErrorCode {
    /// A handle, key, symbol or section that was asked for does not exist, or
    /// an iteration is exhausted.
    NoSuchEntry,
    /// A malformed attribute, bad flags, a wrong machine type, a program the
    /// compiler or the analyzer rejects, or an instruction that cannot be
    /// probed.
    InvalidArgument,
    /// A duplicate probe address, a duplicate attachment, or a create-only
    /// update of a key that is present.
    AlreadyExists,
    /// A hash map is at capacity.
    OutOfMemory,
    /// A command that is recognised but not carried out.
    NotImplemented,
    /// An object file does not name every map that was bound to it.
    ResolutionIncomplete,
    /// A probe cannot be removed while one of its hits is in flight.
    Busy,
}

/// The result of an operation: a non-negative value, or the reason for refusal.
pub type BpfResult = Result<usize, BpfErrorCode>;

impl BpfErrorCode {
    /// The number by which the host reports this error.
    pub open spec fn spec_errno(self) -> i32 {
        match self {
            BpfErrorCode::NoSuchEntry => 2,
            BpfErrorCode::InvalidArgument => 22,
            BpfErrorCode::AlreadyExists => 17,
            BpfErrorCode::OutOfMemory => 12,
            BpfErrorCode::NotImplemented => 38,
            BpfErrorCode::ResolutionIncomplete => 3,
            BpfErrorCode::Busy => 16,
        }
    }

    /// The number by which the host reports this error.
    pub fn errno(self) -> (code: i32)
        ensures
            code == self.spec_errno(),
            code > 0,
    {
        match self {
            BpfErrorCode::NoSuchEntry => 2,
            BpfErrorCode::InvalidArgument => 22,
            BpfErrorCode::AlreadyExists => 17,
            BpfErrorCode::OutOfMemory => 12,
            BpfErrorCode::NotImplemented => 38,
            BpfErrorCode::ResolutionIncomplete => 3,
            BpfErrorCode::Busy => 16,
        }
    }
}

} // verus!
