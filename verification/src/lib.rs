//! An eBPF execution pipeline for a RISC-V kernel: key/value maps, a
//! single-pass JIT compiler from eBPF bytecode to RV64 machine words, the
//! loader that relocates map references in an object file, and the
//! breakpoint-based probe engine that the compiled programs are attached to.
//!
//! Every function here carries a contract that Verus proves. Global state
//! (object table, probe table, attachment table) is an explicit value that the
//! embedding kernel owns and guards with its own lock.

pub mod retcode;
pub mod consts;
pub mod jit;
pub mod map;
pub mod elf;
pub mod program;
pub mod objects;
pub mod probe;
pub mod symbol;
pub mod tracepoints;
pub mod helpers;
pub mod syscall;
