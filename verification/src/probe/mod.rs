//! The probe engine: breakpoints at kernel addresses, the out-of-line copy
//! of the instruction that a breakpoint replaced, and the emulation of
//! instructions that cannot run out of line.

pub mod trapframe;
pub mod arch;
pub mod kprobes;
pub mod kretprobes;
pub mod trace;
