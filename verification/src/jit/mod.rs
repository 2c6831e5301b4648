//! The JIT compiler: eBPF bytecode in, RV64 machine words out.

pub mod consts;
pub mod rv;
pub mod machine;
pub mod model;
pub mod compile;
pub mod laws;
pub mod decode;
