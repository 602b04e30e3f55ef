//! Resolving and running entry points.

pub mod call_stack;
pub mod contract_class;
pub mod entry_point;
pub mod errors;
pub mod laws;
pub mod syscalls;
