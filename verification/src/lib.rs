//! Entry-point dispatch and call-tree execution over a copy-on-write state
//! cache.
//!
//! The crate decides which program location an invocation runs, keeps the
//! stack of call frames, routes storage and call requests of the running
//! program, and assembles the tree of nested invocations. The bytecode
//! interpreter is not part of it: it is driven through [`execution::syscalls::Interpreter`].

pub mod block_context;
pub mod cached_state;
pub mod cell_map;
pub mod execution;
pub mod felt;
pub mod state_layer;
pub mod state_reader;
pub mod test_utils;
