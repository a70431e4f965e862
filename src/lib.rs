//! A register/stack-memory bytecode virtual machine.
//!
//! `decoder` turns bytes into operations, `executor` runs them one at a
//! time. `machine` states what one step does over a mathematical model of
//! the executor's state, and `execute` is proved to do exactly that. Memory
//! and the file registry are `memory` and `files`; `values` holds the
//! typed integer arithmetic, modular at each type's width.
use vstd::prelude::*;

pub mod ops;
pub mod values;
pub mod memory;
pub mod files;
pub mod machine;
pub mod executor;
pub mod decoder;
pub mod encoding;

verus! {

} // verus!
