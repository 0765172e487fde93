//! A small JIT for one numeric kernel: summing a byte buffer.
//!
//! The kernel is described in a verified SSA intermediate representation
//! (`ir`, `kernel`), given a reference semantics (`interp`) under which both
//! kernel shapes are proved to return the byte sum (`semantics`), lowered to
//! native code through Cranelift (`backend`, `lower`), and handed out only
//! once the code memory that holds it has been finalized (`registry`, `jit`).
use vstd::prelude::*;

pub mod swar;
pub mod sum;
pub mod ir;
pub mod kernel;
pub mod registry;
pub mod backend;
pub mod lower;
pub mod jit;
pub mod users;
pub mod interp;
pub mod semantics;
