//! A 16-bit word machine: its instruction set, a cycle-level simulator of its
//! data path and control unit, and a small compiler that targets it.
use vstd::prelude::*;

pub mod compiler;
pub mod cpu;
pub mod isa;

verus! {
}
