//! Cycle-level simulator of the machine: a data path driven by a
//! microprogrammed control unit.
pub mod control_unit;
pub mod data_path;
pub mod general;
pub mod input;
pub mod machine;
pub mod laws;
