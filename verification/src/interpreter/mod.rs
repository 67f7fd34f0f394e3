//! Interpreter-wide definitions: address-space constants and runtime errors.

pub mod builtins;
pub mod constants;
pub mod engine;
pub mod errors;
pub mod heap_serial;
pub mod op_laws;
pub mod ops;
pub mod serial_laws;
pub mod type_laws;
pub mod type_system;
