//! The runtime store of a small WebAssembly interpreter: the owner of every
//! function, table, memory, global, element segment and data segment that
//! instantiated modules allocate, with the instantiation-time rules of the
//! Wasm MVP (constant expressions, bounds-checked segment initialisation).

pub mod error;
pub mod types;
pub mod memory;
pub mod table;
pub mod store;
pub mod instantiation;
pub mod blocks;
