//! Marshaling between host values and the flat primitive values that cross the
//! boundary of a sandboxed guest with a 32-bit linear memory.

pub mod call;
pub mod dynamic;
pub mod error;
pub mod guest_alloc;
pub mod layout;
pub mod le;
pub mod marshal;
pub mod memory;
pub mod ptr;
pub mod reloc;
pub mod wasm_primitive;
pub mod wasm_primitive_list;
