//! A WebAssembly binary decoder and integer interpreter.
pub mod leb128;
pub mod cg;
pub mod error;
pub mod global;
pub mod intcode;
pub mod laws;
pub mod memory;
pub mod model;
pub mod module;
pub mod names;
pub mod opcode;
pub mod runtime;
pub mod sync;
pub mod text;
pub mod types;
pub mod value;
pub mod wasm;
pub mod wasmrt;
