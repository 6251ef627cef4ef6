//! Compilation of typed script source and WebAssembly text into artifacts a
//! web-script runtime can execute, with content-addressed memoization.

pub mod cache;
pub mod wasm_compiler;
pub mod typescript_compiler;
pub mod wasm_exports;
