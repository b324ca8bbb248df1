//! A compiler backend that lowers NotWasm, a small statically-typed
//! intermediate language, to WebAssembly modules linked against a runtime.
//!
//! [`notwasm::compile`] is the whole way from a program to the bytes of a
//! module: string literals are interned, jumps are structured into nested
//! blocks, and what is left is translated and assembled. Each stage is a
//! function that is proved to compute what its specification says.

pub mod jankyscript;
pub mod notwasm;
pub mod shared;
