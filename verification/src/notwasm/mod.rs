//! NotWasm: it is not WebAssembly, but quite close to it.

pub mod assembler;
pub mod closed;
pub mod compile;
pub mod elim_gotos;
pub mod emit;
pub mod env;
pub mod error;
pub mod intern;
pub mod interned;
pub mod laws;
pub mod lookup;
pub mod parity;
pub mod pipeline;
pub mod rt_bindings;
pub mod syntax;
pub mod translation;
pub mod wasm;

pub use assembler::translate_parity;
pub use compile::compile;
pub use elim_gotos::elim_gotos;
pub use emit::translate;
pub use intern::intern;
