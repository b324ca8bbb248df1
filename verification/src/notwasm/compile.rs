//! The whole way from a program to a module: strings are interned, jumps
//! are structured, and what is left is translated.

use super::assembler::{assemble, translate_parity};
use super::elim_gotos::{elim_gotos, structure_program};
use super::emit::{serialize_module, serialized};
use super::error::{CompileError, CompileErrorView};
use super::intern::{intern, intern_program};
use super::rt_bindings::runtime_bindings;
use super::syntax::{Program, ProgramView};
use super::wasm::{WasmModule, WasmModuleView};
use vstd::prelude::*;

verus! {

/// The module that the program `p` is compiled to, or the first reason
/// why it has none.
pub open spec fn compile_program(p: ProgramView) -> Result<WasmModuleView, CompileErrorView> {
    match intern_program(p) {
        Err(e) => Err(e),
        Ok(interned) => match structure_program(interned) {
            Err(e) => Err(e),
            Ok(structured) => assemble(structured, runtime_bindings()),
        },
    }
}

/// Compiles `program` to a module.
pub fn compile_module(program: Program) -> (r: Result<WasmModule, CompileError>)
    ensures
        match compile_program(program@) {
            Ok(m) => r is Ok && r->Ok_0@ == m,
            Err(e) => r is Err && r->Err_0@ == e,
        },
{
    let interned = intern(program)?;
    let structured = elim_gotos(interned)?;
    translate_parity(structured)
}

/// Compiles `program` to the bytes of a module. Where the program has no
/// module, the error is the one that says why; where it has one, the
/// result is what comes of writing that module.
pub fn compile(program: Program) -> (r: Result<Vec<u8>, CompileError>)
    ensures
        match compile_program(program@) {
            Err(e) => r is Err && r->Err_0@ == e,
            Ok(w) => serialized(w, r),
        },
{
    match compile_module(program) {
        Err(e) => Err(e),
        Ok(module) => serialize_module(&module),
    }
}

} // verus!
