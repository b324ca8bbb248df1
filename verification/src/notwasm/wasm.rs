//! A model of the part of WebAssembly that the backend produces: value
//! types, instructions, function types and the sections of a module.

use vstd::prelude::*;

verus! {

/// The type of a value on the machine's stack.
#[derive(Debug, Clone, Copy, PartialEq, Eq, Structural)]
pub enum ValType {
    I32,
    F64,
}

/// A machine instruction. Blocks, loops and conditionals yield no value.
#[derive(Debug, Clone, Copy, PartialEq, Eq, Structural)]
pub enum Instr {
    Unreachable,
    Block,
    Loop,
    If,
    Else,
    End,
    /// Branches out of that many enclosing blocks, counted from 0.
    Br(u32),
    Return,
    Call(u32),
    /// The index of the expected type, in the table with index 0.
    CallIndirect(u32),
    GetLocal(u32),
    SetLocal(u32),
    GetGlobal(u32),
    I32Const(i32),
    I32Eq,
    I32Add,
    I32Sub,
    I32Mul,
    I32GtS,
    I32GeS,
    I32LeS,
    I32And,
    I32Or,
}

/// The view of a [`FuncType`].
pub ghost struct FuncTypeView {
    pub params: Seq<ValType>,
    pub ret: Option<ValType>,
}

/// The signature of a function: an entry of the type section.
#[derive(Debug, PartialEq, Eq)]
pub struct FuncType {
    pub params: Vec<ValType>,
    pub ret: Option<ValType>,
}

impl View for FuncType {
    type V = FuncTypeView;

    open spec fn view(&self) -> FuncTypeView {
        FuncTypeView { params: self.params@, ret: self.ret }
    }
}

impl Clone for FuncType {
    fn clone(&self) -> (r: FuncType)
        ensures
            r@ == self@,
    {
        FuncType { params: self.params.clone(), ret: self.ret }
    }
}

impl FuncType {
    /// Whether two signatures have the same parameters and the same result.
    pub fn same(&self, other: &FuncType) -> (r: bool)
        ensures
            r == (self@ == other@),
    {
        if self.ret != other.ret || self.params.len() != other.params.len() {
            return false;
        }
        let mut i: usize = 0;
        while i < self.params.len()
            invariant
                i <= self.params.len(),
                self.params.len() == other.params.len(),
                forall|j: int| 0 <= j < i ==> self.params@[j] == other.params@[j],
            decreases self.params.len() - i,
        {
            if self.params[i] != other.params[i] {
                return false;
            }
            i += 1;
        }
        assert(self.params@ =~= other.params@);
        true
    }
}

/// The views of the signatures in `ts`, in order.
pub open spec fn func_types_view(ts: Seq<FuncType>) -> Seq<FuncTypeView> {
    Seq::new(ts.len(), |i: int| ts[i]@)
}

/// The view of an [`Import`].
pub ghost struct ImportView {
    pub name: Seq<char>,
    pub type_index: u32,
}

/// A function imported from the runtime, with the index of its type.
#[derive(Debug, PartialEq, Eq)]
pub struct Import {
    pub name: String,
    pub type_index: u32,
}

impl View for Import {
    type V = ImportView;

    open spec fn view(&self) -> ImportView {
        ImportView { name: self.name@, type_index: self.type_index }
    }
}

/// The view of a [`FuncBody`].
pub ghost struct FuncBodyView {
    pub type_index: u32,
    pub locals: Seq<ValType>,
    pub code: Seq<Instr>,
}

/// A function defined in the module: the index of its type, the types of
/// its locals beyond the parameters, and its instructions up to and
/// including the final `End`.
#[derive(Debug, PartialEq, Eq)]
pub struct FuncBody {
    pub type_index: u32,
    pub locals: Vec<ValType>,
    pub code: Vec<Instr>,
}

impl View for FuncBody {
    type V = FuncBodyView;

    open spec fn view(&self) -> FuncBodyView {
        FuncBodyView { type_index: self.type_index, locals: self.locals@, code: self.code@ }
    }
}

/// The view of a [`WasmModule`].
pub ghost struct WasmModuleView {
    pub types: Seq<FuncTypeView>,
    pub imports: Seq<ImportView>,
    pub table: Seq<u32>,
    pub data: Seq<u8>,
    pub functions: Seq<FuncBodyView>,
    pub main: u32,
}

/// A whole module.
///
/// Besides the functions in `imports`, in that order, the module imports
/// from the runtime its linear memory and one immutable `i32` global, which
/// holds the address at which `data` is placed. Function indices count the
/// imports first and then `functions`. `table` holds one function index
/// per entry, from entry 0 on. The module exports the function with index
/// `main` under the name `main`, and nothing else.
#[derive(Debug, PartialEq, Eq)]
pub struct WasmModule {
    pub types: Vec<FuncType>,
    pub imports: Vec<Import>,
    pub table: Vec<u32>,
    pub data: Vec<u8>,
    pub functions: Vec<FuncBody>,
    pub main: u32,
}

impl View for WasmModule {
    type V = WasmModuleView;

    open spec fn view(&self) -> WasmModuleView {
        WasmModuleView {
            types: func_types_view(self.types@),
            imports: Seq::new(self.imports@.len(), |i: int| self.imports@[i]@),
            table: self.table@,
            data: self.data@,
            functions: Seq::new(self.functions@.len(), |i: int| self.functions@[i]@),
            main: self.main,
        }
    }
}

} // verus!
