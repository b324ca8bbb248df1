//! Writes a module out: builds it with `parity_wasm` and has it
//! serialized.
//!
//! What `parity_wasm` builds is opaque here. A builder and the module that
//! comes of it are spoken of by what they hold, section by section, and a
//! value type or an instruction by the constructor that made it. The
//! indices at which the builder puts signatures and functions are compared
//! with those of the module that is written out, and a module that the
//! serializer could not count in 32 bits is not handed to it.

use super::assembler::{
    assemble, bodies_view, function_signatures, imports_view, intern_type, intern_types,
    runtime_signatures, translate_parity,
};
use super::closed::lemma_intern_types_len;
use super::laws::law_call_table;
use super::rt_bindings::BindingView;
use super::syntax::ProgramView;
use super::error::{CompileError, CompileErrorView};
use super::laws::{distinct, law_types_distinct};
use super::lookup::{first_index, lemma_first_index, lemma_first_index_push};
use super::rt_bindings::runtime_bindings;
use super::syntax::{BinaryOp, Program};
use super::translation::JEN_STRINGS_IDX;
use super::wasm;
use super::wasm::{
    func_types_view, FuncBodyView, FuncTypeView, ImportView, Instr, WasmModuleView,
};
use parity_wasm::elements::{BlockType, Instruction};
use vstd::prelude::*;
use vstd::utf8::encode_utf8;

verus! {

/// The instructions that stand alone.
#[derive(Clone, Copy)]
pub enum PlainOp {
    Unreachable,
    Block,
    Loop,
    If,
    Else,
    End,
    Return,
}

/// The instructions that carry an index.
#[derive(Clone, Copy)]
pub enum IndexOp {
    Br,
    Call,
    CallIndirect,
    GetLocal,
    SetLocal,
    GetGlobal,
}

/// An import that a module holds: what is imported, under which name of
/// which module.
pub ghost enum Imported {
    /// A function of the type with index `type_index`.
    Function { module: Seq<char>, field: Seq<char>, type_index: u32 },
    /// A memory of at least `min` pages and of no greatest size.
    Memory { module: Seq<char>, field: Seq<char>, min: u32 },
    /// An immutable global of type `i32`.
    Global { module: Seq<char>, field: Seq<char> },
}

/// A data segment that a module holds: `value` is placed in the memory
/// with index 0 at the address that the global with index `global` holds.
pub ghost struct DataHeld {
    pub global: u32,
    pub value: Seq<u8>,
}

/// An element segment of a table: the entries from `first` on hold the
/// function indices `values`.
pub ghost struct SegmentHeld {
    pub first: u32,
    pub values: Seq<u32>,
}

/// A table that a module holds, of at least `min` entries and of no
/// greatest size, with its element segments, in order.
pub ghost struct TableHeld {
    pub min: u32,
    pub segments: Seq<SegmentHeld>,
}

/// A function body that a module holds, with the index of the function's
/// type: one local of each of the types `locals`, and the instructions
/// `code`.
pub ghost struct BodyHeld {
    pub type_index: u32,
    pub locals: Seq<parity_wasm::elements::ValueType>,
    pub code: Seq<Instruction>,
}

/// An export that a module holds: the function with index `index` under
/// the name `field`.
pub ghost struct ExportHeld {
    pub field: Seq<char>,
    pub index: u32,
}

/// What a module holds, section by section. It holds nothing else: no
/// memory or global of its own, no start function, no custom section.
pub ghost struct Held {
    pub types: Seq<FuncTypeView>,
    pub imports: Seq<Imported>,
    pub data: Seq<DataHeld>,
    pub tables: Seq<TableHeld>,
    pub bodies: Seq<BodyHeld>,
    pub exports: Seq<ExportHeld>,
}

/// The signatures that a builder holds in its type section, in order.
pub uninterp spec fn signatures_of(b: parity_wasm::builder::ModuleBuilder) -> Seq<FuncTypeView>;

/// The imports that a builder holds, in order.
pub uninterp spec fn imports_in(b: parity_wasm::builder::ModuleBuilder) -> Seq<Imported>;

/// The data segments that a builder holds, in order.
pub uninterp spec fn data_in(b: parity_wasm::builder::ModuleBuilder) -> Seq<DataHeld>;

/// The tables that a builder holds, each with its element segments, in
/// order.
pub uninterp spec fn tables_in(b: parity_wasm::builder::ModuleBuilder) -> Seq<TableHeld>;

/// The table that a builder of tables holds so far.
pub uninterp spec fn table_in(
    t: parity_wasm::builder::TableBuilder<parity_wasm::builder::ModuleBuilder>,
) -> TableHeld;

/// What the builder holds that a builder of tables was begun on, and to
/// which it hands its table when it is done.
pub uninterp spec fn beneath(
    t: parity_wasm::builder::TableBuilder<parity_wasm::builder::ModuleBuilder>,
) -> Held;

/// The function bodies that a builder holds, in order.
pub uninterp spec fn bodies_in(b: parity_wasm::builder::ModuleBuilder) -> Seq<BodyHeld>;

/// The exports that a builder holds, in order.
pub uninterp spec fn exports_in(b: parity_wasm::builder::ModuleBuilder) -> Seq<ExportHeld>;

/// What a module holds.
pub uninterp spec fn held_by(m: parity_wasm::elements::Module) -> Held;

/// The bytes that the serializer writes for a module, if it writes any.
pub uninterp spec fn written_of(m: parity_wasm::elements::Module) -> Option<Seq<u8>>;

/// The value type of `parity_wasm` that stands for `t`.
pub uninterp spec fn value_type_of(t: wasm::ValType) -> parity_wasm::elements::ValueType;

/// The instruction of `parity_wasm` that stands for `op`.
pub uninterp spec fn plain_of(op: PlainOp) -> Instruction;

/// The instruction of `parity_wasm` that stands for `op` with the index `n`.
pub uninterp spec fn indexed_of(op: IndexOp, n: u32) -> Instruction;

/// The instruction of `parity_wasm` that computes `op`.
pub uninterp spec fn numeric_of(op: BinaryOp) -> Instruction;

/// The instruction of `parity_wasm` that pushes the constant `v`.
pub uninterp spec fn const_of(v: i32) -> Instruction;

/// What a builder holds.
pub open spec fn built_in(b: parity_wasm::builder::ModuleBuilder) -> Held {
    Held {
        types: signatures_of(b),
        imports: imports_in(b),
        data: data_in(b),
        tables: tables_in(b),
        bodies: bodies_in(b),
        exports: exports_in(b),
    }
}

/// The instruction of `parity_wasm` that stands for the instruction `i`:
/// the one of the same name, with the same index or constant.
pub open spec fn instruction_of(i: Instr) -> Instruction {
    match i {
        Instr::Unreachable => plain_of(PlainOp::Unreachable),
        Instr::Block => plain_of(PlainOp::Block),
        Instr::Loop => plain_of(PlainOp::Loop),
        Instr::If => plain_of(PlainOp::If),
        Instr::Else => plain_of(PlainOp::Else),
        Instr::End => plain_of(PlainOp::End),
        Instr::Return => plain_of(PlainOp::Return),
        Instr::Br(n) => indexed_of(IndexOp::Br, n),
        Instr::Call(n) => indexed_of(IndexOp::Call, n),
        Instr::CallIndirect(n) => indexed_of(IndexOp::CallIndirect, n),
        Instr::GetLocal(n) => indexed_of(IndexOp::GetLocal, n),
        Instr::SetLocal(n) => indexed_of(IndexOp::SetLocal, n),
        Instr::GetGlobal(n) => indexed_of(IndexOp::GetGlobal, n),
        Instr::I32Const(v) => const_of(v),
        Instr::I32Eq => numeric_of(BinaryOp::I32Eq),
        Instr::I32Add => numeric_of(BinaryOp::I32Add),
        Instr::I32Sub => numeric_of(BinaryOp::I32Sub),
        Instr::I32Mul => numeric_of(BinaryOp::I32Mul),
        Instr::I32GtS => numeric_of(BinaryOp::I32GT),
        Instr::I32GeS => numeric_of(BinaryOp::I32Ge),
        Instr::I32LeS => numeric_of(BinaryOp::I32Le),
        Instr::I32And => numeric_of(BinaryOp::I32And),
        Instr::I32Or => numeric_of(BinaryOp::I32Or),
    }
}

/// The number of bytes of the text `s` in UTF-8, as a length.
pub open spec fn bytes_of(s: Seq<char>) -> nat {
    encode_utf8(s).len() as usize as nat
}

/// No fewer than the bytes that the serializer writes for the signatures
/// `ts`: for each at most 8 and one for each parameter.
pub open spec fn types_cost(ts: Seq<FuncTypeView>) -> nat
    decreases ts.len(),
{
    if ts.len() == 0 {
        0
    } else {
        types_cost(ts.drop_last()) + 8 + ts.last().params.len()
    }
}

/// No fewer than the bytes that the serializer writes for the import `i`:
/// at most 32 and those of its two names.
pub open spec fn import_cost(i: Imported) -> nat {
    match i {
        Imported::Function { module, field, .. } => 32 + bytes_of(module) + bytes_of(field),
        Imported::Memory { module, field, .. } => 32 + bytes_of(module) + bytes_of(field),
        Imported::Global { module, field } => 32 + bytes_of(module) + bytes_of(field),
    }
}

/// No fewer than the bytes that the serializer writes for the imports `s`.
pub open spec fn imports_cost(s: Seq<Imported>) -> nat
    decreases s.len(),
{
    if s.len() == 0 {
        0
    } else {
        imports_cost(s.drop_last()) + import_cost(s.last())
    }
}

/// No fewer than the bytes that the serializer writes for the data
/// segments `s`: for each at most 32 and its bytes.
pub open spec fn data_cost(s: Seq<DataHeld>) -> nat
    decreases s.len(),
{
    if s.len() == 0 {
        0
    } else {
        data_cost(s.drop_last()) + 32 + s.last().value.len()
    }
}

/// No fewer than the bytes that the serializer writes for the element
/// segments `s`: for each at most 32 and 8 for each entry.
pub open spec fn segments_cost(s: Seq<SegmentHeld>) -> nat
    decreases s.len(),
{
    if s.len() == 0 {
        0
    } else {
        segments_cost(s.drop_last()) + 32 + 8 * s.last().values.len()
    }
}

/// No fewer than the bytes that the serializer writes for the tables `s`
/// and their element segments: for each table at most 32, and what its
/// segments cost.
pub open spec fn tables_cost(s: Seq<TableHeld>) -> nat
    decreases s.len(),
{
    if s.len() == 0 {
        0
    } else {
        tables_cost(s.drop_last()) + 32 + segments_cost(s.last().segments)
    }
}

/// No fewer than the bytes that the serializer writes for the function
/// bodies `s` and for the indices of their types: for each at most 32, 8
/// for each local and 8 for each instruction.
pub open spec fn bodies_cost(s: Seq<BodyHeld>) -> nat
    decreases s.len(),
{
    if s.len() == 0 {
        0
    } else {
        bodies_cost(s.drop_last()) + 32 + 8 * s.last().locals.len() + 8 * s.last().code.len()
    }
}

/// No fewer than the bytes that the serializer writes for the exports `s`:
/// for each at most 32 and those of its name.
pub open spec fn exports_cost(s: Seq<ExportHeld>) -> nat
    decreases s.len(),
{
    if s.len() == 0 {
        0
    } else {
        exports_cost(s.drop_last()) + 32 + bytes_of(s.last().field)
    }
}

/// No fewer than the bytes that the serializer writes for a module that
/// holds `h`, the headers of its sections included. Every length that the
/// serializer counts is the length of a part of that.
pub open spec fn cost(h: Held) -> nat {
    128 + types_cost(h.types) + imports_cost(h.imports) + data_cost(h.data) + tables_cost(h.tables)
        + bodies_cost(h.bodies) + exports_cost(h.exports)
}

/// Whether `x` stands for an instruction of the library.
pub open spec fn stands_for_one(x: Instruction) -> bool {
    exists|i: Instr| instruction_of(i) == x
}

/// Whether the serializer can write a module that holds `h`: it counts
/// every length in 32 bits, so the whole must not be longer; and every
/// instruction must be one of those that stand for an instruction of the
/// library, none of which is longer than 8 bytes.
pub open spec fn writable(h: Held) -> bool {
    &&& cost(h) <= u32::MAX
    &&& forall|j: int, k: int|
        0 <= j < h.bodies.len() && 0 <= k < h.bodies[j].code.len() ==> #[trigger] stands_for_one(
            h.bodies[j].code[k],
        )
}

/// `parity_wasm::builder::module`: a builder that holds nothing.
#[verifier::external_body]
fn new_module() -> (r: parity_wasm::builder::ModuleBuilder)
    ensures
        built_in(r) == (Held {
            types: Seq::empty(),
            imports: Seq::empty(),
            data: Seq::empty(),
            tables: Seq::empty(),
            bodies: Seq::empty(),
            exports: Seq::empty(),
        }),
{
    parity_wasm::builder::module()
}

/// The value type of `parity_wasm` that stands for `t`: the variant of
/// the same name.
#[verifier::external_body]
fn value_type(t: wasm::ValType) -> (r: parity_wasm::elements::ValueType)
    ensures
        r == value_type_of(t),
{
    match t {
        wasm::ValType::I32 => parity_wasm::elements::ValueType::I32,
        wasm::ValType::F64 => parity_wasm::elements::ValueType::F64,
    }
}

/// The instruction of `parity_wasm` that stands for `op`; blocks, loops
/// and conditionals are made to yield no value.
#[verifier::external_body]
fn plain_instruction(op: PlainOp) -> (r: Instruction)
    ensures
        r == plain_of(op),
{
    match op {
        PlainOp::Unreachable => Instruction::Unreachable,
        PlainOp::Block => Instruction::Block(BlockType::NoResult),
        PlainOp::Loop => Instruction::Loop(BlockType::NoResult),
        PlainOp::If => Instruction::If(BlockType::NoResult),
        PlainOp::Else => Instruction::Else,
        PlainOp::End => Instruction::End,
        PlainOp::Return => Instruction::Return,
    }
}

/// The instruction of `parity_wasm` that stands for `op` with the index
/// `n`; an indirect call goes through the table with index 0.
#[verifier::external_body]
fn index_instruction(op: IndexOp, n: u32) -> (r: Instruction)
    ensures
        r == indexed_of(op, n),
{
    match op {
        IndexOp::Br => Instruction::Br(n),
        IndexOp::Call => Instruction::Call(n),
        IndexOp::CallIndirect => Instruction::CallIndirect(n, 0),
        IndexOp::GetLocal => Instruction::GetLocal(n),
        IndexOp::SetLocal => Instruction::SetLocal(n),
        IndexOp::GetGlobal => Instruction::GetGlobal(n),
    }
}

/// The instruction of `parity_wasm` that computes `op`.
#[verifier::external_body]
fn numeric_instruction(op: BinaryOp) -> (r: Instruction)
    ensures
        r == numeric_of(op),
{
    match op {
        BinaryOp::I32Eq => Instruction::I32Eq,
        BinaryOp::I32Add => Instruction::I32Add,
        BinaryOp::I32Sub => Instruction::I32Sub,
        BinaryOp::I32GT => Instruction::I32GtS,
        BinaryOp::I32Ge => Instruction::I32GeS,
        BinaryOp::I32Le => Instruction::I32LeS,
        BinaryOp::I32Mul => Instruction::I32Mul,
        BinaryOp::I32And => Instruction::I32And,
        BinaryOp::I32Or => Instruction::I32Or,
    }
}

/// The instruction of `parity_wasm` that pushes the constant `v`.
#[verifier::external_body]
fn const_instruction(v: i32) -> (r: Instruction)
    ensures
        r == const_of(v),
{
    Instruction::I32Const(v)
}

/// `ModuleBuilder::push_signature`: hands the builder the signature
/// `sig`. The builder puts it at the end of its type section unless it
/// holds an equal one, and returns the index at which it now holds it.
/// Nothing else that it holds changes.
#[verifier::external_body]
fn push_signature(b: &mut parity_wasm::builder::ModuleBuilder, sig: &wasm::FuncType) -> (r: u32)
    requires
        signatures_of(*old(b)).len() < u32::MAX,
    ensures
        built_in(*final(b)) == (Held {
            types: intern_type(signatures_of(*old(b)), sig@),
            ..built_in(*old(b))
        }),
        first_index(signatures_of(*final(b)), sig@) == Some(r as nat),
{
    let convert = |t: &wasm::ValType| match t {
        wasm::ValType::I32 => parity_wasm::elements::ValueType::I32,
        wasm::ValType::F64 => parity_wasm::elements::ValueType::F64,
    };
    let params = sig.params.iter().map(convert).collect();
    let ret = sig.ret.as_ref().map(convert);
    b.push_signature(
        parity_wasm::builder::signature().with_params(params).with_return_type(ret).build_sig(),
    )
}

/// `ModuleBuilder::import` for a function: the builder holds one more
/// import, of `field` of `module` as a function of the type at
/// `type_index`.
#[verifier::external_body]
fn import_function(
    b: parity_wasm::builder::ModuleBuilder,
    module: &str,
    field: &str,
    type_index: u32,
) -> (r: parity_wasm::builder::ModuleBuilder)
    ensures
        built_in(r) == (Held {
            imports: imports_in(b).push(
                Imported::Function { module: module@, field: field@, type_index },
            ),
            ..built_in(b)
        }),
{
    b.import().path(module, field).external().func(type_index).build()
}

/// `ModuleBuilder::import` for a memory: the builder holds one more
/// import, of `field` of `module` as a memory of at least `min` pages and
/// of no greatest size.
#[verifier::external_body]
fn import_memory(
    b: parity_wasm::builder::ModuleBuilder,
    module: &str,
    field: &str,
    min: u32,
) -> (r: parity_wasm::builder::ModuleBuilder)
    ensures
        built_in(r) == (Held {
            imports: imports_in(b).push(Imported::Memory { module: module@, field: field@, min }),
            ..built_in(b)
        }),
{
    b.import().path(module, field).external().memory(min, None).build()
}

/// `ModuleBuilder::import` for a global: the builder holds one more
/// import, of `field` of `module` as an immutable global of type `i32`.
#[verifier::external_body]
fn import_global(
    b: parity_wasm::builder::ModuleBuilder,
    module: &str,
    field: &str,
) -> (r: parity_wasm::builder::ModuleBuilder)
    ensures
        built_in(r) == (Held {
            imports: imports_in(b).push(Imported::Global { module: module@, field: field@ }),
            ..built_in(b)
        }),
{
    b.import().path(module, field).external().global(
        parity_wasm::elements::ValueType::I32,
        false,
    ).build()
}

/// `ModuleBuilder::data`: the builder holds one more data segment, which
/// places `value` in memory at the address that the global with index
/// `global` holds.
#[verifier::external_body]
fn data_segment(
    b: parity_wasm::builder::ModuleBuilder,
    global: u32,
    value: Vec<u8>,
) -> (r: parity_wasm::builder::ModuleBuilder)
    ensures
        built_in(r) == (Held {
            data: data_in(b).push(DataHeld { global, value: value@ }),
            ..built_in(b)
        }),
{
    b.data().offset(Instruction::GetGlobal(global)).value(value).build()
}

/// `ModuleBuilder::table`: begins a table on the builder `b`. The table
/// has no least size yet and no element segment.
#[verifier::external_body]
fn table_begin(b: parity_wasm::builder::ModuleBuilder) -> (r: parity_wasm::builder::TableBuilder<
    parity_wasm::builder::ModuleBuilder,
>)
    ensures
        table_in(r) == (TableHeld { min: 0, segments: Seq::empty() }),
        beneath(r) == built_in(b),
{
    b.table()
}

/// `TableBuilder::with_min`: the table is of at least `min` entries.
#[verifier::external_body]
fn table_min(
    t: parity_wasm::builder::TableBuilder<parity_wasm::builder::ModuleBuilder>,
    min: u32,
) -> (r: parity_wasm::builder::TableBuilder<parity_wasm::builder::ModuleBuilder>)
    ensures
        table_in(r) == (TableHeld { min, ..table_in(t) }),
        beneath(r) == beneath(t),
{
    t.with_min(min)
}

/// `TableBuilder::with_element`: the table has one more element segment,
/// whose entries from `first` on hold the function indices `values`.
#[verifier::external_body]
fn table_element(
    t: parity_wasm::builder::TableBuilder<parity_wasm::builder::ModuleBuilder>,
    first: u32,
    values: Vec<u32>,
) -> (r: parity_wasm::builder::TableBuilder<parity_wasm::builder::ModuleBuilder>)
    ensures
        table_in(r) == (TableHeld {
            segments: table_in(t).segments.push(SegmentHeld { first, values: values@ }),
            ..table_in(t)
        }),
        beneath(r) == beneath(t),
{
    t.with_element(first, values)
}

/// `TableBuilder::build`: the builder that the table was begun on holds
/// one more table, the one that was built.
#[verifier::external_body]
fn table_end(
    t: parity_wasm::builder::TableBuilder<parity_wasm::builder::ModuleBuilder>,
) -> (r: parity_wasm::builder::ModuleBuilder)
    ensures
        tables_in(r) == beneath(t).tables.push(table_in(t)),
        built_in(r) == (Held { tables: tables_in(r), ..beneath(t) }),
{
    t.build()
}

/// `ModuleBuilder::push_function`: hands the builder a function of the
/// type at `type_index`, with one local of each of the types `locals` and
/// the instructions `code`. The builder puts its body after the bodies
/// that it holds and returns the index of the body. Nothing else that it
/// holds changes.
#[verifier::external_body]
fn push_function(
    b: &mut parity_wasm::builder::ModuleBuilder,
    type_index: u32,
    locals: Vec<parity_wasm::elements::ValueType>,
    code: Vec<Instruction>,
) -> (r: u32)
    requires
        bodies_in(*old(b)).len() < u32::MAX,
    ensures
        r == bodies_in(*old(b)).len(),
        built_in(*final(b)) == (Held {
            bodies: bodies_in(*old(b)).push(
                BodyHeld { type_index, locals: locals@, code: code@ },
            ),
            ..built_in(*old(b))
        }),
{
    let locals = locals.into_iter().map(|t| parity_wasm::elements::Local::new(1, t)).collect();
    let body = parity_wasm::elements::FuncBody::new(
        locals,
        parity_wasm::elements::Instructions::new(code),
    );
    let typed = parity_wasm::builder::TypeRefBuilder::with_callback(
        parity_wasm::builder::function(),
    ).val(type_index).build();
    b.push_function(typed.with_body(body).build()).body
}

/// `ModuleBuilder::export`: the builder holds one more export, of the
/// function with index `index` under the name `field`.
#[verifier::external_body]
fn export_function(
    b: parity_wasm::builder::ModuleBuilder,
    field: &str,
    index: u32,
) -> (r: parity_wasm::builder::ModuleBuilder)
    ensures
        built_in(r) == (Held {
            exports: exports_in(b).push(ExportHeld { field: field@, index }),
            ..built_in(b)
        }),
{
    b.export().field(field).internal().func(index).build()
}

/// `ModuleBuilder::build`: the module that holds what the builder held.
#[verifier::external_body]
fn build(b: parity_wasm::builder::ModuleBuilder) -> (r: parity_wasm::elements::Module)
    ensures
        held_by(r) == built_in(b),
{
    b.build()
}

/// `parity_wasm::serialize`: the bytes of the module, or why it cannot be
/// written. The serializer counts lengths in 32 bits and stops the
/// program on a longer one, so it is handed only what it can count.
#[verifier::external_body]
fn serialize(m: parity_wasm::elements::Module) -> (r: Result<Vec<u8>, parity_wasm::elements::Error>)
    requires
        writable(held_by(m)),
    ensures
        match r {
            Ok(v) => written_of(m) == Some(v@),
            Err(_) => written_of(m) is None,
        },
{
    parity_wasm::serialize(m)
}

/// The instruction of `parity_wasm` that stands for `i`.
fn wasm_instruction(i: Instr) -> (r: Instruction)
    ensures
        r == instruction_of(i),
{
    match i {
        Instr::Unreachable => plain_instruction(PlainOp::Unreachable),
        Instr::Block => plain_instruction(PlainOp::Block),
        Instr::Loop => plain_instruction(PlainOp::Loop),
        Instr::If => plain_instruction(PlainOp::If),
        Instr::Else => plain_instruction(PlainOp::Else),
        Instr::End => plain_instruction(PlainOp::End),
        Instr::Return => plain_instruction(PlainOp::Return),
        Instr::Br(n) => index_instruction(IndexOp::Br, n),
        Instr::Call(n) => index_instruction(IndexOp::Call, n),
        Instr::CallIndirect(n) => index_instruction(IndexOp::CallIndirect, n),
        Instr::GetLocal(n) => index_instruction(IndexOp::GetLocal, n),
        Instr::SetLocal(n) => index_instruction(IndexOp::SetLocal, n),
        Instr::GetGlobal(n) => index_instruction(IndexOp::GetGlobal, n),
        Instr::I32Const(v) => const_instruction(v),
        Instr::I32Eq => numeric_instruction(BinaryOp::I32Eq),
        Instr::I32Add => numeric_instruction(BinaryOp::I32Add),
        Instr::I32Sub => numeric_instruction(BinaryOp::I32Sub),
        Instr::I32Mul => numeric_instruction(BinaryOp::I32Mul),
        Instr::I32GtS => numeric_instruction(BinaryOp::I32GT),
        Instr::I32GeS => numeric_instruction(BinaryOp::I32Ge),
        Instr::I32LeS => numeric_instruction(BinaryOp::I32Le),
        Instr::I32And => numeric_instruction(BinaryOp::I32And),
        Instr::I32Or => numeric_instruction(BinaryOp::I32Or),
    }
}

/// The value types of `parity_wasm` that stand for `types`, in order.
fn wasm_value_types(types: &Vec<wasm::ValType>) -> (r: Vec<parity_wasm::elements::ValueType>)
    ensures
        r@.len() == types@.len(),
        forall|j: int| 0 <= j < types@.len() ==> r@[j] == value_type_of(types@[j]),
{
    let mut out: Vec<parity_wasm::elements::ValueType> = Vec::new();
    let mut i: usize = 0;
    while i < types.len()
        invariant
            i <= types.len(),
            out@.len() == i,
            forall|j: int| 0 <= j < i ==> out@[j] == value_type_of(types@[j]),
        decreases types.len() - i,
    {
        out.push(value_type(types[i]));
        i += 1;
    }
    out
}

/// The instructions of `parity_wasm` that stand for `code`, in order.
fn wasm_instructions(code: &Vec<Instr>) -> (r: Vec<Instruction>)
    ensures
        r@.len() == code@.len(),
        forall|j: int| 0 <= j < code@.len() ==> r@[j] == instruction_of(code@[j]),
{
    let mut out: Vec<Instruction> = Vec::new();
    let mut i: usize = 0;
    while i < code.len()
        invariant
            i <= code.len(),
            out@.len() == i,
            forall|j: int| 0 <= j < i ==> out@[j] == instruction_of(code@[j]),
        decreases code.len() - i,
    {
        out.push(wasm_instruction(code[i]));
        i += 1;
    }
    out
}

/// Whether the index `got`, which the builder gave, is the index `want`
/// of the module that is written out.
pub fn agree(got: u32, want: usize) -> (r: Result<(), CompileError>)
    ensures
        r is Ok <==> got == want,
        r is Err ==> r->Err_0@ == CompileErrorView::Serialize,
{
    if got as usize == want {
        Ok(())
    } else {
        Err(CompileError::Serialize)
    }
}

/// What the serializer returned, with its error in place of the
/// serializer's own.
pub fn written(r: Result<Vec<u8>, parity_wasm::elements::Error>) -> (w: Result<
    Vec<u8>,
    CompileError,
>)
    ensures
        match r {
            Ok(bytes) => w == Ok::<Vec<u8>, CompileError>(bytes),
            Err(_) => w is Err && w->Err_0@ == CompileErrorView::Serialize,
        },
{
    match r {
        Ok(bytes) => Ok(bytes),
        Err(_) => Err(CompileError::Serialize),
    }
}

/// The imports of the functions `imports` from the module `runtime`.
pub open spec fn function_imports(imports: Seq<ImportView>) -> Seq<Imported> {
    Seq::new(
        imports.len(),
        |i: int|
            Imported::Function {
                module: "runtime"@,
                field: imports[i].name,
                type_index: imports[i].type_index,
            },
    )
}

/// The function body that stands for the body `f`.
pub open spec fn body_of(f: FuncBodyView) -> BodyHeld {
    BodyHeld {
        type_index: f.type_index,
        locals: Seq::new(f.locals.len(), |k: int| value_type_of(f.locals[k])),
        code: Seq::new(f.code.len(), |k: int| instruction_of(f.code[k])),
    }
}

/// The function bodies that stand for the bodies `fs`.
pub open spec fn bodies_of(fs: Seq<FuncBodyView>) -> Seq<BodyHeld> {
    Seq::new(fs.len(), |i: int| body_of(fs[i]))
}

/// The element segments that stand for the table `table`: one for each
/// entry, in order, which holds that entry alone.
pub open spec fn segments_of(table: Seq<u32>) -> Seq<SegmentHeld> {
    Seq::new(table.len(), |i: int| SegmentHeld { first: i as u32, values: seq![table[i]] })
}

/// What the module of `parity_wasm` holds that stands for the module `w`:
/// - the signatures of `w`;
/// - from the module `runtime`, the functions of `w`, then the memory
///   `memory`, from 0 pages on, then the global `JEN_STRINGS`;
/// - the data of `w`, placed at the address that this global holds;
/// - one table, just large enough for the entries of `w`, with one
///   element segment for each entry;
/// - the bodies of `w`;
/// - the export of the function with index `main` under the name `main`.
pub open spec fn emitted(w: WasmModuleView) -> Held {
    Held {
        types: w.types,
        imports: function_imports(w.imports).push(
            Imported::Memory { module: "runtime"@, field: "memory"@, min: 0 },
        ).push(Imported::Global { module: "runtime"@, field: "JEN_STRINGS"@ }),
        data: seq![DataHeld { global: JEN_STRINGS_IDX, value: w.data }],
        tables: seq![TableHeld { min: w.table.len() as u32, segments: segments_of(w.table) }],
        bodies: bodies_of(w.functions),
        exports: seq![ExportHeld { field: "main"@, index: w.main }],
    }
}

/// Whether the module `w` can be built and written: no signature stands
/// twice in its type section, so that the builder puts each where `w` has
/// it; its signatures, its functions and its table entries can each be
/// counted in 32 bits; and the serializer can write what stands for it.
pub open spec fn buildable(w: WasmModuleView) -> bool {
    &&& distinct(w.types)
    &&& w.types.len() <= u32::MAX
    &&& w.functions.len() <= u32::MAX
    &&& w.table.len() <= u32::MAX
    &&& writable(emitted(w))
}

/// The least number that is too large for a length.
pub open spec fn limit() -> int {
    0x1_0000_0000
}

/// The number `n`, or the limit where `n` is beyond it.
pub open spec fn capped(n: int) -> int {
    if n < limit() {
        n
    } else {
        limit()
    }
}

/// The length `n`, capped.
fn cap(n: usize) -> (r: u64)
    ensures
        r == capped(n as int),
{
    if n <= u32::MAX as usize {
        n as u64
    } else {
        0x1_0000_0000
    }
}

/// Eight times the length `n`, capped.
fn cap8(n: usize) -> (r: u64)
    ensures
        r == capped(8 * (n as int)),
{
    if n <= u32::MAX as usize {
        cap_sum(0, 8 * (n as u64))
    } else {
        0x1_0000_0000
    }
}

/// The sum of `a`, which is capped, and `b`, capped.
fn cap_sum(a: u64, b: u64) -> (r: u64)
    requires
        a <= limit(),
        b <= 0x10_0000_0000,
    ensures
        r == capped(a + b),
{
    if a + b < 0x1_0000_0000 {
        a + b
    } else {
        0x1_0000_0000
    }
}

/// Putting one more signature in adds its cost.
pub proof fn lemma_types_cost_push(s: Seq<FuncTypeView>, x: FuncTypeView)
    ensures
        types_cost(s.push(x)) == types_cost(s) + 8 + x.params.len(),
{
    assert(s.push(x).drop_last() =~= s);
}

/// Putting one more import in adds its cost.
pub proof fn lemma_imports_cost_push(s: Seq<Imported>, x: Imported)
    ensures
        imports_cost(s.push(x)) == imports_cost(s) + import_cost(x),
{
    assert(s.push(x).drop_last() =~= s);
}

/// Putting one more body in adds its cost.
pub proof fn lemma_bodies_cost_push(s: Seq<BodyHeld>, x: BodyHeld)
    ensures
        bodies_cost(s.push(x)) == bodies_cost(s) + 32 + 8 * x.locals.len() + 8 * x.code.len(),
{
    assert(s.push(x).drop_last() =~= s);
}

/// Adds the cost of the signatures `types` to `acc`.
fn weigh_types(types: &Vec<wasm::FuncType>, acc: u64) -> (r: u64)
    requires
        acc <= limit(),
    ensures
        r == capped(acc + types_cost(func_types_view(types@))),
{
    let ghost views = func_types_view(types@);
    let mut sum = acc;
    let mut i: usize = 0;
    proof {
        assert(views.take(0) =~= Seq::empty());
    }
    while i < types.len()
        invariant
            i <= types.len(),
            views == func_types_view(types@),
            sum == capped(acc + types_cost(views.take(i as int))),
        decreases types.len() - i,
    {
        proof {
            assert(views.take(i + 1) =~= views.take(i as int).push(views[i as int]));
            lemma_types_cost_push(views.take(i as int), views[i as int]);
        }
        sum = cap_sum(sum, 8);
        sum = cap_sum(sum, cap(types[i].params.len()));
        i += 1;
    }
    proof {
        assert(views.take(i as int) =~= views);
    }
    sum
}

/// Adds the cost of importing the functions `imports` to `acc`.
fn weigh_imports(imports: &Vec<wasm::Import>, acc: u64) -> (r: u64)
    requires
        acc <= limit(),
    ensures
        r == capped(acc + imports_cost(function_imports(imports_view(imports@)))),
{
    let ghost functions = function_imports(imports_view(imports@));
    let mut sum = acc;
    let mut i: usize = 0;
    proof {
        assert(functions.take(0) =~= Seq::empty());
    }
    while i < imports.len()
        invariant
            i <= imports.len(),
            functions == function_imports(imports_view(imports@)),
            sum == capped(acc + imports_cost(functions.take(i as int))),
        decreases imports.len() - i,
    {
        proof {
            assert(functions.take(i + 1) =~= functions.take(i as int).push(functions[i as int]));
            lemma_imports_cost_push(functions.take(i as int), functions[i as int]);
            assert(import_cost(functions[i as int]) == 32 + bytes_of("runtime"@) + bytes_of(
                imports@[i as int].name@,
            ));
        }
        sum = cap_sum(sum, 32);
        sum = cap_sum(sum, cap("runtime".len()));
        sum = cap_sum(sum, cap(imports[i].name.as_str().len()));
        i += 1;
    }
    proof {
        assert(functions.take(i as int) =~= functions);
    }
    sum
}

/// Adds the cost of the bodies `functions` to `acc`.
fn weigh_bodies(functions: &Vec<wasm::FuncBody>, acc: u64) -> (r: u64)
    requires
        acc <= limit(),
    ensures
        r == capped(acc + bodies_cost(bodies_of(bodies_view(functions@)))),
{
    let ghost bodies = bodies_of(bodies_view(functions@));
    let mut sum = acc;
    let mut i: usize = 0;
    proof {
        assert(bodies.take(0) =~= Seq::empty());
    }
    while i < functions.len()
        invariant
            i <= functions.len(),
            bodies == bodies_of(bodies_view(functions@)),
            sum == capped(acc + bodies_cost(bodies.take(i as int))),
        decreases functions.len() - i,
    {
        proof {
            assert(bodies.take(i + 1) =~= bodies.take(i as int).push(bodies[i as int]));
            lemma_bodies_cost_push(bodies.take(i as int), bodies[i as int]);
            assert(bodies[i as int].locals.len() == functions@[i as int].locals@.len());
            assert(bodies[i as int].code.len() == functions@[i as int].code@.len());
        }
        sum = cap_sum(sum, 32);
        sum = cap_sum(sum, cap8(functions[i].locals.len()));
        sum = cap_sum(sum, cap8(functions[i].code.len()));
        i += 1;
    }
    proof {
        assert(bodies.take(i as int) =~= bodies);
    }
    sum
}

/// Adds the cost of what a module holds once, whatever the module is, to
/// `acc`: the imports of the memory and of the global, the data segment
/// for `data`, the table for `table`, and the export.
fn weigh_fixed(data: &Vec<u8>, table: &Vec<u32>, acc: u64) -> (r: u64)
    requires
        acc <= limit(),
    ensures
        r == capped(
            acc + 160 + 2 * bytes_of("runtime"@) + bytes_of("memory"@) + bytes_of("JEN_STRINGS"@)
                + bytes_of("main"@) + data@.len() + 40 * table@.len(),
        ),
{
    let mut sum = cap_sum(acc, 160);
    sum = cap_sum(sum, cap("runtime".len()));
    sum = cap_sum(sum, cap("runtime".len()));
    sum = cap_sum(sum, cap("memory".len()));
    sum = cap_sum(sum, cap("JEN_STRINGS".len()));
    sum = cap_sum(sum, cap("main".len()));
    sum = cap_sum(sum, cap(data.len()));
    // each entry is a segment of its own
    sum = cap_sum(sum, cap8(table.len()));
    sum = cap_sum(sum, cap8(table.len()));
    sum = cap_sum(sum, cap8(table.len()));
    sum = cap_sum(sum, cap8(table.len()));
    sum = cap_sum(sum, cap8(table.len()));
    sum
}

/// The segments that stand for a table cost 40 for each entry.
pub proof fn lemma_segments_cost(table: Seq<u32>)
    ensures
        segments_cost(segments_of(table)) == 40 * table.len(),
    decreases table.len(),
{
    if table.len() != 0 {
        lemma_segments_cost(table.drop_last());
        assert(segments_of(table).drop_last() =~= segments_of(table.drop_last()));
    }
}

/// The cost of what stands for a module, part by part.
pub proof fn lemma_cost_emitted(w: WasmModuleView)
    ensures
        cost(emitted(w)) == 288 + types_cost(w.types) + imports_cost(function_imports(w.imports))
            + 2 * bytes_of("runtime"@) + bytes_of("memory"@) + bytes_of("JEN_STRINGS"@) + bytes_of(
            "main"@,
        ) + w.data.len() + 40 * w.table.len() + bodies_cost(bodies_of(w.functions)),
{
    let h = emitted(w);
    let functions = function_imports(w.imports);
    let memory = Imported::Memory { module: "runtime"@, field: "memory"@, min: 0 };
    let global = Imported::Global { module: "runtime"@, field: "JEN_STRINGS"@ };
    lemma_imports_cost_push(functions, memory);
    lemma_imports_cost_push(functions.push(memory), global);
    assert(h.data.drop_last() =~= Seq::empty());
    assert(h.tables.drop_last() =~= Seq::empty());
    assert(h.exports.drop_last() =~= Seq::empty());
    assert(data_cost(Seq::empty()) == 0);
    assert(tables_cost(Seq::empty()) == 0);
    assert(exports_cost(Seq::empty()) == 0);
    assert(data_cost(h.data) == 32 + w.data.len());
    lemma_segments_cost(w.table);
    assert(tables_cost(h.tables) == 32 + 40 * w.table.len());
    assert(exports_cost(h.exports) == 32 + bytes_of("main"@));
}

/// Whether the serializer can count what stands for `module`.
fn fits(module: &wasm::WasmModule) -> (r: bool)
    ensures
        r == (cost(emitted(module@)) <= u32::MAX),
{
    proof {
        lemma_cost_emitted(module@);
        assert(module@.imports =~= imports_view(module.imports@));
        assert(module@.functions =~= bodies_view(module.functions@));
    }
    let mut acc: u64 = 128;
    acc = weigh_types(&module.types, acc);
    acc = weigh_imports(&module.imports, acc);
    acc = weigh_fixed(&module.data, &module.table, acc);
    acc = weigh_bodies(&module.functions, acc);
    acc < 0x1_0000_0000
}

/// Builds `module` with `parity_wasm`. It succeeds exactly where the
/// module can be built and written, and what it has built then holds what
/// stands for `module`.
pub fn build_module(module: &wasm::WasmModule) -> (r: Result<
    parity_wasm::elements::Module,
    CompileError,
>)
    ensures
        r is Ok <==> buildable(module@),
        r matches Ok(m) ==> held_by(m) == emitted(module@),
        r is Err ==> r->Err_0@ == CompileErrorView::Serialize,
{
    let ghost w = module@;
    let ghost types = func_types_view(module.types@);
    proof {
        // every instruction of what stands for the module stands for one
        // of the module's own
        assert forall|j: int, k: int|
            0 <= j < emitted(w).bodies.len() && 0 <= k < emitted(w).bodies[j].code.len()
            implies #[trigger] stands_for_one(emitted(w).bodies[j].code[k]) by {
            assert(instruction_of(w.functions[j].code[k]) == emitted(w).bodies[j].code[k]);
        }
    }
    if module.types.len() > u32::MAX as usize || module.functions.len() > u32::MAX as usize
        || module.table.len() > u32::MAX as usize || !fits(module) {
        return Err(CompileError::Serialize);
    }
    let mut b = new_module();
    let ghost nothing = built_in(b);
    let mut i: usize = 0;
    proof {
        assert(signatures_of(b) =~= types.take(0));
    }
    while i < module.types.len()
        invariant
            i <= module.types.len(),
            module.types.len() <= u32::MAX,
            types == func_types_view(module.types@),
            built_in(b) == (Held { types: types.take(i as int), ..nothing }),
            distinct(types.take(i as int)),
        decreases module.types.len() - i,
    {
        let ghost held = signatures_of(b);
        proof {
            lemma_first_index(held, types[i as int]);
            lemma_first_index_push(held, types[i as int], types[i as int]);
            assert(held.push(types[i as int]) =~= types.take(i + 1));
        }
        let at = push_signature(&mut b, &module.types[i]);
        match agree(at, i) {
            Ok(()) => {
                proof {
                    let next = types.take(i + 1);
                    assert forall|x: int, y: int| 0 <= x < y < next.len() implies next[x]
                        != next[y] by {
                        if y < i {
                            assert(held[x] == next[x]);
                            assert(held[y] == next[y]);
                        } else {
                            assert(held[x] == next[x]);
                        }
                    }
                }
            },
            Err(e) => {
                proof {
                    // an equal signature stands before this one
                    assert(held[at as int] == types[at as int]);
                    assert(types[at as int] == types[i as int]);
                }
                return Err(e);
            },
        }
        i += 1;
    }
    proof {
        assert(types.take(i as int) =~= types);
    }
    let ghost functions = function_imports(w.imports);
    let ghost typed = built_in(b);
    let mut i: usize = 0;
    proof {
        assert(imports_in(b) =~= functions.take(0));
    }
    while i < module.imports.len()
        invariant
            i <= module.imports.len(),
            w == module@,
            functions == function_imports(w.imports),
            built_in(b) == (Held { imports: functions.take(i as int), ..typed }),
        decreases module.imports.len() - i,
    {
        let import = &module.imports[i];
        proof {
            assert(functions.take(i as int).push(functions[i as int]) =~= functions.take(i + 1));
        }
        b = import_function(b, "runtime", import.name.as_str(), import.type_index);
        i += 1;
    }
    proof {
        assert(functions.take(i as int) =~= functions);
    }
    b = import_memory(b, "runtime", "memory", 0);
    b = import_global(b, "runtime", "JEN_STRINGS");
    b = data_segment(b, JEN_STRINGS_IDX, module.data.clone());
    // The table holds each function at its own position, one segment
    // for each.
    let ghost placed = built_in(b);
    let ghost segments = segments_of(w.table);
    let mut t = table_min(table_begin(b), module.table.len() as u32);
    let mut i: usize = 0;
    proof {
        assert(table_in(t).segments =~= segments.take(0));
    }
    while i < module.table.len()
        invariant
            i <= module.table.len(),
            module.table.len() <= u32::MAX,
            w == module@,
            segments == segments_of(w.table),
            beneath(t) == placed,
            table_in(t) == (TableHeld {
                min: module.table.len() as u32,
                segments: segments.take(i as int),
            }),
        decreases module.table.len() - i,
    {
        let mut values: Vec<u32> = Vec::new();
        values.push(module.table[i]);
        proof {
            assert(values@ =~= seq![w.table[i as int]]);
            assert(segments.take(i as int).push(segments[i as int]) =~= segments.take(i + 1));
        }
        t = table_element(t, i as u32, values);
        i += 1;
    }
    proof {
        assert(segments.take(i as int) =~= segments);
    }
    let mut b = table_end(t);
    let ghost bodies = bodies_of(w.functions);
    let ghost fixed = built_in(b);
    proof {
        assert(fixed.data =~= emitted(w).data);
        assert(fixed.tables =~= emitted(w).tables);
        assert(bodies_in(b) =~= bodies.take(0));
    }
    let mut i: usize = 0;
    while i < module.functions.len()
        invariant
            i <= module.functions.len(),
            module.functions.len() <= u32::MAX,
            w == module@,
            bodies == bodies_of(w.functions),
            built_in(b) == (Held { bodies: bodies.take(i as int), ..fixed }),
        decreases module.functions.len() - i,
    {
        let f = &module.functions[i];
        let locals = wasm_value_types(&f.locals);
        let code = wasm_instructions(&f.code);
        proof {
            assert(locals@ =~= bodies[i as int].locals);
            assert(code@ =~= bodies[i as int].code);
            assert(bodies.take(i as int).push(bodies[i as int]) =~= bodies.take(i + 1));
        }
        let at = push_function(&mut b, f.type_index, locals, code);
        agree(at, i)?;
        i += 1;
    }
    proof {
        assert(bodies.take(i as int) =~= bodies);
    }
    b = export_function(b, "main", module.main);
    proof {
        assert(exports_in(b) =~= emitted(w).exports);
        assert(built_in(b) == emitted(w));
        assert(w.types == types);
        assert(distinct(w.types));
        assert(writable(emitted(w)));
        assert(buildable(w));
    }
    Ok(build(b))
}

/// What is returned for a module `m` of `parity_wasm` that stands for
/// `module`: the bytes that the serializer writes for it, or an error
/// where it writes none.
pub open spec fn writes(
    module: WasmModuleView,
    m: parity_wasm::elements::Module,
    r: Result<Vec<u8>, CompileError>,
) -> bool {
    &&& held_by(m) == emitted(module)
    &&& match written_of(m) {
        Some(bytes) => r is Ok && r->Ok_0@ == bytes,
        None => r is Err,
    }
}

/// What is returned for the module `module`: where it can be built and
/// written, what the serializer makes of a module of `parity_wasm` that
/// stands for it; otherwise an error. Every error is that the module
/// could not be written.
pub open spec fn serialized(module: WasmModuleView, r: Result<Vec<u8>, CompileError>) -> bool {
    &&& buildable(module) ==> exists|m: parity_wasm::elements::Module|
        #[trigger] writes(module, m, r)
    &&& !buildable(module) ==> r is Err
    &&& r is Err ==> r->Err_0@ == CompileErrorView::Serialize
}

/// The module of a compiled program can be built and written wherever the
/// serializer can count it: its signatures are distinct, and there are no
/// more of them, of its functions and of its table entries than 32 bits
/// count.
pub proof fn law_assembled_is_buildable(p: ProgramView, rt: Seq<BindingView>)
    requires
        assemble(p, rt) is Ok,
    ensures
        buildable(assemble(p, rt)->Ok_0) <==> writable(emitted(assemble(p, rt)->Ok_0)),
{
    let w = assemble(p, rt)->Ok_0;
    assert forall|a: int, b: int| 0 <= a < b < w.types.len() implies w.types[a] != w.types[b] by {
        law_types_distinct(p, rt, a, b);
    }
    let first = intern_types(Seq::empty(), runtime_signatures(rt));
    lemma_intern_types_len(Seq::empty(), runtime_signatures(rt));
    lemma_intern_types_len(first, function_signatures(p.functions));
    if p.functions.len() > 0 {
        law_call_table(p, rt, 0);
    }
}

/// The bytes of `module`, as `parity_wasm` builds and writes it.
pub fn serialize_module(module: &wasm::WasmModule) -> (r: Result<Vec<u8>, CompileError>)
    ensures
        serialized(module@, r),
{
    match build_module(module) {
        Err(e) => Err(e),
        Ok(built) => {
            let ghost m = built;
            let r = written(serialize(built));
            proof {
                assert(writes(module@, m, r));
            }
            r
        },
    }
}

/// Compiles `program` to the bytes of a module that is linked against
/// the runtime. Where the program has no module, the error is the one
/// that says why; where it has one, the result is what comes of writing
/// that module.
pub fn translate(program: Program) -> (r: Result<Vec<u8>, CompileError>)
    ensures
        match assemble(program@, runtime_bindings()) {
            Err(e) => r is Err && r->Err_0@ == e,
            Ok(w) => serialized(w, r),
        },
{
    match translate_parity(program) {
        Err(e) => Err(e),
        Ok(module) => serialize_module(&module),
    }
}

} // verus!
