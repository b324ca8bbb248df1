//! Translates NotWasm to WebAssembly, calling the runtime wherever the
//! machine has no instruction for the work.
//!
//! The translation is specified as a function from the view of a program to
//! the view of a module. The executable translation is proved to compute it.

use super::env::{break_distance, local_index, Env, EnvView, IdIndex, IdIndexView};
use super::error::{CompileError, CompileErrorView};
use super::lookup::{first_index, lemma_first_index, lemma_first_index_is};
use super::rt_bindings::{rt_names, Binding};
use super::syntax::{
    ids_view, Atom, AtomView, BinaryOp, Expr, ExprView, FnType, FnTypeView, Function, Id, Label,
    LabelView, Lit, LitView, Stmt, StmtView, Type, TypeView,
};
use super::wasm::{func_types_view, FuncType, FuncTypeView, Instr, ValType};
use vstd::prelude::*;
use vstd::string::StringExecFns;

verus! {

/// The index of the global that holds the address of the interned data.
pub const JEN_STRINGS_IDX: u32 = 0;

/// What a function's translation is linked against: the names of the
/// imported runtime functions, by function index, and the signatures of
/// the type section, by type index.
pub ghost struct Linkage {
    pub rt: Seq<Seq<char>>,
    pub types: Seq<FuncTypeView>,
}

/// What translating a statement yields: its instructions, the types of the
/// locals that it declares, and the identifiers in scope after it.
pub ghost struct Lowered {
    pub code: Seq<Instr>,
    pub locals: Seq<ValType>,
    pub ids: Map<Seq<char>, IdIndexView>,
}

/// The machine type that holds a value of type `t`: every type but `F64`
/// is held as a 32-bit integer or as a 32-bit address.
pub open spec fn wasm_type(t: TypeView) -> ValType {
    match t {
        TypeView::F64 => ValType::F64,
        _ => ValType::I32,
    }
}

/// The machine types of `ts`, in order.
pub open spec fn wasm_types(ts: Seq<TypeView>) -> Seq<ValType> {
    Seq::new(ts.len(), |i: int| wasm_type(ts[i]))
}

/// The machine type of an optional result.
pub open spec fn wasm_result(t: Option<Box<TypeView>>) -> Option<ValType> {
    match t {
        Some(t) => Some(wasm_type(*t)),
        None => None,
    }
}

/// The signature, in machine types, of a function of type `ft`.
pub open spec fn signature(ft: FnTypeView) -> FuncTypeView {
    FuncTypeView { params: wasm_types(ft.args), ret: wasm_result(ft.result) }
}

/// The tag by which the runtime's functions are named after the type that
/// they are specialized to.
pub open spec fn type_tag(t: TypeView) -> Seq<char> {
    match t {
        TypeView::I32 => "i32"@,
        TypeView::F64 => "f64"@,
        TypeView::String => "str"@,
        TypeView::Bool => "bool"@,
        TypeView::Any => "any"@,
        TypeView::Array => "array"@,
        TypeView::DynObject => "dynobject"@,
        TypeView::HT => "ht"@,
        TypeView::Fn(_) => "fn"@,
    }
}

/// The name of the runtime function `name` specialized to the type `ty`:
/// the name, an underscore, and the type's tag.
pub open spec fn mono_name(name: Seq<char>, ty: TypeView) -> Seq<char> {
    name + "_"@ + type_tag(ty)
}

/// The 32-bit signed integer with the same bits as `n`.
pub open spec fn i32_bits(n: u32) -> i32 {
    if n <= i32::MAX {
        n as i32
    } else {
        (n - 0x1_0000_0000) as i32
    }
}

/// The instruction that computes `op`.
pub open spec fn binop_instr(op: BinaryOp) -> Instr {
    match op {
        BinaryOp::I32Eq => Instr::I32Eq,
        BinaryOp::I32Add => Instr::I32Add,
        BinaryOp::I32Sub => Instr::I32Sub,
        BinaryOp::I32GT => Instr::I32GtS,
        BinaryOp::I32Ge => Instr::I32GeS,
        BinaryOp::I32Le => Instr::I32LeS,
        BinaryOp::I32Mul => Instr::I32Mul,
        BinaryOp::I32And => Instr::I32And,
        BinaryOp::I32Or => Instr::I32Or,
    }
}

/// What comes of doing `a` and then `b`: the first failure, or else the
/// instructions of both.
pub open spec fn then(
    a: Result<Seq<Instr>, CompileErrorView>,
    b: Result<Seq<Instr>, CompileErrorView>,
) -> Result<Seq<Instr>, CompileErrorView> {
    match a {
        Err(e) => Err(e),
        Ok(x) => match b {
            Err(e) => Err(e),
            Ok(y) => Ok(x + y),
        },
    }
}

/// A call of the runtime function `name`: its function index is its
/// position among the imports. A name that the runtime lacks is an error.
pub open spec fn rt_call(cx: Linkage, name: Seq<char>) -> Result<Seq<Instr>, CompileErrorView> {
    match first_index(cx.rt, name) {
        None => Err(CompileErrorView::MissingRuntime(name)),
        Some(i) => if i <= u32::MAX {
            Ok(seq![Instr::Call(i as u32)])
        } else {
            Err(CompileErrorView::TooManyFunctions)
        },
    }
}

/// The instructions that leave the value of the atom `a` on the stack.
pub open spec fn lower_atom(cx: Linkage, ids: Map<Seq<char>, IdIndexView>, a: AtomView) -> Result<
    Seq<Instr>,
    CompileErrorView,
>
    decreases a,
{
    match a {
        AtomView::Lit(LitView::I32(i)) => Ok(seq![Instr::I32Const(i)]),
        AtomView::Lit(LitView::Bool(b)) => Ok(seq![Instr::I32Const(if b { 1i32 } else { 0i32 })]),
        AtomView::Lit(LitView::Interned(addr)) => Ok(
            seq![Instr::GetGlobal(JEN_STRINGS_IDX), Instr::I32Const(i32_bits(addr)), Instr::I32Add],
        ),
        AtomView::Lit(LitView::String(_)) => Err(CompileErrorView::UninternedString),
        AtomView::Id(x) => if !ids.contains_key(x) {
            Err(CompileErrorView::UnboundIdentifier(x))
        } else {
            match ids[x] {
                IdIndexView::Local(n, _) => Ok(seq![Instr::GetLocal(n)]),
                IdIndexView::Fun(n) => Ok(seq![Instr::I32Const(i32_bits(n))]),
            }
        },
        AtomView::HTGet(ht, field, ty) => then(
            then(lower_atom(cx, ids, *ht), lower_atom(cx, ids, *field)),
            rt_call(cx, mono_name("ht_get"@, ty)),
        ),
        AtomView::Index(arr, index, ty) => then(
            then(lower_atom(cx, ids, *arr), lower_atom(cx, ids, *index)),
            rt_call(cx, mono_name("array_index"@, ty)),
        ),
        AtomView::StringLen(s) => then(lower_atom(cx, ids, *s), rt_call(cx, "string_len"@)),
        AtomView::Binary(op, l, r) => then(
            then(lower_atom(cx, ids, *l), lower_atom(cx, ids, *r)),
            Ok(seq![binop_instr(op)]),
        ),
    }
}

/// The instructions that push the locals named by `args`, in order.
pub open spec fn lower_args(ids: Map<Seq<char>, IdIndexView>, args: Seq<Seq<char>>) -> Result<
    Seq<Instr>,
    CompileErrorView,
>
    decreases args.len(),
{
    if args.len() == 0 {
        Ok(Seq::empty())
    } else {
        then(
            lower_args(ids, args.drop_last()),
            match local_index(ids, args.last()) {
                Ok(n) => Ok(seq![Instr::GetLocal(n)]),
                Err(e) => Err(e),
            },
        )
    }
}

/// A call of the program's function at position `i`: its function index
/// follows those of the imported runtime functions.
pub open spec fn call_function(cx: Linkage, i: u32) -> Result<Seq<Instr>, CompileErrorView> {
    if cx.rt.len() + i <= u32::MAX {
        Ok(seq![Instr::Call((cx.rt.len() + i) as u32)])
    } else {
        Err(CompileErrorView::TooManyFunctions)
    }
}

/// A call through the table of the function value held in the local in
/// `slot`, checked by the machine against the signature of `ft`.
pub open spec fn call_through_table(cx: Linkage, slot: u32, ft: FnTypeView) -> Result<
    Seq<Instr>,
    CompileErrorView,
> {
    match first_index(cx.types, signature(ft)) {
        None => Err(CompileErrorView::UnknownFunctionType),
        Some(t) => if t <= u32::MAX {
            Ok(seq![Instr::GetLocal(slot), Instr::CallIndirect(t as u32)])
        } else {
            Err(CompileErrorView::TooManyFunctions)
        },
    }
}

/// The instructions that evaluate the expression `e` and leave its value,
/// if it has one, on the stack.
pub open spec fn lower_expr(cx: Linkage, ids: Map<Seq<char>, IdIndexView>, e: ExprView) -> Result<
    Seq<Instr>,
    CompileErrorView,
> {
    match e {
        ExprView::Atom(a) => lower_atom(cx, ids, a),
        ExprView::HT(ty) => rt_call(cx, mono_name("ht_new"@, ty)),
        ExprView::Array(ty) => rt_call(cx, mono_name("array_new"@, ty)),
        ExprView::HTSet(ht, field, val, ty) => then(
            then(then(lower_atom(cx, ids, ht), lower_atom(cx, ids, field)), lower_atom(cx, ids, val)),
            rt_call(cx, mono_name("ht_set"@, ty)),
        ),
        ExprView::Push(arr, val, ty) => then(
            then(lower_atom(cx, ids, arr), lower_atom(cx, ids, val)),
            rt_call(cx, mono_name("array_push"@, ty)),
        ),
        ExprView::CallDirect(f, args) => then(
            lower_args(ids, args),
            if !ids.contains_key(f) {
                Err(CompileErrorView::UnboundIdentifier(f))
            } else {
                match ids[f] {
                    IdIndexView::Fun(i) => call_function(cx, i),
                    IdIndexView::Local(_, _) => Err(CompileErrorView::NotAFunction(f)),
                }
            },
        ),
        ExprView::CallIndirect(f, ft, args) => then(
            lower_args(ids, args),
            if !ids.contains_key(f) {
                Err(CompileErrorView::UnboundIdentifier(f))
            } else {
                match ids[f] {
                    IdIndexView::Fun(i) => call_function(cx, i),
                    IdIndexView::Local(slot, _) => call_through_table(cx, slot, ft),
                }
            },
        ),
        ExprView::ToString(a) => then(lower_atom(cx, ids, a), rt_call(cx, "string_from_str"@)),
    }
}

/// The environment of a nested scope: one more block is open, under the
/// given marker, and the same identifiers are in scope.
pub open spec fn nested(env: EnvView, marker: Option<Seq<char>>) -> EnvView {
    EnvView { labels: seq![marker] + env.labels, ids: env.ids }
}

/// The translation of the statement `s` where `next` local slots are taken.
///
/// A declared local takes the next free slot for the rest of the function,
/// also after its scope has ended, so no two locals of a function share a
/// slot. What a nested scope binds is not in scope after it.
pub open spec fn lower_stmt(cx: Linkage, env: EnvView, next: nat, s: StmtView) -> Result<
    Lowered,
    CompileErrorView,
>
    decreases s,
{
    match s {
        StmtView::Empty => Ok(Lowered { code: Seq::empty(), locals: Seq::empty(), ids: env.ids }),
        StmtView::Block(ss) => match lower_block(cx, env, next, ss) {
            Err(e) => Err(e),
            Ok(b) => Ok(Lowered { code: b.code, locals: b.locals, ids: env.ids }),
        },
        StmtView::Var(x, e, ty) => match lower_expr(cx, env.ids, e) {
            Err(e) => Err(e),
            Ok(code) => if next >= u32::MAX {
                Err(CompileErrorView::TooManyLocals)
            } else {
                Ok(
                    Lowered {
                        code: code + seq![Instr::SetLocal(next as u32)],
                        locals: seq![wasm_type(ty)],
                        ids: env.ids.insert(x, IdIndexView::Local(next as u32, ty)),
                    },
                )
            },
        },
        StmtView::Assign(x, e) => match lower_expr(cx, env.ids, e) {
            Err(e) => Err(e),
            Ok(code) => match local_index(env.ids, x) {
                Err(e) => Err(e),
                Ok(n) => Ok(
                    Lowered {
                        code: code + seq![Instr::SetLocal(n)],
                        locals: Seq::empty(),
                        ids: env.ids,
                    },
                ),
            },
        },
        StmtView::If(c, t, e) => match lower_atom(cx, env.ids, c) {
            Err(e) => Err(e),
            Ok(cond) => match lower_stmt(cx, nested(env, None), next, *t) {
                Err(e) => Err(e),
                Ok(a) => match lower_stmt(cx, nested(env, None), next + a.locals.len(), *e) {
                    Err(e) => Err(e),
                    Ok(b) => Ok(
                        Lowered {
                            code: cond + seq![Instr::If] + a.code + seq![Instr::Else] + b.code
                                + seq![Instr::End],
                            locals: a.locals + b.locals,
                            ids: env.ids,
                        },
                    ),
                },
            },
        },
        StmtView::Loop(body) => match lower_stmt(cx, nested(env, None), next, *body) {
            Err(e) => Err(e),
            Ok(b) => Ok(
                Lowered {
                    code: seq![Instr::Loop] + b.code + seq![Instr::Br(0), Instr::End],
                    locals: b.locals,
                    ids: env.ids,
                },
            ),
        },
        StmtView::Label(l, body) => match l {
            LabelView::App(_) => Err(CompileErrorView::JumpTarget),
            LabelView::Named(name) => match lower_stmt(cx, nested(env, Some(name)), next, *body) {
                Err(e) => Err(e),
                Ok(b) => Ok(
                    Lowered {
                        code: seq![Instr::Block] + b.code + seq![Instr::End],
                        locals: b.locals,
                        ids: env.ids,
                    },
                ),
            },
        },
        StmtView::Break(l) => match l {
            LabelView::App(n) => Err(CompileErrorView::UnboundLabel(l)),
            LabelView::Named(name) => match break_distance(env.labels, name) {
                Err(e) => Err(e),
                Ok(n) => Ok(
                    Lowered { code: seq![Instr::Br(n)], locals: Seq::empty(), ids: env.ids },
                ),
            },
        },
        StmtView::Return(a) => match lower_atom(cx, env.ids, a) {
            Err(e) => Err(e),
            Ok(code) => Ok(
                Lowered { code: code + seq![Instr::Return], locals: Seq::empty(), ids: env.ids },
            ),
        },
        StmtView::Trap => Ok(
            Lowered { code: seq![Instr::Unreachable], locals: Seq::empty(), ids: env.ids },
        ),
        StmtView::Goto(_) => Err(CompileErrorView::Goto),
    }
}

/// The translation of the statements `ss` one after the other, each in the
/// scope that the ones before it have left.
pub open spec fn lower_block(cx: Linkage, env: EnvView, next: nat, ss: Seq<StmtView>) -> Result<
    Lowered,
    CompileErrorView,
>
    decreases ss,
{
    if ss.len() == 0 {
        Ok(Lowered { code: Seq::empty(), locals: Seq::empty(), ids: env.ids })
    } else {
        match lower_block(cx, env, next, ss.drop_last()) {
            Err(e) => Err(e),
            Ok(a) => match lower_stmt(
                cx,
                EnvView { labels: env.labels, ids: a.ids },
                next + a.locals.len(),
                ss.last(),
            ) {
                Err(e) => Err(e),
                Ok(b) => Ok(
                    Lowered { code: a.code + b.code, locals: a.locals + b.locals, ids: b.ids },
                ),
            },
        }
    }
}

impl Type {
    /// The machine type that holds a value of this type.
    pub fn as_wasm(&self) -> (r: ValType)
        ensures
            r == wasm_type(self@),
    {
        match self {
            Type::F64 => ValType::F64,
            _ => ValType::I32,
        }
    }

    /// The tag of this type in the names of the runtime's functions.
    pub fn tag(&self) -> (r: &'static str)
        ensures
            r@ == type_tag(self@),
    {
        match self {
            Type::I32 => "i32",
            Type::F64 => "f64",
            Type::String => "str",
            Type::Bool => "bool",
            Type::Any => "any",
            Type::Array => "array",
            Type::DynObject => "dynobject",
            Type::HT => "ht",
            Type::Fn(_) => "fn",
        }
    }
}

/// The machine types of `types`, in order.
pub fn types_as_wasm(types: &Vec<Type>) -> (r: Vec<ValType>)
    ensures
        r@ == wasm_types(super::syntax::types_view(types@)),
{
    let mut out: Vec<ValType> = Vec::new();
    let mut i: usize = 0;
    while i < types.len()
        invariant
            i <= types.len(),
            out.len() == i,
            forall|j: int| 0 <= j < i ==> out@[j] == wasm_type(types@[j]@),
        decreases types.len() - i,
    {
        out.push(types[i].as_wasm());
        i += 1;
    }
    assert(out@ =~= wasm_types(super::syntax::types_view(types@)));
    out
}

/// The machine type of an optional result.
pub fn option_as_wasm(ty: &Option<Box<Type>>) -> (r: Option<ValType>)
    ensures
        r == match *ty {
            Some(t) => Some(wasm_type(t@)),
            None => None,
        },
{
    match ty {
        Some(t) => Some(t.as_wasm()),
        None => None,
    }
}

/// The signature, in machine types, of a function of type `ft`.
pub fn signature_of(ft: &FnType) -> (r: FuncType)
    ensures
        r@ == signature(ft@),
{
    let r = FuncType { params: types_as_wasm(&ft.args), ret: option_as_wasm(&ft.result) };
    assert(r@.params =~= signature(ft@).params);
    r
}

/// The 32-bit signed integer with the same bits as `n`.
pub fn to_i32_bits(n: u32) -> (r: i32)
    ensures
        r == i32_bits(n),
{
    if n <= 0x7fff_ffff {
        n as i32
    } else {
        ((n - 0x8000_0000) as i32) + i32::MIN
    }
}

/// The translation of one function, as far as it has come: the
/// instructions written so far, the types of the locals declared so far,
/// and the next free local slot. Slots and locals last for the whole
/// function; scopes are the business of the environment.
pub struct Translate<'a> {
    pub out: Vec<Instr>,
    pub rt_indexes: &'a Vec<Binding>,
    pub type_indexes: &'a Vec<FuncType>,
    pub locals: Vec<ValType>,
    pub next_id: u32,
}

impl<'a> Translate<'a> {
    /// What this translation is linked against.
    pub open spec fn linkage(self) -> Linkage {
        Linkage { rt: rt_names(self.rt_indexes@), types: func_types_view(self.type_indexes@) }
    }

    /// Whether this translation is `before` with the instructions `code`
    /// written after the others and the locals `locals` declared after
    /// the others, each in the next free slot.
    pub open spec fn extends(self, before: Self, code: Seq<Instr>, locals: Seq<ValType>) -> bool {
        &&& self.out@ =~= before.out@ + code
        &&& self.locals@ =~= before.locals@ + locals
        &&& self.next_id == before.next_id + locals.len()
        &&& self.rt_indexes == before.rt_indexes
        &&& self.type_indexes == before.type_indexes
    }

    /// Whether this translation is linked against what `before` is
    /// linked against.
    pub open spec fn same_links(self, before: Self) -> bool {
        self.rt_indexes == before.rt_indexes && self.type_indexes == before.type_indexes
    }

    /// Whether this translation has the locals and the links of `before`:
    /// it differs at most in the instructions written.
    pub open spec fn same_slots(self, before: Self) -> bool {
        &&& self.same_links(before)
        &&& self.locals@ == before.locals@
        &&& self.next_id == before.next_id
    }

    /// Whether this translation is as `before` was: it holds the same
    /// instructions and the same locals, has the same next slot, and is
    /// linked against the same.
    pub open spec fn same_as(self, before: Self) -> bool {
        &&& self.out@ =~= before.out@
        &&& self.same_slots(before)
    }

    /// Whether this translation has grown from `before`: what `before`
    /// held of instructions and locals, it holds first.
    pub open spec fn grown_from(self, before: Self) -> bool {
        &&& before.out@.len() <= self.out@.len()
        &&& self.out@.take(before.out@.len() as int) =~= before.out@
        &&& before.locals@.len() <= self.locals@.len()
        &&& self.locals@.take(before.locals@.len() as int) =~= before.locals@
        &&& self.same_links(before)
    }

    /// Takes back what has been written and declared since the translation
    /// held `out` instructions and `locals` locals and had `next_id` as
    /// its next slot, and hands the error on: a translation that fails
    /// leaves nothing behind.
    fn undo(&mut self, out: usize, locals: usize, next_id: u32, e: CompileError) -> (r: Result<
        (),
        CompileError,
    >)
        requires
            out <= old(self).out@.len(),
            locals <= old(self).locals@.len(),
        ensures
            r == Err::<(), CompileError>(e),
            final(self).out@ == old(self).out@.take(out as int),
            final(self).locals@ == old(self).locals@.take(locals as int),
            final(self).next_id == next_id,
            final(self).same_links(*old(self)),
    {
        self.out.truncate(out);
        self.locals.truncate(locals);
        self.next_id = next_id;
        Err(e)
    }

    /// A translation that has written nothing yet, with no slot taken.
    pub fn new(rt_indexes: &'a Vec<Binding>, type_indexes: &'a Vec<FuncType>) -> (r: Self)
        ensures
            r.out@.len() == 0,
            r.locals@.len() == 0,
            r.next_id == 0,
            r.rt_indexes == rt_indexes,
            r.type_indexes == type_indexes,
    {
        Translate { out: Vec::new(), rt_indexes, type_indexes, next_id: 0, locals: Vec::new() }
    }

    /// Writes a call of the runtime function `name`.
    pub fn rt_call(&mut self, name: &str) -> (r: Result<(), CompileError>)
        ensures
            match rt_call(old(self).linkage(), name@) {
                Ok(code) => r is Ok && final(self).extends(*old(self), code, Seq::empty()),
                Err(e) => r is Err && r->Err_0@ == e && *final(self) == *old(self),
            },
    {
        let wanted = String::from_str(name);
        let ghost names = rt_names(self.rt_indexes@);
        let mut i: usize = 0;
        while i < self.rt_indexes.len()
            invariant
                i <= self.rt_indexes.len(),
                wanted@ == name@,
                names == rt_names(self.rt_indexes@),
                forall|j: int| 0 <= j < i ==> names[j] != name@,
                *self == *old(self),
            decreases self.rt_indexes.len() - i,
        {
            if self.rt_indexes[i].name == wanted {
                proof {
                    lemma_first_index_is(names, name@, i as nat);
                }
                if i <= u32::MAX as usize {
                    self.out.push(Instr::Call(i as u32));
                    return Ok(());
                } else {
                    return Err(CompileError::TooManyFunctions);
                }
            }
            i += 1;
        }
        proof {
            lemma_first_index(names, name@);
        }
        Err(CompileError::MissingRuntime(wanted))
    }

    /// Writes a call of the runtime function `name` specialized to `ty`.
    pub fn rt_call_mono(&mut self, name: &str, ty: &Type) -> (r: Result<(), CompileError>)
        ensures
            match rt_call(old(self).linkage(), mono_name(name@, ty@)) {
                Ok(code) => r is Ok && final(self).extends(*old(self), code, Seq::empty()),
                Err(e) => r is Err && r->Err_0@ == e && *final(self) == *old(self),
            },
    {
        let full = String::from_str(name).concat("_").concat(ty.tag());
        self.rt_call(full.as_str())
    }

    /// Writes the instruction that computes `op`.
    pub fn translate_binop(&mut self, op: &BinaryOp)
        ensures
            final(self).extends(*old(self), seq![binop_instr(*op)], Seq::empty()),
    {
        match op {
            BinaryOp::I32Eq => self.out.push(Instr::I32Eq),
            BinaryOp::I32Add => self.out.push(Instr::I32Add),
            BinaryOp::I32Sub => self.out.push(Instr::I32Sub),
            BinaryOp::I32GT => self.out.push(Instr::I32GtS),
            BinaryOp::I32Ge => self.out.push(Instr::I32GeS),
            BinaryOp::I32Le => self.out.push(Instr::I32LeS),
            BinaryOp::I32Mul => self.out.push(Instr::I32Mul),
            BinaryOp::I32And => self.out.push(Instr::I32And),
            BinaryOp::I32Or => self.out.push(Instr::I32Or),
        }
    }

    /// Writes the instructions that leave the value of `atom` on the stack.
    /// Where it fails it writes nothing.
    pub fn translate_atom(&mut self, env: &Env, atom: &Atom) -> (r: Result<(), CompileError>)
        ensures
            match lower_atom(old(self).linkage(), env@.ids, atom@) {
                Ok(code) => r is Ok && final(self).extends(*old(self), code, Seq::empty()),
                Err(e) => r is Err && r->Err_0@ == e && final(self).same_as(*old(self)),
            },
        decreases atom, 1nat,
    {
        let out = self.out.len();
        match self.atom_steps(env, atom) {
            Ok(()) => Ok(()),
            Err(e) => self.undo(out, self.locals.len(), self.next_id, e),
        }
    }

    /// Writes the instructions of `atom` one part after the other, up to
    /// the first that fails.
    fn atom_steps(&mut self, env: &Env, atom: &Atom) -> (r: Result<(), CompileError>)
        ensures
            match lower_atom(old(self).linkage(), env@.ids, atom@) {
                Ok(code) => r is Ok && final(self).extends(*old(self), code, Seq::empty()),
                Err(e) => {
                    &&& r is Err
                    &&& r->Err_0@ == e
                    &&& final(self).grown_from(*old(self))
                    &&& final(self).same_slots(*old(self))
                },
            },
        decreases atom, 0nat,
    {
        match atom {
            Atom::Lit(lit) => match lit {
                Lit::I32(i) => {
                    self.out.push(Instr::I32Const(*i));
                    Ok(())
                },
                Lit::Interned(addr) => {
                    self.out.push(Instr::GetGlobal(JEN_STRINGS_IDX));
                    self.out.push(Instr::I32Const(to_i32_bits(*addr)));
                    self.out.push(Instr::I32Add);
                    Ok(())
                },
                Lit::String(_) => Err(CompileError::UninternedString),
                Lit::Bool(b) => {
                    self.out.push(Instr::I32Const(if *b { 1 } else { 0 }));
                    Ok(())
                },
            },
            Atom::Id(id) => match env.resolve(id) {
                Err(e) => Err(e),
                Ok(IdIndex::Local(n, _)) => {
                    self.out.push(Instr::GetLocal(n));
                    Ok(())
                },
                Ok(IdIndex::Fun(n)) => {
                    self.out.push(Instr::I32Const(to_i32_bits(n)));
                    Ok(())
                },
            },
            Atom::HTGet(ht, field, ty) => {
                self.translate_atom(env, ht)?;
                self.translate_atom(env, field)?;
                self.rt_call_mono("ht_get", ty)
            },
            Atom::Index(arr, index, ty) => {
                self.translate_atom(env, arr)?;
                self.translate_atom(env, index)?;
                self.rt_call_mono("array_index", ty)
            },
            Atom::StringLen(string) => {
                self.translate_atom(env, string)?;
                self.rt_call("string_len")
            },
            Atom::Binary(op, a, b) => {
                self.translate_atom(env, a)?;
                self.translate_atom(env, b)?;
                self.translate_binop(op);
                Ok(())
            },
        }
    }
}

/// A failure among the first `k` arguments is the failure of them all.
pub proof fn lemma_args_prefix_fails(
    ids: Map<Seq<char>, IdIndexView>,
    args: Seq<Seq<char>>,
    k: int,
)
    requires
        0 <= k <= args.len(),
        lower_args(ids, args.take(k)) is Err,
    ensures
        lower_args(ids, args) == lower_args(ids, args.take(k)),
    decreases args.len(),
{
    if k == args.len() {
        assert(args.take(k) =~= args);
    } else {
        assert(args.drop_last().take(k) =~= args.take(k));
        lemma_args_prefix_fails(ids, args.drop_last(), k);
    }
}

impl<'a> Translate<'a> {
    /// Writes the instructions that push the locals named by `args`.
    /// Where one of them is no local it writes nothing.
    pub fn translate_args(&mut self, env: &Env, args: &Vec<Id>) -> (r: Result<(), CompileError>)
        ensures
            match lower_args(env@.ids, ids_view(args@)) {
                Ok(code) => r is Ok && final(self).extends(*old(self), code, Seq::empty()),
                Err(e) => r is Err && r->Err_0@ == e && final(self).same_as(*old(self)),
            },
    {
        let out = self.out.len();
        let ghost names = ids_view(args@);
        let ghost mut code: Seq<Instr> = Seq::empty();
        let mut i: usize = 0;
        proof {
            assert(names.take(0) =~= Seq::empty());
        }
        while i < args.len()
            invariant
                i <= args.len(),
                names == ids_view(args@),
                lower_args(env@.ids, names.take(i as int)) == Ok::<Seq<Instr>, CompileErrorView>(
                    code,
                ),
                self.extends(*old(self), code, Seq::empty()),
                out == old(self).out@.len(),
            decreases args.len() - i,
        {
            proof {
                assert(names.take(i + 1).drop_last() =~= names.take(i as int));
                assert(names.take(i + 1).last() == args@[i as int]@);
            }
            match env.index_of_id(&args[i]) {
                Ok(n) => {
                    self.out.push(Instr::GetLocal(n));
                    proof {
                        code = code + seq![Instr::GetLocal(n)];
                    }
                },
                Err(e) => {
                    proof {
                        lemma_args_prefix_fails(env@.ids, names, i + 1);
                    }
                    let ghost before = *self;
                    let r = self.undo(out, self.locals.len(), self.next_id, e);
                    proof {
                        assert(before.out@ =~= old(self).out@ + code);
                        assert(self.out@ =~= old(self).out@);
                        assert(self.locals@ =~= old(self).locals@);
                    }
                    return r;
                },
            }
            i += 1;
        }
        proof {
            assert(names.take(i as int) =~= names);
        }
        Ok(())
    }

    /// Writes a call of the program's function at position `i`.
    pub fn call_function(&mut self, i: u32) -> (r: Result<(), CompileError>)
        ensures
            match call_function(old(self).linkage(), i) {
                Ok(code) => r is Ok && final(self).extends(*old(self), code, Seq::empty()),
                Err(e) => r is Err && r->Err_0@ == e && *final(self) == *old(self),
            },
    {
        let imports = self.rt_indexes.len();
        if imports <= u32::MAX as usize && i <= u32::MAX - imports as u32 {
            // Function indices count the runtime's functions first.
            self.out.push(Instr::Call(imports as u32 + i));
            Ok(())
        } else {
            Err(CompileError::TooManyFunctions)
        }
    }

    /// Writes a call, through the table, of the function value held in the
    /// local in `slot`, to be checked against the signature of `ft`.
    pub fn call_through_table(&mut self, slot: u32, ft: &FnType) -> (r: Result<(), CompileError>)
        ensures
            match call_through_table(old(self).linkage(), slot, ft@) {
                Ok(code) => r is Ok && final(self).extends(*old(self), code, Seq::empty()),
                Err(e) => r is Err && r->Err_0@ == e && *final(self) == *old(self),
            },
    {
        let wanted = signature_of(ft);
        let ghost types = func_types_view(self.type_indexes@);
        let mut i: usize = 0;
        while i < self.type_indexes.len()
            invariant
                i <= self.type_indexes.len(),
                wanted@ == signature(ft@),
                types == func_types_view(self.type_indexes@),
                forall|j: int| 0 <= j < i ==> types[j] != wanted@,
                *self == *old(self),
            decreases self.type_indexes.len() - i,
        {
            if self.type_indexes[i].same(&wanted) {
                proof {
                    lemma_first_index_is(types, wanted@, i as nat);
                }
                if i <= u32::MAX as usize {
                    self.out.push(Instr::GetLocal(slot));
                    self.out.push(Instr::CallIndirect(i as u32));
                    return Ok(());
                } else {
                    return Err(CompileError::TooManyFunctions);
                }
            }
            i += 1;
        }
        proof {
            lemma_first_index(types, wanted@);
        }
        Err(CompileError::UnknownFunctionType)
    }

    /// Writes the instructions that evaluate `expr`. Where it fails it
    /// writes nothing: no load of an argument and no call.
    pub fn translate_expr(&mut self, env: &Env, expr: &Expr) -> (r: Result<(), CompileError>)
        ensures
            match lower_expr(old(self).linkage(), env@.ids, expr@) {
                Ok(code) => r is Ok && final(self).extends(*old(self), code, Seq::empty()),
                Err(e) => r is Err && r->Err_0@ == e && final(self).same_as(*old(self)),
            },
    {
        let out = self.out.len();
        match self.expr_steps(env, expr) {
            Ok(()) => Ok(()),
            Err(e) => self.undo(out, self.locals.len(), self.next_id, e),
        }
    }

    /// Writes the instructions of `expr` one part after the other, up to
    /// the first that fails.
    fn expr_steps(&mut self, env: &Env, expr: &Expr) -> (r: Result<(), CompileError>)
        ensures
            match lower_expr(old(self).linkage(), env@.ids, expr@) {
                Ok(code) => r is Ok && final(self).extends(*old(self), code, Seq::empty()),
                Err(e) => {
                    &&& r is Err
                    &&& r->Err_0@ == e
                    &&& final(self).grown_from(*old(self))
                    &&& final(self).same_slots(*old(self))
                },
            },
    {
        match expr {
            Expr::Atom(atom) => self.translate_atom(env, atom),
            Expr::HT(ty) => self.rt_call_mono("ht_new", ty),
            Expr::Array(ty) => self.rt_call_mono("array_new", ty),
            Expr::HTSet(ht, field, val, ty) => {
                self.translate_atom(env, ht)?;
                self.translate_atom(env, field)?;
                self.translate_atom(env, val)?;
                self.rt_call_mono("ht_set", ty)
            },
            Expr::Push(array, val, ty) => {
                self.translate_atom(env, array)?;
                self.translate_atom(env, val)?;
                self.rt_call_mono("array_push", ty)
            },
            Expr::CallDirect(f, args) => {
                self.translate_args(env, args)?;
                match env.resolve(f) {
                    Err(e) => Err(e),
                    Ok(IdIndex::Fun(i)) => self.call_function(i),
                    Ok(IdIndex::Local(_, _)) => Err(
                        CompileError::NotAFunction(String::from_str(f.name())),
                    ),
                }
            },
            Expr::CallIndirect(f, f_typ, args) => {
                self.translate_args(env, args)?;
                match env.resolve(f) {
                    Err(e) => Err(e),
                    Ok(IdIndex::Fun(i)) => self.call_function(i),
                    Ok(IdIndex::Local(slot, _)) => self.call_through_table(slot, f_typ),
                }
            },
            Expr::ToString(a) => {
                self.translate_atom(env, a)?;
                self.rt_call("string_from_str")
            },
        }
    }
}

/// A failure among the first `k` statements of a block is the failure of
/// the whole block.
pub proof fn lemma_block_prefix_fails(
    cx: Linkage,
    env: EnvView,
    next: nat,
    ss: Seq<StmtView>,
    k: int,
)
    requires
        0 <= k <= ss.len(),
        lower_block(cx, env, next, ss.take(k)) is Err,
    ensures
        lower_block(cx, env, next, ss) == lower_block(cx, env, next, ss.take(k)),
    decreases ss.len(),
{
    if k == ss.len() {
        assert(ss.take(k) =~= ss);
    } else {
        assert(ss.drop_last().take(k) =~= ss.take(k));
        lemma_block_prefix_fails(cx, env, next, ss.drop_last(), k);
    }
}

impl<'a> Translate<'a> {
    /// Writes the instructions of `stmt`, declares its locals, and leaves
    /// in `env` the identifiers that are in scope after it. Where it fails
    /// it leaves nothing behind: no instruction, no local, no slot taken,
    /// and the environment as it was.
    pub fn translate_rec(&mut self, env: &mut Env, stmt: &Stmt) -> (r: Result<(), CompileError>)
        ensures
            match lower_stmt(old(self).linkage(), old(env)@, old(self).next_id as nat, stmt@) {
                Ok(l) => {
                    &&& r is Ok
                    &&& final(self).extends(*old(self), l.code, l.locals)
                    &&& final(env)@.ids == l.ids
                    &&& final(env)@.labels == old(env)@.labels
                },
                Err(e) => {
                    &&& r is Err
                    &&& r->Err_0@ == e
                    &&& final(env)@ == old(env)@
                    &&& final(self).same_as(*old(self))
                },
            },
        decreases stmt, 2nat,
    {
        let out = self.out.len();
        let locals = self.locals.len();
        let next_id = self.next_id;
        match self.stmt_steps(env, stmt) {
            Ok(()) => Ok(()),
            Err(e) => self.undo(out, locals, next_id, e),
        }
    }

    /// Writes the instructions of `stmt` one part after the other, up to
    /// the first that fails.
    fn stmt_steps(&mut self, env: &mut Env, stmt: &Stmt) -> (r: Result<(), CompileError>)
        ensures
            match lower_stmt(old(self).linkage(), old(env)@, old(self).next_id as nat, stmt@) {
                Ok(l) => {
                    &&& r is Ok
                    &&& final(self).extends(*old(self), l.code, l.locals)
                    &&& final(env)@.ids == l.ids
                    &&& final(env)@.labels == old(env)@.labels
                },
                Err(e) => {
                    &&& r is Err
                    &&& r->Err_0@ == e
                    &&& final(env)@ == old(env)@
                    &&& final(self).grown_from(*old(self))
                },
            },
        decreases stmt, 1nat,
    {
        match stmt {
            Stmt::Empty => Ok(()),
            Stmt::Block(_) => self.translate_block(env, stmt),
            Stmt::Var(id, expr, typ) => {
                // The name is bound after its initializer is translated, so
                // the initializer cannot refer to it.
                self.translate_expr(env, expr)?;
                if self.next_id == u32::MAX {
                    return Err(CompileError::TooManyLocals);
                }
                let index = self.next_id;
                self.next_id += 1;
                self.locals.push(typ.as_wasm());
                *env = env.bind(id, index, typ);
                self.out.push(Instr::SetLocal(index));
                Ok(())
            },
            Stmt::Assign(id, expr) => {
                self.translate_expr(env, expr)?;
                let index = env.index_of_id(id)?;
                self.out.push(Instr::SetLocal(index));
                Ok(())
            },
            Stmt::If(_, _, _) => self.translate_if(env, stmt),
            Stmt::Loop(_) => self.translate_loop(env, stmt),
            Stmt::Label(_, _) => self.translate_label(env, stmt),
            Stmt::Break(label) => {
                match label {
                    Label::App(_) => Err(CompileError::UnboundLabel(label.clone())),
                    Label::Named(name) => {
                        let i = env.break_index(name.as_str())?;
                        self.out.push(Instr::Br(i));
                        Ok(())
                    },
                }
            },
            Stmt::Return(atom) => {
                self.translate_atom(env, atom)?;
                self.out.push(Instr::Return);
                Ok(())
            },
            Stmt::Trap => {
                self.out.push(Instr::Unreachable);
                Ok(())
            },
            Stmt::Goto(_) => Err(CompileError::Goto),
        }
    }

    /// Translates a block: its statements one after the other, in a scope
    /// of their own.
    fn translate_block(&mut self, env: &Env, stmt: &Stmt) -> (r: Result<(), CompileError>)
        requires
            stmt is Block,
        ensures
            match lower_stmt(old(self).linkage(), env@, old(self).next_id as nat, stmt@) {
                Ok(l) => r is Ok && final(self).extends(*old(self), l.code, l.locals),
                Err(e) => r is Err && r->Err_0@ == e && final(self).grown_from(*old(self)),
            },
        decreases stmt, 0nat,
    {
        let ghost cx = self.linkage();
        let ghost next = self.next_id as nat;
        let ghost views = stmt@->Block_0;
        if let Stmt::Block(ss) = stmt {
            // No machine block: those serve only where a label names them.
            // The scope is that of a copy of the environment.
            let mut inner_env = env.clone();
            let ghost mut acc = Lowered { code: Seq::empty(), locals: Seq::empty(), ids: env@.ids };
            proof {
                assert(views.take(0) =~= Seq::empty());
            }
            let mut i: usize = 0;
            while i < ss.len()
                invariant
                    i <= ss.len(),
                    stmt is Block,
                    *ss == stmt->Block_0,
                    views == stmt@->Block_0,
                    views.len() == ss.len(),
                    cx == old(self).linkage(),
                    next == old(self).next_id as nat,
                    lower_block(cx, env@, next, views.take(i as int)) == Ok::<
                        Lowered,
                        CompileErrorView,
                    >(acc),
                    self.extends(*old(self), acc.code, acc.locals),
                    inner_env@ == (EnvView { labels: env@.labels, ids: acc.ids }),
                decreases ss.len() - i,
            {
                proof {
                    broadcast use vstd::std_specs::vec::axiom_vec_index_decreases;

                    assert(decreases_to!(*stmt => stmt->Block_0[i as int]));
                    assert(views.take(i + 1).drop_last() =~= views.take(i as int));
                    assert(views.take(i + 1).last() == ss@[i as int]@);
                }
                let ghost step = lower_stmt(
                    cx,
                    inner_env@,
                    (next + acc.locals.len()) as nat,
                    ss@[i as int]@,
                );
                match self.translate_rec(&mut inner_env, &ss[i]) {
                    Ok(()) => {
                        proof {
                            let b = step->Ok_0;
                            acc = Lowered {
                                code: acc.code + b.code,
                                locals: acc.locals + b.locals,
                                ids: b.ids,
                            };
                        }
                    },
                    Err(e) => {
                        proof {
                            lemma_block_prefix_fails(cx, env@, next, views, i + 1);
                        }
                        return Err(e);
                    },
                }
                i += 1;
            }
            proof {
                assert(views.take(i as int) =~= views);
            }
        }
        Ok(())
    }

    /// Translates a conditional: the condition, then both branches, each
    /// in a scope of its own inside one more open block.
    fn translate_if(&mut self, env: &Env, stmt: &Stmt) -> (r: Result<(), CompileError>)
        requires
            stmt is If,
        ensures
            match lower_stmt(old(self).linkage(), env@, old(self).next_id as nat, stmt@) {
                Ok(l) => r is Ok && final(self).extends(*old(self), l.code, l.locals),
                Err(e) => r is Err && r->Err_0@ == e && final(self).grown_from(*old(self)),
            },
        decreases stmt, 0nat,
    {
        if let Stmt::If(cond, conseq, alt) = stmt {
            self.translate_atom(env, cond)?;
            self.out.push(Instr::If);
            let mut env1 = env.push_label(None);
            self.translate_rec(&mut env1, conseq)?;
            self.out.push(Instr::Else);
            let mut env2 = env.push_label(None);
            self.translate_rec(&mut env2, alt)?;
            self.out.push(Instr::End);
        }
        Ok(())
    }

    /// Translates a loop: its body inside a machine loop, followed by the
    /// branch that repeats it.
    fn translate_loop(&mut self, env: &Env, stmt: &Stmt) -> (r: Result<(), CompileError>)
        requires
            stmt is Loop,
        ensures
            match lower_stmt(old(self).linkage(), env@, old(self).next_id as nat, stmt@) {
                Ok(l) => r is Ok && final(self).extends(*old(self), l.code, l.locals),
                Err(e) => r is Err && r->Err_0@ == e && final(self).grown_from(*old(self)),
            },
        decreases stmt, 0nat,
    {
        if let Stmt::Loop(body) = stmt {
            // A surrounding label is what a break leaves the loop by.
            self.out.push(Instr::Loop);
            let mut env1 = env.push_label(None);
            self.translate_rec(&mut env1, body)?;
            // The machine does not repeat a loop by itself.
            self.out.push(Instr::Br(0));
            self.out.push(Instr::End);
        }
        Ok(())
    }

    /// Translates a labelled statement: the statement inside a machine
    /// block that carries the label's name.
    fn translate_label(&mut self, env: &Env, stmt: &Stmt) -> (r: Result<(), CompileError>)
        requires
            stmt is Label,
        ensures
            match lower_stmt(old(self).linkage(), env@, old(self).next_id as nat, stmt@) {
                Ok(l) => r is Ok && final(self).extends(*old(self), l.code, l.locals),
                Err(e) => r is Err && r->Err_0@ == e && final(self).grown_from(*old(self)),
            },
        decreases stmt, 0nat,
    {
        if let Stmt::Label(x, body) = stmt {
            match x {
                Label::App(_) => {
                    return Err(CompileError::JumpTarget);
                },
                Label::Named(name) => {
                    self.out.push(Instr::Block);
                    let mut env1 = env.push_label(Some(name.as_str()));
                    self.translate_rec(&mut env1, body)?;
                    self.out.push(Instr::End);
                },
            }
        }
        Ok(())
    }
}

} // verus!
