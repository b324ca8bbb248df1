//! What holds of every translation, proved from the definitions.

use super::assembler::{
    assemble, function_ids, function_names, function_signatures, intern_types, lower_function,
    lower_functions, runtime_signatures, type_index, type_section,
};
use super::env::{break_distance, EnvView, IdIndexView};
use super::error::CompileErrorView;
use super::lookup::{count, lemma_first_index, lemma_first_index_is};
use super::rt_bindings::{binding_names, BindingView};
use super::syntax::{ExprView, FunctionView, LabelView, ProgramView, StmtView};
use super::translation::{lower_args, lower_expr, lower_stmt, nested, signature, Linkage, Lowered};
use super::wasm::{FuncBodyView, FuncTypeView, Instr};
use vstd::prelude::*;

verus! {

/// The distance of a break is the number of blocks opened since its label:
/// a break to the label of the innermost block has distance 0, whatever is
/// open outside; and past a block with another label it has distance 1.
pub proof fn law_label_distance(
    cx: Linkage,
    env: EnvView,
    next: nat,
    l1: Seq<char>,
    l2: Seq<char>,
)
    requires
        l1 != l2,
    ensures
        lower_stmt(
            cx,
            env,
            next,
            StmtView::Label(LabelView::Named(l1), Box::new(StmtView::Break(LabelView::Named(l1)))),
        ) == Ok::<Lowered, CompileErrorView>(
            Lowered {
                code: seq![Instr::Block, Instr::Br(0), Instr::End],
                locals: Seq::empty(),
                ids: env.ids,
            },
        ),
        lower_stmt(
            cx,
            env,
            next,
            StmtView::Label(
                LabelView::Named(l1),
                Box::new(
                    StmtView::Label(
                        LabelView::Named(l2),
                        Box::new(StmtView::Break(LabelView::Named(l1))),
                    ),
                ),
            ),
        ) == Ok::<Lowered, CompileErrorView>(
            Lowered {
                code: seq![Instr::Block, Instr::Block, Instr::Br(1), Instr::End, Instr::End],
                locals: Seq::empty(),
                ids: env.ids,
            },
        ),
{
    let brk = StmtView::Break(LabelView::Named(l1));
    let inner = nested(env, Some(l1));
    lemma_first_index_is(inner.labels, Some(l1), 0);
    assert(lower_stmt(cx, inner, next, brk) == Ok::<Lowered, CompileErrorView>(
        Lowered { code: seq![Instr::Br(0)], locals: Seq::empty(), ids: env.ids },
    ));
    let one = lower_stmt(cx, env, next, StmtView::Label(LabelView::Named(l1), Box::new(brk)));
    assert(one is Ok);
    assert(one->Ok_0.code =~= seq![Instr::Block, Instr::Br(0), Instr::End]);

    let innermost = nested(inner, Some(l2));
    lemma_first_index_is(innermost.labels, Some(l1), 1);
    assert(lower_stmt(cx, innermost, next, brk) == Ok::<Lowered, CompileErrorView>(
        Lowered { code: seq![Instr::Br(1)], locals: Seq::empty(), ids: env.ids },
    ));
    let mid = lower_stmt(cx, inner, next, StmtView::Label(LabelView::Named(l2), Box::new(brk)));
    assert(mid is Ok);
    assert(mid->Ok_0.code =~= seq![Instr::Block, Instr::Br(1), Instr::End]);
    assert(mid->Ok_0.locals == Seq::<super::wasm::ValType>::empty());
    let two = lower_stmt(
        cx,
        env,
        next,
        StmtView::Label(
            LabelView::Named(l1),
            Box::new(StmtView::Label(LabelView::Named(l2), Box::new(brk))),
        ),
    );
    assert(two is Ok);
    assert(two->Ok_0.code =~= seq![
        Instr::Block,
        Instr::Block,
        Instr::Br(1),
        Instr::End,
        Instr::End,
    ]);
}

/// A break counts every open block between it and its label, the
/// anonymous ones too: with `k` blocks open in front of the innermost one
/// labelled `name`, none of them labelled `name`, the distance is `k`.
pub proof fn law_break_counts_blocks(
    inner: Seq<Option<Seq<char>>>,
    outer: Seq<Option<Seq<char>>>,
    name: Seq<char>,
)
    requires
        inner.len() <= u32::MAX,
        forall|j: int| 0 <= j < inner.len() ==> inner[j] != Some(name),
    ensures
        break_distance(inner + seq![Some(name)] + outer, name) == Ok::<u32, CompileErrorView>(
            inner.len() as u32,
        ),
{
    lemma_first_index_is(inner + seq![Some(name)] + outer, Some(name), inner.len());
}

/// A direct call of the program's function at position `k` calls the
/// function index `r + k`, where `r` is the number of imported runtime
/// functions.
pub proof fn law_direct_call_index(
    cx: Linkage,
    ids: Map<Seq<char>, IdIndexView>,
    f: Seq<char>,
    args: Seq<Seq<char>>,
    k: u32,
)
    requires
        ids.contains_key(f),
        ids[f] == IdIndexView::Fun(k),
        lower_args(ids, args) is Ok,
        cx.rt.len() + k <= u32::MAX,
    ensures
        lower_expr(cx, ids, ExprView::CallDirect(f, args)) == Ok::<Seq<Instr>, CompileErrorView>(
            lower_args(ids, args)->Ok_0 + seq![Instr::Call((cx.rt.len() + k) as u32)],
        ),
{
}

/// Each function of a program is translated in an environment that binds
/// its name to its position, unless a later function has the same name.
pub proof fn law_function_position(names: Seq<Seq<char>>, k: int)
    requires
        0 <= k < names.len(),
        forall|j: int| k < j < names.len() ==> names[j] != names[k],
    ensures
        function_ids(names).contains_key(names[k]),
        function_ids(names)[names[k]] == IdIndexView::Fun(k as u32),
    decreases names.len(),
{
    if k < names.len() - 1 {
        law_function_position(names.drop_last(), k);
    }
}

/// The translations of the functions of a program, one by one.
pub proof fn lemma_lower_functions(
    cx: Linkage,
    env: EnvView,
    fs: Seq<(Seq<char>, FunctionView)>,
    i: int,
)
    requires
        lower_functions(cx, env, fs) is Ok,
        0 <= i < fs.len(),
    ensures
        lower_functions(cx, env, fs)->Ok_0.len() == fs.len(),
        lower_function(cx, env, fs[i].0, fs[i].1) == Ok::<FuncBodyView, CompileErrorView>(
            lower_functions(cx, env, fs)->Ok_0[i],
        ),
    decreases fs.len(),
{
    let before = lower_functions(cx, env, fs.drop_last());
    assert(before is Ok);
    let last = lower_function(cx, env, fs.last().0, fs.last().1);
    assert(last is Ok);
    assert(lower_functions(cx, env, fs)->Ok_0 == before->Ok_0.push(last->Ok_0));
    if fs.len() > 1 {
        if i < fs.len() - 1 {
            lemma_lower_functions(cx, env, fs.drop_last(), i);
        } else {
            lemma_lower_functions(cx, env, fs.drop_last(), 0);
        }
    }
}

/// In a compiled module with `r` imported runtime functions, entry `i` of
/// the table holds the function index `r + i`, for each of the program's
/// functions, and the module defines as many functions as the program has.
pub proof fn law_call_table(p: ProgramView, rt: Seq<BindingView>, i: int)
    requires
        assemble(p, rt) is Ok,
        0 <= i < p.functions.len(),
    ensures
        assemble(p, rt)->Ok_0.table.len() == p.functions.len(),
        assemble(p, rt)->Ok_0.functions.len() == p.functions.len(),
        assemble(p, rt)->Ok_0.imports.len() == rt.len(),
        assemble(p, rt)->Ok_0.table[i] == rt.len() + i,
{
    let names = function_names(p.functions);
    let env = EnvView { labels: Seq::empty(), ids: function_ids(names) };
    let cx = Linkage { rt: binding_names(rt), types: type_section(rt, p.functions) };
    lemma_lower_functions(cx, env, p.functions, i);
}

/// Two functions of a program that have the same parameter types and the
/// same result type, as the machine sees them, get the same type index,
/// and the type section holds their signature at that index.
pub proof fn law_type_dedup(p: ProgramView, rt: Seq<BindingView>, i: int, j: int)
    requires
        assemble(p, rt) is Ok,
        0 <= i < p.functions.len(),
        0 <= j < p.functions.len(),
        signature(p.functions[i].1.fn_type) == signature(p.functions[j].1.fn_type),
    ensures
        assemble(p, rt)->Ok_0.functions[i].type_index == assemble(p, rt)->Ok_0.functions[j].type_index,
        assemble(p, rt)->Ok_0.functions[i].type_index < assemble(p, rt)->Ok_0.types.len(),
        assemble(p, rt)->Ok_0.types[assemble(p, rt)->Ok_0.functions[i].type_index as int]
            == signature(p.functions[i].1.fn_type),
{
    let names = function_names(p.functions);
    let env = EnvView { labels: Seq::empty(), ids: function_ids(names) };
    let types = type_section(rt, p.functions);
    let cx = Linkage { rt: binding_names(rt), types };
    lemma_lower_functions(cx, env, p.functions, i);
    lemma_lower_functions(cx, env, p.functions, j);
    lemma_first_index(types, signature(p.functions[i].1.fn_type));
}

/// No signature stands twice in the type section of a compiled module.
pub proof fn law_types_distinct(p: ProgramView, rt: Seq<BindingView>, a: int, b: int)
    requires
        assemble(p, rt) is Ok,
        0 <= a < b < assemble(p, rt)->Ok_0.types.len(),
    ensures
        assemble(p, rt)->Ok_0.types[a] != assemble(p, rt)->Ok_0.types[b],
{
    let first = intern_types(Seq::empty(), runtime_signatures(rt));
    lemma_intern_types_distinct(Seq::empty(), runtime_signatures(rt));
    lemma_intern_types_distinct(first, function_signatures(p.functions));
    assert(distinct(type_section(rt, p.functions)));
}

/// Whether no signature stands twice in `types`.
pub open spec fn distinct(types: Seq<FuncTypeView>) -> bool {
    forall|a: int, b: int| 0 <= a < b < types.len() ==> types[a] != types[b]
}

/// Interning keeps a type section free of duplicates.
pub proof fn lemma_intern_types_distinct(types: Seq<FuncTypeView>, ts: Seq<FuncTypeView>)
    requires
        distinct(types),
    ensures
        distinct(intern_types(types, ts)),
    decreases ts.len(),
{
    if ts.len() != 0 {
        let before = intern_types(types, ts.drop_last());
        lemma_intern_types_distinct(types, ts.drop_last());
        lemma_first_index(before, ts.last());
    }
}

/// A program in which the number of functions named `main` is not one is
/// not compiled: there is no module for it.
pub proof fn law_missing_main(p: ProgramView, rt: Seq<BindingView>)
    requires
        count(function_names(p.functions), "main"@) != 1,
    ensures
        assemble(p, rt) is Err,
{
}

/// The module of a compiled program exports the one function named
/// `main`, by the function index that follows from its position.
pub proof fn law_main_export(p: ProgramView, rt: Seq<BindingView>)
    requires
        assemble(p, rt) is Ok,
    ensures
        count(function_names(p.functions), "main"@) == 1,
        rt.len() <= assemble(p, rt)->Ok_0.main < rt.len() + p.functions.len(),
        p.functions[assemble(p, rt)->Ok_0.main - rt.len()].0 == "main"@,
{
    let names = function_names(p.functions);
    lemma_first_index(names, "main"@);
}

} // verus!
