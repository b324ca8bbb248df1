//! Assembles a module: the runtime's functions as imports, the type
//! section without duplicates, the table through which function values are
//! called, the data, the translated functions, and the export of `main`.

use super::env::{Env, EnvView, IdIndexView};
use super::error::{CompileError, CompileErrorView};
use super::lookup::{
    count, first_index, lemma_count_first_index, lemma_first_index, lemma_first_index_is,
    lemma_first_index_push,
};
use super::rt_bindings::{
    binding_names, bindings_view, get_rt_bindings, rt_names, runtime_bindings, Binding,
    BindingView,
};
use super::syntax::{
    functions_view, globals_view, Function, FunctionView, Global, GlobalView, Id, Program,
    ProgramView,
};
use super::translation::{
    lower_atom, lower_stmt, rt_call, signature, signature_of, Linkage, Translate,
};
use super::wasm::{
    func_types_view, FuncBody, FuncBodyView, FuncType, FuncTypeView, Import, ImportView, Instr,
    WasmModule, WasmModuleView,
};
use vstd::prelude::*;
use vstd::string::StringExecFns;

verus! {

/// The number of parameters of `f` that are bound: each name that has a
/// type.
pub open spec fn param_count(f: FunctionView) -> nat {
    if f.params.len() <= f.fn_type.args.len() {
        f.params.len()
    } else {
        f.fn_type.args.len()
    }
}

/// `ids` with the first `n` parameters of `f` bound to the first `n`
/// local slots, in order.
pub open spec fn bind_params(ids: Map<Seq<char>, IdIndexView>, f: FunctionView, n: nat) -> Map<
    Seq<char>,
    IdIndexView,
>
    decreases n,
{
    if n == 0 {
        ids
    } else {
        bind_params(ids, f, (n - 1) as nat).insert(
            f.params[n - 1],
            IdIndexView::Local((n - 1) as u32, f.fn_type.args[n - 1]),
        )
    }
}

/// The index of the signature `t` in the type section `types`.
pub open spec fn type_index(types: Seq<FuncTypeView>, t: FuncTypeView) -> Result<
    u32,
    CompileErrorView,
> {
    match first_index(types, t) {
        None => Err(CompileErrorView::UnknownFunctionType),
        Some(i) => if i <= u32::MAX {
            Ok(i as u32)
        } else {
            Err(CompileErrorView::TooManyFunctions)
        },
    }
}

/// The translation of the function `f`, named `name`, in the environment
/// `env`: the parameters take the first local slots; the body's locals
/// follow; the code ends with `End`. In `main`, a call of the runtime's
/// `init` comes before everything else.
pub open spec fn lower_function(cx: Linkage, env: EnvView, name: Seq<char>, f: FunctionView) -> Result<
    FuncBodyView,
    CompileErrorView,
> {
    let n = param_count(f);
    if n > u32::MAX {
        Err(CompileErrorView::TooManyLocals)
    } else {
        match lower_stmt(
            cx,
            EnvView { labels: env.labels, ids: bind_params(env.ids, f, n) },
            n,
            f.body,
        ) {
            Err(e) => Err(e),
            Ok(body) => match (if name == "main"@ {
                rt_call(cx, "init"@)
            } else {
                Ok(Seq::empty())
            }) {
                Err(e) => Err(e),
                Ok(prologue) => match type_index(cx.types, signature(f.fn_type)) {
                    Err(e) => Err(e),
                    Ok(t) => Ok(
                        FuncBodyView {
                            type_index: t,
                            locals: body.locals,
                            code: prologue + body.code + seq![Instr::End],
                        },
                    ),
                },
            },
        }
    }
}

/// Whether `name` is the name of the entry function.
pub fn is_main(name: &Id) -> (r: bool)
    ensures
        r == (name@ == "main"@),
{
    String::from_str(name.name()) == String::from_str("main")
}

/// Finds the index of `wanted` in the type section `types`.
pub fn find_type(types: &Vec<FuncType>, wanted: &FuncType) -> (r: Result<u32, CompileError>)
    ensures
        match type_index(func_types_view(types@), wanted@) {
            Ok(i) => r == Ok::<u32, CompileError>(i),
            Err(e) => r is Err && r->Err_0@ == e,
        },
{
    let ghost views = func_types_view(types@);
    let mut i: usize = 0;
    while i < types.len()
        invariant
            i <= types.len(),
            views == func_types_view(types@),
            forall|j: int| 0 <= j < i ==> views[j] != wanted@,
        decreases types.len() - i,
    {
        if types[i].same(wanted) {
            proof {
                lemma_first_index_is(views, wanted@, i as nat);
            }
            if i <= u32::MAX as usize {
                return Ok(i as u32);
            } else {
                return Err(CompileError::TooManyFunctions);
            }
        }
        i += 1;
    }
    proof {
        lemma_first_index(views, wanted@);
    }
    Err(CompileError::UnknownFunctionType)
}

/// Translates the function `func`, named `name`.
pub fn translate_func(
    func: &Function,
    env: &Env,
    rt_indexes: &Vec<Binding>,
    type_indexes: &Vec<FuncType>,
    name: &Id,
) -> (r: Result<FuncBody, CompileError>)
    ensures
        match lower_function(
            Linkage { rt: rt_names(rt_indexes@), types: func_types_view(type_indexes@) },
            env@,
            name@,
            func@,
        ) {
            Ok(body) => r is Ok && r->Ok_0@ == body,
            Err(e) => r is Err && r->Err_0@ == e,
        },
{
    let mut translator = Translate::new(rt_indexes, type_indexes);
    let ghost cx = translator.linkage();
    let n = if func.params.len() <= func.fn_type.args.len() {
        func.params.len()
    } else {
        func.fn_type.args.len()
    };
    if n > u32::MAX as usize {
        return Err(CompileError::TooManyLocals);
    }
    // The parameters take the first slots.
    let mut env = env.clone();
    let ghost outer = env@;
    let mut i: usize = 0;
    while i < n
        invariant
            i <= n,
            n <= u32::MAX,
            n == param_count(func@),
            env@.labels == outer.labels,
            env@.ids == bind_params(outer.ids, func@, i as nat),
            translator.next_id == i,
            translator.out@.len() == 0,
            translator.locals@.len() == 0,
            translator.linkage() == cx,
            translator.rt_indexes == rt_indexes,
            translator.type_indexes == type_indexes,
        decreases n - i,
    {
        let index = translator.next_id;
        translator.next_id += 1;
        env = env.bind(&func.params[i], index, &func.fn_type.args[i]);
        i += 1;
    }
    let ghost start = translator;
    translator.translate_rec(&mut env, &func.body)?;
    let ghost body = lower_stmt(
        cx,
        EnvView { labels: outer.labels, ids: bind_params(outer.ids, func@, n as nat) },
        n as nat,
        func@.body,
    )->Ok_0;
    let mut insts: Vec<Instr> = Vec::new();
    // Before anything else, main has the runtime set itself up.
    if is_main(name) {
        let mut prologue = Translate::new(rt_indexes, type_indexes);
        prologue.rt_call("init")?;
        insts = prologue.out;
    }
    let ghost prologue = insts@;
    let mut code = translator.out;
    insts.append(&mut code);
    insts.push(Instr::End);
    let type_index = find_type(type_indexes, &signature_of(&func.fn_type))?;
    let r = FuncBody { type_index, locals: translator.locals, code: insts };
    proof {
        assert(r@.code =~= prologue + body.code + seq![Instr::End]);
        assert(r@.locals =~= body.locals);
    }
    Ok(r)
}

/// The names of the functions `fs`, in order.
pub open spec fn function_names(fs: Seq<(Seq<char>, FunctionView)>) -> Seq<Seq<char>> {
    Seq::new(fs.len(), |i: int| fs[i].0)
}

/// The environment in which every function is translated: each name is
/// bound to the position of the function of that name, the last one where
/// several share a name.
pub open spec fn function_ids(names: Seq<Seq<char>>) -> Map<Seq<char>, IdIndexView>
    decreases names.len(),
{
    if names.len() == 0 {
        Map::empty()
    } else {
        function_ids(names.drop_last()).insert(
            names.last(),
            IdIndexView::Fun((names.len() - 1) as u32),
        )
    }
}

/// The type section `types` with the signature `t` in it: put at the end
/// where it was not there yet.
pub open spec fn intern_type(types: Seq<FuncTypeView>, t: FuncTypeView) -> Seq<FuncTypeView> {
    if first_index(types, t) is Some {
        types
    } else {
        types.push(t)
    }
}

/// The type section `types` with the signatures `ts` in it, taken in order.
pub open spec fn intern_types(types: Seq<FuncTypeView>, ts: Seq<FuncTypeView>) -> Seq<
    FuncTypeView,
>
    decreases ts.len(),
{
    if ts.len() == 0 {
        types
    } else {
        intern_type(intern_types(types, ts.drop_last()), ts.last())
    }
}

/// The signatures of the runtime's functions, in order.
pub open spec fn runtime_signatures(rt: Seq<BindingView>) -> Seq<FuncTypeView> {
    Seq::new(rt.len(), |i: int| signature(rt[i].fn_type))
}

/// The signatures of the program's functions, in order.
pub open spec fn function_signatures(fs: Seq<(Seq<char>, FunctionView)>) -> Seq<FuncTypeView> {
    Seq::new(fs.len(), |i: int| signature(fs[i].1.fn_type))
}

/// The type section of a module: each distinct signature once, those of
/// the runtime's functions first and then those of the program's, each
/// where it first occurs.
pub open spec fn type_section(rt: Seq<BindingView>, fs: Seq<(Seq<char>, FunctionView)>) -> Seq<
    FuncTypeView,
> {
    intern_types(intern_types(Seq::empty(), runtime_signatures(rt)), function_signatures(fs))
}

/// The imports of the runtime's functions, in order, each with the index
/// of its signature in `types`.
pub open spec fn imports_of(rt: Seq<BindingView>, types: Seq<FuncTypeView>) -> Seq<ImportView> {
    Seq::new(
        rt.len(),
        |i: int|
            ImportView {
                name: rt[i].name,
                type_index: match type_index(types, signature(rt[i].fn_type)) {
                    Ok(t) => t,
                    Err(_) => 0,
                },
            },
    )
}

/// The table through which function values are called, for `n` functions
/// after `r` imports: entry `i` holds the function index `r + i`.
pub open spec fn table_of(r: nat, n: nat) -> Seq<u32> {
    Seq::new(n, |i: int| (r + i) as u32)
}

/// The linkage under which the initializers of globals are translated:
/// nothing of the runtime can be called.
pub open spec fn no_linkage() -> Linkage {
    Linkage { rt: Seq::empty(), types: Seq::empty() }
}

/// Whether the initializers of the globals `gs` can all be translated, and
/// if not, why the first of them cannot.
pub open spec fn check_globals(
    ids: Map<Seq<char>, IdIndexView>,
    gs: Seq<(Seq<char>, GlobalView)>,
) -> Result<(), CompileErrorView>
    decreases gs.len(),
{
    if gs.len() == 0 {
        Ok(())
    } else {
        match check_globals(ids, gs.drop_last()) {
            Err(e) => Err(e),
            Ok(_) => match lower_atom(no_linkage(), ids, gs.last().1.atom) {
                Err(e) => Err(e),
                Ok(_) => Ok(()),
            },
        }
    }
}

/// The position of the one function named `main`. A program with no such
/// function, or with more than one, has none.
pub open spec fn find_main(names: Seq<Seq<char>>) -> Result<nat, CompileErrorView> {
    if count(names, "main"@) == 0 {
        Err(CompileErrorView::NoMain)
    } else if count(names, "main"@) > 1 {
        Err(CompileErrorView::DuplicateMain)
    } else {
        match first_index(names, "main"@) {
            Some(i) => Ok(i),
            None => Err(CompileErrorView::NoMain),
        }
    }
}

/// The translations of the functions `fs`, in order.
pub open spec fn lower_functions(cx: Linkage, env: EnvView, fs: Seq<(Seq<char>, FunctionView)>) -> Result<
    Seq<FuncBodyView>,
    CompileErrorView,
>
    decreases fs.len(),
{
    if fs.len() == 0 {
        Ok(Seq::empty())
    } else {
        match lower_functions(cx, env, fs.drop_last()) {
            Err(e) => Err(e),
            Ok(bodies) => match lower_function(cx, env, fs.last().0, fs.last().1) {
                Err(e) => Err(e),
                Ok(body) => Ok(bodies.push(body)),
            },
        }
    }
}

/// The module that the program `p` is compiled to against the runtime
/// `rt`, or why there is none.
///
/// Function indices count the runtime's functions first, so the program's
/// function at position `k` has the index `rt.len() + k`, which is also
/// what entry `k` of the table holds.
pub open spec fn assemble(p: ProgramView, rt: Seq<BindingView>) -> Result<
    WasmModuleView,
    CompileErrorView,
> {
    let names = function_names(p.functions);
    let env = EnvView { labels: Seq::empty(), ids: function_ids(names) };
    let types = type_section(rt, p.functions);
    let cx = Linkage { rt: binding_names(rt), types };
    if rt.len() + p.functions.len() > u32::MAX {
        Err(CompileErrorView::TooManyFunctions)
    } else {
        match check_globals(env.ids, p.globals) {
            Err(e) => Err(e),
            Ok(_) => match find_main(names) {
                Err(e) => Err(e),
                Ok(main) => match lower_functions(cx, env, p.functions) {
                    Err(e) => Err(e),
                    Ok(bodies) => Ok(
                        WasmModuleView {
                            types,
                            imports: imports_of(rt, types),
                            table: table_of(rt.len(), p.functions.len()),
                            data: p.data,
                            functions: bodies,
                            main: (rt.len() + main) as u32,
                        },
                    ),
                },
            },
        }
    }
}

/// Binds the name of each function to its position.
fn function_env(functions: &Vec<(Id, Function)>) -> (r: Env)
    requires
        functions.len() <= u32::MAX,
    ensures
        r@.labels.len() == 0,
        r@.ids == function_ids(function_names(functions_view(functions@))),
{
    let ghost names = function_names(functions_view(functions@));
    let mut env = Env::new();
    let mut i: usize = 0;
    proof {
        assert(names.take(0) =~= Seq::empty());
    }
    while i < functions.len()
        invariant
            i <= functions.len(),
            functions.len() <= u32::MAX,
            names == function_names(functions_view(functions@)),
            env@.labels.len() == 0,
            env@.ids =~= function_ids(names.take(i as int)),
        decreases functions.len() - i,
    {
        proof {
            assert(names.take(i + 1).drop_last() =~= names.take(i as int));
            assert(names.take(i + 1).last() == functions@[i as int].0@);
        }
        env = env.bind_function(&functions[i].0, i as u32);
        i += 1;
    }
    proof {
        assert(names.take(i as int) =~= names);
    }
    env
}

/// A failure among the first `k` globals is the failure of them all.
pub proof fn lemma_globals_prefix_fails(
    ids: Map<Seq<char>, IdIndexView>,
    gs: Seq<(Seq<char>, GlobalView)>,
    k: int,
)
    requires
        0 <= k <= gs.len(),
        check_globals(ids, gs.take(k)) is Err,
    ensures
        check_globals(ids, gs) == check_globals(ids, gs.take(k)),
    decreases gs.len(),
{
    if k == gs.len() {
        assert(gs.take(k) =~= gs);
    } else {
        assert(gs.drop_last().take(k) =~= gs.take(k));
        lemma_globals_prefix_fails(ids, gs.drop_last(), k);
    }
}

/// Translates the initializer of each global, for what may be wrong with it.
fn check_global_initializers(env: &Env, globals: &Vec<(Id, Global)>) -> (r: Result<
    (),
    CompileError,
>)
    ensures
        match check_globals(env@.ids, globals_view(globals@)) {
            Ok(_) => r is Ok,
            Err(e) => r is Err && r->Err_0@ == e,
        },
{
    let ghost views = globals_view(globals@);
    // An initializer is a constant: it can call nothing.
    let no_rt: Vec<Binding> = Vec::new();
    let no_types: Vec<FuncType> = Vec::new();
    let mut i: usize = 0;
    proof {
        assert(views.take(0) =~= Seq::empty());
    }
    while i < globals.len()
        invariant
            i <= globals.len(),
            views == globals_view(globals@),
            no_rt@.len() == 0,
            no_types@.len() == 0,
            check_globals(env@.ids, views.take(i as int)) is Ok,
        decreases globals.len() - i,
    {
        proof {
            assert(views.take(i + 1).drop_last() =~= views.take(i as int));
            assert(views.take(i + 1).last().1.atom == globals@[i as int].1.atom@);
        }
        let mut visitor = Translate::new(&no_rt, &no_types);
        proof {
            assert(visitor.linkage().rt =~= no_linkage().rt);
            assert(visitor.linkage().types =~= no_linkage().types);
        }
        match visitor.translate_atom(env, &globals[i].1.atom) {
            Ok(()) => {},
            Err(e) => {
                proof {
                    lemma_globals_prefix_fails(env@.ids, views, i + 1);
                }
                return Err(e);
            },
        }
        i += 1;
    }
    proof {
        assert(views.take(i as int) =~= views);
    }
    Ok(())
}

/// Finds the one function named `main`.
fn find_main_function(functions: &Vec<(Id, Function)>) -> (r: Result<usize, CompileError>)
    ensures
        match find_main(function_names(functions_view(functions@))) {
            Ok(i) => r == Ok::<usize, CompileError>(i as usize) && i < functions.len(),
            Err(e) => r is Err && r->Err_0@ == e,
        },
{
    let ghost names = function_names(functions_view(functions@));
    let mut found: Option<usize> = None;
    let mut seen: usize = 0;
    let mut i: usize = 0;
    proof {
        assert(names.take(0) =~= Seq::empty());
    }
    while i < functions.len()
        invariant
            i <= functions.len(),
            names == function_names(functions_view(functions@)),
            seen == count(names.take(i as int), "main"@),
            seen <= i,
            match found {
                Some(k) => first_index(names.take(i as int), "main"@) == Some(k as nat),
                None => first_index(names.take(i as int), "main"@) is None,
            },
        decreases functions.len() - i,
    {
        proof {
            assert(names.take(i + 1).drop_last() =~= names.take(i as int));
            assert(names.take(i as int).push(names[i as int]) =~= names.take(i + 1));
            lemma_first_index_push(names.take(i as int), names[i as int], "main"@);
        }
        if is_main(&functions[i].0) {
            seen += 1;
            if found.is_none() {
                found = Some(i);
            }
        }
        i += 1;
    }
    proof {
        assert(names.take(i as int) =~= names);
        lemma_first_index(names, "main"@);
        lemma_count_first_index(names, "main"@);
    }
    match found {
        None => Err(CompileError::NoMain),
        Some(k) => if seen > 1 {
            Err(CompileError::DuplicateMain)
        } else {
            Ok(k)
        },
    }
}

/// Interning a signature leaves every signature of the section where it
/// was, and the interned one is in the section afterwards.
pub proof fn lemma_intern_type(types: Seq<FuncTypeView>, t: FuncTypeView, x: FuncTypeView)
    ensures
        first_index(intern_type(types, t), t) is Some,
        first_index(types, x) is Some ==> first_index(intern_type(types, t), x) == first_index(
            types,
            x,
        ),
        types.len() <= intern_type(types, t).len() <= types.len() + 1,
{
    lemma_first_index_push(types, t, t);
    lemma_first_index_push(types, t, x);
}

/// Interning signatures leaves every signature of the section where it was.
pub proof fn lemma_intern_types_keeps(
    types: Seq<FuncTypeView>,
    ts: Seq<FuncTypeView>,
    x: FuncTypeView,
)
    requires
        first_index(types, x) is Some,
    ensures
        first_index(intern_types(types, ts), x) == first_index(types, x),
        types.len() <= intern_types(types, ts).len() <= types.len() + ts.len(),
    decreases ts.len(),
{
    if ts.len() != 0 {
        lemma_intern_types_keeps(types, ts.drop_last(), x);
        lemma_intern_type(intern_types(types, ts.drop_last()), ts.last(), x);
    }
}

/// Every interned signature is in the section afterwards.
pub proof fn lemma_intern_types_found(types: Seq<FuncTypeView>, ts: Seq<FuncTypeView>, i: int)
    requires
        0 <= i < ts.len(),
    ensures
        first_index(intern_types(types, ts), ts[i]) is Some,
        types.len() <= intern_types(types, ts).len() <= types.len() + ts.len(),
    decreases ts.len(),
{
    let before = intern_types(types, ts.drop_last());
    lemma_intern_type(before, ts.last(), ts[i]);
    if i < ts.len() - 1 {
        lemma_intern_types_found(types, ts.drop_last(), i);
    } else if ts.len() > 1 {
        lemma_intern_types_found(types, ts.drop_last(), 0);
    }
}

/// Puts the signature `t` into the type section, unless it is there, and
/// returns its index.
fn intern_signature(types: &mut Vec<FuncType>, t: FuncType) -> (r: usize)
    ensures
        func_types_view(final(types)@) == intern_type(func_types_view(old(types)@), t@),
        first_index(func_types_view(final(types)@), t@) == Some(r as nat),
{
    let ghost views = func_types_view(types@);
    let mut i: usize = 0;
    while i < types.len()
        invariant
            i <= types.len(),
            *types == *old(types),
            views == func_types_view(types@),
            forall|j: int| 0 <= j < i ==> views[j] != t@,
        decreases types.len() - i,
    {
        if types[i].same(&t) {
            proof {
                lemma_first_index_is(views, t@, i as nat);
            }
            return i;
        }
        i += 1;
    }
    proof {
        lemma_first_index(views, t@);
        lemma_first_index_push(views, t@, t@);
    }
    types.push(t);
    proof {
        assert(func_types_view(types@) =~= views.push(t@));
    }
    i
}

/// The views of the imports `imports`, in order.
pub open spec fn imports_view(imports: Seq<Import>) -> Seq<ImportView> {
    Seq::new(imports.len(), |i: int| imports[i]@)
}

/// The views of the function bodies `bodies`, in order.
pub open spec fn bodies_view(bodies: Seq<FuncBody>) -> Seq<FuncBodyView> {
    Seq::new(bodies.len(), |i: int| bodies[i]@)
}

/// Imports each function of the runtime and puts its signature into the
/// type section.
fn import_runtime(rt: &Vec<Binding>, types: &mut Vec<FuncType>) -> (imports: Vec<Import>)
    requires
        old(types)@.len() == 0,
        rt.len() <= u32::MAX,
    ensures
        func_types_view(final(types)@) == intern_types(
            Seq::empty(),
            runtime_signatures(bindings_view(rt@)),
        ),
        imports_view(imports@) == imports_of(bindings_view(rt@), func_types_view(final(types)@)),
{
    let ghost sigs = runtime_signatures(bindings_view(rt@));
    let ghost none: Seq<FuncTypeView> = Seq::empty();
    let mut imports: Vec<Import> = Vec::new();
    let mut i: usize = 0;
    proof {
        assert(sigs.take(0) =~= Seq::empty());
        assert(func_types_view(types@) =~= none);
    }
    while i < rt.len()
        invariant
            i <= rt.len(),
            rt.len() <= u32::MAX,
            sigs == runtime_signatures(bindings_view(rt@)),
            none.len() == 0,
            func_types_view(types@) == intern_types(none, sigs.take(i as int)),
            types@.len() <= i,
            imports@.len() == i,
            forall|j: int|
                0 <= j < i ==> (#[trigger] imports@[j])@.name == rt@[j].name@ && first_index(
                    func_types_view(types@),
                    sigs[j],
                ) == Some(imports@[j].type_index as nat),
        decreases rt.len() - i,
    {
        let ghost before = func_types_view(types@);
        proof {
            assert(sigs.take(i + 1).drop_last() =~= sigs.take(i as int));
            assert(sigs.take(i + 1).last() == signature(rt@[i as int].fn_type@));
            assert forall|j: int| 0 <= j < i implies first_index(
                intern_type(before, sigs[i as int]),
                sigs[j],
            ) == Some(imports@[j].type_index as nat) by {
                assert(imports@[j]@.name == rt@[j].name@);
                lemma_intern_type(before, sigs[i as int], sigs[j]);
            }
            lemma_intern_type(before, sigs[i as int], sigs[i as int]);
        }
        let type_index = intern_signature(types, signature_of(&rt[i].fn_type));
        proof {
            lemma_first_index(func_types_view(types@), sigs[i as int]);
            assert(func_types_view(types@).len() == types@.len());
        }
        imports.push(Import { name: rt[i].name.clone(), type_index: type_index as u32 });
        i += 1;
    }
    proof {
        assert(sigs.take(i as int) =~= sigs);
        assert(imports_view(imports@) =~= imports_of(
            bindings_view(rt@),
            func_types_view(types@),
        ));
    }
    imports
}

/// Puts the signature of each function of the program into the type
/// section.
fn intern_function_signatures(functions: &Vec<(Id, Function)>, types: &mut Vec<FuncType>)
    ensures
        func_types_view(final(types)@) == intern_types(
            func_types_view(old(types)@),
            function_signatures(functions_view(functions@)),
        ),
{
    let ghost sigs = function_signatures(functions_view(functions@));
    let mut i: usize = 0;
    proof {
        assert(sigs.take(0) =~= Seq::empty());
    }
    while i < functions.len()
        invariant
            i <= functions.len(),
            sigs == function_signatures(functions_view(functions@)),
            func_types_view(types@) == intern_types(
                func_types_view(old(types)@),
                sigs.take(i as int),
            ),
        decreases functions.len() - i,
    {
        proof {
            assert(sigs.take(i + 1).drop_last() =~= sigs.take(i as int));
            assert(sigs.take(i + 1).last() == signature(functions@[i as int].1.fn_type@));
        }
        // Only signatures in machine types tell whether two are the same.
        intern_signature(types, signature_of(&functions[i].1.fn_type));
        i += 1;
    }
    proof {
        assert(sigs.take(i as int) =~= sigs);
    }
}

/// The table for `n` functions after `r` imports.
fn call_table(r: usize, n: usize) -> (table: Vec<u32>)
    requires
        r + n <= u32::MAX,
    ensures
        table@ == table_of(r as nat, n as nat),
{
    let mut table: Vec<u32> = Vec::new();
    let mut i: usize = 0;
    while i < n
        invariant
            i <= n,
            r + n <= u32::MAX,
            table@.len() == i,
            forall|j: int| 0 <= j < i ==> table@[j] == (r + j) as u32,
        decreases n - i,
    {
        table.push((r + i) as u32);
        i += 1;
    }
    proof {
        assert(table@ =~= table_of(r as nat, n as nat));
    }
    table
}

/// A failure among the first `k` functions is the failure of them all.
pub proof fn lemma_functions_prefix_fails(
    cx: Linkage,
    env: EnvView,
    fs: Seq<(Seq<char>, FunctionView)>,
    k: int,
)
    requires
        0 <= k <= fs.len(),
        lower_functions(cx, env, fs.take(k)) is Err,
    ensures
        lower_functions(cx, env, fs) == lower_functions(cx, env, fs.take(k)),
    decreases fs.len(),
{
    if k == fs.len() {
        assert(fs.take(k) =~= fs);
    } else {
        assert(fs.drop_last().take(k) =~= fs.take(k));
        lemma_functions_prefix_fails(cx, env, fs.drop_last(), k);
    }
}

/// Translates each function of the program.
fn translate_functions(
    functions: &Vec<(Id, Function)>,
    env: &Env,
    rt: &Vec<Binding>,
    types: &Vec<FuncType>,
) -> (r: Result<Vec<FuncBody>, CompileError>)
    ensures
        match lower_functions(
            Linkage { rt: rt_names(rt@), types: func_types_view(types@) },
            env@,
            functions_view(functions@),
        ) {
            Ok(bodies) => r is Ok && bodies_view(r->Ok_0@) == bodies,
            Err(e) => r is Err && r->Err_0@ == e,
        },
{
    let ghost cx = Linkage { rt: rt_names(rt@), types: func_types_view(types@) };
    let ghost views = functions_view(functions@);
    let mut bodies: Vec<FuncBody> = Vec::new();
    let mut i: usize = 0;
    proof {
        assert(views.take(0) =~= Seq::empty());
        assert(bodies_view(bodies@) =~= Seq::empty());
    }
    while i < functions.len()
        invariant
            i <= functions.len(),
            views == functions_view(functions@),
            cx == (Linkage { rt: rt_names(rt@), types: func_types_view(types@) }),
            lower_functions(cx, env@, views.take(i as int)) == Ok::<
                Seq<FuncBodyView>,
                CompileErrorView,
            >(bodies_view(bodies@)),
        decreases functions.len() - i,
    {
        proof {
            assert(views.take(i + 1).drop_last() =~= views.take(i as int));
            assert(views.take(i + 1).last() == (functions@[i as int].0@, functions@[i as int].1@));
        }
        let ghost before = bodies_view(bodies@);
        match translate_func(&functions[i].1, env, rt, types, &functions[i].0) {
            Ok(body) => {
                bodies.push(body);
                proof {
                    assert(bodies_view(bodies@) =~= before.push(body@));
                }
            },
            Err(e) => {
                proof {
                    lemma_functions_prefix_fails(cx, env@, views, i + 1);
                }
                return Err(e);
            },
        }
        i += 1;
    }
    proof {
        assert(views.take(i as int) =~= views);
    }
    Ok(bodies)
}

/// Compiles `program` to a module that is linked against the runtime `rt`.
pub fn translate_parity_with(program: Program, rt: &Vec<Binding>) -> (r: Result<
    WasmModule,
    CompileError,
>)
    ensures
        match assemble(program@, bindings_view(rt@)) {
            Ok(m) => r is Ok && r->Ok_0@ == m,
            Err(e) => r is Err && r->Err_0@ == e,
        },
{
    let ghost p = program@;
    let ghost rtv = bindings_view(rt@);
    let offset = rt.len();
    let n = program.functions.len();
    if offset > u32::MAX as usize || n > u32::MAX as usize - offset {
        return Err(CompileError::TooManyFunctions);
    }
    // At first the environment binds each function's name to its position.
    let env = function_env(&program.functions);
    check_global_initializers(&env, &program.globals)?;
    let main = find_main_function(&program.functions)?;
    // The type section: one entry for each distinct signature.
    let mut types: Vec<FuncType> = Vec::new();
    let imports = import_runtime(rt, &mut types);
    let ghost rt_section = func_types_view(types@);
    intern_function_signatures(&program.functions, &mut types);
    proof {
        let sigs = runtime_signatures(rtv);
        let fsigs = function_signatures(p.functions);
        assert forall|i: int| 0 <= i < rtv.len() implies type_index(
            rt_section,
            signature(rtv[i].fn_type),
        ) == type_index(func_types_view(types@), signature(rtv[i].fn_type)) by {
            lemma_intern_types_found(Seq::empty(), sigs, i);
            lemma_intern_types_keeps(rt_section, fsigs, sigs[i]);
        }
        assert(imports_of(rtv, rt_section) =~= imports_of(rtv, func_types_view(types@)));
        assert(rt_names(rt@) =~= binding_names(rtv));
        assert(env@.labels =~= Seq::empty());
        assert(env@ == (EnvView {
            labels: Seq::empty(),
            ids: function_ids(function_names(p.functions)),
        }));
        assert(func_types_view(types@) == type_section(rtv, p.functions));
        assert(p.functions == functions_view(program.functions@));
    }
    // The table holds each function of the program at its own position,
    // so that a function's position is the value that stands for it.
    let table = call_table(offset, n);
    let functions = translate_functions(&program.functions, &env, rt, &types)?;
    let module = WasmModule {
        types,
        imports,
        table,
        data: program.data,
        functions,
        main: (offset + main) as u32,
    };
    proof {
        assert(module@.imports =~= imports_view(imports@));
        assert(module@.functions =~= bodies_view(functions@));
    }
    Ok(module)
}

/// Compiles `program` to a module that is linked against the runtime.
pub fn translate_parity(program: Program) -> (r: Result<WasmModule, CompileError>)
    ensures
        match assemble(program@, runtime_bindings()) {
            Ok(m) => r is Ok && r->Ok_0@ == m,
            Err(e) => r is Err && r->Err_0@ == e,
        },
{
    let rt = get_rt_bindings();
    translate_parity_with(program, &rt)
}

} // verus!
