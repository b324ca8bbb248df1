//! Closed programs, and the proof that each of them is compiled.
//!
//! A program is closed where every identifier that it uses is in scope with
//! the right kind, every break is inside a block with its label, every
//! function of the runtime that it needs is there, and nothing is left of
//! jumps or of string literals.

use super::assembler::{
    assemble, bind_params, check_globals, function_ids, function_names, function_signatures,
    intern_types, lemma_intern_types_found, lower_function, lower_functions, no_linkage,
    param_count, runtime_signatures, type_section,
};
use super::env::{EnvView, IdIndexView};

use super::lookup::{count, first_index, lemma_count_first_index, lemma_first_index};
use super::rt_bindings::{binding_names, BindingView};
use super::syntax::{
    AtomView, ExprView, FunctionView, GlobalView, LabelView, LitView, ProgramView, StmtView,
};
use super::translation::{
    lower_args, lower_atom, lower_block, lower_expr, lower_stmt, mono_name, nested, signature,
    Linkage,
};

use vstd::prelude::*;

verus! {

/// The two kinds of things that an identifier can name.
pub ghost enum Kind {
    Local,
    Function,
}

/// The kind of each identifier that `ids` binds.
pub open spec fn kinds_of(ids: Map<Seq<char>, IdIndexView>) -> Map<Seq<char>, Kind> {
    Map::new(
        |x: Seq<char>| ids.contains_key(x),
        |x: Seq<char>|
            match ids[x] {
                IdIndexView::Local(_, _) => Kind::Local,
                IdIndexView::Fun(_) => Kind::Function,
            },
    )
}

/// Whether `name` is in scope as a local variable.
pub open spec fn is_local(kinds: Map<Seq<char>, Kind>, name: Seq<char>) -> bool {
    kinds.contains_key(name) && kinds[name] == Kind::Local
}

/// Whether the runtime has the function `name`, at an index that fits.
pub open spec fn links(cx: Linkage, name: Seq<char>) -> bool {
    match first_index(cx.rt, name) {
        Some(i) => i <= u32::MAX,
        None => false,
    }
}

/// Whether the atom `a` is closed.
pub open spec fn atom_closed(cx: Linkage, kinds: Map<Seq<char>, Kind>, a: AtomView) -> bool
    decreases a,
{
    match a {
        AtomView::Lit(LitView::String(_)) => false,
        AtomView::Lit(_) => true,
        AtomView::Id(x) => kinds.contains_key(x),
        AtomView::HTGet(ht, field, ty) => atom_closed(cx, kinds, *ht) && atom_closed(
            cx,
            kinds,
            *field,
        ) && links(cx, mono_name("ht_get"@, ty)),
        AtomView::Index(arr, index, ty) => atom_closed(cx, kinds, *arr) && atom_closed(
            cx,
            kinds,
            *index,
        ) && links(cx, mono_name("array_index"@, ty)),
        AtomView::StringLen(s) => atom_closed(cx, kinds, *s) && links(cx, "string_len"@),
        AtomView::Binary(_, l, r) => atom_closed(cx, kinds, *l) && atom_closed(cx, kinds, *r),
    }
}

/// Whether each of the arguments `args` is a local variable in scope.
pub open spec fn args_closed(kinds: Map<Seq<char>, Kind>, args: Seq<Seq<char>>) -> bool {
    forall|i: int| 0 <= i < args.len() ==> is_local(kinds, #[trigger] args[i])
}

/// Whether the expression `e` is closed. A call needs its callee in
/// scope: a function for a direct call, and for a call through a variable
/// a type section that holds the expected signature.
pub open spec fn expr_closed(cx: Linkage, kinds: Map<Seq<char>, Kind>, e: ExprView) -> bool {
    match e {
        ExprView::Atom(a) => atom_closed(cx, kinds, a),
        ExprView::HT(ty) => links(cx, mono_name("ht_new"@, ty)),
        ExprView::Array(ty) => links(cx, mono_name("array_new"@, ty)),
        ExprView::HTSet(ht, field, val, ty) => atom_closed(cx, kinds, ht) && atom_closed(
            cx,
            kinds,
            field,
        ) && atom_closed(cx, kinds, val) && links(cx, mono_name("ht_set"@, ty)),
        ExprView::Push(arr, val, ty) => atom_closed(cx, kinds, arr) && atom_closed(cx, kinds, val)
            && links(cx, mono_name("array_push"@, ty)),
        ExprView::CallDirect(f, args) => args_closed(kinds, args) && kinds.contains_key(f)
            && kinds[f] == Kind::Function,
        ExprView::CallIndirect(f, ft, args) => args_closed(kinds, args) && kinds.contains_key(f)
            && (kinds[f] == Kind::Local ==> first_index(cx.types, signature(ft)) is Some),
        ExprView::ToString(a) => atom_closed(cx, kinds, a) && links(cx, "string_from_str"@),
    }
}

/// What is in scope after the statement `s`: only a declaration adds to
/// the scope that it stands in.
pub open spec fn kinds_after(kinds: Map<Seq<char>, Kind>, s: StmtView) -> Map<Seq<char>, Kind> {
    match s {
        StmtView::Var(x, _, _) => kinds.insert(x, Kind::Local),
        _ => kinds,
    }
}

/// What is in scope after the statements `ss`.
pub open spec fn kinds_after_all(kinds: Map<Seq<char>, Kind>, ss: Seq<StmtView>) -> Map<
    Seq<char>,
    Kind,
>
    decreases ss.len(),
{
    if ss.len() == 0 {
        kinds
    } else {
        kinds_after(kinds_after_all(kinds, ss.drop_last()), ss.last())
    }
}

/// The number of locals that the statement `s` declares.
pub open spec fn declared(s: StmtView) -> nat
    decreases s,
{
    match s {
        StmtView::Block(ss) => declared_all(ss),
        StmtView::Var(_, _, _) => 1,
        StmtView::If(_, t, e) => declared(*t) + declared(*e),
        StmtView::Loop(b) => declared(*b),
        StmtView::Label(_, b) => declared(*b),
        _ => 0,
    }
}

/// The number of locals that the statements `ss` declare.
pub open spec fn declared_all(ss: Seq<StmtView>) -> nat
    decreases ss,
{
    if ss.len() == 0 {
        0
    } else {
        declared_all(ss.drop_last()) + declared(ss.last())
    }
}

/// Whether the statement `s` is closed where `kinds` is in scope and the
/// blocks `labels` are open.
pub open spec fn stmt_closed(
    cx: Linkage,
    kinds: Map<Seq<char>, Kind>,
    labels: Seq<Option<Seq<char>>>,
    s: StmtView,
) -> bool
    decreases s,
{
    match s {
        StmtView::Empty => true,
        StmtView::Block(ss) => block_closed(cx, kinds, labels, ss),
        StmtView::Var(_, e, _) => expr_closed(cx, kinds, e),
        StmtView::Assign(x, e) => expr_closed(cx, kinds, e) && is_local(kinds, x),
        StmtView::If(c, t, e) => atom_closed(cx, kinds, c) && stmt_closed(
            cx,
            kinds,
            seq![None] + labels,
            *t,
        ) && stmt_closed(cx, kinds, seq![None] + labels, *e),
        StmtView::Loop(b) => stmt_closed(cx, kinds, seq![None] + labels, *b),
        StmtView::Label(l, b) => match l {
            LabelView::Named(name) => stmt_closed(cx, kinds, seq![Some(name)] + labels, *b),
            LabelView::App(_) => false,
        },
        StmtView::Break(l) => match l {
            LabelView::Named(name) => match first_index(labels, Some(name)) {
                Some(i) => i <= u32::MAX,
                None => false,
            },
            LabelView::App(_) => false,
        },
        StmtView::Return(a) => atom_closed(cx, kinds, a),
        StmtView::Trap => true,
        StmtView::Goto(_) => false,
    }
}

/// Whether the statements `ss` are closed, each in the scope that the ones
/// before it have left.
pub open spec fn block_closed(
    cx: Linkage,
    kinds: Map<Seq<char>, Kind>,
    labels: Seq<Option<Seq<char>>>,
    ss: Seq<StmtView>,
) -> bool
    decreases ss,
{
    if ss.len() == 0 {
        true
    } else {
        block_closed(cx, kinds, labels, ss.drop_last()) && stmt_closed(
            cx,
            kinds_after_all(kinds, ss.drop_last()),
            labels,
            ss.last(),
        )
    }
}

/// A closed atom is translated.
pub proof fn lemma_closed_atom(cx: Linkage, ids: Map<Seq<char>, IdIndexView>, a: AtomView)
    requires
        atom_closed(cx, kinds_of(ids), a),
    ensures
        lower_atom(cx, ids, a) is Ok,
    decreases a,
{
    match a {
        AtomView::HTGet(ht, field, _) => {
            lemma_closed_atom(cx, ids, *ht);
            lemma_closed_atom(cx, ids, *field);
        },
        AtomView::Index(arr, index, _) => {
            lemma_closed_atom(cx, ids, *arr);
            lemma_closed_atom(cx, ids, *index);
        },
        AtomView::StringLen(s) => {
            lemma_closed_atom(cx, ids, *s);
        },
        AtomView::Binary(_, l, r) => {
            lemma_closed_atom(cx, ids, *l);
            lemma_closed_atom(cx, ids, *r);
        },
        _ => {},
    }
}

/// Arguments that are locals in scope are translated.
pub proof fn lemma_closed_args(ids: Map<Seq<char>, IdIndexView>, args: Seq<Seq<char>>)
    requires
        args_closed(kinds_of(ids), args),
    ensures
        lower_args(ids, args) is Ok,
    decreases args.len(),
{
    if args.len() != 0 {
        assert forall|i: int| 0 <= i < args.drop_last().len() implies is_local(
            kinds_of(ids),
            #[trigger] args.drop_last()[i],
        ) by {
            assert(args.drop_last()[i] == args[i]);
        }
        lemma_closed_args(ids, args.drop_last());
        assert(is_local(kinds_of(ids), args[args.len() - 1]));
    }
}

/// Whether the index of every function that `ids` binds fits in 32 bits,
/// counted after the runtime's functions.
pub open spec fn functions_fit(cx: Linkage, ids: Map<Seq<char>, IdIndexView>) -> bool {
    forall|x: Seq<char>|
        ids.contains_key(x) ==> (#[trigger] ids[x] matches IdIndexView::Fun(k) ==> cx.rt.len() + k
            <= u32::MAX)
}

/// A closed expression is translated, where function indices fit.
pub proof fn lemma_closed_expr(cx: Linkage, ids: Map<Seq<char>, IdIndexView>, e: ExprView)
    requires
        expr_closed(cx, kinds_of(ids), e),
        functions_fit(cx, ids),
        cx.types.len() <= u32::MAX,
    ensures
        lower_expr(cx, ids, e) is Ok,
{
    match e {
        ExprView::Atom(a) => {
            lemma_closed_atom(cx, ids, a);
        },
        ExprView::HTSet(ht, field, val, _) => {
            lemma_closed_atom(cx, ids, ht);
            lemma_closed_atom(cx, ids, field);
            lemma_closed_atom(cx, ids, val);
        },
        ExprView::Push(arr, val, _) => {
            lemma_closed_atom(cx, ids, arr);
            lemma_closed_atom(cx, ids, val);
        },
        ExprView::CallDirect(f, args) => {
            lemma_closed_args(ids, args);
            assert(kinds_of(ids)[f] == Kind::Function);
        },
        ExprView::CallIndirect(f, ft, args) => {
            lemma_closed_args(ids, args);
            assert(kinds_of(ids).contains_key(f));
            lemma_first_index(cx.types, signature(ft));
        },
        ExprView::ToString(a) => {
            lemma_closed_atom(cx, ids, a);
        },
        _ => {},
    }
}

/// A closed statement is translated, where indices fit: it declares as
/// many locals as it holds declarations, and leaves in scope what was in
/// scope and, if it is a declaration, what it declares.
pub proof fn lemma_closed_stmt(cx: Linkage, env: EnvView, next: nat, s: StmtView)
    requires
        stmt_closed(cx, kinds_of(env.ids), env.labels, s),
        functions_fit(cx, env.ids),
        cx.types.len() <= u32::MAX,
        next + declared(s) <= u32::MAX,
    ensures
        lower_stmt(cx, env, next, s) is Ok,
        kinds_of(lower_stmt(cx, env, next, s)->Ok_0.ids) == kinds_after(kinds_of(env.ids), s),
        lower_stmt(cx, env, next, s)->Ok_0.locals.len() == declared(s),
        functions_fit(cx, lower_stmt(cx, env, next, s)->Ok_0.ids),
    decreases s,
{
    match s {
        StmtView::Block(ss) => {
            lemma_closed_block(cx, env, next, ss);
        },
        StmtView::Var(x, e, ty) => {
            lemma_closed_expr(cx, env.ids, e);
            let after = env.ids.insert(x, IdIndexView::Local(next as u32, ty));
            assert(kinds_of(after) =~= kinds_of(env.ids).insert(x, Kind::Local));
        },
        StmtView::Assign(x, e) => {
            lemma_closed_expr(cx, env.ids, e);
            assert(kinds_of(env.ids)[x] == Kind::Local);
        },
        StmtView::If(c, t, e) => {
            lemma_closed_atom(cx, env.ids, c);
            lemma_closed_stmt(cx, nested(env, None), next, *t);
            lemma_closed_stmt(cx, nested(env, None), next + declared(*t), *e);
        },
        StmtView::Loop(b) => {
            lemma_closed_stmt(cx, nested(env, None), next, *b);
        },
        StmtView::Label(l, b) => {
            lemma_closed_stmt(cx, nested(env, Some(l->Named_0)), next, *b);
        },
        StmtView::Return(a) => {
            lemma_closed_atom(cx, env.ids, a);
        },
        _ => {},
    }
}

/// Closed statements are translated one after the other.
pub proof fn lemma_closed_block(cx: Linkage, env: EnvView, next: nat, ss: Seq<StmtView>)
    requires
        block_closed(cx, kinds_of(env.ids), env.labels, ss),
        functions_fit(cx, env.ids),
        cx.types.len() <= u32::MAX,
        next + declared_all(ss) <= u32::MAX,
    ensures
        lower_block(cx, env, next, ss) is Ok,
        kinds_of(lower_block(cx, env, next, ss)->Ok_0.ids) == kinds_after_all(
            kinds_of(env.ids),
            ss,
        ),
        lower_block(cx, env, next, ss)->Ok_0.locals.len() == declared_all(ss),
        functions_fit(cx, lower_block(cx, env, next, ss)->Ok_0.ids),
    decreases ss,
{
    if ss.len() != 0 {
        lemma_closed_block(cx, env, next, ss.drop_last());
        let a = lower_block(cx, env, next, ss.drop_last())->Ok_0;
        lemma_closed_stmt(
            cx,
            EnvView { labels: env.labels, ids: a.ids },
            next + a.locals.len(),
            ss.last(),
        );
    }
}

/// The scope in which the functions named `names` are all that is bound.
pub open spec fn function_kinds(names: Seq<Seq<char>>) -> Map<Seq<char>, Kind> {
    Map::new(|x: Seq<char>| names.contains(x), |x: Seq<char>| Kind::Function)
}

/// The scope `kinds` with the first `n` parameters of `f` in it as locals.
pub open spec fn param_kinds(kinds: Map<Seq<char>, Kind>, f: FunctionView, n: nat) -> Map<
    Seq<char>,
    Kind,
>
    decreases n,
{
    if n == 0 {
        kinds
    } else {
        param_kinds(kinds, f, (n - 1) as nat).insert(f.params[n - 1], Kind::Local)
    }
}

/// Whether the function `f`, named `name`, is closed where `kinds` is in
/// scope: its body is closed with its parameters in scope, its locals can
/// be counted in 32 bits, and if it is `main`, the runtime has `init`.
pub open spec fn function_closed(
    cx: Linkage,
    kinds: Map<Seq<char>, Kind>,
    name: Seq<char>,
    f: FunctionView,
) -> bool {
    &&& stmt_closed(cx, param_kinds(kinds, f, param_count(f)), Seq::empty(), f.body)
    &&& param_count(f) + declared(f.body) <= u32::MAX
    &&& name == "main"@ ==> links(cx, "init"@)
}

/// Whether the program `p` is closed against the runtime `rt`: its
/// functions can be counted in 32 bits after the runtime's, the
/// initializers of its globals are closed constants, and each of its
/// functions is closed where all of them are in scope.
pub open spec fn program_closed(p: ProgramView, rt: Seq<BindingView>) -> bool {
    let kinds = function_kinds(function_names(p.functions));
    let cx = Linkage { rt: binding_names(rt), types: type_section(rt, p.functions) };
    &&& rt.len() + p.functions.len() <= u32::MAX
    &&& forall|i: int|
        0 <= i < p.globals.len() ==> atom_closed(no_linkage(), kinds, (#[trigger] p.globals[i]).1.atom)
    &&& forall|i: int|
        0 <= i < p.functions.len() ==> function_closed(
            cx,
            kinds,
            (#[trigger] p.functions[i]).0,
            p.functions[i].1,
        )
}

/// The first environment binds exactly the functions' names, each to a
/// position among the functions.
pub proof fn lemma_function_ids(names: Seq<Seq<char>>)
    requires
        names.len() <= u32::MAX,
    ensures
        kinds_of(function_ids(names)) == function_kinds(names),
        forall|x: Seq<char>|
            function_ids(names).contains_key(x) ==> (#[trigger] function_ids(names)[x]
                matches IdIndexView::Fun(k) && k < names.len()),
    decreases names.len(),
{
    if names.len() == 0 {
        assert forall|x: Seq<char>| !names.contains(x) by {}
        assert(kinds_of(function_ids(names)).dom() =~= function_kinds(names).dom());
        assert(kinds_of(function_ids(names)) =~= function_kinds(names));
    } else {
        let before = names.drop_last();
        lemma_function_ids(before);
        assert forall|x: Seq<char>| names.contains(x) <==> (before.contains(x) || x
            == names.last()) by {
            if names.contains(x) {
                let i = choose|i: int| 0 <= i < names.len() && names[i] == x;
                if i < names.len() - 1 {
                    assert(before[i] == x);
                }
            }
            if before.contains(x) {
                let i = choose|i: int| 0 <= i < before.len() && before[i] == x;
                assert(names[i] == x);
            }
            if x == names.last() {
                assert(names[names.len() - 1] == x);
            }
        }
        let a = kinds_of(function_ids(names));
        let b = function_kinds(names);
        assert forall|x: Seq<char>| a.contains_key(x) == b.contains_key(x) by {
            assert(kinds_of(function_ids(before)).contains_key(x) == function_ids(
                before,
            ).contains_key(x));
            assert(function_kinds(before).contains_key(x) == before.contains(x));
        }
        assert forall|x: Seq<char>| a.contains_key(x) implies a[x] == b[x] by {
            assert(function_ids(names)[x] is Fun);
        }
        assert(a =~= b);
    }
}

/// Binding parameters puts them in scope as locals and leaves the
/// functions in scope where they were.
pub proof fn lemma_bind_params(
    cx: Linkage,
    ids: Map<Seq<char>, IdIndexView>,
    f: FunctionView,
    n: nat,
)
    requires
        functions_fit(cx, ids),
    ensures
        kinds_of(bind_params(ids, f, n)) == param_kinds(kinds_of(ids), f, n),
        functions_fit(cx, bind_params(ids, f, n)),
    decreases n,
{
    if n != 0 {
        lemma_bind_params(cx, ids, f, (n - 1) as nat);
        assert(kinds_of(bind_params(ids, f, n)) =~= param_kinds(kinds_of(ids), f, n));
    }
}

/// Closed initializers of globals are all translated.
pub proof fn lemma_closed_globals(
    ids: Map<Seq<char>, IdIndexView>,
    gs: Seq<(Seq<char>, GlobalView)>,
)
    requires
        forall|i: int|
            0 <= i < gs.len() ==> atom_closed(no_linkage(), kinds_of(ids), (#[trigger] gs[i]).1.atom),
    ensures
        check_globals(ids, gs) is Ok,
    decreases gs.len(),
{
    if gs.len() != 0 {
        assert forall|i: int| 0 <= i < gs.drop_last().len() implies atom_closed(
            no_linkage(),
            kinds_of(ids),
            (#[trigger] gs.drop_last()[i]).1.atom,
        ) by {
            assert(gs.drop_last()[i] == gs[i]);
        }
        lemma_closed_globals(ids, gs.drop_last());
        assert(gs.last() == gs[gs.len() - 1]);
        lemma_closed_atom(no_linkage(), ids, gs.last().1.atom);
    }
}

/// Functions that are each translated are translated together.
pub proof fn lemma_functions_lower(cx: Linkage, env: EnvView, fs: Seq<(Seq<char>, FunctionView)>)
    requires
        forall|i: int|
            0 <= i < fs.len() ==> lower_function(cx, env, (#[trigger] fs[i]).0, fs[i].1) is Ok,
    ensures
        lower_functions(cx, env, fs) is Ok,
    decreases fs.len(),
{
    if fs.len() != 0 {
        assert forall|i: int| 0 <= i < fs.drop_last().len() implies lower_function(
            cx,
            env,
            (#[trigger] fs.drop_last()[i]).0,
            fs.drop_last()[i].1,
        ) is Ok by {
            assert(fs.drop_last()[i] == fs[i]);
        }
        lemma_functions_lower(cx, env, fs.drop_last());
        assert(fs.last() == fs[fs.len() - 1]);
    }
}

/// Interning adds at most one entry for each signature.
pub proof fn lemma_intern_types_len(
    types: Seq<super::wasm::FuncTypeView>,
    ts: Seq<super::wasm::FuncTypeView>,
)
    ensures
        intern_types(types, ts).len() <= types.len() + ts.len(),
    decreases ts.len(),
{
    if ts.len() != 0 {
        lemma_intern_types_len(types, ts.drop_last());
    }
}

/// Every closed program with exactly one function named `main` is
/// compiled. Its module has one import for each function of the runtime,
/// and one function and one table entry for each function of the program;
/// what it exports as `main` is one of the program's functions.
pub proof fn law_closed_programs_compile(p: ProgramView, rt: Seq<BindingView>)
    requires
        program_closed(p, rt),
        count(function_names(p.functions), "main"@) == 1,
    ensures
        assemble(p, rt) is Ok,
        assemble(p, rt)->Ok_0.types == type_section(rt, p.functions),
        assemble(p, rt)->Ok_0.imports.len() == rt.len(),
        assemble(p, rt)->Ok_0.functions.len() == p.functions.len(),
        assemble(p, rt)->Ok_0.table.len() == p.functions.len(),
        rt.len() <= assemble(p, rt)->Ok_0.main < rt.len() + p.functions.len(),
{
    let names = function_names(p.functions);
    let env = EnvView { labels: Seq::empty(), ids: function_ids(names) };
    let first = intern_types(Seq::empty(), runtime_signatures(rt));
    let types = type_section(rt, p.functions);
    let cx = Linkage { rt: binding_names(rt), types };
    lemma_function_ids(names);
    lemma_closed_globals(env.ids, p.globals);
    lemma_count_first_index(names, "main"@);
    lemma_first_index(names, "main"@);
    lemma_intern_types_len(Seq::empty(), runtime_signatures(rt));
    lemma_intern_types_len(first, function_signatures(p.functions));
    assert(functions_fit(cx, env.ids));
    assert forall|i: int| 0 <= i < p.functions.len() implies lower_function(
        cx,
        env,
        (#[trigger] p.functions[i]).0,
        p.functions[i].1,
    ) is Ok by {
        let f = p.functions[i].1;
        let n = param_count(f);
        assert(function_closed(cx, function_kinds(names), p.functions[i].0, f));
        lemma_bind_params(cx, env.ids, f, n);
        let inner = EnvView { labels: env.labels, ids: bind_params(env.ids, f, n) };
        lemma_closed_stmt(cx, inner, n, f.body);
        lemma_intern_types_found(first, function_signatures(p.functions), i);
        lemma_first_index(types, signature(f.fn_type));
    }
    lemma_functions_lower(cx, env, p.functions);
    if p.functions.len() > 0 {
        super::laws::lemma_lower_functions(cx, env, p.functions, 0);
    }
}

} // verus!
