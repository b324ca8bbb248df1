//! The stages fit together: what interning and structuring leave behind
//! is what the translation takes. A program that went through both is
//! never refused for a string literal, a jump or the target of one.

use super::assembler::{assemble, check_globals, lower_functions, no_linkage};
use super::compile::compile_program;
use super::elim_gotos::{
    all_target_free, all_to_break, elim, elim_block, elim_functions, first_goto, first_goto_in,
    first_goto_of, jump_flags, lemma_elim_target_free, structure_program, structured, target_name,
    to_break, wrap,
};
use super::env::{EnvView, IdIndexView};
use super::error::CompileErrorView;
use super::intern::intern_program;
use super::interned::{atom_interned, expr_interned, law_interned_has_no_strings, stmt_interned};
use super::lookup::{first_index, lemma_first_index};
use super::rt_bindings::{runtime_bindings, BindingView};
use super::syntax::{AtomView, ExprView, FunctionView, GlobalView, LabelView, ProgramView, StmtView};
use super::translation::{lower_atom, lower_block, lower_expr, lower_stmt, Linkage};
use vstd::prelude::*;

verus! {

/// Whether the error `e` tells of something that an earlier stage should
/// have taken away: a string literal, a jump, or the target of one.
pub open spec fn leftover(e: CompileErrorView) -> bool {
    e is UninternedString || e is Goto || e is JumpTarget
}

/// Whether the statement `s` is ready to be translated: it holds no
/// string literal, no jump and no target of one.
pub open spec fn ready(s: StmtView) -> bool {
    stmt_interned(s) && structured(s)
}

/// An atom without string literals is not refused for one.
pub proof fn lemma_atom_no_leftover(cx: Linkage, ids: Map<Seq<char>, IdIndexView>, a: AtomView)
    requires
        atom_interned(a),
    ensures
        lower_atom(cx, ids, a) matches Err(e) ==> !leftover(e),
    decreases a,
{
    match a {
        AtomView::HTGet(x, y, _) => {
            lemma_atom_no_leftover(cx, ids, *x);
            lemma_atom_no_leftover(cx, ids, *y);
        },
        AtomView::Index(x, y, _) => {
            lemma_atom_no_leftover(cx, ids, *x);
            lemma_atom_no_leftover(cx, ids, *y);
        },
        AtomView::StringLen(x) => {
            lemma_atom_no_leftover(cx, ids, *x);
        },
        AtomView::Binary(_, x, y) => {
            lemma_atom_no_leftover(cx, ids, *x);
            lemma_atom_no_leftover(cx, ids, *y);
        },
        _ => {},
    }
}

/// Pushing arguments fails only for what is not in scope.
pub proof fn lemma_args_no_leftover(ids: Map<Seq<char>, IdIndexView>, args: Seq<Seq<char>>)
    ensures
        super::translation::lower_args(ids, args) matches Err(e) ==> !leftover(e),
    decreases args.len(),
{
    if args.len() != 0 {
        lemma_args_no_leftover(ids, args.drop_last());
    }
}

/// An expression without string literals is not refused for one.
pub proof fn lemma_expr_no_leftover(cx: Linkage, ids: Map<Seq<char>, IdIndexView>, e: ExprView)
    requires
        expr_interned(e),
    ensures
        lower_expr(cx, ids, e) matches Err(x) ==> !leftover(x),
{
    match e {
        ExprView::Atom(a) => {
            lemma_atom_no_leftover(cx, ids, a);
        },
        ExprView::HTSet(x, y, z, _) => {
            lemma_atom_no_leftover(cx, ids, x);
            lemma_atom_no_leftover(cx, ids, y);
            lemma_atom_no_leftover(cx, ids, z);
        },
        ExprView::Push(x, y, _) => {
            lemma_atom_no_leftover(cx, ids, x);
            lemma_atom_no_leftover(cx, ids, y);
        },
        ExprView::CallDirect(_, args) => {
            lemma_args_no_leftover(ids, args);
        },
        ExprView::CallIndirect(_, _, args) => {
            lemma_args_no_leftover(ids, args);
        },
        ExprView::ToString(a) => {
            lemma_atom_no_leftover(cx, ids, a);
        },
        _ => {},
    }
}

/// A statement that is ready is not refused for what an earlier stage
/// should have taken away.
pub proof fn lemma_stmt_no_leftover(cx: Linkage, env: EnvView, next: nat, s: StmtView)
    requires
        ready(s),
    ensures
        lower_stmt(cx, env, next, s) matches Err(e) ==> !leftover(e),
    decreases s,
{
    match s {
        StmtView::Block(ss) => {
            lemma_block_no_leftover(cx, env, next, ss);
        },
        StmtView::Var(_, e, _) => {
            lemma_expr_no_leftover(cx, env.ids, e);
        },
        StmtView::Assign(_, e) => {
            lemma_expr_no_leftover(cx, env.ids, e);
        },
        StmtView::If(c, a, b) => {
            lemma_atom_no_leftover(cx, env.ids, c);
            let inner = super::translation::nested(env, None);
            lemma_stmt_no_leftover(cx, inner, next, *a);
            if lower_stmt(cx, inner, next, *a) is Ok {
                let n = lower_stmt(cx, inner, next, *a)->Ok_0.locals.len();
                lemma_stmt_no_leftover(cx, inner, next + n, *b);
            }
        },
        StmtView::Loop(b) => {
            lemma_stmt_no_leftover(cx, super::translation::nested(env, None), next, *b);
        },
        StmtView::Label(l, b) => {
            lemma_stmt_no_leftover(
                cx,
                super::translation::nested(env, Some(l->Named_0)),
                next,
                *b,
            );
        },
        StmtView::Return(a) => {
            lemma_atom_no_leftover(cx, env.ids, a);
        },
        _ => {},
    }
}

/// Statements that are ready are not refused for what an earlier stage
/// should have taken away.
pub proof fn lemma_block_no_leftover(cx: Linkage, env: EnvView, next: nat, ss: Seq<StmtView>)
    requires
        forall|i: int| 0 <= i < ss.len() ==> stmt_interned(ss[i]),
        all_target_free(ss),
        first_goto_in(ss) is None,
    ensures
        lower_block(cx, env, next, ss) matches Err(e) ==> !leftover(e),
    decreases ss,
{
    if ss.len() != 0 {
        assert forall|i: int| 0 <= i < ss.drop_last().len() implies stmt_interned(
            ss.drop_last()[i],
        ) by {
            assert(ss.drop_last()[i] == ss[i]);
        }
        lemma_block_no_leftover(cx, env, next, ss.drop_last());
        assert(stmt_interned(ss[ss.len() - 1]));
        if lower_block(cx, env, next, ss.drop_last()) is Ok {
            let a = lower_block(cx, env, next, ss.drop_last())->Ok_0;
            lemma_stmt_no_leftover(
                cx,
                EnvView { labels: env.labels, ids: a.ids },
                next + a.locals.len(),
                ss.last(),
            );
        }
    }
}

/// Turning jumps into breaks brings in no string literal.
pub proof fn lemma_to_break_interned(s: StmtView, n: i32)
    requires
        stmt_interned(s),
    ensures
        stmt_interned(to_break(s, n)),
    decreases s,
{
    match s {
        StmtView::Block(ss) => {
            let out = to_break(s, n)->Block_0;
            assert forall|i: int| 0 <= i < out.len() implies stmt_interned(out[i]) by {
                lemma_to_break_interned(ss[i], n);
            }
        },
        StmtView::If(_, a, b) => {
            lemma_to_break_interned(*a, n);
            lemma_to_break_interned(*b, n);
        },
        StmtView::Loop(b) => {
            lemma_to_break_interned(*b, n);
        },
        StmtView::Label(_, b) => {
            lemma_to_break_interned(*b, n);
        },
        _ => {},
    }
}

/// Structuring brings in no string literal.
pub proof fn lemma_elim_interned(s: StmtView)
    requires
        stmt_interned(s),
    ensures
        stmt_interned(elim(s)),
    decreases s,
{
    match s {
        StmtView::Block(ss) => {
            assert forall|i: int| 0 <= i < ss.len() implies stmt_interned(ss[i]) by {}
            lemma_elim_block_interned(ss);
            let out = elim_block(ss);
            assert(elim(s) == StmtView::Block(out));
            assert forall|i: int| 0 <= i < out.len() implies stmt_interned(out[i]) by {}
        },
        StmtView::If(_, a, b) => {
            lemma_elim_interned(*a);
            lemma_elim_interned(*b);
        },
        StmtView::Loop(b) => {
            lemma_elim_interned(*b);
        },
        StmtView::Label(_, b) => {
            lemma_elim_interned(*b);
        },
        _ => {},
    }
}

/// Structuring the statements of a block brings in no string literal.
pub proof fn lemma_elim_block_interned(ss: Seq<StmtView>)
    requires
        forall|i: int| 0 <= i < ss.len() ==> stmt_interned(ss[i]),
    ensures
        forall|i: int| 0 <= i < elim_block(ss).len() ==> stmt_interned(elim_block(ss)[i]),
    decreases ss,
{
    if ss.len() != 0 {
        let before = elim_block(ss.drop_last());
        let out = elim_block(ss);
        assert forall|i: int| 0 <= i < ss.drop_last().len() implies stmt_interned(
            ss.drop_last()[i],
        ) by {
            assert(ss.drop_last()[i] == ss[i]);
        }
        lemma_elim_block_interned(ss.drop_last());
        assert(stmt_interned(ss[ss.len() - 1]));
        match ss.last() {
            StmtView::Label(LabelView::App(n), t) => {
                lemma_elim_interned(*t);
                let wrapped = wrap(before, n);
                assert(out == wrapped.push(elim(*t)));
                match first_index(jump_flags(before, n), true) {
                    None => {
                        assert forall|k: int| 0 <= k < out.len() implies stmt_interned(
                            out[k],
                        ) by {
                            if k < before.len() {
                                assert(out[k] == before[k]);
                            }
                        }
                    },
                    Some(i) => {
                        lemma_first_index(jump_flags(before, n), true);
                        let inner = all_to_break(before.skip(i as int), n);
                        assert forall|k: int| 0 <= k < inner.len() implies stmt_interned(
                            inner[k],
                        ) by {
                            lemma_to_break_interned(before[i + k], n);
                        }
                        let label = StmtView::Label(
                            LabelView::Named(target_name(n)),
                            Box::new(StmtView::Block(inner)),
                        );
                        assert(stmt_interned(StmtView::Block(inner)));
                        assert(stmt_interned(label));
                        assert(wrapped == before.take(i as int).push(label));
                        assert forall|k: int| 0 <= k < out.len() implies stmt_interned(
                            out[k],
                        ) by {
                            if k < i {
                                assert(out[k] == before[k]);
                            } else if k == i {
                                assert(out[k] == label);
                            }
                        }
                    },
                }
            },
            s => {
                lemma_elim_interned(s);
                assert forall|k: int| 0 <= k < out.len() implies stmt_interned(out[k]) by {
                    if k < before.len() {
                        assert(out[k] == before[k]);
                    }
                }
            },
        }
    }
}

/// Where no function holds a jump, none of them does.
pub proof fn lemma_first_goto_of(fs: Seq<(Seq<char>, FunctionView)>, i: int)
    requires
        first_goto_of(fs) is None,
        0 <= i < fs.len(),
    ensures
        first_goto(fs[i].1.body) is None,
    decreases fs.len(),
{
    if i < fs.len() - 1 {
        lemma_first_goto_of(fs.drop_last(), i);
    }
}

/// Functions whose bodies are ready are not refused for what an earlier
/// stage should have taken away.
pub proof fn lemma_functions_no_leftover(
    cx: Linkage,
    env: EnvView,
    fs: Seq<(Seq<char>, FunctionView)>,
)
    requires
        forall|i: int| 0 <= i < fs.len() ==> ready((#[trigger] fs[i]).1.body),
    ensures
        lower_functions(cx, env, fs) matches Err(e) ==> !leftover(e),
    decreases fs.len(),
{
    if fs.len() != 0 {
        assert forall|i: int| 0 <= i < fs.drop_last().len() implies ready(
            (#[trigger] fs.drop_last()[i]).1.body,
        ) by {
            assert(fs.drop_last()[i] == fs[i]);
        }
        lemma_functions_no_leftover(cx, env, fs.drop_last());
        let f = fs.last().1;
        assert(ready(fs[fs.len() - 1].1.body));
        let n = super::assembler::param_count(f);
        lemma_stmt_no_leftover(
            cx,
            EnvView { labels: env.labels, ids: super::assembler::bind_params(env.ids, f, n) },
            n,
            f.body,
        );
    }
}

/// Initializers without string literals are not refused for one.
pub proof fn lemma_globals_no_leftover(
    ids: Map<Seq<char>, IdIndexView>,
    gs: Seq<(Seq<char>, GlobalView)>,
)
    requires
        forall|i: int| 0 <= i < gs.len() ==> atom_interned((#[trigger] gs[i]).1.atom),
    ensures
        check_globals(ids, gs) matches Err(e) ==> !leftover(e),
    decreases gs.len(),
{
    if gs.len() != 0 {
        assert forall|i: int| 0 <= i < gs.drop_last().len() implies atom_interned(
            (#[trigger] gs.drop_last()[i]).1.atom,
        ) by {
            assert(gs.drop_last()[i] == gs[i]);
        }
        lemma_globals_no_leftover(ids, gs.drop_last());
        assert(atom_interned(gs[gs.len() - 1].1.atom));
        lemma_atom_no_leftover(no_linkage(), ids, gs.last().1.atom);
    }
}

/// A program whose statements are ready is not refused by the translation
/// for what an earlier stage should have taken away.
pub proof fn law_ready_programs(p: ProgramView, rt: Seq<BindingView>)
    requires
        forall|i: int| 0 <= i < p.functions.len() ==> ready((#[trigger] p.functions[i]).1.body),
        forall|i: int| 0 <= i < p.globals.len() ==> atom_interned((#[trigger] p.globals[i]).1.atom),
    ensures
        assemble(p, rt) matches Err(e) ==> !leftover(e),
{
    let names = super::assembler::function_names(p.functions);
    let env = EnvView { labels: Seq::empty(), ids: super::assembler::function_ids(names) };
    let cx = Linkage {
        rt: super::rt_bindings::binding_names(rt),
        types: super::assembler::type_section(rt, p.functions),
    };
    lemma_globals_no_leftover(env.ids, p.globals);
    lemma_functions_no_leftover(cx, env, p.functions);
}

/// Compiling never fails for a string literal, a jump or the target of a
/// jump: interning takes away the first and structuring the others, or
/// compiling has failed before the translation begins.
pub proof fn law_stages_fit(p: ProgramView)
    ensures
        compile_program(p) matches Err(e) ==> !leftover(e),
{
    if intern_program(p) is Ok {
        let q = intern_program(p)->Ok_0;
        law_interned_has_no_strings(p);
        if structure_program(q) is Ok {
            let r = structure_program(q)->Ok_0;
            assert forall|i: int| 0 <= i < r.functions.len() implies ready(
                (#[trigger] r.functions[i]).1.body,
            ) by {
                let body = q.functions[i].1.body;
                assert(stmt_interned(body));
                lemma_elim_interned(body);
                lemma_elim_target_free(body);
                lemma_first_goto_of(elim_functions(q.functions), i);
            }
            law_ready_programs(r, runtime_bindings());
        }
    }
}

} // verus!
