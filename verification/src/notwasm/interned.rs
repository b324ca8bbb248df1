//! Interning leaves no string literal: every literal of the program is in
//! the table that the program is rewritten with, at an offset that fits.

use super::intern::{
    collect_atom, collect_block, collect_expr, collect_functions, collect_globals, collect_program,
    collect_stmt, intern_program, intern_text, lemma_intern_text, rewrite_atom, rewrite_expr,
    rewrite_stmt, stored_at, table_wf, Interned,
};
use super::lookup::{first_index, lemma_first_index, lemma_first_index_push};
use super::syntax::{AtomView, ExprView, FunctionView, GlobalView, LitView, ProgramView, StmtView};
use vstd::prelude::*;

verus! {

/// Whether the table `t` has the text `s`.
pub open spec fn has(t: Interned, s: Seq<char>) -> bool {
    first_index(t.texts, s) is Some
}

/// Whether the table `u` has every text that the table `t` has.
pub open spec fn grows(t: Interned, u: Interned) -> bool {
    forall|s: Seq<char>| has(t, s) ==> has(u, s)
}

/// Whether the table `t` has the text of every string literal of `a`.
pub open spec fn covers_atom(t: Interned, a: AtomView) -> bool
    decreases a,
{
    match a {
        AtomView::Lit(LitView::String(s)) => has(t, s),
        AtomView::Lit(_) => true,
        AtomView::Id(_) => true,
        AtomView::HTGet(x, y, _) => covers_atom(t, *x) && covers_atom(t, *y),
        AtomView::Index(x, y, _) => covers_atom(t, *x) && covers_atom(t, *y),
        AtomView::StringLen(x) => covers_atom(t, *x),
        AtomView::Binary(_, x, y) => covers_atom(t, *x) && covers_atom(t, *y),
    }
}

/// Whether the table `t` has the text of every string literal of `e`.
pub open spec fn covers_expr(t: Interned, e: ExprView) -> bool {
    match e {
        ExprView::Atom(a) => covers_atom(t, a),
        ExprView::HTSet(x, y, z, _) => covers_atom(t, x) && covers_atom(t, y) && covers_atom(t, z),
        ExprView::Push(x, y, _) => covers_atom(t, x) && covers_atom(t, y),
        ExprView::ToString(a) => covers_atom(t, a),
        _ => true,
    }
}

/// Whether the table `t` has the text of every string literal of `s`.
pub open spec fn covers_stmt(t: Interned, s: StmtView) -> bool
    decreases s,
{
    match s {
        StmtView::Block(ss) => forall|i: int| 0 <= i < ss.len() ==> covers_stmt(t, ss[i]),
        StmtView::Var(_, e, _) => covers_expr(t, e),
        StmtView::Assign(_, e) => covers_expr(t, e),
        StmtView::If(c, a, b) => covers_atom(t, c) && covers_stmt(t, *a) && covers_stmt(t, *b),
        StmtView::Loop(b) => covers_stmt(t, *b),
        StmtView::Label(_, b) => covers_stmt(t, *b),
        StmtView::Return(a) => covers_atom(t, a),
        _ => true,
    }
}

/// Whether the atom `a` holds no string literal.
pub open spec fn atom_interned(a: AtomView) -> bool
    decreases a,
{
    match a {
        AtomView::Lit(LitView::String(_)) => false,
        AtomView::Lit(_) => true,
        AtomView::Id(_) => true,
        AtomView::HTGet(x, y, _) => atom_interned(*x) && atom_interned(*y),
        AtomView::Index(x, y, _) => atom_interned(*x) && atom_interned(*y),
        AtomView::StringLen(x) => atom_interned(*x),
        AtomView::Binary(_, x, y) => atom_interned(*x) && atom_interned(*y),
    }
}

/// Whether the expression `e` holds no string literal.
pub open spec fn expr_interned(e: ExprView) -> bool {
    match e {
        ExprView::Atom(a) => atom_interned(a),
        ExprView::HTSet(x, y, z, _) => atom_interned(x) && atom_interned(y) && atom_interned(z),
        ExprView::Push(x, y, _) => atom_interned(x) && atom_interned(y),
        ExprView::ToString(a) => atom_interned(a),
        _ => true,
    }
}

/// Whether the statement `s` holds no string literal.
pub open spec fn stmt_interned(s: StmtView) -> bool
    decreases s,
{
    match s {
        StmtView::Block(ss) => forall|i: int| 0 <= i < ss.len() ==> stmt_interned(ss[i]),
        StmtView::Var(_, e, _) => expr_interned(e),
        StmtView::Assign(_, e) => expr_interned(e),
        StmtView::If(c, a, b) => atom_interned(c) && stmt_interned(*a) && stmt_interned(*b),
        StmtView::Loop(b) => stmt_interned(*b),
        StmtView::Label(_, b) => stmt_interned(*b),
        StmtView::Return(a) => atom_interned(a),
        _ => true,
    }
}

/// Whether the program `p` holds no string literal.
pub open spec fn program_interned(p: ProgramView) -> bool {
    &&& forall|i: int| 0 <= i < p.functions.len() ==> stmt_interned(p.functions[i].1.body)
    &&& forall|i: int| 0 <= i < p.globals.len() ==> atom_interned(p.globals[i].1.atom)
}

/// Interning a text keeps every text and has the interned one.
pub proof fn lemma_intern_text_grows(t: Interned, s: Seq<char>)
    ensures
        grows(t, intern_text(t, s)),
        has(intern_text(t, s), s),
{
    lemma_first_index_push(t.texts, s, s);
    assert forall|x: Seq<char>| has(t, x) implies has(intern_text(t, s), x) by {
        lemma_first_index_push(t.texts, s, x);
    }
}

/// What a table has of an atom, a table that has grown from it has too.
pub proof fn lemma_covers_atom(t: Interned, u: Interned, a: AtomView)
    requires
        grows(t, u),
        covers_atom(t, a),
    ensures
        covers_atom(u, a),
    decreases a,
{
    match a {
        AtomView::HTGet(x, y, _) => {
            lemma_covers_atom(t, u, *x);
            lemma_covers_atom(t, u, *y);
        },
        AtomView::Index(x, y, _) => {
            lemma_covers_atom(t, u, *x);
            lemma_covers_atom(t, u, *y);
        },
        AtomView::StringLen(x) => {
            lemma_covers_atom(t, u, *x);
        },
        AtomView::Binary(_, x, y) => {
            lemma_covers_atom(t, u, *x);
            lemma_covers_atom(t, u, *y);
        },
        _ => {},
    }
}

/// What a table has of an expression, a table that has grown from it has
/// too.
pub proof fn lemma_covers_expr(t: Interned, u: Interned, e: ExprView)
    requires
        grows(t, u),
        covers_expr(t, e),
    ensures
        covers_expr(u, e),
{
    match e {
        ExprView::Atom(a) => {
            lemma_covers_atom(t, u, a);
        },
        ExprView::HTSet(x, y, z, _) => {
            lemma_covers_atom(t, u, x);
            lemma_covers_atom(t, u, y);
            lemma_covers_atom(t, u, z);
        },
        ExprView::Push(x, y, _) => {
            lemma_covers_atom(t, u, x);
            lemma_covers_atom(t, u, y);
        },
        ExprView::ToString(a) => {
            lemma_covers_atom(t, u, a);
        },
        _ => {},
    }
}

/// What a table has of a statement, a table that has grown from it has
/// too.
pub proof fn lemma_covers_stmt(t: Interned, u: Interned, s: StmtView)
    requires
        grows(t, u),
        covers_stmt(t, s),
    ensures
        covers_stmt(u, s),
    decreases s,
{
    match s {
        StmtView::Block(ss) => {
            assert forall|i: int| 0 <= i < ss.len() implies covers_stmt(u, ss[i]) by {
                lemma_covers_stmt(t, u, ss[i]);
            }
        },
        StmtView::Var(_, e, _) => {
            lemma_covers_expr(t, u, e);
        },
        StmtView::Assign(_, e) => {
            lemma_covers_expr(t, u, e);
        },
        StmtView::If(c, a, b) => {
            lemma_covers_atom(t, u, c);
            lemma_covers_stmt(t, u, *a);
            lemma_covers_stmt(t, u, *b);
        },
        StmtView::Loop(b) => {
            lemma_covers_stmt(t, u, *b);
        },
        StmtView::Label(_, b) => {
            lemma_covers_stmt(t, u, *b);
        },
        StmtView::Return(a) => {
            lemma_covers_atom(t, u, a);
        },
        _ => {},
    }
}

/// Collecting the literals of an atom keeps every text and has those of
/// the atom.
pub proof fn lemma_collect_atom(t: Interned, a: AtomView)
    ensures
        grows(t, collect_atom(t, a)),
        covers_atom(collect_atom(t, a), a),
    decreases a,
{
    match a {
        AtomView::Lit(LitView::String(s)) => {
            lemma_intern_text_grows(t, s);
        },
        AtomView::HTGet(x, y, _) => {
            let m = collect_atom(t, *x);
            lemma_collect_atom(t, *x);
            lemma_collect_atom(m, *y);
            lemma_covers_atom(m, collect_atom(m, *y), *x);
        },
        AtomView::Index(x, y, _) => {
            let m = collect_atom(t, *x);
            lemma_collect_atom(t, *x);
            lemma_collect_atom(m, *y);
            lemma_covers_atom(m, collect_atom(m, *y), *x);
        },
        AtomView::StringLen(x) => {
            lemma_collect_atom(t, *x);
        },
        AtomView::Binary(_, x, y) => {
            let m = collect_atom(t, *x);
            lemma_collect_atom(t, *x);
            lemma_collect_atom(m, *y);
            lemma_covers_atom(m, collect_atom(m, *y), *x);
        },
        _ => {},
    }
}

/// Collecting the literals of two atoms, one after the other.
pub proof fn lemma_collect_two(t: Interned, x: AtomView, y: AtomView)
    ensures
        grows(t, collect_atom(collect_atom(t, x), y)),
        covers_atom(collect_atom(collect_atom(t, x), y), x),
        covers_atom(collect_atom(collect_atom(t, x), y), y),
{
    let m = collect_atom(t, x);
    lemma_collect_atom(t, x);
    lemma_collect_atom(m, y);
    lemma_covers_atom(m, collect_atom(m, y), x);
}

/// Collecting the literals of an expression keeps every text and has
/// those of the expression.
pub proof fn lemma_collect_expr(t: Interned, e: ExprView)
    ensures
        grows(t, collect_expr(t, e)),
        covers_expr(collect_expr(t, e), e),
{
    match e {
        ExprView::Atom(a) => {
            lemma_collect_atom(t, a);
        },
        ExprView::HTSet(x, y, z, _) => {
            let m = collect_atom(collect_atom(t, x), y);
            lemma_collect_two(t, x, y);
            lemma_collect_atom(m, z);
            lemma_covers_atom(m, collect_atom(m, z), x);
            lemma_covers_atom(m, collect_atom(m, z), y);
        },
        ExprView::Push(x, y, _) => {
            lemma_collect_two(t, x, y);
        },
        ExprView::ToString(a) => {
            lemma_collect_atom(t, a);
        },
        _ => {},
    }
}

/// Collecting the literals of a statement keeps every text and has those
/// of the statement.
pub proof fn lemma_collect_stmt(t: Interned, s: StmtView)
    ensures
        grows(t, collect_stmt(t, s)),
        covers_stmt(collect_stmt(t, s), s),
    decreases s,
{
    match s {
        StmtView::Block(ss) => {
            lemma_collect_block(t, ss);
        },
        StmtView::Var(_, e, _) => {
            lemma_collect_expr(t, e);
        },
        StmtView::Assign(_, e) => {
            lemma_collect_expr(t, e);
        },
        StmtView::If(c, a, b) => {
            let m1 = collect_atom(t, c);
            let m2 = collect_stmt(m1, *a);
            let m3 = collect_stmt(m2, *b);
            lemma_collect_atom(t, c);
            lemma_collect_stmt(m1, *a);
            lemma_collect_stmt(m2, *b);
            lemma_covers_atom(m1, m3, c);
            lemma_covers_stmt(m2, m3, *a);
        },
        StmtView::Loop(b) => {
            lemma_collect_stmt(t, *b);
        },
        StmtView::Label(_, b) => {
            lemma_collect_stmt(t, *b);
        },
        StmtView::Return(a) => {
            lemma_collect_atom(t, a);
        },
        _ => {},
    }
}

/// Collecting the literals of the statements of a block keeps every text
/// and has those of each statement.
pub proof fn lemma_collect_block(t: Interned, ss: Seq<StmtView>)
    ensures
        grows(t, collect_block(t, ss)),
        forall|i: int| 0 <= i < ss.len() ==> covers_stmt(collect_block(t, ss), ss[i]),
    decreases ss,
{
    if ss.len() != 0 {
        let m = collect_block(t, ss.drop_last());
        let u = collect_block(t, ss);
        lemma_collect_block(t, ss.drop_last());
        lemma_collect_stmt(m, ss.last());
        assert forall|i: int| 0 <= i < ss.len() implies covers_stmt(u, ss[i]) by {
            if i < ss.len() - 1 {
                assert(ss.drop_last()[i] == ss[i]);
                lemma_covers_stmt(m, u, ss[i]);
            }
        }
    }
}

/// Collecting the literals of functions keeps every text and has those of
/// each body.
pub proof fn lemma_collect_functions(t: Interned, fs: Seq<(Seq<char>, FunctionView)>)
    ensures
        grows(t, collect_functions(t, fs)),
        forall|i: int|
            0 <= i < fs.len() ==> covers_stmt(collect_functions(t, fs), (#[trigger] fs[i]).1.body),
    decreases fs.len(),
{
    if fs.len() != 0 {
        let m = collect_functions(t, fs.drop_last());
        let u = collect_functions(t, fs);
        lemma_collect_functions(t, fs.drop_last());
        lemma_collect_stmt(m, fs.last().1.body);
        assert forall|i: int| 0 <= i < fs.len() implies covers_stmt(
            u,
            (#[trigger] fs[i]).1.body,
        ) by {
            if i < fs.len() - 1 {
                assert(fs.drop_last()[i] == fs[i]);
                lemma_covers_stmt(m, u, fs[i].1.body);
            }
        }
    }
}

/// Collecting the literals of globals keeps every text and has those of
/// each initializer.
pub proof fn lemma_collect_globals(t: Interned, gs: Seq<(Seq<char>, GlobalView)>)
    ensures
        grows(t, collect_globals(t, gs)),
        forall|i: int|
            0 <= i < gs.len() ==> covers_atom(collect_globals(t, gs), (#[trigger] gs[i]).1.atom),
    decreases gs.len(),
{
    if gs.len() != 0 {
        let m = collect_globals(t, gs.drop_last());
        let u = collect_globals(t, gs);
        lemma_collect_globals(t, gs.drop_last());
        lemma_collect_atom(m, gs.last().1.atom);
        assert forall|i: int| 0 <= i < gs.len() implies covers_atom(
            u,
            (#[trigger] gs[i]).1.atom,
        ) by {
            if i < gs.len() - 1 {
                assert(gs.drop_last()[i] == gs[i]);
                lemma_covers_atom(m, u, gs[i].1.atom);
            }
        }
    }
}

/// Whether every offset of the table `t` fits in 32 bits.
pub open spec fn offsets_fit(t: Interned) -> bool {
    table_wf(t) && t.data.len() <= u32::MAX
}

/// An atom whose literals the table has is rewritten to one without
/// string literals.
pub proof fn lemma_rewrite_atom(t: Interned, a: AtomView)
    requires
        offsets_fit(t),
        covers_atom(t, a),
    ensures
        atom_interned(rewrite_atom(t, a)),
    decreases a,
{
    match a {
        AtomView::Lit(LitView::String(s)) => {
            lemma_first_index(t.texts, s);
            let i = first_index(t.texts, s)->Some_0 as int;
            assert(stored_at(t.data, t.offsets[i], t.texts[i]));
        },
        AtomView::HTGet(x, y, _) => {
            lemma_rewrite_atom(t, *x);
            lemma_rewrite_atom(t, *y);
        },
        AtomView::Index(x, y, _) => {
            lemma_rewrite_atom(t, *x);
            lemma_rewrite_atom(t, *y);
        },
        AtomView::StringLen(x) => {
            lemma_rewrite_atom(t, *x);
        },
        AtomView::Binary(_, x, y) => {
            lemma_rewrite_atom(t, *x);
            lemma_rewrite_atom(t, *y);
        },
        _ => {},
    }
}

/// An expression whose literals the table has is rewritten to one
/// without string literals.
pub proof fn lemma_rewrite_expr(t: Interned, e: ExprView)
    requires
        offsets_fit(t),
        covers_expr(t, e),
    ensures
        expr_interned(rewrite_expr(t, e)),
{
    match e {
        ExprView::Atom(a) => {
            lemma_rewrite_atom(t, a);
        },
        ExprView::HTSet(x, y, z, _) => {
            lemma_rewrite_atom(t, x);
            lemma_rewrite_atom(t, y);
            lemma_rewrite_atom(t, z);
        },
        ExprView::Push(x, y, _) => {
            lemma_rewrite_atom(t, x);
            lemma_rewrite_atom(t, y);
        },
        ExprView::ToString(a) => {
            lemma_rewrite_atom(t, a);
        },
        _ => {},
    }
}

/// A statement whose literals the table has is rewritten to one without
/// string literals.
pub proof fn lemma_rewrite_stmt(t: Interned, s: StmtView)
    requires
        offsets_fit(t),
        covers_stmt(t, s),
    ensures
        stmt_interned(rewrite_stmt(t, s)),
    decreases s,
{
    match s {
        StmtView::Block(ss) => {
            let out = rewrite_stmt(t, s)->Block_0;
            assert forall|i: int| 0 <= i < out.len() implies stmt_interned(out[i]) by {
                lemma_rewrite_stmt(t, ss[i]);
            }
        },
        StmtView::Var(_, e, _) => {
            lemma_rewrite_expr(t, e);
        },
        StmtView::Assign(_, e) => {
            lemma_rewrite_expr(t, e);
        },
        StmtView::If(c, a, b) => {
            lemma_rewrite_atom(t, c);
            lemma_rewrite_stmt(t, *a);
            lemma_rewrite_stmt(t, *b);
        },
        StmtView::Loop(b) => {
            lemma_rewrite_stmt(t, *b);
        },
        StmtView::Label(_, b) => {
            lemma_rewrite_stmt(t, *b);
        },
        StmtView::Return(a) => {
            lemma_rewrite_atom(t, a);
        },
        _ => {},
    }
}

/// Collecting keeps the table as interning leaves it.
pub proof fn lemma_collect_atom_wf(t: Interned, a: AtomView)
    requires
        table_wf(t),
    ensures
        table_wf(collect_atom(t, a)),
    decreases a,
{
    match a {
        AtomView::Lit(LitView::String(s)) => {
            lemma_intern_text(t, s, s);
        },
        AtomView::HTGet(x, y, _) => {
            lemma_collect_atom_wf(t, *x);
            lemma_collect_atom_wf(collect_atom(t, *x), *y);
        },
        AtomView::Index(x, y, _) => {
            lemma_collect_atom_wf(t, *x);
            lemma_collect_atom_wf(collect_atom(t, *x), *y);
        },
        AtomView::StringLen(x) => {
            lemma_collect_atom_wf(t, *x);
        },
        AtomView::Binary(_, x, y) => {
            lemma_collect_atom_wf(t, *x);
            lemma_collect_atom_wf(collect_atom(t, *x), *y);
        },
        _ => {},
    }
}

/// Collecting keeps the table as interning leaves it.
pub proof fn lemma_collect_stmt_wf(t: Interned, s: StmtView)
    requires
        table_wf(t),
    ensures
        table_wf(collect_stmt(t, s)),
    decreases s,
{
    match s {
        StmtView::Block(ss) => {
            lemma_collect_block_wf(t, ss);
        },
        StmtView::Var(_, e, _) => {
            lemma_collect_expr_wf(t, e);
        },
        StmtView::Assign(_, e) => {
            lemma_collect_expr_wf(t, e);
        },
        StmtView::If(c, a, b) => {
            lemma_collect_atom_wf(t, c);
            lemma_collect_stmt_wf(collect_atom(t, c), *a);
            lemma_collect_stmt_wf(collect_stmt(collect_atom(t, c), *a), *b);
        },
        StmtView::Loop(b) => {
            lemma_collect_stmt_wf(t, *b);
        },
        StmtView::Label(_, b) => {
            lemma_collect_stmt_wf(t, *b);
        },
        StmtView::Return(a) => {
            lemma_collect_atom_wf(t, a);
        },
        _ => {},
    }
}

/// Collecting keeps the table as interning leaves it.
pub proof fn lemma_collect_expr_wf(t: Interned, e: ExprView)
    requires
        table_wf(t),
    ensures
        table_wf(collect_expr(t, e)),
{
    match e {
        ExprView::Atom(a) => {
            lemma_collect_atom_wf(t, a);
        },
        ExprView::HTSet(x, y, z, _) => {
            lemma_collect_atom_wf(t, x);
            lemma_collect_atom_wf(collect_atom(t, x), y);
            lemma_collect_atom_wf(collect_atom(collect_atom(t, x), y), z);
        },
        ExprView::Push(x, y, _) => {
            lemma_collect_atom_wf(t, x);
            lemma_collect_atom_wf(collect_atom(t, x), y);
        },
        ExprView::ToString(a) => {
            lemma_collect_atom_wf(t, a);
        },
        _ => {},
    }
}

/// Collecting keeps the table as interning leaves it.
pub proof fn lemma_collect_block_wf(t: Interned, ss: Seq<StmtView>)
    requires
        table_wf(t),
    ensures
        table_wf(collect_block(t, ss)),
    decreases ss,
{
    if ss.len() != 0 {
        lemma_collect_block_wf(t, ss.drop_last());
        lemma_collect_stmt_wf(collect_block(t, ss.drop_last()), ss.last());
    }
}

/// The table with which a program is rewritten is as interning leaves it.
pub proof fn lemma_collect_program_wf(p: ProgramView)
    ensures
        table_wf(collect_program(p)),
{
    let start = Interned { texts: Seq::empty(), offsets: Seq::empty(), data: p.data };
    lemma_collect_functions_wf(start, p.functions);
    lemma_collect_globals_wf(collect_functions(start, p.functions), p.globals);
}

/// Collecting keeps the table as interning leaves it.
pub proof fn lemma_collect_functions_wf(t: Interned, fs: Seq<(Seq<char>, FunctionView)>)
    requires
        table_wf(t),
    ensures
        table_wf(collect_functions(t, fs)),
    decreases fs.len(),
{
    if fs.len() != 0 {
        lemma_collect_functions_wf(t, fs.drop_last());
        lemma_collect_stmt_wf(collect_functions(t, fs.drop_last()), fs.last().1.body);
    }
}

/// Collecting keeps the table as interning leaves it.
pub proof fn lemma_collect_globals_wf(t: Interned, gs: Seq<(Seq<char>, GlobalView)>)
    requires
        table_wf(t),
    ensures
        table_wf(collect_globals(t, gs)),
    decreases gs.len(),
{
    if gs.len() != 0 {
        lemma_collect_globals_wf(t, gs.drop_last());
        lemma_collect_atom_wf(collect_globals(t, gs.drop_last()), gs.last().1.atom);
    }
}

/// An interned program holds no string literal: every literal has become
/// the offset of its text. The table that it was rewritten with is as
/// interning leaves it, so equal offsets there mean equal texts.
pub proof fn law_interned_has_no_strings(p: ProgramView)
    requires
        intern_program(p) is Ok,
    ensures
        program_interned(intern_program(p)->Ok_0),
        table_wf(collect_program(p)),
        intern_program(p)->Ok_0.data == collect_program(p).data,
{
    let start = Interned { texts: Seq::empty(), offsets: Seq::empty(), data: p.data };
    let m = collect_functions(start, p.functions);
    let t = collect_program(p);
    let q = intern_program(p)->Ok_0;
    lemma_collect_program_wf(p);
    lemma_collect_functions(start, p.functions);
    lemma_collect_globals(m, p.globals);
    assert forall|i: int| 0 <= i < q.functions.len() implies stmt_interned(
        q.functions[i].1.body,
    ) by {
        lemma_covers_stmt(m, t, p.functions[i].1.body);
        lemma_rewrite_stmt(t, p.functions[i].1.body);
    }
    assert forall|i: int| 0 <= i < q.globals.len() implies atom_interned(q.globals[i].1.atom) by {
        assert(covers_atom(t, p.globals[i].1.atom));
        lemma_rewrite_atom(t, p.globals[i].1.atom);
    }
}

} // verus!
