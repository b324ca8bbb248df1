//! Interns the string literals of a program.
//!
//! Each distinct literal is stored once in the program's data. What is
//! stored is the number of bytes of its text, as four bytes with the least
//! significant first, and then the bytes of the text in UTF-8. A literal
//! is replaced by the offset at which it is stored, so two literals with
//! the same text are replaced by the same offset, and two with different
//! texts by different ones.

use super::error::{CompileError, CompileErrorView};
use super::lookup::{first_index, lemma_first_index, lemma_first_index_is, lemma_first_index_push};
use super::syntax::{
    functions_view, globals_view, Atom, AtomView, Expr, ExprView, Function, FunctionView, Global,
    GlobalView, Id, Lit, LitView, Program, ProgramView, Stmt, StmtView,
};
use vstd::prelude::*;
use vstd::string::StrSliceExecFns;
use vstd::utf8::encode_utf8;

verus! {

/// What has been interned: the texts, in the order in which they came,
/// the offset of each, and the data that holds them.
pub ghost struct Interned {
    pub texts: Seq<Seq<char>>,
    pub offsets: Seq<nat>,
    pub data: Seq<u8>,
}

/// The four bytes that stand for the length `n`, least significant first.
pub open spec fn length_prefix(n: nat) -> Seq<u8> {
    seq![
        (n % 256) as u8,
        (n / 256 % 256) as u8,
        (n / 65536 % 256) as u8,
        (n / 16777216 % 256) as u8,
    ]
}

/// What is stored for the literal `text`.
pub open spec fn entry(text: Seq<char>) -> Seq<u8> {
    length_prefix(encode_utf8(text).len()) + encode_utf8(text)
}

/// `t` with `text` interned: stored at the end of the data, unless it was
/// interned before.
pub open spec fn intern_text(t: Interned, text: Seq<char>) -> Interned {
    if first_index(t.texts, text) is Some {
        t
    } else {
        Interned {
            texts: t.texts.push(text),
            offsets: t.offsets.push(t.data.len()),
            data: t.data + entry(text),
        }
    }
}

/// The offset at which `text` is stored, if it has been interned.
pub open spec fn offset_of(t: Interned, text: Seq<char>) -> Option<nat> {
    match first_index(t.texts, text) {
        Some(i) => Some(t.offsets[i as int]),
        None => None,
    }
}

/// Whether `data` holds the entry of `text` at `offset`.
pub open spec fn stored_at(data: Seq<u8>, offset: nat, text: Seq<char>) -> bool {
    &&& offset + entry(text).len() <= data.len()
    &&& data.subrange(offset as int, (offset + entry(text).len()) as int) == entry(text)
}

/// Whether `t` is as interning leaves it: no text stands twice, the
/// entries lie one after the other in the data, and each text's entry is
/// what the data holds at its offset.
pub open spec fn table_wf(t: Interned) -> bool {
    &&& t.offsets.len() == t.texts.len()
    &&& forall|i: int, j: int| 0 <= i < j < t.texts.len() ==> t.texts[i] != t.texts[j]
    &&& forall|i: int, j: int|
        0 <= i < j < t.texts.len() ==> t.offsets[i] + entry(t.texts[i]).len() <= t.offsets[j]
    &&& forall|i: int| 0 <= i < t.texts.len() ==> stored_at(t.data, t.offsets[i], t.texts[i])
}

/// Interning a text keeps the table as interning leaves it, and leaves
/// every text that was interned at its offset.
pub proof fn lemma_intern_text(t: Interned, text: Seq<char>, other: Seq<char>)
    requires
        table_wf(t),
    ensures
        table_wf(intern_text(t, text)),
        offset_of(intern_text(t, text), text) is Some,
        offset_of(t, other) is Some ==> offset_of(intern_text(t, text), other) == offset_of(
            t,
            other,
        ),
{
    lemma_first_index(t.texts, text);
    lemma_first_index_push(t.texts, text, text);
    lemma_first_index_push(t.texts, text, other);
    lemma_first_index(t.texts, other);
    if first_index(t.texts, text) is None {
        let u = intern_text(t, text);
        assert forall|i: int| 0 <= i < u.texts.len() implies stored_at(
            u.data,
            u.offsets[i],
            u.texts[i],
        ) by {
            let lo = u.offsets[i] as int;
            let hi = (u.offsets[i] + entry(u.texts[i]).len()) as int;
            if i < t.texts.len() {
                assert(stored_at(t.data, t.offsets[i], t.texts[i]));
                assert(u.data.subrange(lo, hi) =~= t.data.subrange(lo, hi));
            } else {
                assert(u.data.subrange(lo, hi) =~= entry(text));
            }
        }
    }
}

/// In a table as interning leaves it, two interned texts have the same
/// offset exactly where they are the same text, and the data holds each
/// text's entry at its offset.
pub proof fn law_offset_identity(t: Interned, a: Seq<char>, b: Seq<char>)
    requires
        table_wf(t),
        offset_of(t, a) is Some,
        offset_of(t, b) is Some,
    ensures
        offset_of(t, a) == offset_of(t, b) <==> a == b,
        stored_at(t.data, offset_of(t, a)->Some_0, a),
{
    lemma_first_index(t.texts, a);
    lemma_first_index(t.texts, b);
    let i = first_index(t.texts, a)->Some_0 as int;
    let j = first_index(t.texts, b)->Some_0 as int;
    assert(entry(a).len() >= 4);
    assert(entry(b).len() >= 4);
    assert(stored_at(t.data, t.offsets[i], t.texts[i]));
    if i < j {
        assert(t.offsets[i] + entry(t.texts[i]).len() <= t.offsets[j]);
    }
    if j < i {
        assert(t.offsets[j] + entry(t.texts[j]).len() <= t.offsets[i]);
    }
}

/// `t` with the literals of the atom `a` interned, in the order in which
/// they stand.
pub open spec fn collect_atom(t: Interned, a: AtomView) -> Interned
    decreases a,
{
    match a {
        AtomView::Lit(LitView::String(s)) => intern_text(t, s),
        AtomView::Lit(_) => t,
        AtomView::Id(_) => t,
        AtomView::HTGet(x, y, _) => collect_atom(collect_atom(t, *x), *y),
        AtomView::Index(x, y, _) => collect_atom(collect_atom(t, *x), *y),
        AtomView::StringLen(x) => collect_atom(t, *x),
        AtomView::Binary(_, x, y) => collect_atom(collect_atom(t, *x), *y),
    }
}

/// `t` with the literals of the expression `e` interned.
pub open spec fn collect_expr(t: Interned, e: ExprView) -> Interned {
    match e {
        ExprView::Atom(a) => collect_atom(t, a),
        ExprView::HTSet(x, y, z, _) => collect_atom(collect_atom(collect_atom(t, x), y), z),
        ExprView::Push(x, y, _) => collect_atom(collect_atom(t, x), y),
        ExprView::ToString(a) => collect_atom(t, a),
        _ => t,
    }
}

/// `t` with the literals of the statement `s` interned.
pub open spec fn collect_stmt(t: Interned, s: StmtView) -> Interned
    decreases s,
{
    match s {
        StmtView::Block(ss) => collect_block(t, ss),
        StmtView::Var(_, e, _) => collect_expr(t, e),
        StmtView::Assign(_, e) => collect_expr(t, e),
        StmtView::If(c, a, b) => collect_stmt(collect_stmt(collect_atom(t, c), *a), *b),
        StmtView::Loop(b) => collect_stmt(t, *b),
        StmtView::Label(_, b) => collect_stmt(t, *b),
        StmtView::Return(a) => collect_atom(t, a),
        _ => t,
    }
}

/// `t` with the literals of the statements `ss` interned.
pub open spec fn collect_block(t: Interned, ss: Seq<StmtView>) -> Interned
    decreases ss,
{
    if ss.len() == 0 {
        t
    } else {
        collect_stmt(collect_block(t, ss.drop_last()), ss.last())
    }
}

/// `t` with the literals of the functions `fs` interned.
pub open spec fn collect_functions(t: Interned, fs: Seq<(Seq<char>, FunctionView)>) -> Interned
    decreases fs.len(),
{
    if fs.len() == 0 {
        t
    } else {
        collect_stmt(collect_functions(t, fs.drop_last()), fs.last().1.body)
    }
}

/// `t` with the literals of the initializers of the globals `gs` interned.
pub open spec fn collect_globals(t: Interned, gs: Seq<(Seq<char>, GlobalView)>) -> Interned
    decreases gs.len(),
{
    if gs.len() == 0 {
        t
    } else {
        collect_atom(collect_globals(t, gs.drop_last()), gs.last().1.atom)
    }
}

/// The literal `l` with its text replaced by the offset that `t` has for
/// it, where `t` has one that fits in 32 bits.
pub open spec fn rewrite_lit(t: Interned, l: LitView) -> LitView {
    match l {
        LitView::String(s) => match offset_of(t, s) {
            Some(o) => if o <= u32::MAX {
                LitView::Interned(o as u32)
            } else {
                l
            },
            None => l,
        },
        _ => l,
    }
}

/// The atom `a` with each string literal replaced by its offset.
pub open spec fn rewrite_atom(t: Interned, a: AtomView) -> AtomView
    decreases a,
{
    match a {
        AtomView::Lit(l) => AtomView::Lit(rewrite_lit(t, l)),
        AtomView::Id(x) => a,
        AtomView::HTGet(x, y, ty) => AtomView::HTGet(
            Box::new(rewrite_atom(t, *x)),
            Box::new(rewrite_atom(t, *y)),
            ty,
        ),
        AtomView::Index(x, y, ty) => AtomView::Index(
            Box::new(rewrite_atom(t, *x)),
            Box::new(rewrite_atom(t, *y)),
            ty,
        ),
        AtomView::StringLen(x) => AtomView::StringLen(Box::new(rewrite_atom(t, *x))),
        AtomView::Binary(op, x, y) => AtomView::Binary(
            op,
            Box::new(rewrite_atom(t, *x)),
            Box::new(rewrite_atom(t, *y)),
        ),
    }
}

/// The expression `e` with each string literal replaced by its offset.
pub open spec fn rewrite_expr(t: Interned, e: ExprView) -> ExprView {
    match e {
        ExprView::Atom(a) => ExprView::Atom(rewrite_atom(t, a)),
        ExprView::HTSet(x, y, z, ty) => ExprView::HTSet(
            rewrite_atom(t, x),
            rewrite_atom(t, y),
            rewrite_atom(t, z),
            ty,
        ),
        ExprView::Push(x, y, ty) => ExprView::Push(rewrite_atom(t, x), rewrite_atom(t, y), ty),
        ExprView::ToString(a) => ExprView::ToString(rewrite_atom(t, a)),
        _ => e,
    }
}

/// The statement `s` with each string literal replaced by its offset.
pub open spec fn rewrite_stmt(t: Interned, s: StmtView) -> StmtView
    decreases s,
{
    match s {
        StmtView::Block(ss) => StmtView::Block(
            Seq::new(
                ss.len(),
                |i: int|
                    if 0 <= i < ss.len() {
                        rewrite_stmt(t, ss[i])
                    } else {
                        StmtView::Empty
                    },
            ),
        ),
        StmtView::Var(x, e, ty) => StmtView::Var(x, rewrite_expr(t, e), ty),
        StmtView::Assign(x, e) => StmtView::Assign(x, rewrite_expr(t, e)),
        StmtView::If(c, a, b) => StmtView::If(
            rewrite_atom(t, c),
            Box::new(rewrite_stmt(t, *a)),
            Box::new(rewrite_stmt(t, *b)),
        ),
        StmtView::Loop(b) => StmtView::Loop(Box::new(rewrite_stmt(t, *b))),
        StmtView::Label(l, b) => StmtView::Label(l, Box::new(rewrite_stmt(t, *b))),
        StmtView::Return(a) => StmtView::Return(rewrite_atom(t, a)),
        _ => s,
    }
}

/// The table with which the program `p` is rewritten: the literals of its
/// functions and then of its globals, interned after the data that the
/// program has already.
pub open spec fn collect_program(p: ProgramView) -> Interned {
    collect_globals(
        collect_functions(
            Interned { texts: Seq::empty(), offsets: Seq::empty(), data: p.data },
            p.functions,
        ),
        p.globals,
    )
}

/// The program `p` with every string literal interned, or why it cannot
/// be: the data must not be longer than offsets of 32 bits can reach.
pub open spec fn intern_program(p: ProgramView) -> Result<ProgramView, CompileErrorView> {
    let t = collect_program(p);
    if t.data.len() > u32::MAX {
        Err(CompileErrorView::DataTooLarge)
    } else {
        Ok(
            ProgramView {
                functions: Seq::new(
                    p.functions.len(),
                    |i: int|
                        (
                            p.functions[i].0,
                            FunctionView {
                                params: p.functions[i].1.params,
                                fn_type: p.functions[i].1.fn_type,
                                body: rewrite_stmt(t, p.functions[i].1.body),
                            },
                        ),
                ),
                globals: Seq::new(
                    p.globals.len(),
                    |i: int|
                        (
                            p.globals[i].0,
                            GlobalView {
                                is_mut: p.globals[i].1.is_mut,
                                ty: p.globals[i].1.ty,
                                atom: rewrite_atom(t, p.globals[i].1.atom),
                            },
                        ),
                ),
                data: t.data,
            },
        )
    }
}

/// The table of interned texts.
pub struct Interner {
    texts: Vec<String>,
    offsets: Vec<usize>,
    data: Vec<u8>,
}

impl View for Interner {
    type V = Interned;

    closed spec fn view(&self) -> Interned {
        Interned {
            texts: Seq::new(self.texts@.len(), |i: int| self.texts@[i]@),
            offsets: Seq::new(self.offsets@.len(), |i: int| self.offsets@[i] as nat),
            data: self.data@,
        }
    }
}

impl Interner {
    /// A table with nothing interned, whose data begins with `data`.
    pub fn new(data: Vec<u8>) -> (r: Interner)
        ensures
            r@ == (Interned { texts: Seq::empty(), offsets: Seq::empty(), data: data@ }),
            table_wf(r@),
    {
        let r = Interner { texts: Vec::new(), offsets: Vec::new(), data };
        assert(r@.texts =~= Seq::empty());
        assert(r@.offsets =~= Seq::empty());
        r
    }

    /// The data that holds the interned texts.
    pub fn into_data(self) -> (r: Vec<u8>)
        ensures
            r@ == self@.data,
    {
        self.data
    }

    /// Interns `text`.
    pub fn intern_text(&mut self, text: &str)
        requires
            table_wf(old(self)@),
        ensures
            final(self)@ == intern_text(old(self)@, text@),
            table_wf(final(self)@),
    {
        let ghost before = self@;
        proof {
            lemma_intern_text(before, text@, text@);
        }
        if self.find(text).is_some() {
            return ;
        }
        let mut bytes = text.as_bytes_vec();
        let n = bytes.len();
        let offset = self.data.len();
        self.texts.push(text.to_owned());
        self.offsets.push(offset);
        self.data.push((n % 256) as u8);
        self.data.push((n / 256 % 256) as u8);
        self.data.push((n / 65536 % 256) as u8);
        self.data.push((n / 16777216 % 256) as u8);
        self.data.append(&mut bytes);
        proof {
            assert(self@.texts =~= before.texts.push(text@));
            assert(self@.offsets =~= before.offsets.push(before.data.len()));
            assert(self@.data =~= before.data + entry(text@));
        }
    }

    /// The offset at which `text` is stored, if it has been interned.
    pub fn find(&self, text: &str) -> (r: Option<usize>)
        requires
            self@.offsets.len() == self@.texts.len(),
        ensures
            match offset_of(self@, text@) {
                Some(o) => r == Some(o as usize) && o <= usize::MAX,
                None => r is None,
            },
    {
        let wanted = text.to_owned();
        let ghost texts = self@.texts;
        let mut i: usize = 0;
        while i < self.texts.len()
            invariant
                i <= self.texts.len(),
                wanted@ == text@,
                texts == self@.texts,
                self@.offsets.len() == self@.texts.len(),
                forall|j: int| 0 <= j < i ==> texts[j] != text@,
            decreases self.texts.len() - i,
        {
            if self.texts[i] == wanted {
                proof {
                    lemma_first_index_is(texts, text@, i as nat);
                }
                return Some(self.offsets[i]);
            }
            i += 1;
        }
        proof {
            lemma_first_index(texts, text@);
        }
        None
    }

    /// Interns the literals of `atom`.
    pub fn collect_atom(&mut self, atom: &Atom)
        requires
            table_wf(old(self)@),
        ensures
            final(self)@ == collect_atom(old(self)@, atom@),
            table_wf(final(self)@),
        decreases atom,
    {
        match atom {
            Atom::Lit(Lit::String(s)) => self.intern_text(s.as_str()),
            Atom::Lit(_) => {},
            Atom::Id(_) => {},
            Atom::HTGet(x, y, _) => {
                self.collect_atom(x);
                self.collect_atom(y);
            },
            Atom::Index(x, y, _) => {
                self.collect_atom(x);
                self.collect_atom(y);
            },
            Atom::StringLen(x) => self.collect_atom(x),
            Atom::Binary(_, x, y) => {
                self.collect_atom(x);
                self.collect_atom(y);
            },
        }
    }

    /// Interns the literals of `expr`.
    pub fn collect_expr(&mut self, expr: &Expr)
        requires
            table_wf(old(self)@),
        ensures
            final(self)@ == collect_expr(old(self)@, expr@),
            table_wf(final(self)@),
    {
        match expr {
            Expr::Atom(a) => self.collect_atom(a),
            Expr::HTSet(x, y, z, _) => {
                self.collect_atom(x);
                self.collect_atom(y);
                self.collect_atom(z);
            },
            Expr::Push(x, y, _) => {
                self.collect_atom(x);
                self.collect_atom(y);
            },
            Expr::ToString(a) => self.collect_atom(a),
            _ => {},
        }
    }

    /// Interns the literals of `stmt`.
    pub fn collect_stmt(&mut self, stmt: &Stmt)
        requires
            table_wf(old(self)@),
        ensures
            final(self)@ == collect_stmt(old(self)@, stmt@),
            table_wf(final(self)@),
        decreases stmt,
    {
        match stmt {
            Stmt::Block(ss) => {
                let ghost views = stmt@->Block_0;
                let mut i: usize = 0;
                proof {
                    assert(views.take(0) =~= Seq::empty());
                }
                while i < ss.len()
                    invariant
                        i <= ss.len(),
                        stmt is Block,
                        *ss == stmt->Block_0,
                        views == stmt@->Block_0,
                        views.len() == ss.len(),
                        self@ == collect_block(old(self)@, views.take(i as int)),
                        table_wf(self@),
                    decreases ss.len() - i,
                {
                    proof {
                        broadcast use vstd::std_specs::vec::axiom_vec_index_decreases;

                        assert(decreases_to!(*stmt => stmt->Block_0[i as int]));
                        assert(views.take(i + 1).drop_last() =~= views.take(i as int));
                        assert(views.take(i + 1).last() == ss@[i as int]@);
                    }
                    self.collect_stmt(&ss[i]);
                    i += 1;
                }
                proof {
                    assert(views.take(i as int) =~= views);
                }
            },
            Stmt::Var(_, e, _) => self.collect_expr(e),
            Stmt::Assign(_, e) => self.collect_expr(e),
            Stmt::If(c, a, b) => {
                self.collect_atom(c);
                self.collect_stmt(a);
                self.collect_stmt(b);
            },
            Stmt::Loop(b) => self.collect_stmt(b),
            Stmt::Label(_, b) => self.collect_stmt(b),
            Stmt::Return(a) => self.collect_atom(a),
            _ => {},
        }
    }

    /// `atom` with each string literal replaced by its offset.
    pub fn rewrite_atom(&self, atom: &Atom) -> (r: Atom)
        requires
            self@.offsets.len() == self@.texts.len(),
        ensures
            r@ == rewrite_atom(self@, atom@),
        decreases atom,
    {
        match atom {
            Atom::Lit(Lit::String(s)) => match self.find(s.as_str()) {
                Some(o) => if o <= u32::MAX as usize {
                    Atom::Lit(Lit::Interned(o as u32))
                } else {
                    atom.clone()
                },
                None => atom.clone(),
            },
            Atom::Lit(_) => atom.clone(),
            Atom::Id(_) => atom.clone(),
            Atom::HTGet(x, y, ty) => Atom::HTGet(
                Box::new(self.rewrite_atom(x)),
                Box::new(self.rewrite_atom(y)),
                ty.clone(),
            ),
            Atom::Index(x, y, ty) => Atom::Index(
                Box::new(self.rewrite_atom(x)),
                Box::new(self.rewrite_atom(y)),
                ty.clone(),
            ),
            Atom::StringLen(x) => Atom::StringLen(Box::new(self.rewrite_atom(x))),
            Atom::Binary(op, x, y) => Atom::Binary(
                *op,
                Box::new(self.rewrite_atom(x)),
                Box::new(self.rewrite_atom(y)),
            ),
        }
    }

    /// `expr` with each string literal replaced by its offset.
    pub fn rewrite_expr(&self, expr: &Expr) -> (r: Expr)
        requires
            self@.offsets.len() == self@.texts.len(),
        ensures
            r@ == rewrite_expr(self@, expr@),
    {
        match expr {
            Expr::Atom(a) => Expr::Atom(self.rewrite_atom(a)),
            Expr::HTSet(x, y, z, ty) => Expr::HTSet(
                self.rewrite_atom(x),
                self.rewrite_atom(y),
                self.rewrite_atom(z),
                ty.clone(),
            ),
            Expr::Push(x, y, ty) => Expr::Push(
                self.rewrite_atom(x),
                self.rewrite_atom(y),
                ty.clone(),
            ),
            Expr::ToString(a) => Expr::ToString(self.rewrite_atom(a)),
            _ => expr.clone(),
        }
    }

    /// `stmt` with each string literal replaced by its offset.
    pub fn rewrite_stmt(&self, stmt: &Stmt) -> (r: Stmt)
        requires
            self@.offsets.len() == self@.texts.len(),
        ensures
            r@ == rewrite_stmt(self@, stmt@),
        decreases stmt,
    {
        match stmt {
            Stmt::Block(ss) => {
                let ghost views = stmt@->Block_0;
                let mut out: Vec<Stmt> = Vec::new();
                let mut i: usize = 0;
                while i < ss.len()
                    invariant
                        i <= ss.len(),
                        out.len() == i,
                        stmt is Block,
                        *ss == stmt->Block_0,
                        views == stmt@->Block_0,
                        views.len() == ss.len(),
                        self@.offsets.len() == self@.texts.len(),
                        forall|j: int| 0 <= j < i ==> out@[j]@ == rewrite_stmt(self@, views[j]),
                    decreases ss.len() - i,
                {
                    proof {
                        broadcast use vstd::std_specs::vec::axiom_vec_index_decreases;

                        assert(decreases_to!(*stmt => stmt->Block_0[i as int]));
                        assert(views[i as int] == ss@[i as int]@);
                    }
                    out.push(self.rewrite_stmt(&ss[i]));
                    i += 1;
                }
                let r = Stmt::Block(out);
                proof {
                    assert(r@->Block_0 =~= rewrite_stmt(self@, stmt@)->Block_0);
                }
                r
            },
            Stmt::Var(x, e, ty) => Stmt::Var(x.clone(), self.rewrite_expr(e), ty.clone()),
            Stmt::Assign(x, e) => Stmt::Assign(x.clone(), self.rewrite_expr(e)),
            Stmt::If(c, a, b) => Stmt::If(
                self.rewrite_atom(c),
                Box::new(self.rewrite_stmt(a)),
                Box::new(self.rewrite_stmt(b)),
            ),
            Stmt::Loop(b) => Stmt::Loop(Box::new(self.rewrite_stmt(b))),
            Stmt::Label(l, b) => Stmt::Label(l.clone(), Box::new(self.rewrite_stmt(b))),
            Stmt::Return(a) => Stmt::Return(self.rewrite_atom(a)),
            _ => stmt.clone(),
        }
    }
}

/// Interns every string literal of `program`: each is replaced by the
/// offset of its text in the program's data, to which the texts are added.
/// Where an offset would not fit in 32 bits there is no result.
pub fn intern(program: Program) -> (r: Result<Program, CompileError>)
    ensures
        match intern_program(program@) {
            Ok(p) => r is Ok && r->Ok_0@ == p,
            Err(e) => r is Err && r->Err_0@ == e,
        },
        table_wf(collect_program(program@)),
{
    let ghost p = program@;
    let Program { functions, globals, data } = program;
    let ghost fviews = functions_view(functions@);
    let ghost gviews = globals_view(globals@);
    let mut table = Interner::new(data);
    let ghost start = table@;
    let mut i: usize = 0;
    proof {
        assert(fviews.take(0) =~= Seq::empty());
    }
    while i < functions.len()
        invariant
            i <= functions.len(),
            fviews == functions_view(functions@),
            table@ == collect_functions(start, fviews.take(i as int)),
            table_wf(table@),
        decreases functions.len() - i,
    {
        proof {
            assert(fviews.take(i + 1).drop_last() =~= fviews.take(i as int));
            assert(fviews.take(i + 1).last().1.body == functions@[i as int].1.body@);
        }
        table.collect_stmt(&functions[i].1.body);
        i += 1;
    }
    proof {
        assert(fviews.take(i as int) =~= fviews);
        assert(gviews.take(0) =~= Seq::empty());
    }
    let ghost middle = table@;
    let mut k: usize = 0;
    while k < globals.len()
        invariant
            k <= globals.len(),
            gviews == globals_view(globals@),
            table@ == collect_globals(middle, gviews.take(k as int)),
            table_wf(table@),
        decreases globals.len() - k,
    {
        proof {
            assert(gviews.take(k + 1).drop_last() =~= gviews.take(k as int));
            assert(gviews.take(k + 1).last().1.atom == globals@[k as int].1.atom@);
        }
        table.collect_atom(&globals[k].1.atom);
        k += 1;
    }
    proof {
        assert(gviews.take(k as int) =~= gviews);
        assert(table@ == collect_program(p));
    }
    if table.data.len() > u32::MAX as usize {
        return Err(CompileError::DataTooLarge);
    }
    let mut new_functions: Vec<(Id, Function)> = Vec::new();
    let mut i: usize = 0;
    while i < functions.len()
        invariant
            i <= functions.len(),
            new_functions.len() == i,
            fviews == functions_view(functions@),
            table_wf(table@),
            forall|j: int|
                0 <= j < i ==> (#[trigger] new_functions@[j]).0@ == fviews[j].0
                    && new_functions@[j].1@ == (FunctionView {
                    params: fviews[j].1.params,
                    fn_type: fviews[j].1.fn_type,
                    body: rewrite_stmt(table@, fviews[j].1.body),
                }),
        decreases functions.len() - i,
    {
        let f = &functions[i].1;
        let body = table.rewrite_stmt(&f.body);
        let g = Function {
            params: super::syntax::clone_ids(&f.params),
            fn_type: f.fn_type.clone(),
            body,
        };
        new_functions.push((functions[i].0.clone(), g));
        i += 1;
    }
    let mut new_globals: Vec<(Id, Global)> = Vec::new();
    let mut k: usize = 0;
    while k < globals.len()
        invariant
            k <= globals.len(),
            new_globals.len() == k,
            gviews == globals_view(globals@),
            table_wf(table@),
            forall|j: int|
                0 <= j < k ==> (#[trigger] new_globals@[j]).0@ == gviews[j].0 && new_globals@[j].1@
                    == (GlobalView {
                    is_mut: gviews[j].1.is_mut,
                    ty: gviews[j].1.ty,
                    atom: rewrite_atom(table@, gviews[j].1.atom),
                }),
        decreases globals.len() - k,
    {
        let g = &globals[k].1;
        let h = Global { is_mut: g.is_mut, ty: g.ty.clone(), atom: table.rewrite_atom(&g.atom) };
        new_globals.push((globals[k].0.clone(), h));
        k += 1;
    }
    let ghost t = table@;
    let r = Program { functions: new_functions, globals: new_globals, data: table.into_data() };
    proof {
        let want = intern_program(p)->Ok_0;
        assert(r@.functions =~= want.functions);
        assert(r@.globals =~= want.globals);
    }
    Ok(r)
}

} // verus!
