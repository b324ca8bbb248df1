//! Structures control flow: rewrites jumps as breaks out of labelled
//! blocks.
//!
//! The target of a jump is a statement of a block that carries a label
//! `App`. A jump to it from a statement that stands before it in the same
//! block, or from inside such a statement, leaves every block between the
//! jump and the target. So the statements from the first that holds such a
//! jump up to the target are put into one block with a new label, and the
//! jump becomes a break to that label: control goes on behind the new
//! block, which is where the target stands. A jump that is left when all
//! targets have been treated this way goes backward, or into a statement,
//! and cannot be structured.

use super::error::{CompileError, CompileErrorView};
use super::lookup::{first_index, lemma_first_index, lemma_first_index_is};
use super::syntax::{
    functions_view, stmts_view, Function, FunctionView, Id, Label, LabelView, Program,
    ProgramView, Stmt, StmtView,
};
use vstd::prelude::*;
use vstd::string::StringExecFns;

verus! {

/// The character of the digit `d`.
pub open spec fn digit(d: nat) -> char {
    if d == 0 {
        '0'
    } else if d == 1 {
        '1'
    } else if d == 2 {
        '2'
    } else if d == 3 {
        '3'
    } else if d == 4 {
        '4'
    } else if d == 5 {
        '5'
    } else if d == 6 {
        '6'
    } else if d == 7 {
        '7'
    } else if d == 8 {
        '8'
    } else {
        '9'
    }
}

/// The number `n` in decimal digits.
pub open spec fn decimal(n: nat) -> Seq<char>
    decreases n,
{
    if n < 10 {
        seq![digit(n)]
    } else {
        decimal(n / 10) + seq![digit(n % 10)]
    }
}

/// The name of the label that stands for the target `n` once jumps to it
/// have become breaks.
pub open spec fn target_name(n: i32) -> Seq<char> {
    if n < 0 {
        "$goto-"@ + decimal((-n) as nat)
    } else {
        "$goto"@ + decimal(n as nat)
    }
}

/// Whether the statement `s` holds a jump to the target `n`.
pub open spec fn jumps_to(s: StmtView, n: i32) -> bool
    decreases s,
{
    match s {
        StmtView::Block(ss) => jumps_in(ss, n),
        StmtView::If(_, a, b) => jumps_to(*a, n) || jumps_to(*b, n),
        StmtView::Loop(b) => jumps_to(*b, n),
        StmtView::Label(_, b) => jumps_to(*b, n),
        StmtView::Goto(l) => l == LabelView::App(n),
        _ => false,
    }
}

/// Whether one of the statements `ss` holds a jump to the target `n`.
pub open spec fn jumps_in(ss: Seq<StmtView>, n: i32) -> bool
    decreases ss,
{
    if ss.len() == 0 {
        false
    } else {
        jumps_in(ss.drop_last(), n) || jumps_to(ss.last(), n)
    }
}

/// The statement `s` with each jump to the target `n` turned into a break
/// to the label that stands for `n`.
pub open spec fn to_break(s: StmtView, n: i32) -> StmtView
    decreases s,
{
    match s {
        StmtView::Block(ss) => StmtView::Block(
            Seq::new(
                ss.len(),
                |i: int|
                    if 0 <= i < ss.len() {
                        to_break(ss[i], n)
                    } else {
                        StmtView::Empty
                    },
            ),
        ),
        StmtView::If(c, a, b) => StmtView::If(
            c,
            Box::new(to_break(*a, n)),
            Box::new(to_break(*b, n)),
        ),
        StmtView::Loop(b) => StmtView::Loop(Box::new(to_break(*b, n))),
        StmtView::Label(l, b) => StmtView::Label(l, Box::new(to_break(*b, n))),
        StmtView::Goto(l) => if l == LabelView::App(n) {
            StmtView::Break(LabelView::Named(target_name(n)))
        } else {
            s
        },
        _ => s,
    }
}

/// The statements `ss`, each with its jumps to `n` turned into breaks.
pub open spec fn all_to_break(ss: Seq<StmtView>, n: i32) -> Seq<StmtView> {
    Seq::new(ss.len(), |i: int| to_break(ss[i], n))
}

/// For each of the statements `ss`, whether it holds a jump to `n`.
pub open spec fn jump_flags(ss: Seq<StmtView>, n: i32) -> Seq<bool> {
    Seq::new(ss.len(), |i: int| jumps_to(ss[i], n))
}

/// The statements `acc`, which stand before the target `n` in a block,
/// made fit for control to reach the target from any jump in them: those
/// from the first that holds a jump to `n` on stand in a block with the
/// label of `n`, and their jumps to `n` are breaks.
pub open spec fn wrap(acc: Seq<StmtView>, n: i32) -> Seq<StmtView> {
    match first_index(jump_flags(acc, n), true) {
        None => acc,
        Some(i) => acc.take(i as int).push(
            StmtView::Label(
                LabelView::Named(target_name(n)),
                Box::new(StmtView::Block(all_to_break(acc.skip(i as int), n))),
            ),
        ),
    }
}

/// The statement `s` with the jumps structured that can be.
pub open spec fn elim(s: StmtView) -> StmtView
    decreases s,
{
    match s {
        StmtView::Block(ss) => StmtView::Block(elim_block(ss)),
        StmtView::If(c, a, b) => StmtView::If(c, Box::new(elim(*a)), Box::new(elim(*b))),
        StmtView::Loop(b) => StmtView::Loop(Box::new(elim(*b))),
        StmtView::Label(l, b) => match l {
            // A target that is no statement of a block has nothing before
            // it to jump from.
            LabelView::App(_) => elim(*b),
            LabelView::Named(_) => StmtView::Label(l, Box::new(elim(*b))),
        },
        _ => s,
    }
}

/// The statements `ss` of a block with the jumps structured that can be.
pub open spec fn elim_block(ss: Seq<StmtView>) -> Seq<StmtView>
    decreases ss,
{
    if ss.len() == 0 {
        Seq::empty()
    } else {
        match ss.last() {
            StmtView::Label(LabelView::App(n), t) => wrap(elim_block(ss.drop_last()), n).push(
                elim(*t),
            ),
            s => elim_block(ss.drop_last()).push(elim(s)),
        }
    }
}

/// The label of the first jump that the statement `s` holds, if any.
pub open spec fn first_goto(s: StmtView) -> Option<LabelView>
    decreases s,
{
    match s {
        StmtView::Block(ss) => first_goto_in(ss),
        StmtView::If(_, a, b) => match first_goto(*a) {
            Some(l) => Some(l),
            None => first_goto(*b),
        },
        StmtView::Loop(b) => first_goto(*b),
        StmtView::Label(_, b) => first_goto(*b),
        StmtView::Goto(l) => Some(l),
        _ => None,
    }
}

/// The label of the first jump that the statements `ss` hold, if any.
pub open spec fn first_goto_in(ss: Seq<StmtView>) -> Option<LabelView>
    decreases ss,
{
    if ss.len() == 0 {
        None
    } else {
        match first_goto_in(ss.drop_last()) {
            Some(l) => Some(l),
            None => first_goto(ss.last()),
        }
    }
}

/// The statement `s` with its jumps structured, or the label of the first
/// jump that cannot be.
pub open spec fn structure(s: StmtView) -> Result<StmtView, CompileErrorView> {
    match first_goto(elim(s)) {
        Some(l) => Err(CompileErrorView::Unstructured(l)),
        None => Ok(elim(s)),
    }
}

/// The digit `d` as a string.
fn digit_str(d: u32) -> (r: &'static str)
    requires
        d < 10,
    ensures
        r@ == seq![digit(d as nat)],
{
    proof {
        reveal_strlit("0");
        reveal_strlit("1");
        reveal_strlit("2");
        reveal_strlit("3");
        reveal_strlit("4");
        reveal_strlit("5");
        reveal_strlit("6");
        reveal_strlit("7");
        reveal_strlit("8");
        reveal_strlit("9");
    }
    let r = if d == 0 {
        "0"
    } else if d == 1 {
        "1"
    } else if d == 2 {
        "2"
    } else if d == 3 {
        "3"
    } else if d == 4 {
        "4"
    } else if d == 5 {
        "5"
    } else if d == 6 {
        "6"
    } else if d == 7 {
        "7"
    } else if d == 8 {
        "8"
    } else {
        "9"
    };
    assert(r@ =~= seq![digit(d as nat)]);
    r
}

/// The number `n` in decimal digits.
fn decimal_string(n: u32) -> (r: String)
    ensures
        r@ == decimal(n as nat),
    decreases n,
{
    if n < 10 {
        String::from_str(digit_str(n))
    } else {
        decimal_string(n / 10).concat(digit_str(n % 10))
    }
}

/// The label that stands for the target `n`.
pub fn target_label(n: i32) -> (r: Label)
    ensures
        r@ == LabelView::Named(target_name(n)),
{
    if n < 0 {
        // The magnitude of the least number is one more than the greatest.
        let m: u32 = if n == i32::MIN {
            0x8000_0000
        } else {
            (-n) as u32
        };
        Label::Named(String::from_str("$goto-").concat(decimal_string(m).as_str()))
    } else {
        Label::Named(String::from_str("$goto").concat(decimal_string(n as u32).as_str()))
    }
}

/// Whether `label` is the label of the target `n`.
fn is_target(label: &Label, n: i32) -> (r: bool)
    ensures
        r == (label@ == LabelView::App(n)),
{
    match label {
        Label::App(m) => *m == n,
        Label::Named(_) => false,
    }
}

/// Whether `stmt` holds a jump to the target `n`.
pub fn holds_jump(stmt: &Stmt, n: i32) -> (r: bool)
    ensures
        r == jumps_to(stmt@, n),
    decreases stmt,
{
    match stmt {
        Stmt::Block(ss) => {
            let ghost views = stmt@->Block_0;
            let mut found = false;
            let mut i: usize = 0;
            proof {
                assert(views.take(0) =~= Seq::empty());
            }
            while i < ss.len()
                invariant
                    i <= ss.len(),
                    stmt is Block,
                    *ss == stmt->Block_0,
                    views == stmt@->Block_0,
                    views.len() == ss.len(),
                    found == jumps_in(views.take(i as int), n),
                decreases ss.len() - i,
            {
                proof {
                    broadcast use vstd::std_specs::vec::axiom_vec_index_decreases;

                    assert(decreases_to!(*stmt => stmt->Block_0[i as int]));
                    assert(views.take(i + 1).drop_last() =~= views.take(i as int));
                    assert(views.take(i + 1).last() == ss@[i as int]@);
                }
                if holds_jump(&ss[i], n) {
                    found = true;
                }
                i += 1;
            }
            proof {
                assert(views.take(i as int) =~= views);
            }
            found
        },
        Stmt::If(_, a, b) => holds_jump(a, n) || holds_jump(b, n),
        Stmt::Loop(b) => holds_jump(b, n),
        Stmt::Label(_, b) => holds_jump(b, n),
        Stmt::Goto(l) => is_target(l, n),
        _ => false,
    }
}

/// `stmt` with each jump to the target `n` turned into a break.
pub fn jumps_to_breaks(stmt: &Stmt, n: i32) -> (r: Stmt)
    ensures
        r@ == to_break(stmt@, n),
    decreases stmt,
{
    match stmt {
        Stmt::Block(ss) => {
            let ghost views = stmt@->Block_0;
            let mut out: Vec<Stmt> = Vec::new();
            let mut i: usize = 0;
            while i < ss.len()
                invariant
                    i <= ss.len(),
                    out.len() == i,
                    stmt is Block,
                    *ss == stmt->Block_0,
                    views == stmt@->Block_0,
                    views.len() == ss.len(),
                    forall|j: int| 0 <= j < i ==> out@[j]@ == to_break(views[j], n),
                decreases ss.len() - i,
            {
                proof {
                    broadcast use vstd::std_specs::vec::axiom_vec_index_decreases;

                    assert(decreases_to!(*stmt => stmt->Block_0[i as int]));
                    assert(views[i as int] == ss@[i as int]@);
                }
                out.push(jumps_to_breaks(&ss[i], n));
                i += 1;
            }
            let r = Stmt::Block(out);
            proof {
                assert(r@->Block_0 =~= to_break(stmt@, n)->Block_0);
            }
            r
        },
        Stmt::If(c, a, b) => Stmt::If(
            c.clone(),
            Box::new(jumps_to_breaks(a, n)),
            Box::new(jumps_to_breaks(b, n)),
        ),
        Stmt::Loop(b) => Stmt::Loop(Box::new(jumps_to_breaks(b, n))),
        Stmt::Label(l, b) => Stmt::Label(l.clone(), Box::new(jumps_to_breaks(b, n))),
        Stmt::Goto(l) => if is_target(l, n) {
            Stmt::Break(target_label(n))
        } else {
            stmt.clone()
        },
        _ => stmt.clone(),
    }
}

/// The label of the first jump that `stmt` holds, if any.
pub fn find_goto(stmt: &Stmt) -> (r: Option<Label>)
    ensures
        match first_goto(stmt@) {
            Some(l) => r is Some && r->Some_0@ == l,
            None => r is None,
        },
    decreases stmt,
{
    match stmt {
        Stmt::Block(ss) => {
            let ghost views = stmt@->Block_0;
            let mut found: Option<Label> = None;
            let mut i: usize = 0;
            proof {
                assert(views.take(0) =~= Seq::empty());
            }
            while i < ss.len()
                invariant
                    i <= ss.len(),
                    stmt is Block,
                    *ss == stmt->Block_0,
                    views == stmt@->Block_0,
                    views.len() == ss.len(),
                    match first_goto_in(views.take(i as int)) {
                        Some(l) => found is Some && found->Some_0@ == l,
                        None => found is None,
                    },
                decreases ss.len() - i,
            {
                proof {
                    broadcast use vstd::std_specs::vec::axiom_vec_index_decreases;

                    assert(decreases_to!(*stmt => stmt->Block_0[i as int]));
                    assert(views.take(i + 1).drop_last() =~= views.take(i as int));
                    assert(views.take(i + 1).last() == ss@[i as int]@);
                }
                if found.is_none() {
                    found = find_goto(&ss[i]);
                }
                i += 1;
            }
            proof {
                assert(views.take(i as int) =~= views);
            }
            found
        },
        Stmt::If(_, a, b) => match find_goto(a) {
            Some(l) => Some(l),
            None => find_goto(b),
        },
        Stmt::Loop(b) => find_goto(b),
        Stmt::Label(_, b) => find_goto(b),
        Stmt::Goto(l) => Some(l.clone()),
        _ => None,
    }
}

/// Makes the statements of `acc`, which stand before the target `n`, fit
/// for control to reach the target from any jump in them.
fn wrap_jumps(acc: &mut Vec<Stmt>, n: i32)
    ensures
        stmts_view(final(acc)@) == wrap(stmts_view(old(acc)@), n),
{
    let ghost views = stmts_view(acc@);
    let ghost flags = jump_flags(views, n);
    let mut i: usize = 0;
    while i < acc.len()
        invariant
            i <= acc.len(),
            *acc == *old(acc),
            views == stmts_view(acc@),
            flags == jump_flags(views, n),
            forall|j: int| 0 <= j < i ==> !flags[j],
        decreases acc.len() - i,
    {
        if holds_jump(&acc[i], n) {
            proof {
                lemma_first_index_is(flags, true, i as nat);
            }
            let tail = acc.split_off(i);
            let mut inner: Vec<Stmt> = Vec::new();
            let mut k: usize = 0;
            while k < tail.len()
                invariant
                    k <= tail.len(),
                    inner.len() == k,
                    forall|j: int| 0 <= j < k ==> inner@[j]@ == to_break(tail@[j]@, n),
                decreases tail.len() - k,
            {
                inner.push(jumps_to_breaks(&tail[k], n));
                k += 1;
            }
            let ghost kept = stmts_view(acc@);
            let block = Stmt::Block(inner);
            let wrapped = Stmt::Label(target_label(n), Box::new(block));
            proof {
                assert(kept =~= views.take(i as int));
                assert(block@->Block_0 =~= all_to_break(views.skip(i as int), n));
            }
            acc.push(wrapped);
            proof {
                assert(stmts_view(acc@) =~= kept.push(wrapped@));
            }
            return ;
        }
        i += 1;
    }
    proof {
        lemma_first_index(flags, true);
    }
}

/// `stmt` with the jumps structured that can be.
pub fn elim_stmt(stmt: &Stmt) -> (r: Stmt)
    ensures
        r@ == elim(stmt@),
    decreases stmt,
{
    match stmt {
        Stmt::Block(ss) => {
            let ghost views = stmt@->Block_0;
            let mut acc: Vec<Stmt> = Vec::new();
            let mut i: usize = 0;
            proof {
                assert(views.take(0) =~= Seq::empty());
                assert(stmts_view(acc@) =~= Seq::empty());
            }
            while i < ss.len()
                invariant
                    i <= ss.len(),
                    stmt is Block,
                    *ss == stmt->Block_0,
                    views == stmt@->Block_0,
                    views.len() == ss.len(),
                    stmts_view(acc@) == elim_block(views.take(i as int)),
                decreases ss.len() - i,
            {
                proof {
                    broadcast use vstd::std_specs::vec::axiom_vec_index_decreases;

                    assert(decreases_to!(*stmt => stmt->Block_0[i as int]));
                    assert(views.take(i + 1).drop_last() =~= views.take(i as int));
                    assert(views.take(i + 1).last() == ss@[i as int]@);
                }
                let next = match &ss[i] {
                    Stmt::Label(Label::App(n), t) => {
                        wrap_jumps(&mut acc, *n);
                        elim_stmt(t)
                    },
                    s => elim_stmt(s),
                };
                let ghost before = stmts_view(acc@);
                acc.push(next);
                proof {
                    assert(stmts_view(acc@) =~= before.push(next@));
                }
                i += 1;
            }
            let r = Stmt::Block(acc);
            proof {
                assert(views.take(i as int) =~= views);
                assert(r@->Block_0 =~= stmts_view(acc@));
            }
            r
        },
        Stmt::If(c, a, b) => Stmt::If(c.clone(), Box::new(elim_stmt(a)), Box::new(elim_stmt(b))),
        Stmt::Loop(b) => Stmt::Loop(Box::new(elim_stmt(b))),
        Stmt::Label(l, b) => match l {
            Label::App(_) => elim_stmt(b),
            Label::Named(_) => Stmt::Label(l.clone(), Box::new(elim_stmt(b))),
        },
        _ => stmt.clone(),
    }
}

/// The functions `fs`, each with the jumps of its body structured that
/// can be.
pub open spec fn elim_functions(fs: Seq<(Seq<char>, FunctionView)>) -> Seq<
    (Seq<char>, FunctionView),
> {
    Seq::new(
        fs.len(),
        |i: int|
            (
                fs[i].0,
                FunctionView {
                    params: fs[i].1.params,
                    fn_type: fs[i].1.fn_type,
                    body: elim(fs[i].1.body),
                },
            ),
    )
}

/// The label of the first jump that the bodies of the functions `fs` hold,
/// if any.
pub open spec fn first_goto_of(fs: Seq<(Seq<char>, FunctionView)>) -> Option<LabelView>
    decreases fs.len(),
{
    if fs.len() == 0 {
        None
    } else {
        match first_goto_of(fs.drop_last()) {
            Some(l) => Some(l),
            None => first_goto(fs.last().1.body),
        }
    }
}

/// The program `p` with the jumps of its functions structured, or the
/// label of the first jump that cannot be.
pub open spec fn structure_program(p: ProgramView) -> Result<ProgramView, CompileErrorView> {
    match first_goto_of(elim_functions(p.functions)) {
        Some(l) => Err(CompileErrorView::Unstructured(l)),
        None => Ok(
            ProgramView { functions: elim_functions(p.functions), globals: p.globals, data: p.data },
        ),
    }
}

/// Structures the control flow of `program`: what it returns holds only
/// blocks, conditionals, loops, labels and breaks in place of jumps. A
/// jump that cannot be written so is an error.
pub fn elim_gotos(program: Program) -> (r: Result<Program, CompileError>)
    ensures
        match structure_program(program@) {
            Ok(p) => r is Ok && r->Ok_0@ == p,
            Err(e) => r is Err && r->Err_0@ == e,
        },
{
    let ghost p = program@;
    let Program { functions, globals, data } = program;
    let ghost views = functions_view(functions@);
    let ghost want = elim_functions(views);
    let mut out: Vec<(Id, Function)> = Vec::new();
    let mut found: Option<Label> = None;
    let mut i: usize = 0;
    proof {
        assert(want.take(0) =~= Seq::empty());
    }
    while i < functions.len()
        invariant
            i <= functions.len(),
            out.len() == i,
            views == functions_view(functions@),
            want == elim_functions(views),
            forall|j: int|
                0 <= j < i ==> (#[trigger] out@[j]).0@ == want[j].0 && out@[j].1@ == want[j].1,
            match first_goto_of(want.take(i as int)) {
                Some(l) => found is Some && found->Some_0@ == l,
                None => found is None,
            },
        decreases functions.len() - i,
    {
        proof {
            assert(want.take(i + 1).drop_last() =~= want.take(i as int));
            assert(want.take(i + 1).last() == want[i as int]);
        }
        let f = &functions[i].1;
        let body = elim_stmt(&f.body);
        if found.is_none() {
            found = find_goto(&body);
        }
        let g = Function {
            params: super::syntax::clone_ids(&f.params),
            fn_type: f.fn_type.clone(),
            body,
        };
        out.push((functions[i].0.clone(), g));
        i += 1;
    }
    proof {
        assert(want.take(i as int) =~= want);
    }
    match found {
        Some(l) => Err(CompileError::Unstructured(l)),
        None => {
            let r = Program { functions: out, globals, data };
            proof {
                assert(r@.functions =~= want);
                assert(r@.globals == p.globals);
            }
            Ok(r)
        },
    }
}

/// Whether the statement `s` holds no target of a jump.
pub open spec fn target_free(s: StmtView) -> bool
    decreases s,
{
    match s {
        StmtView::Block(ss) => all_target_free(ss),
        StmtView::If(_, a, b) => target_free(*a) && target_free(*b),
        StmtView::Loop(b) => target_free(*b),
        StmtView::Label(l, b) => l is Named && target_free(*b),
        _ => true,
    }
}

/// Whether none of the statements `ss` holds a target of a jump.
pub open spec fn all_target_free(ss: Seq<StmtView>) -> bool
    decreases ss,
{
    if ss.len() == 0 {
        true
    } else {
        all_target_free(ss.drop_last()) && target_free(ss.last())
    }
}

/// Whether the statement `s` is structured: it holds no jump and no
/// target of one, only blocks, conditionals, loops, labels and breaks
/// around its other statements.
pub open spec fn structured(s: StmtView) -> bool {
    target_free(s) && first_goto(s) is None
}

/// The statements of a block hold no target exactly where none of them
/// does.
pub proof fn lemma_all_target_free(ss: Seq<StmtView>)
    ensures
        all_target_free(ss) <==> forall|i: int| 0 <= i < ss.len() ==> target_free(ss[i]),
    decreases ss.len(),
{
    if ss.len() != 0 {
        lemma_all_target_free(ss.drop_last());
        if all_target_free(ss) {
            assert forall|i: int| 0 <= i < ss.len() implies target_free(ss[i]) by {
                if i < ss.len() - 1 {
                    assert(ss.drop_last()[i] == ss[i]);
                }
            }
        }
        if forall|i: int| 0 <= i < ss.len() ==> target_free(ss[i]) {
            assert forall|i: int| 0 <= i < ss.drop_last().len() implies target_free(
                ss.drop_last()[i],
            ) by {
                assert(ss.drop_last()[i] == ss[i]);
            }
        }
    }
}

/// Turning jumps into breaks brings in no target.
pub proof fn lemma_to_break_target_free(s: StmtView, n: i32)
    requires
        target_free(s),
    ensures
        target_free(to_break(s, n)),
    decreases s,
{
    match s {
        StmtView::Block(ss) => {
            lemma_all_target_free(ss);
            let out = to_break(s, n)->Block_0;
            assert forall|i: int| 0 <= i < out.len() implies target_free(out[i]) by {
                lemma_to_break_target_free(ss[i], n);
            }
            lemma_all_target_free(out);
        },
        StmtView::If(_, a, b) => {
            lemma_to_break_target_free(*a, n);
            lemma_to_break_target_free(*b, n);
        },
        StmtView::Loop(b) => {
            lemma_to_break_target_free(*b, n);
        },
        StmtView::Label(_, b) => {
            lemma_to_break_target_free(*b, n);
        },
        _ => {},
    }
}

/// Structuring leaves no target of a jump.
pub proof fn lemma_elim_target_free(s: StmtView)
    ensures
        target_free(elim(s)),
    decreases s,
{
    match s {
        StmtView::Block(ss) => {
            lemma_elim_block_target_free(ss);
        },
        StmtView::If(_, a, b) => {
            lemma_elim_target_free(*a);
            lemma_elim_target_free(*b);
        },
        StmtView::Loop(b) => {
            lemma_elim_target_free(*b);
        },
        StmtView::Label(_, b) => {
            lemma_elim_target_free(*b);
        },
        _ => {},
    }
}

/// Structuring the statements of a block leaves no target of a jump.
pub proof fn lemma_elim_block_target_free(ss: Seq<StmtView>)
    ensures
        all_target_free(elim_block(ss)),
    decreases ss,
{
    if ss.len() != 0 {
        let before = elim_block(ss.drop_last());
        lemma_elim_block_target_free(ss.drop_last());
        lemma_all_target_free(before);
        let out = elim_block(ss);
        match ss.last() {
            StmtView::Label(LabelView::App(n), t) => {
                lemma_elim_target_free(*t);
                let wrapped = wrap(before, n);
                assert(out == wrapped.push(elim(*t)));
                match first_index(jump_flags(before, n), true) {
                    None => {
                        assert forall|k: int| 0 <= k < out.len() implies target_free(out[k]) by {
                            if k < before.len() {
                                assert(out[k] == before[k]);
                            }
                        }
                    },
                    Some(i) => {
                        lemma_first_index(jump_flags(before, n), true);
                        let inner = all_to_break(before.skip(i as int), n);
                        assert forall|k: int| 0 <= k < inner.len() implies target_free(
                            inner[k],
                        ) by {
                            lemma_to_break_target_free(before[i + k], n);
                        }
                        lemma_all_target_free(inner);
                        let label = StmtView::Label(
                            LabelView::Named(target_name(n)),
                            Box::new(StmtView::Block(inner)),
                        );
                        assert(target_free(StmtView::Block(inner)));
                        assert(target_free(label));
                        assert(wrapped == before.take(i as int).push(label));
                        assert forall|k: int| 0 <= k < out.len() implies target_free(out[k]) by {
                            if k < i {
                                assert(out[k] == before[k]);
                            } else if k == i {
                                assert(out[k] == label);
                            }
                        }
                    },
                }
            },
            s => {
                lemma_elim_target_free(s);
                assert forall|k: int| 0 <= k < out.len() implies target_free(out[k]) by {}
            },
        }
        lemma_all_target_free(out);
    }
}

/// What structuring returns is structured: it holds no jump, and no label
/// that marks the target of one.
pub proof fn law_structure_is_structured(s: StmtView)
    requires
        structure(s) is Ok,
    ensures
        structured(structure(s)->Ok_0),
{
    lemma_elim_target_free(s);
}

/// A statement without jumps and without targets is left as it is.
pub proof fn law_structured_is_kept(s: StmtView)
    requires
        structured(s),
    ensures
        structure(s) == Ok::<StmtView, CompileErrorView>(s),
    decreases s,
{
    lemma_elim_keeps(s);
}

/// Structuring changes nothing where there is no target.
pub proof fn lemma_elim_keeps(s: StmtView)
    requires
        target_free(s),
    ensures
        elim(s) == s,
    decreases s,
{
    match s {
        StmtView::Block(ss) => {
            lemma_elim_block_keeps(ss);
        },
        StmtView::If(_, a, b) => {
            lemma_elim_keeps(*a);
            lemma_elim_keeps(*b);
        },
        StmtView::Loop(b) => {
            lemma_elim_keeps(*b);
        },
        StmtView::Label(_, b) => {
            lemma_elim_keeps(*b);
        },
        _ => {},
    }
}

/// Structuring changes nothing in a block that holds no target.
pub proof fn lemma_elim_block_keeps(ss: Seq<StmtView>)
    requires
        all_target_free(ss),
    ensures
        elim_block(ss) == ss,
    decreases ss,
{
    if ss.len() != 0 {
        lemma_elim_block_keeps(ss.drop_last());
        lemma_elim_keeps(ss.last());
        assert(ss.drop_last().push(ss.last()) =~= ss);
    } else {
        assert(elim_block(ss) =~= ss);
    }
}

} // verus!
