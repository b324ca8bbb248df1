//! Structuring: jumps become breaks out of labelled blocks.

use libjankscripten::notwasm::elim_gotos::{
    elim_stmt, find_goto, holds_jump, jumps_to_breaks, target_label,
};
use libjankscripten::notwasm::error::CompileError;
use libjankscripten::notwasm::syntax::{
    Atom, Expr, FnType, Function, Id, Label, Lit, Program, Stmt, Type,
};
use libjankscripten::notwasm::elim_gotos;

fn id_(x: &str) -> Id {
    Id::Named(x.to_string())
}

fn set_(x: &str, i: i32) -> Stmt {
    Stmt::Assign(id_(x), Expr::Atom(Atom::Lit(Lit::I32(i))))
}

fn goto_(n: i32) -> Stmt {
    Stmt::Goto(Label::App(n))
}

fn target_(n: i32, s: Stmt) -> Stmt {
    Stmt::Label(Label::App(n), Box::new(s))
}

fn named_(l: &str, s: Stmt) -> Stmt {
    Stmt::Label(Label::Named(l.to_string()), Box::new(s))
}

fn break_(l: &str) -> Stmt {
    Stmt::Break(Label::Named(l.to_string()))
}

fn if_(a: Stmt, b: Stmt) -> Stmt {
    Stmt::If(Atom::Lit(Lit::Bool(true)), Box::new(a), Box::new(b))
}

fn main_(body: Stmt) -> Program {
    Program {
        functions: vec![(
            id_("main"),
            Function { params: vec![], fn_type: FnType { args: vec![], result: None }, body },
        )],
        globals: vec![],
        data: vec![4, 5],
    }
}

#[test]
fn labels_of_targets() {
    assert_eq!(target_label(0), Label::Named("$goto0".to_string()));
    assert_eq!(target_label(7), Label::Named("$goto7".to_string()));
    assert_eq!(target_label(10), Label::Named("$goto10".to_string()));
    assert_eq!(target_label(1234567890), Label::Named("$goto1234567890".to_string()));
    assert_eq!(target_label(i32::MAX), Label::Named("$goto2147483647".to_string()));
    assert_eq!(target_label(-1), Label::Named("$goto-1".to_string()));
    assert_eq!(target_label(-305), Label::Named("$goto-305".to_string()));
    assert_eq!(target_label(i32::MIN), Label::Named("$goto-2147483648".to_string()));
}

#[test]
fn a_forward_jump_becomes_a_break() {
    let block = Stmt::Block(vec![
        set_("x", 1),
        goto_(0),
        set_("x", 2),
        target_(0, set_("x", 3)),
        set_("x", 4),
    ]);
    assert_eq!(
        elim_stmt(&block),
        Stmt::Block(vec![
            set_("x", 1),
            named_("$goto0", Stmt::Block(vec![break_("$goto0"), set_("x", 2)])),
            set_("x", 3),
            set_("x", 4),
        ])
    );
}

#[test]
fn a_jump_from_inside_leaves_every_block_between() {
    let block = Stmt::Block(vec![
        Stmt::Loop(Box::new(if_(Stmt::Block(vec![goto_(2)]), Stmt::Empty))),
        set_("x", 2),
        target_(2, Stmt::Trap),
    ]);
    assert_eq!(
        elim_stmt(&block),
        Stmt::Block(vec![
            named_(
                "$goto2",
                Stmt::Block(vec![
                    Stmt::Loop(Box::new(if_(Stmt::Block(vec![break_("$goto2")]), Stmt::Empty))),
                    set_("x", 2),
                ])
            ),
            Stmt::Trap,
        ])
    );
}

#[test]
fn several_jumps_to_one_target_share_its_block() {
    let block = Stmt::Block(vec![goto_(1), if_(goto_(1), goto_(5)), target_(1, Stmt::Empty)]);
    assert_eq!(
        elim_stmt(&block),
        Stmt::Block(vec![
            named_(
                "$goto1",
                Stmt::Block(vec![break_("$goto1"), if_(break_("$goto1"), goto_(5))])
            ),
            Stmt::Empty,
        ])
    );
}

#[test]
fn two_targets_nest() {
    let block = Stmt::Block(vec![
        goto_(1),
        goto_(2),
        target_(1, set_("x", 1)),
        target_(2, set_("x", 2)),
    ]);
    assert_eq!(
        elim_stmt(&block),
        Stmt::Block(vec![
            named_(
                "$goto2",
                Stmt::Block(vec![
                    named_("$goto1", Stmt::Block(vec![break_("$goto1"), break_("$goto2")])),
                    set_("x", 1),
                ])
            ),
            set_("x", 2),
        ])
    );
}

#[test]
fn a_target_that_nothing_jumps_to_loses_its_label() {
    let block = Stmt::Block(vec![set_("x", 1), target_(0, set_("x", 2))]);
    assert_eq!(elim_stmt(&block), Stmt::Block(vec![set_("x", 1), set_("x", 2)]));
    assert_eq!(elim_stmt(&target_(3, Stmt::Trap)), Stmt::Trap);
    assert_eq!(elim_stmt(&if_(target_(3, Stmt::Trap), Stmt::Empty)), if_(Stmt::Trap, Stmt::Empty));
}

#[test]
fn structured_statements_stay() {
    let s = Stmt::Block(vec![
        named_("l", Stmt::Loop(Box::new(if_(break_("l"), set_("x", 1))))),
        Stmt::Var(id_("y"), Expr::Array(Type::I32), Type::Array),
        Stmt::Return(Atom::Id(id_("y"))),
        Stmt::Trap,
    ]);
    assert_eq!(elim_stmt(&s), s);
    assert_eq!(find_goto(&s), None);
    assert_eq!(elim_gotos(main_(s.clone())), Ok(main_(s)));
}

#[test]
fn a_backward_jump_cannot_be_structured() {
    let block = Stmt::Block(vec![target_(0, set_("x", 1)), goto_(0)]);
    assert_eq!(
        elim_gotos(main_(block)),
        Err(CompileError::Unstructured(Label::App(0)))
    );
}

#[test]
fn a_jump_into_a_statement_cannot_be_structured() {
    let block = Stmt::Block(vec![goto_(0), Stmt::Loop(Box::new(target_(0, Stmt::Empty)))]);
    assert_eq!(
        elim_gotos(main_(block)),
        Err(CompileError::Unstructured(Label::App(0)))
    );
}

#[test]
fn a_jump_to_nowhere_cannot_be_structured() {
    assert_eq!(elim_gotos(main_(goto_(9))), Err(CompileError::Unstructured(Label::App(9))));
    let named = Stmt::Goto(Label::Named("there".to_string()));
    assert_eq!(
        elim_gotos(main_(named)),
        Err(CompileError::Unstructured(Label::Named("there".to_string())))
    );
}

#[test]
fn the_first_jump_that_is_left_is_reported() {
    let mut program = main_(Stmt::Block(vec![
        goto_(0),
        target_(0, Stmt::Empty),
        if_(Stmt::Empty, goto_(4)),
        goto_(5),
    ]));
    program.functions.push((
        id_("other"),
        Function {
            params: vec![],
            fn_type: FnType { args: vec![], result: None },
            body: goto_(6),
        },
    ));
    assert_eq!(elim_gotos(program), Err(CompileError::Unstructured(Label::App(4))));
}

#[test]
fn every_function_is_structured() {
    let mut program = main_(Stmt::Block(vec![goto_(0), target_(0, Stmt::Empty)]));
    program.functions.push((
        id_("other"),
        Function {
            params: vec![id_("p")],
            fn_type: FnType { args: vec![Type::F64], result: Some(Box::new(Type::F64)) },
            body: Stmt::Block(vec![goto_(0), target_(0, Stmt::Trap)]),
        },
    ));
    let done = elim_gotos(program.clone()).unwrap();
    let wrapped = named_("$goto0", Stmt::Block(vec![break_("$goto0")]));
    assert_eq!(done.functions[0].1.body, Stmt::Block(vec![wrapped.clone(), Stmt::Empty]));
    assert_eq!(done.functions[1].1.body, Stmt::Block(vec![wrapped, Stmt::Trap]));
    assert_eq!(done.functions[1].1.params, program.functions[1].1.params);
    assert_eq!(done.functions[1].1.fn_type, program.functions[1].1.fn_type);
    assert_eq!(done.functions[1].0, id_("other"));
    assert_eq!(done.data, vec![4, 5]);
}

#[test]
fn holds_jump_looks_inside() {
    let s = Stmt::Block(vec![
        Stmt::Empty,
        named_("l", Stmt::Loop(Box::new(if_(Stmt::Trap, goto_(3))))),
    ]);
    assert!(holds_jump(&s, 3));
    assert!(!holds_jump(&s, 4));
    assert!(!holds_jump(&target_(3, Stmt::Empty), 3));
    assert!(!holds_jump(&Stmt::Goto(Label::Named("x".to_string())), 0));
    assert_eq!(find_goto(&s), Some(Label::App(3)));
}

#[test]
fn jumps_to_breaks_touches_only_its_target() {
    let s = Stmt::Block(vec![goto_(1), goto_(2), named_("l", goto_(1)), target_(1, goto_(1))]);
    assert_eq!(
        jumps_to_breaks(&s, 1),
        Stmt::Block(vec![
            break_("$goto1"),
            goto_(2),
            named_("l", break_("$goto1")),
            target_(1, break_("$goto1")),
        ])
    );
}
