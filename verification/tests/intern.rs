//! Interning: where the texts are stored, and what the literals become.

use libjankscripten::notwasm::error::CompileError;
use libjankscripten::notwasm::intern::Interner;
use libjankscripten::notwasm::syntax::{
    Atom, BinaryOp, Expr, FnType, Function, Global, Id, Lit, Program, Stmt, Type,
};
use libjankscripten::notwasm::{compile, intern};

fn id_(x: &str) -> Id {
    Id::Named(x.to_string())
}

fn str_(s: &str) -> Atom {
    Atom::Lit(Lit::String(s.to_string()))
}

fn at_(offset: u32) -> Atom {
    Atom::Lit(Lit::Interned(offset))
}

fn main_(body: Stmt) -> Program {
    Program {
        functions: vec![(
            id_("main"),
            Function {
                params: vec![],
                fn_type: FnType { args: vec![], result: Some(Box::new(Type::I32)) },
                body,
            },
        )],
        globals: vec![],
        data: vec![],
    }
}

fn body_of(p: &Program) -> &Stmt {
    &p.functions[0].1.body
}

#[test]
fn each_text_is_stored_once_with_its_length() {
    let program = main_(Stmt::Block(vec![
        Stmt::Var(id_("a"), Expr::Atom(str_("hi")), Type::String),
        Stmt::Var(id_("b"), Expr::ToString(str_("wow")), Type::String),
        Stmt::Var(id_("c"), Expr::Atom(str_("hi")), Type::String),
        Stmt::Return(Atom::StringLen(Box::new(str_("")))),
    ]));
    let interned = intern(program).unwrap();
    assert_eq!(
        interned.data,
        vec![2, 0, 0, 0, b'h', b'i', 3, 0, 0, 0, b'w', b'o', b'w', 0, 0, 0, 0]
    );
    assert_eq!(
        body_of(&interned),
        &Stmt::Block(vec![
            Stmt::Var(id_("a"), Expr::Atom(at_(0)), Type::String),
            Stmt::Var(id_("b"), Expr::ToString(at_(6)), Type::String),
            Stmt::Var(id_("c"), Expr::Atom(at_(0)), Type::String),
            Stmt::Return(Atom::StringLen(Box::new(at_(13)))),
        ])
    );
}

#[test]
fn texts_go_after_the_data_that_is_there() {
    let mut program = main_(Stmt::Return(str_("é")));
    program.data = vec![9, 9, 9];
    let interned = intern(program).unwrap();
    // two bytes in UTF-8
    assert_eq!(interned.data, vec![9, 9, 9, 2, 0, 0, 0, 0xc3, 0xa9]);
    assert_eq!(body_of(&interned), &Stmt::Return(at_(3)));
}

#[test]
fn long_texts_have_long_lengths() {
    let text = "x".repeat(70_000);
    let interned = intern(main_(Stmt::Return(str_(&text)))).unwrap();
    // 70000 = 0x011170
    assert_eq!(&interned.data[..4], &[0x70, 0x11, 0x01, 0x00]);
    assert_eq!(interned.data.len(), 70_004);
}

#[test]
fn literals_are_found_wherever_they_stand() {
    let get = |t: Atom, f: Atom| Atom::HTGet(Box::new(t), Box::new(f), Type::I32);
    let index = |a: Atom, i: Atom| Atom::Index(Box::new(a), Box::new(i), Type::I32);
    let eq = |a: Atom, b: Atom| Atom::Binary(BinaryOp::I32Eq, Box::new(a), Box::new(b));
    let program = main_(Stmt::Block(vec![
        Stmt::If(
            eq(str_("a"), str_("b")),
            Box::new(Stmt::Assign(id_("x"), Expr::HTSet(str_("c"), str_("a"), str_("d"), Type::I32))),
            Box::new(Stmt::Loop(Box::new(Stmt::Label(
                libjankscripten::notwasm::syntax::Label::Named("l".to_string()),
                Box::new(Stmt::Return(get(str_("e"), index(str_("f"), str_("b"))))),
            )))),
        ),
        Stmt::Var(id_("y"), Expr::Push(str_("g"), str_("c"), Type::I32), Type::I32),
    ]));
    let interned = intern(program).unwrap();
    // seven texts of one byte each, in the order a b c d e f g
    assert_eq!(interned.data.len(), 7 * 5);
    let o = |n: u32| at_(5 * n);
    assert_eq!(
        body_of(&interned),
        &Stmt::Block(vec![
            Stmt::If(
                eq(o(0), o(1)),
                Box::new(Stmt::Assign(id_("x"), Expr::HTSet(o(2), o(0), o(3), Type::I32))),
                Box::new(Stmt::Loop(Box::new(Stmt::Label(
                    libjankscripten::notwasm::syntax::Label::Named("l".to_string()),
                    Box::new(Stmt::Return(get(o(4), index(o(5), o(1))))),
                )))),
            ),
            Stmt::Var(id_("y"), Expr::Push(o(6), o(2), Type::I32), Type::I32),
        ])
    );
}

#[test]
fn functions_come_before_globals() {
    let mut program = main_(Stmt::Return(str_("f")));
    program.functions.push((
        id_("other"),
        Function {
            params: vec![id_("p")],
            fn_type: FnType { args: vec![Type::I32], result: None },
            body: Stmt::Return(str_("g")),
        },
    ));
    program.globals.push((id_("G"), Global { is_mut: true, ty: Type::String, atom: str_("g") }));
    program.globals.push((id_("H"), Global { is_mut: false, ty: Type::String, atom: str_("h") }));
    let interned = intern(program.clone()).unwrap();
    assert_eq!(body_of(&interned), &Stmt::Return(at_(0)));
    assert_eq!(interned.functions[1].1.body, Stmt::Return(at_(5)));
    assert_eq!(interned.functions[1].1.params, program.functions[1].1.params);
    assert_eq!(interned.functions[1].1.fn_type, program.functions[1].1.fn_type);
    assert_eq!(interned.functions[1].0, id_("other"));
    assert_eq!(
        interned.globals,
        vec![
            (id_("G"), Global { is_mut: true, ty: Type::String, atom: at_(5) }),
            (id_("H"), Global { is_mut: false, ty: Type::String, atom: at_(10) }),
        ]
    );
}

#[test]
fn interning_twice_changes_nothing_more() {
    let program = main_(Stmt::Return(str_("once")));
    let once = intern(program).unwrap();
    let twice = intern(once.clone()).unwrap();
    assert_eq!(once, twice);
}

#[test]
fn a_program_without_literals_is_left_as_it_is() {
    let program = main_(Stmt::Block(vec![Stmt::Trap, Stmt::Return(at_(4))]));
    assert_eq!(intern(program.clone()), Ok(program));
}

#[test]
fn compile_interns_by_itself() {
    let program = main_(Stmt::Return(Atom::StringLen(Box::new(str_("abc")))));
    assert!(compile(program.clone()).is_ok());
    // without interning, the literal is in the way
    assert_eq!(
        libjankscripten::notwasm::translate(program),
        Err(CompileError::UninternedString)
    );
}

#[test]
fn the_table_finds_what_it_interned() {
    let mut table = Interner::new(vec![7]);
    assert_eq!(table.find("a"), None);
    table.intern_text("a");
    table.intern_text("bc");
    table.intern_text("a");
    assert_eq!(table.find("a"), Some(1));
    assert_eq!(table.find("bc"), Some(6));
    assert_eq!(table.find("b"), None);
    assert_eq!(table.rewrite_atom(&str_("bc")), at_(6));
    assert_eq!(table.rewrite_atom(&str_("zz")), str_("zz"));
    assert_eq!(table.into_data(), vec![7, 1, 0, 0, 0, b'a', 2, 0, 0, 0, b'b', b'c']);
}
