//! Copies of syntax trees are equal to what they were made from.

use libjankscripten::notwasm::rt_bindings::get_rt_bindings;
use libjankscripten::notwasm::syntax::{
    clone_ids, Atom, BinaryOp, Expr, FnType, Function, Global, Id, Label, Lit, Program, Stmt, Type,
};
use libjankscripten::notwasm::wasm::{FuncType, ValType};

fn id_(x: &str) -> Id {
    Id::Named(x.to_string())
}

fn every_atom() -> Vec<Atom> {
    let lit = |l: Lit| Atom::Lit(l);
    let b = |a: Atom| Box::new(a);
    vec![
        lit(Lit::I32(-4)),
        lit(Lit::Bool(true)),
        lit(Lit::String("text".to_string())),
        lit(Lit::Interned(9)),
        Atom::Id(id_("x")),
        Atom::HTGet(b(Atom::Id(id_("t"))), b(lit(Lit::I32(1))), Type::F64),
        Atom::Index(b(Atom::Id(id_("a"))), b(lit(Lit::I32(2))), Type::Any),
        Atom::StringLen(b(lit(Lit::Interned(0)))),
        Atom::Binary(BinaryOp::I32Le, b(lit(Lit::I32(1))), b(Atom::Id(id_("y")))),
    ]
}

fn every_expr() -> Vec<Expr> {
    let fn_type = FnType {
        args: vec![Type::I32, Type::Fn(FnType { args: vec![Type::Bool], result: None })],
        result: Some(Box::new(Type::String)),
    };
    let a = || Atom::Id(id_("a"));
    vec![
        Expr::Atom(a()),
        Expr::HT(Type::I32),
        Expr::Array(Type::Fn(fn_type.clone())),
        Expr::HTSet(a(), a(), a(), Type::DynObject),
        Expr::Push(a(), a(), Type::HT),
        Expr::CallDirect(id_("f"), vec![id_("x"), id_("y")]),
        Expr::CallIndirect(id_("g"), fn_type, vec![id_("x")]),
        Expr::ToString(a()),
    ]
}

fn every_stmt() -> Stmt {
    let mut stmts = vec![
        Stmt::Empty,
        Stmt::Trap,
        Stmt::Goto(Label::App(-3)),
        Stmt::Break(Label::Named("l".to_string())),
        Stmt::Label(Label::App(2), Box::new(Stmt::Empty)),
        Stmt::Label(Label::Named("l".to_string()), Box::new(Stmt::Loop(Box::new(Stmt::Trap)))),
    ];
    for atom in every_atom() {
        stmts.push(Stmt::Return(atom.clone()));
        stmts.push(Stmt::If(atom, Box::new(Stmt::Empty), Box::new(Stmt::Block(vec![]))));
    }
    for expr in every_expr() {
        stmts.push(Stmt::Var(id_("v"), expr.clone(), Type::Array));
        stmts.push(Stmt::Assign(id_("v"), expr));
    }
    Stmt::Block(vec![Stmt::Block(stmts.clone()), Stmt::Block(stmts)])
}

#[test]
fn copies_are_equal() {
    for atom in every_atom() {
        assert_eq!(atom.clone(), atom);
    }
    for expr in every_expr() {
        assert_eq!(expr.clone(), expr);
    }
    let stmt = every_stmt();
    assert_eq!(stmt.clone(), stmt);
    let function = Function {
        params: vec![id_("p"), id_("q")],
        fn_type: FnType { args: vec![Type::I32, Type::F64], result: None },
        body: stmt,
    };
    assert_eq!(function.clone(), function);
    let global = Global { is_mut: true, ty: Type::String, atom: every_atom().remove(2) };
    assert_eq!(global.clone(), global);
    let program = Program {
        functions: vec![(id_("main"), function.clone()), (id_("other"), function)],
        globals: vec![(id_("G"), global)],
        data: vec![1, 2, 3],
    };
    assert_eq!(program.clone(), program);
    assert_ne!(program.clone().functions[0].0, program.functions[1].0);
}

#[test]
fn copies_of_names() {
    let ids = vec![id_("a"), id_("b")];
    assert_eq!(clone_ids(&ids), ids);
    assert_eq!(clone_ids(&vec![]), vec![]);
    assert_eq!(id_("name").name(), "name");
    assert_eq!(Label::App(4).clone(), Label::App(4));
    assert_eq!(Label::Named("l".to_string()).clone(), Label::Named("l".to_string()));
}

#[test]
fn function_types() {
    let ft = FnType::new(vec![Type::I32, Type::Any], Some(Type::F64));
    assert_eq!(
        ft,
        FnType { args: vec![Type::I32, Type::Any], result: Some(Box::new(Type::F64)) }
    );
    assert_eq!(FnType::new(vec![], None), FnType { args: vec![], result: None });
    assert_eq!(ft.clone(), ft);
    let sig = FuncType { params: vec![ValType::I32, ValType::F64], ret: None };
    assert_eq!(sig.clone(), sig);
}

#[test]
fn the_runtime_table() {
    let rt = get_rt_bindings();
    assert_eq!(rt.len(), 21);
    assert_eq!(rt[1].name, "ht_get_i32");
    assert_eq!(rt[1].fn_type, FnType::new(vec![Type::HT, Type::I32], Some(Type::I32)));
    assert_eq!(rt[10].name, "array_push_f64");
    assert_eq!(rt[10].fn_type, FnType::new(vec![Type::Array, Type::F64], Some(Type::I32)));
    assert_eq!(rt[14].name, "ht_set_any");
    assert_eq!(
        rt[14].fn_type,
        FnType::new(vec![Type::HT, Type::I32, Type::Any], Some(Type::Any))
    );
    assert_eq!(rt[18].fn_type, FnType::new(vec![Type::I32], Some(Type::String)));
    assert_eq!(rt[19].fn_type, FnType::new(vec![Type::String], Some(Type::I32)));
    assert_eq!(rt[20].name, "init");
    assert_eq!(rt[20].fn_type, FnType::new(vec![], None));
}
