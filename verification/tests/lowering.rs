//! The translation of statements, expressions and atoms, instruction by
//! instruction.

use libjankscripten::notwasm::env::Env;
use libjankscripten::notwasm::error::CompileError;
use libjankscripten::notwasm::rt_bindings::{get_rt_bindings, Binding};
use libjankscripten::notwasm::syntax::{
    Atom, BinaryOp, Expr, FnType, Id, Label, Lit, Stmt, Type,
};
use libjankscripten::notwasm::translation::{
    option_as_wasm, signature_of, to_i32_bits, types_as_wasm, Translate,
};
use libjankscripten::notwasm::wasm::{FuncType, Instr, ValType};

fn id_(x: &str) -> Id {
    Id::Named(x.to_string())
}

fn i32_(i: i32) -> Atom {
    Atom::Lit(Lit::I32(i))
}

fn get_id_(x: &str) -> Atom {
    Atom::Id(id_(x))
}

fn label_(l: &str, body: Stmt) -> Stmt {
    Stmt::Label(Label::Named(l.to_string()), Box::new(body))
}

fn break_(l: &str) -> Stmt {
    Stmt::Break(Label::Named(l.to_string()))
}

/// Translates `stmt` against the runtime `rt` where `env` is in scope.
fn lower_with(
    rt: &Vec<Binding>,
    types: &Vec<FuncType>,
    env: &Env,
    stmt: &Stmt,
) -> Result<(Vec<Instr>, Vec<ValType>, Env), CompileError> {
    let mut translator = Translate::new(rt, types);
    let mut env = env.clone();
    translator.translate_rec(&mut env, stmt)?;
    Ok((translator.out, translator.locals, env))
}

fn lower(stmt: &Stmt) -> Result<Vec<Instr>, CompileError> {
    lower_with(&get_rt_bindings(), &vec![], &Env::new(), stmt).map(|r| r.0)
}

fn lower_expr(env: &Env, expr: &Expr) -> Result<Vec<Instr>, CompileError> {
    let rt = get_rt_bindings();
    let types = vec![FuncType { params: vec![ValType::I32], ret: Some(ValType::I32) }];
    let mut translator = Translate::new(&rt, &types);
    translator.translate_expr(env, expr)?;
    Ok(translator.out)
}

#[test]
fn break_to_innermost_label_has_distance_0() {
    assert_eq!(
        lower(&label_("l1", break_("l1"))),
        Ok(vec![Instr::Block, Instr::Br(0), Instr::End])
    );
}

#[test]
fn break_past_one_label_has_distance_1() {
    assert_eq!(
        lower(&label_("l1", label_("l2", break_("l1")))),
        Ok(vec![Instr::Block, Instr::Block, Instr::Br(1), Instr::End, Instr::End])
    );
}

#[test]
fn break_counts_anonymous_blocks() {
    // the loop and the conditional are blocks too
    let stmt = label_(
        "out",
        Stmt::Loop(Box::new(Stmt::If(
            i32_(1),
            Box::new(break_("out")),
            Box::new(Stmt::Empty),
        ))),
    );
    assert_eq!(
        lower(&stmt),
        Ok(vec![
            Instr::Block,
            Instr::Loop,
            Instr::I32Const(1),
            Instr::If,
            Instr::Br(2),
            Instr::Else,
            Instr::End,
            Instr::Br(0),
            Instr::End,
            Instr::End,
        ])
    );
}

#[test]
fn break_to_the_nearer_of_two_equal_labels() {
    assert_eq!(
        lower(&label_("l", label_("l", break_("l")))),
        Ok(vec![Instr::Block, Instr::Block, Instr::Br(0), Instr::End, Instr::End])
    );
}

#[test]
fn unbound_label_is_an_error() {
    assert_eq!(
        lower(&label_("l1", break_("l2"))),
        Err(CompileError::UnboundLabel(Label::Named("l2".to_string())))
    );
    assert_eq!(
        lower(&Stmt::Break(Label::App(4))),
        Err(CompileError::UnboundLabel(Label::App(4)))
    );
}

#[test]
fn jumps_and_targets_are_errors() {
    assert_eq!(lower(&Stmt::Goto(Label::App(0))), Err(CompileError::Goto));
    assert_eq!(
        lower(&Stmt::Label(Label::App(0), Box::new(Stmt::Empty))),
        Err(CompileError::JumpTarget)
    );
}

#[test]
fn trap_and_empty() {
    assert_eq!(lower(&Stmt::Trap), Ok(vec![Instr::Unreachable]));
    assert_eq!(lower(&Stmt::Empty), Ok(vec![]));
    assert_eq!(lower(&Stmt::Block(vec![])), Ok(vec![]));
}

#[test]
fn declaration_binds_after_its_initializer() {
    // the initializer cannot see the name that it initializes
    let stmt = Stmt::Var(id_("x"), Expr::Atom(get_id_("x")), Type::I32);
    assert_eq!(lower(&stmt), Err(CompileError::UnboundIdentifier("x".to_string())));
    // with an outer x, the initializer reads the outer one
    let env = Env::new().bind(&id_("x"), 7, &Type::I32);
    let (code, locals, after) = lower_with(&get_rt_bindings(), &vec![], &env, &stmt).unwrap();
    assert_eq!(code, vec![Instr::GetLocal(7), Instr::SetLocal(0)]);
    assert_eq!(locals, vec![ValType::I32]);
    assert_eq!(after.index_of_id(&id_("x")), Ok(0));
}

#[test]
fn declarations_take_slots_in_order_and_block_scopes_end() {
    let stmt = Stmt::Block(vec![
        Stmt::Block(vec![Stmt::Var(id_("a"), Expr::Atom(i32_(1)), Type::F64)]),
        Stmt::Var(id_("b"), Expr::Atom(i32_(2)), Type::Bool),
        Stmt::Assign(id_("b"), Expr::Atom(get_id_("b"))),
    ]);
    let (code, locals, after) =
        lower_with(&get_rt_bindings(), &vec![], &Env::new(), &stmt).unwrap();
    assert_eq!(
        code,
        vec![
            Instr::I32Const(1),
            Instr::SetLocal(0),
            Instr::I32Const(2),
            Instr::SetLocal(1),
            Instr::GetLocal(1),
            Instr::SetLocal(1),
        ]
    );
    assert_eq!(locals, vec![ValType::F64, ValType::I32]);
    // nothing of the block is in scope after it
    assert_eq!(
        after.index_of_id(&id_("b")),
        Err(CompileError::UnboundIdentifier("b".to_string()))
    );
    // a reads out of scope
    let leak = Stmt::Block(vec![
        Stmt::Block(vec![Stmt::Var(id_("a"), Expr::Atom(i32_(1)), Type::I32)]),
        Stmt::Return(get_id_("a")),
    ]);
    assert_eq!(lower(&leak), Err(CompileError::UnboundIdentifier("a".to_string())));
}

#[test]
fn assignment_needs_a_bound_local() {
    let stmt = Stmt::Assign(id_("x"), Expr::Atom(i32_(1)));
    assert_eq!(lower(&stmt), Err(CompileError::UnboundIdentifier("x".to_string())));
    let env = Env::new().bind_function(&id_("x"), 0);
    assert_eq!(
        lower_with(&get_rt_bindings(), &vec![], &env, &stmt).map(|r| r.0),
        Err(CompileError::NotALocal("x".to_string()))
    );
}

#[test]
fn literals() {
    let env = Env::new();
    let atom = |a: Atom| lower_expr(&env, &Expr::Atom(a));
    assert_eq!(atom(i32_(-3)), Ok(vec![Instr::I32Const(-3)]));
    assert_eq!(atom(Atom::Lit(Lit::Bool(true))), Ok(vec![Instr::I32Const(1)]));
    assert_eq!(atom(Atom::Lit(Lit::Bool(false))), Ok(vec![Instr::I32Const(0)]));
    assert_eq!(
        atom(Atom::Lit(Lit::Interned(12))),
        Ok(vec![Instr::GetGlobal(0), Instr::I32Const(12), Instr::I32Add])
    );
    assert_eq!(
        atom(Atom::Lit(Lit::Interned(0xffff_ffff))),
        Ok(vec![Instr::GetGlobal(0), Instr::I32Const(-1), Instr::I32Add])
    );
    assert_eq!(
        atom(Atom::Lit(Lit::String("s".to_string()))),
        Err(CompileError::UninternedString)
    );
}

#[test]
fn bits_of_unsigned_numbers() {
    assert_eq!(to_i32_bits(0), 0);
    assert_eq!(to_i32_bits(0x7fff_ffff), i32::MAX);
    assert_eq!(to_i32_bits(0x8000_0000), i32::MIN);
    assert_eq!(to_i32_bits(0xffff_fffe), -2);
}

#[test]
fn identifiers() {
    let env = Env::new().bind(&id_("x"), 3, &Type::I32).bind_function(&id_("f"), 2);
    assert_eq!(lower_expr(&env, &Expr::Atom(get_id_("x"))), Ok(vec![Instr::GetLocal(3)]));
    // a function's value is its position
    assert_eq!(lower_expr(&env, &Expr::Atom(get_id_("f"))), Ok(vec![Instr::I32Const(2)]));
    assert_eq!(
        lower_expr(&env, &Expr::Atom(get_id_("y"))),
        Err(CompileError::UnboundIdentifier("y".to_string()))
    );
}

#[test]
fn each_operator_is_one_instruction() {
    let env = Env::new();
    let ops = [
        (BinaryOp::I32Eq, Instr::I32Eq),
        (BinaryOp::I32Add, Instr::I32Add),
        (BinaryOp::I32Sub, Instr::I32Sub),
        (BinaryOp::I32GT, Instr::I32GtS),
        (BinaryOp::I32Ge, Instr::I32GeS),
        (BinaryOp::I32Le, Instr::I32LeS),
        (BinaryOp::I32Mul, Instr::I32Mul),
        (BinaryOp::I32And, Instr::I32And),
        (BinaryOp::I32Or, Instr::I32Or),
    ];
    for (op, instr) in ops {
        let atom = Atom::Binary(op, Box::new(i32_(1)), Box::new(i32_(2)));
        assert_eq!(
            lower_expr(&env, &Expr::Atom(atom)),
            Ok(vec![Instr::I32Const(1), Instr::I32Const(2), instr])
        );
    }
}

#[test]
fn runtime_calls_are_named_after_the_type() {
    // in the runtime's table, the functions for i32 are 0..6, for f64 6..12,
    // for any 12..18, then string_from_str, string_len and init
    let env = Env::new().bind(&id_("t"), 0, &Type::HT).bind(&id_("a"), 1, &Type::Array);
    let t = || get_id_("t");
    let a = || get_id_("a");
    assert_eq!(lower_expr(&env, &Expr::HT(Type::I32)), Ok(vec![Instr::Call(0)]));
    assert_eq!(lower_expr(&env, &Expr::HT(Type::Any)), Ok(vec![Instr::Call(12)]));
    assert_eq!(lower_expr(&env, &Expr::Array(Type::F64)), Ok(vec![Instr::Call(9)]));
    assert_eq!(
        lower_expr(&env, &Expr::Atom(Atom::HTGet(Box::new(t()), Box::new(i32_(5)), Type::F64))),
        Ok(vec![Instr::GetLocal(0), Instr::I32Const(5), Instr::Call(7)])
    );
    assert_eq!(
        lower_expr(&env, &Expr::HTSet(t(), i32_(5), i32_(6), Type::I32)),
        Ok(vec![Instr::GetLocal(0), Instr::I32Const(5), Instr::I32Const(6), Instr::Call(2)])
    );
    assert_eq!(
        lower_expr(&env, &Expr::Push(a(), i32_(6), Type::Any)),
        Ok(vec![Instr::GetLocal(1), Instr::I32Const(6), Instr::Call(16)])
    );
    assert_eq!(
        lower_expr(&env, &Expr::Atom(Atom::Index(Box::new(a()), Box::new(i32_(0)), Type::I32))),
        Ok(vec![Instr::GetLocal(1), Instr::I32Const(0), Instr::Call(5)])
    );
    assert_eq!(
        lower_expr(&env, &Expr::ToString(Atom::Lit(Lit::Interned(0)))),
        Ok(vec![Instr::GetGlobal(0), Instr::I32Const(0), Instr::I32Add, Instr::Call(18)])
    );
    assert_eq!(
        lower_expr(&env, &Expr::Atom(Atom::StringLen(Box::new(a())))),
        Ok(vec![Instr::GetLocal(1), Instr::Call(19)])
    );
}

#[test]
fn missing_runtime_function_is_a_link_error() {
    let env = Env::new();
    assert_eq!(
        lower_expr(&env, &Expr::HT(Type::Bool)),
        Err(CompileError::MissingRuntime("ht_new_bool".to_string()))
    );
    assert_eq!(
        lower_expr(&env, &Expr::Array(Type::Fn(FnType { args: vec![], result: None }))),
        Err(CompileError::MissingRuntime("array_new_fn".to_string()))
    );
    // with no runtime at all, nothing links
    let none: Vec<Binding> = vec![];
    let types: Vec<FuncType> = vec![];
    let mut translator = Translate::new(&none, &types);
    assert_eq!(
        translator.rt_call("init"),
        Err(CompileError::MissingRuntime("init".to_string()))
    );
}

#[test]
fn type_tags() {
    let tags = [
        (Type::I32, "i32"),
        (Type::F64, "f64"),
        (Type::String, "str"),
        (Type::Bool, "bool"),
        (Type::Any, "any"),
        (Type::Array, "array"),
        (Type::DynObject, "dynobject"),
        (Type::HT, "ht"),
        (Type::Fn(FnType { args: vec![], result: None }), "fn"),
    ];
    for (ty, tag) in tags {
        assert_eq!(ty.tag(), tag);
    }
}

#[test]
fn direct_call_adds_the_number_of_imports() {
    let env = Env::new()
        .bind_function(&id_("f"), 0)
        .bind_function(&id_("g"), 5)
        .bind(&id_("x"), 0, &Type::I32)
        .bind(&id_("y"), 1, &Type::I32);
    // the runtime has 21 functions
    assert_eq!(
        lower_expr(&env, &Expr::CallDirect(id_("f"), vec![])),
        Ok(vec![Instr::Call(21)])
    );
    assert_eq!(
        lower_expr(&env, &Expr::CallDirect(id_("g"), vec![id_("y"), id_("x")])),
        Ok(vec![Instr::GetLocal(1), Instr::GetLocal(0), Instr::Call(26)])
    );
}

#[test]
fn direct_call_errors() {
    let env = Env::new().bind_function(&id_("f"), 0).bind(&id_("x"), 0, &Type::I32);
    assert_eq!(
        lower_expr(&env, &Expr::CallDirect(id_("h"), vec![])),
        Err(CompileError::UnboundIdentifier("h".to_string()))
    );
    assert_eq!(
        lower_expr(&env, &Expr::CallDirect(id_("x"), vec![])),
        Err(CompileError::NotAFunction("x".to_string()))
    );
    assert_eq!(
        lower_expr(&env, &Expr::CallDirect(id_("f"), vec![id_("f")])),
        Err(CompileError::NotALocal("f".to_string()))
    );
    // the arguments are looked at first
    assert_eq!(
        lower_expr(&env, &Expr::CallDirect(id_("h"), vec![id_("z")])),
        Err(CompileError::UnboundIdentifier("z".to_string()))
    );
    let far = Env::new().bind_function(&id_("f"), u32::MAX);
    assert_eq!(
        lower_expr(&far, &Expr::CallDirect(id_("f"), vec![])),
        Err(CompileError::TooManyFunctions)
    );
}

#[test]
fn indirect_call_goes_through_the_table() {
    let env = Env::new().bind(&id_("g"), 4, &Type::Any).bind(&id_("x"), 2, &Type::I32);
    let unary = FnType { args: vec![Type::Bool], result: Some(Box::new(Type::String)) };
    // both are i32 to the machine, so this is the type with index 0
    assert_eq!(
        lower_expr(&env, &Expr::CallIndirect(id_("g"), unary, vec![id_("x")])),
        Ok(vec![Instr::GetLocal(2), Instr::GetLocal(4), Instr::CallIndirect(0)])
    );
    let other = FnType { args: vec![Type::F64], result: None };
    assert_eq!(
        lower_expr(&env, &Expr::CallIndirect(id_("g"), other, vec![id_("x")])),
        Err(CompileError::UnknownFunctionType)
    );
    // through a name that is a function after all, the call is direct
    let env = Env::new().bind_function(&id_("g"), 1);
    let nullary = FnType { args: vec![], result: None };
    assert_eq!(
        lower_expr(&env, &Expr::CallIndirect(id_("g"), nullary, vec![])),
        Ok(vec![Instr::Call(22)])
    );
}

#[test]
fn machine_types() {
    assert_eq!(Type::F64.as_wasm(), ValType::F64);
    for ty in [Type::I32, Type::String, Type::Bool, Type::Any, Type::Array, Type::DynObject, Type::HT]
    {
        assert_eq!(ty.as_wasm(), ValType::I32);
    }
    assert_eq!(
        types_as_wasm(&vec![Type::F64, Type::Any, Type::F64]),
        vec![ValType::F64, ValType::I32, ValType::F64]
    );
    assert_eq!(option_as_wasm(&None), None);
    assert_eq!(option_as_wasm(&Some(Box::new(Type::F64))), Some(ValType::F64));
    let ft = FnType { args: vec![Type::String, Type::F64], result: Some(Box::new(Type::Bool)) };
    assert_eq!(
        signature_of(&ft),
        FuncType { params: vec![ValType::I32, ValType::F64], ret: Some(ValType::I32) }
    );
}

#[test]
fn conditional_and_return() {
    let stmt = Stmt::If(
        Atom::Lit(Lit::Bool(true)),
        Box::new(Stmt::Return(i32_(1))),
        Box::new(Stmt::Trap),
    );
    assert_eq!(
        lower(&stmt),
        Ok(vec![
            Instr::I32Const(1),
            Instr::If,
            Instr::I32Const(1),
            Instr::Return,
            Instr::Else,
            Instr::Unreachable,
            Instr::End,
        ])
    );
}

#[test]
fn loop_branches_back() {
    assert_eq!(
        lower(&Stmt::Loop(Box::new(Stmt::Empty))),
        Ok(vec![Instr::Loop, Instr::Br(0), Instr::End])
    );
}

/// Translates `stmt` where three instructions, one local and the slots 0
/// and 1 are there already, and tells what is there afterwards.
fn after_failure(env: &Env, stmt: &Stmt) -> (CompileError, Vec<Instr>, Vec<ValType>, u32) {
    let rt = get_rt_bindings();
    let types = vec![];
    let mut translator = Translate::new(&rt, &types);
    translator.out = vec![Instr::Block, Instr::I32Const(1), Instr::End];
    translator.locals = vec![ValType::F64];
    translator.next_id = 2;
    let mut env = env.clone();
    let error = translator.translate_rec(&mut env, stmt).expect_err("it fails");
    (error, translator.out, translator.locals, translator.next_id)
}

#[test]
fn a_failing_statement_leaves_nothing_behind() {
    let kept = (vec![Instr::Block, Instr::I32Const(1), Instr::End], vec![ValType::F64], 2);
    let env = Env::new().bind_function(&id_("f"), 0).bind(&id_("x"), 0, &Type::I32);
    let failing = vec![
        // the right-hand side translates, the target is unbound
        (
            Stmt::Assign(id_("y"), Expr::Atom(i32_(1))),
            CompileError::UnboundIdentifier("y".to_string()),
        ),
        // the target is a function
        (Stmt::Assign(id_("f"), Expr::Atom(i32_(1))), CompileError::NotALocal("f".to_string())),
        (break_("nowhere"), CompileError::UnboundLabel(Label::Named("nowhere".to_string()))),
        (Stmt::Goto(Label::App(1)), CompileError::Goto),
        (Stmt::Label(Label::App(1), Box::new(Stmt::Trap)), CompileError::JumpTarget),
        // a declaration and half a conditional come before the failure
        (
            Stmt::Block(vec![
                Stmt::Var(id_("a"), Expr::Atom(i32_(1)), Type::I32),
                Stmt::If(
                    get_id_("a"),
                    Box::new(Stmt::Var(id_("b"), Expr::Atom(i32_(2)), Type::F64)),
                    Box::new(Stmt::Return(get_id_("b"))),
                ),
            ]),
            CompileError::UnboundIdentifier("b".to_string()),
        ),
        (
            label_("l", Stmt::Loop(Box::new(Stmt::Block(vec![Stmt::Trap, break_("m")])))),
            CompileError::UnboundLabel(Label::Named("m".to_string())),
        ),
    ];
    for (stmt, error) in failing {
        let (got, out, locals, next_id) = after_failure(&env, &stmt);
        assert_eq!(got, error);
        assert_eq!((out, locals, next_id), kept.clone());
    }
}

#[test]
fn a_failing_expression_writes_nothing() {
    let env = Env::new().bind_function(&id_("f"), 0).bind(&id_("x"), 0, &Type::I32);
    let failing = vec![
        // the callee is unbound, the argument is loaded first
        Expr::CallDirect(id_("g"), vec![id_("x")]),
        // the callee is a local
        Expr::CallDirect(id_("x"), vec![id_("x"), id_("x")]),
        // the second argument is a function
        Expr::CallDirect(id_("f"), vec![id_("x"), id_("f")]),
        Expr::CallIndirect(id_("x"), FnType { args: vec![Type::F64], result: None }, vec![id_("x")]),
        // the runtime lacks the function, the atoms translate
        Expr::HTSet(get_id_("x"), i32_(1), i32_(2), Type::Bool),
        Expr::Push(get_id_("x"), Atom::Lit(Lit::String("s".to_string())), Type::I32),
        Expr::Atom(Atom::Binary(BinaryOp::I32Add, Box::new(i32_(1)), Box::new(get_id_("y")))),
        Expr::Atom(Atom::StringLen(Box::new(Atom::Index(
            Box::new(get_id_("x")),
            Box::new(get_id_("nothing")),
            Type::I32,
        )))),
        Expr::Atom(get_id_("y")),
        Expr::Atom(Atom::Lit(Lit::String("s".to_string()))),
    ];
    let rt = get_rt_bindings();
    let types = vec![];
    for expr in failing {
        let mut translator = Translate::new(&rt, &types);
        translator.out = vec![Instr::Return];
        assert!(translator.translate_expr(&env, &expr).is_err());
        assert_eq!(translator.out, vec![Instr::Return]);
        assert_eq!(translator.locals, vec![]);
        assert_eq!(translator.next_id, 0);
    }
    let mut translator = Translate::new(&rt, &types);
    let args = vec![id_("x"), id_("x"), id_("f")];
    assert_eq!(translator.translate_args(&env, &args), Err(CompileError::NotALocal("f".to_string())));
    assert_eq!(translator.out, vec![]);
}
