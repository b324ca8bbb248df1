//! Programs compiled and then run on a small machine that stands in for
//! the host: it knows the few functions of the runtime that these programs
//! call.

use libjankscripten::notwasm::compile::{compile, compile_module};
use libjankscripten::notwasm::error::CompileError;
use libjankscripten::notwasm::intern;
use libjankscripten::notwasm::syntax::{
    Atom, BinaryOp, Expr, FnType, Function, Global, Id, Label, Lit, Program, Stmt, Type,
};
use libjankscripten::notwasm::wasm::{Instr, WasmModule};

enum Node {
    Op(Instr),
    Block(Vec<Node>),
    Loop(Vec<Node>),
    If(Vec<Node>, Vec<Node>),
}

/// Reads nodes up to the `Else` or `End` that closes them.
fn nodes(code: &[Instr], pos: &mut usize) -> (Vec<Node>, Instr) {
    let mut out = Vec::new();
    loop {
        let i = code[*pos];
        *pos += 1;
        match i {
            Instr::End | Instr::Else => return (out, i),
            Instr::Block => out.push(Node::Block(nodes(code, pos).0)),
            Instr::Loop => out.push(Node::Loop(nodes(code, pos).0)),
            Instr::If => {
                let (then, closed_by) = nodes(code, pos);
                let otherwise = if closed_by == Instr::Else { nodes(code, pos).0 } else { vec![] };
                out.push(Node::If(then, otherwise));
            }
            other => out.push(Node::Op(other)),
        }
    }
}

enum Flow {
    Next,
    Br(u32),
    Return,
}

struct Machine<'a> {
    module: &'a WasmModule,
    arrays: Vec<Vec<i32>>,
    inits: u32,
    fuel: u64,
}

impl<'a> Machine<'a> {
    fn host(&mut self, name: &str, args: &[i32]) -> Option<i32> {
        match name {
            "init" => {
                self.inits += 1;
                None
            }
            "array_new_i32" => {
                self.arrays.push(Vec::new());
                Some(self.arrays.len() as i32 - 1)
            }
            "array_push_i32" => {
                self.arrays[args[0] as usize].push(args[1]);
                Some(self.arrays[args[0] as usize].len() as i32)
            }
            "array_index_i32" => Some(self.arrays[args[0] as usize][args[1] as usize]),
            "string_from_str" => Some(args[0]),
            "string_len" => {
                let at = args[0] as usize;
                let d = &self.module.data;
                Some(i32::from_le_bytes([d[at], d[at + 1], d[at + 2], d[at + 3]]))
            }
            other => panic!("the host has no function {}", other),
        }
    }

    fn call(&mut self, index: u32, stack: &mut Vec<i32>) {
        let imports = self.module.imports.len() as u32;
        let type_index = if index < imports {
            self.module.imports[index as usize].type_index
        } else {
            self.module.functions[(index - imports) as usize].type_index
        };
        let ty = &self.module.types[type_index as usize];
        let args = stack.split_off(stack.len() - ty.params.len());
        let result = if index < imports {
            let name = self.module.imports[index as usize].name.clone();
            self.host(&name, &args)
        } else {
            let f = &self.module.functions[(index - imports) as usize];
            let mut locals = args;
            locals.resize(locals.len() + f.locals.len(), 0);
            let mut pos = 0;
            let (body, _) = nodes(&f.code, &mut pos);
            assert_eq!(pos, f.code.len());
            let mut inner = Vec::new();
            self.run(&body, &mut locals, &mut inner);
            inner.pop()
        };
        if ty.ret.is_some() {
            stack.push(result.expect("a result"));
        }
    }

    fn run(&mut self, body: &[Node], locals: &mut Vec<i32>, stack: &mut Vec<i32>) -> Flow {
        for node in body {
            self.fuel -= 1;
            assert!(self.fuel > 0, "the program runs too long");
            let flow = match node {
                Node::Block(inner) => match self.run(inner, locals, stack) {
                    Flow::Br(0) => Flow::Next,
                    Flow::Br(n) => Flow::Br(n - 1),
                    other => other,
                },
                Node::Loop(inner) => loop {
                    match self.run(inner, locals, stack) {
                        Flow::Br(0) => continue,
                        Flow::Br(n) => break Flow::Br(n - 1),
                        other => break other,
                    }
                },
                Node::If(then, otherwise) => {
                    let taken = if stack.pop().unwrap() != 0 { then } else { otherwise };
                    match self.run(taken, locals, stack) {
                        Flow::Br(0) => Flow::Next,
                        Flow::Br(n) => Flow::Br(n - 1),
                        other => other,
                    }
                }
                Node::Op(i) => self.step(*i, locals, stack),
            };
            match flow {
                Flow::Next => {}
                other => return other,
            }
        }
        Flow::Next
    }

    fn step(&mut self, i: Instr, locals: &mut Vec<i32>, stack: &mut Vec<i32>) -> Flow {
        let mut binary = |f: &dyn Fn(i32, i32) -> i32| {
            let b = stack.pop().unwrap();
            let a = stack.pop().unwrap();
            stack.push(f(a, b));
        };
        match i {
            Instr::I32Add => binary(&|a, b| a.wrapping_add(b)),
            Instr::I32Sub => binary(&|a, b| a.wrapping_sub(b)),
            Instr::I32Mul => binary(&|a, b| a.wrapping_mul(b)),
            Instr::I32And => binary(&|a, b| a & b),
            Instr::I32Or => binary(&|a, b| a | b),
            Instr::I32Eq => binary(&|a, b| (a == b) as i32),
            Instr::I32GtS => binary(&|a, b| (a > b) as i32),
            Instr::I32GeS => binary(&|a, b| (a >= b) as i32),
            Instr::I32LeS => binary(&|a, b| (a <= b) as i32),
            Instr::I32Const(v) => stack.push(v),
            Instr::GetLocal(n) => stack.push(locals[n as usize]),
            Instr::SetLocal(n) => locals[n as usize] = stack.pop().unwrap(),
            // the host places the data at address 0
            Instr::GetGlobal(0) => stack.push(0),
            Instr::Call(n) => self.call(n, stack),
            Instr::CallIndirect(expected) => {
                let entry = stack.pop().unwrap() as usize;
                let index = self.module.table[entry];
                let imports = self.module.imports.len() as u32;
                let actual = self.module.functions[(index - imports) as usize].type_index;
                assert_eq!(actual, expected, "the callee has another type");
                self.call(index, stack)
            }
            Instr::Br(n) => return Flow::Br(n),
            Instr::Return => return Flow::Return,
            Instr::Unreachable => panic!("trap"),
            other => panic!("not an instruction to run: {:?}", other),
        }
        Flow::Next
    }
}

/// Compiles the program and runs its `main`.
fn run_main(program: Program) -> i32 {
    let module = compile_module(program).expect("couldn't compile");
    let mut machine = Machine { module: &module, arrays: Vec::new(), inits: 0, fuel: 1_000_000 };
    let mut stack = Vec::new();
    machine.call(module.main, &mut stack);
    assert_eq!(machine.inits, 1, "main sets the runtime up once");
    stack.pop().expect("main returns a value")
}

fn test_wasm(expected: i32, program: Program) {
    // the whole way to bytes must work as well
    compile(program.clone()).expect("couldn't compile");
    assert_eq!(expected, run_main(program));
}

fn id_(x: &str) -> Id {
    Id::Named(x.to_string())
}

fn i32_(i: i32) -> Atom {
    Atom::Lit(Lit::I32(i))
}

fn str_(s: &str) -> Atom {
    Atom::Lit(Lit::String(s.to_string()))
}

fn atom_(a: Atom) -> Expr {
    Expr::Atom(a)
}

fn get_id_(x: &str) -> Atom {
    Atom::Id(id_(x))
}

fn binary_(op: BinaryOp, a: Atom, b: Atom) -> Atom {
    Atom::Binary(op, Box::new(a), Box::new(b))
}

fn plus_(a: Atom, b: Atom) -> Atom {
    binary_(BinaryOp::I32Add, a, b)
}

fn index_(a: Atom, i: Atom, ty: Type) -> Atom {
    Atom::Index(Box::new(a), Box::new(i), ty)
}

fn len_(a: Atom) -> Atom {
    Atom::StringLen(Box::new(a))
}

fn label_(l: &str, body: Stmt) -> Stmt {
    Stmt::Label(Label::Named(l.to_string()), Box::new(body))
}

fn break_(l: &str) -> Stmt {
    Stmt::Break(Label::Named(l.to_string()))
}

fn loop_(body: Stmt) -> Stmt {
    Stmt::Loop(Box::new(body))
}

fn if_(c: Atom, a: Stmt, b: Stmt) -> Stmt {
    Stmt::If(c, Box::new(a), Box::new(b))
}

fn fn_ty_(args: Vec<Type>, result: Type) -> FnType {
    FnType { args, result: Some(Box::new(result)) }
}

fn func_i32_(body: Stmt) -> Function {
    Function { params: vec![], fn_type: fn_ty_(vec![], Type::I32), body }
}

fn program_(functions: Vec<(&str, Function)>) -> Program {
    Program {
        functions: functions.into_iter().map(|(name, f)| (id_(name), f)).collect(),
        globals: vec![],
        data: vec![],
    }
}

fn test_program_(body: Stmt) -> Program {
    program_(vec![("main", func_i32_(body))])
}

fn program2_(main: Function, other: Function) -> Program {
    program_(vec![("main", main), ("other", other)])
}

#[test]
fn works_no_runtime() {
    let program = test_program_(Stmt::Block(vec![
        Stmt::Var(
            Id::Named("x".to_string()),
            Expr::Atom(Atom::Lit(Lit::I32(5))),
            Type::I32,
        ),
        Stmt::Return(Atom::Id(Id::Named("x".to_string()))),
    ]));
    test_wasm(5, program);
}

#[test]
#[should_panic]
fn fails_no_runtime() {
    let program = test_program_(Stmt::Return(Atom::Lit(Lit::I32(5))));
    test_wasm(7, program);
}

#[test]
fn array_push_index() {
    let push = |n: &str, v: i32| {
        Stmt::Var(id_(n), Expr::Push(get_id_("x"), i32_(v), Type::I32), Type::I32)
    };
    let program = test_program_(Stmt::Block(vec![
        Stmt::Var(id_("x"), Expr::Array(Type::I32), Type::Array),
        push("a", 135),
        push("b", 7),
        push("c", 98),
        Stmt::Return(index_(get_id_("x"), i32_(2), Type::I32)),
    ]));
    test_wasm(98, program);
}

#[test]
fn binary_ops() {
    let program = test_program_(Stmt::Block(vec![Stmt::Return(plus_(i32_(5), i32_(7)))]));
    test_wasm(12, program);
}

#[test]
fn functions() {
    let to_call = func_i32_(Stmt::Block(vec![Stmt::Return(i32_(5))]));
    let main = func_i32_(Stmt::Block(vec![
        Stmt::Var(id_("x"), Expr::CallDirect(id_("toCall"), vec![]), Type::I32),
        Stmt::Return(plus_(i32_(4), get_id_("x"))),
    ]));
    test_wasm(9, program_(vec![("toCall", to_call), ("main", main)]));
}

#[test]
fn break_block() {
    let body = Stmt::Block(vec![
        Stmt::Var(id_("x"), atom_(i32_(0)), Type::I32),
        label_(
            "dont_do",
            Stmt::Block(vec![
                Stmt::Break(Label::Named("dont_do".to_string())),
                Stmt::Assign(id_("x"), atom_(i32_(1))),
            ]),
        ),
        Stmt::Return(get_id_("x")),
    ]);
    let program = test_program_(body);
    test_wasm(0, program);
}

#[test]
fn big_sum() {
    let program = test_program_(Stmt::Block(vec![
        Stmt::Var(id_("a"), atom_(i32_(1)), Type::I32),
        Stmt::Var(id_("b"), atom_(i32_(1)), Type::I32),
        loop_(Stmt::Block(vec![
            if_(
                binary_(BinaryOp::I32GT, get_id_("b"), i32_(1000)),
                Stmt::Block(vec![Stmt::Return(get_id_("b"))]),
                Stmt::Block(vec![]),
            ),
            Stmt::Var(id_("temp"), atom_(plus_(get_id_("a"), get_id_("b"))), Type::I32),
            Stmt::Assign(id_("a"), atom_(get_id_("b"))),
            Stmt::Assign(id_("b"), atom_(get_id_("temp"))),
        ])),
        Stmt::Return(get_id_("b")),
    ]));
    test_wasm(1597, program);
}

#[test]
fn trivial_direct_call() {
    let f = Function {
        params: vec![id_("n")],
        fn_type: fn_ty_(vec![Type::I32], Type::I32),
        body: Stmt::Block(vec![Stmt::Return(get_id_("n"))]),
    };
    let main = func_i32_(Stmt::Block(vec![
        Stmt::Var(id_("n"), atom_(i32_(100)), Type::I32),
        Stmt::Var(id_("result"), Expr::CallDirect(id_("F"), vec![id_("n")]), Type::I32),
        Stmt::Return(get_id_("result")),
    ]));
    test_wasm(100, program_(vec![("F", f), ("main", main)]));
}

#[test]
fn trivial_indirect_call() {
    let f = Function {
        params: vec![id_("n")],
        fn_type: fn_ty_(vec![Type::I32], Type::I32),
        body: Stmt::Block(vec![Stmt::Return(plus_(get_id_("n"), i32_(1)))]),
    };
    let g_type = fn_ty_(vec![Type::I32], Type::I32);
    let main = func_i32_(Stmt::Block(vec![
        Stmt::Var(id_("G"), atom_(get_id_("F")), Type::Fn(g_type.clone())),
        Stmt::Var(id_("n"), atom_(i32_(102)), Type::I32),
        Stmt::Var(id_("result"), Expr::CallIndirect(id_("G"), g_type, vec![id_("n")]), Type::I32),
        Stmt::Return(get_id_("result")),
    ]));
    test_wasm(103, program_(vec![("F", f), ("main", main)]));
}

#[test]
fn goto_skips_stuff() {
    let skip_to_here = func_i32_(Stmt::Return(i32_(7)));
    let main_body = Stmt::Block(vec![
        // hopefully it stays 5
        Stmt::Var(id_("x"), atom_(i32_(5)), Type::I32),
        Stmt::Goto(Label::App(0)),
        // this is the part we wanna skip
        Stmt::Assign(id_("x"), atom_(i32_(2))),
        // goto goes here
        Stmt::Label(
            Label::App(0),
            Box::new(Stmt::Var(id_("r"), Expr::CallDirect(id_("other"), vec![]), Type::I32)),
        ),
        Stmt::Return(get_id_("x")),
    ]);
    let program = program2_(func_i32_(main_body), skip_to_here);
    test_wasm(5, program);
}

#[test]
fn goto_skips_loop() {
    let skip_to_here = func_i32_(Stmt::Return(i32_(7)));
    let main_body = Stmt::Block(vec![
        // hopefully it stays 5
        Stmt::Var(id_("x"), atom_(i32_(5)), Type::I32),
        Stmt::Goto(Label::App(0)),
        // this is the part we wanna skip
        loop_(Stmt::Empty),
        // goto goes here
        Stmt::Label(
            Label::App(0),
            Box::new(Stmt::Var(id_("r"), Expr::CallDirect(id_("other"), vec![]), Type::I32)),
        ),
        Stmt::Return(get_id_("x")),
    ]);
    let program = program2_(func_i32_(main_body), skip_to_here);
    test_wasm(5, program);
}

#[test]
fn goto_into_a_branch_is_refused() {
    // a jump into a branch of a conditional cannot be structured
    let skip_to_here = func_i32_(Stmt::Return(i32_(7)));
    let main_body = Stmt::Block(vec![
        Stmt::Var(id_("x"), atom_(i32_(5)), Type::I32),
        Stmt::Goto(Label::App(0)),
        if_(
            Atom::Lit(Lit::Bool(true)),
            Stmt::Assign(id_("x"), atom_(i32_(2))),
            Stmt::Label(
                Label::App(0),
                Box::new(Stmt::Var(id_("r"), Expr::CallDirect(id_("other"), vec![]), Type::I32)),
            ),
        ),
        Stmt::Return(get_id_("x")),
    ]);
    let program = program2_(func_i32_(main_body), skip_to_here);
    assert_eq!(compile(program), Err(CompileError::Unstructured(Label::App(0))));
}

#[test]
fn goto_out_of_loop() {
    // the jump leaves the loop and the conditional that it stands in
    let main_body = Stmt::Block(vec![
        Stmt::Var(id_("x"), atom_(i32_(0)), Type::I32),
        loop_(Stmt::Block(vec![
            Stmt::Assign(id_("x"), atom_(plus_(get_id_("x"), i32_(1)))),
            if_(
                binary_(BinaryOp::I32Ge, get_id_("x"), i32_(10)),
                Stmt::Goto(Label::App(3)),
                Stmt::Empty,
            ),
        ])),
        Stmt::Label(Label::App(3), Box::new(Stmt::Empty)),
        Stmt::Return(get_id_("x")),
    ]);
    test_wasm(10, test_program_(main_body));
}

#[test]
fn strings() {
    let body = Stmt::Block(vec![
        Stmt::Var(id_("s"), Expr::ToString(str_("wow, thanks")), Type::String),
        Stmt::Return(len_(get_id_("s"))),
    ]);
    let program = test_program_(body);
    test_wasm(11, program);
}

#[test]
fn a_global_is_not_in_scope() {
    // a global is no identifier that a function can read
    let mut program = test_program_(Stmt::Return(get_id_("MY_GLOBAL")));
    program.globals.push((
        id_("MY_GLOBAL"),
        Global { is_mut: false, ty: Type::I32, atom: i32_(5) },
    ));
    assert_eq!(
        compile(program),
        Err(CompileError::UnboundIdentifier("MY_GLOBAL".to_string()))
    );
}

#[test]
fn simple_prec() {
    let product = binary_(BinaryOp::I32Mul, i32_(2), i32_(3));
    let program =
        test_program_(Stmt::Block(vec![Stmt::Return(plus_(plus_(i32_(5), product), i32_(2)))]));
    test_wasm(13, program);
}

#[test]
fn identical_interned_string_identity() {
    let program = test_program_(Stmt::Block(vec![
        Stmt::Var(id_("s1"), atom_(str_("Calvin Coolidge")), Type::String),
        Stmt::Var(id_("s2"), atom_(str_("Calvin Coolidge")), Type::String),
        // ptr equality
        Stmt::Return(binary_(BinaryOp::I32Eq, get_id_("s1"), get_id_("s2"))),
    ]));
    let program = intern(program).expect("couldn't intern");
    test_wasm(1, program);
}

#[test]
fn different_interned_strings_differ() {
    let program = test_program_(Stmt::Block(vec![
        Stmt::Var(id_("s1"), atom_(str_("Calvin Coolidge")), Type::String),
        Stmt::Var(id_("s2"), atom_(str_("Herbert Hoover")), Type::String),
        Stmt::Return(binary_(BinaryOp::I32Eq, get_id_("s1"), get_id_("s2"))),
    ]));
    test_wasm(0, program);
}

#[test]
fn break_leaves_loop_with_local_unchanged() {
    let body = Stmt::Block(vec![
        Stmt::Var(id_("x"), atom_(i32_(41)), Type::I32),
        label_(
            "out",
            loop_(Stmt::Block(vec![break_("out"), Stmt::Assign(id_("x"), atom_(i32_(1)))])),
        ),
        Stmt::Return(get_id_("x")),
    ]);
    test_wasm(41, test_program_(body));
}

#[test]
fn siblings_do_not_share_slots() {
    // each branch declares a local; both keep their own slot
    let body = Stmt::Block(vec![
        Stmt::Var(id_("r"), atom_(i32_(0)), Type::I32),
        if_(
            Atom::Lit(Lit::Bool(false)),
            Stmt::Block(vec![
                Stmt::Var(id_("a"), atom_(i32_(1)), Type::I32),
                Stmt::Assign(id_("r"), atom_(get_id_("a"))),
            ]),
            Stmt::Block(vec![
                Stmt::Var(id_("b"), atom_(i32_(2)), Type::I32),
                Stmt::Assign(id_("r"), atom_(get_id_("b"))),
            ]),
        ),
        Stmt::Return(get_id_("r")),
    ]);
    let module = compile_module(test_program_(body.clone())).unwrap();
    assert_eq!(module.functions[0].locals.len(), 3);
    assert!(module.functions[0].code.contains(&Instr::SetLocal(1)));
    assert!(module.functions[0].code.contains(&Instr::SetLocal(2)));
    test_wasm(2, test_program_(body));
}
