//! The abstract syntax of NotWasm, and the mathematical view of each node.
//!
//! Every executable type here has a ghost counterpart whose strings are
//! `Seq<char>` and whose vectors are `Seq`. Contracts throughout the crate
//! are stated over those views.

use vstd::prelude::*;

verus! {

/// An identifier: a variable, a parameter or a function name.
#[derive(Debug, PartialEq, Eq, Hash)]
pub enum Id {
    Named(String),
}

impl View for Id {
    type V = Seq<char>;

    open spec fn view(&self) -> Seq<char> {
        match self {
            Id::Named(s) => s@,
        }
    }
}

impl Clone for Id {
    fn clone(&self) -> (r: Id)
        ensures
            r@ == self@,
    {
        match self {
            Id::Named(s) => Id::Named(s.clone()),
        }
    }
}

impl Id {
    /// The identifier's text.
    pub fn name(&self) -> (r: &str)
        ensures
            r@ == self@,
    {
        match self {
            Id::Named(s) => s.as_str(),
        }
    }
}

/// The view of a [`Label`].
pub ghost enum LabelView {
    Named(Seq<char>),
    App(i32),
}

/// A label. `Named` labels are break targets. `App` labels mark the targets
/// of unstructured jumps and exist only until jumps have been structured.
#[derive(Debug, PartialEq, Eq, Hash)]
pub enum Label {
    Named(String),
    App(i32),
}

impl View for Label {
    type V = LabelView;

    open spec fn view(&self) -> LabelView {
        match self {
            Label::Named(s) => LabelView::Named(s@),
            Label::App(n) => LabelView::App(*n),
        }
    }
}

impl Clone for Label {
    fn clone(&self) -> (r: Label)
        ensures
            r@ == self@,
    {
        match self {
            Label::Named(s) => Label::Named(s.clone()),
            Label::App(n) => Label::App(*n),
        }
    }
}

/// The view of a [`Type`].
pub ghost enum TypeView {
    I32,
    F64,
    String,
    Bool,
    Any,
    Array,
    DynObject,
    HT,
    Fn(FnTypeView),
}

/// The view of a [`FnType`].
pub ghost struct FnTypeView {
    pub args: Seq<TypeView>,
    pub result: Option<Box<TypeView>>,
}

/// The static type of a NotWasm value.
#[derive(Debug, PartialEq)]
pub enum Type {
    I32,
    F64,
    String,
    Bool,
    Any,
    Array,
    DynObject,
    HT,
    Fn(FnType),
}

/// The type of a function: its parameter types and, where it returns a
/// value, its result type.
#[derive(Debug, PartialEq)]
pub struct FnType {
    pub args: Vec<Type>,
    pub result: Option<Box<Type>>,
}

/// The view of a type, by recursion on its structure.
pub open spec fn type_view(t: Type) -> TypeView
    decreases t,
{
    match t {
        Type::I32 => TypeView::I32,
        Type::F64 => TypeView::F64,
        Type::String => TypeView::String,
        Type::Bool => TypeView::Bool,
        Type::Any => TypeView::Any,
        Type::Array => TypeView::Array,
        Type::DynObject => TypeView::DynObject,
        Type::HT => TypeView::HT,
        Type::Fn(ft) => TypeView::Fn(
            FnTypeView {
                args: Seq::new(
                    ft.args@.len(),
                    |i: int|
                        if 0 <= i < ft.args@.len() {
                            type_view(ft.args@[i])
                        } else {
                            TypeView::Any
                        },
                ),
                result: match ft.result {
                    Some(t) => Some(Box::new(type_view(*t))),
                    None => None,
                },
            },
        ),
    }
}

impl View for Type {
    type V = TypeView;

    open spec fn view(&self) -> TypeView {
        type_view(*self)
    }
}

impl View for FnType {
    type V = FnTypeView;

    open spec fn view(&self) -> FnTypeView {
        Type::Fn(*self)@->Fn_0
    }
}

/// The views of the types in `ts`, in order.
pub open spec fn types_view(ts: Seq<Type>) -> Seq<TypeView> {
    Seq::new(ts.len(), |i: int| ts[i]@)
}

impl FnType {
    /// The type of the functions that take `args` and return `result`.
    pub fn new(args: Vec<Type>, result: Option<Type>) -> (r: FnType)
        ensures
            r@.args == types_view(args@),
            r@.result == match result {
                Some(t) => Some(Box::new(t@)),
                None => None,
            },
    {
        let r = FnType {
            args,
            result: match result {
                Some(t) => Some(Box::new(t)),
                None => None,
            },
        };
        assert(r@.args =~= types_view(args@));
        r
    }
}

impl Clone for Type {
    fn clone(&self) -> (r: Type)
        ensures
            r@ == self@,
        decreases self,
    {
        match self {
            Type::I32 => Type::I32,
            Type::F64 => Type::F64,
            Type::String => Type::String,
            Type::Bool => Type::Bool,
            Type::Any => Type::Any,
            Type::Array => Type::Array,
            Type::DynObject => Type::DynObject,
            Type::HT => Type::HT,
            Type::Fn(ft) => {
                let mut args: Vec<Type> = Vec::new();
                let mut i: usize = 0;
                while i < ft.args.len()
                    invariant
                        i <= ft.args.len(),
                        args.len() == i,
                        forall|j: int| 0 <= j < i ==> args@[j]@ == ft.args@[j]@,
                        self is Fn,
                        *ft == self->Fn_0,
                    decreases ft.args.len() - i,
                {
                    proof {
                        broadcast use vstd::std_specs::vec::axiom_vec_index_decreases;

                        assert(decreases_to!(*self => self->Fn_0.args[i as int]));
                    }
                    let t = ft.args[i].clone();
                    args.push(t);
                    i += 1;
                }
                let result: Option<Box<Type>> = match &ft.result {
                    Some(t) => Some(Box::new((**t).clone())),
                    None => None,
                };
                let r = Type::Fn(FnType { args, result });
                assert(r@->Fn_0.args =~= self@->Fn_0.args);
                r
            },
        }
    }
}

impl Clone for FnType {
    fn clone(&self) -> (r: FnType)
        ensures
            r@ == self@,
    {
        let mut args: Vec<Type> = Vec::new();
        let mut i: usize = 0;
        while i < self.args.len()
            invariant
                i <= self.args.len(),
                args.len() == i,
                forall|j: int| 0 <= j < i ==> args@[j]@ == self.args@[j]@,
            decreases self.args.len() - i,
        {
            args.push(self.args[i].clone());
            i += 1;
        }
        let result: Option<Box<Type>> = match &self.result {
            Some(t) => Some(Box::new((**t).clone())),
            None => None,
        };
        let r = FnType { args, result };
        assert(r@.args =~= self@.args);
        r
    }
}

/// The views of the identifiers in `ids`, in order.
pub open spec fn ids_view(ids: Seq<Id>) -> Seq<Seq<char>> {
    Seq::new(ids.len(), |i: int| ids[i]@)
}

/// A binary operator on 32-bit integers. Each names one machine instruction.
#[derive(Debug, Clone, Copy, PartialEq, Eq, Structural)]
pub enum BinaryOp {
    I32Eq,
    I32Add,
    I32Sub,
    I32GT,
    I32Ge,
    I32Le,
    I32Mul,
    I32And,
    I32Or,
}

/// The view of a [`Lit`].
pub ghost enum LitView {
    I32(i32),
    Bool(bool),
    String(Seq<char>),
    Interned(u32),
}

/// A literal. `String` literals exist only until they have been interned;
/// `Interned` holds a literal's offset into the program's data.
#[derive(Debug, PartialEq)]
pub enum Lit {
    I32(i32),
    Bool(bool),
    String(String),
    Interned(u32),
}

impl View for Lit {
    type V = LitView;

    open spec fn view(&self) -> LitView {
        match self {
            Lit::I32(i) => LitView::I32(*i),
            Lit::Bool(b) => LitView::Bool(*b),
            Lit::String(s) => LitView::String(s@),
            Lit::Interned(a) => LitView::Interned(*a),
        }
    }
}

/// The view of an [`Atom`].
pub ghost enum AtomView {
    Lit(LitView),
    Id(Seq<char>),
    HTGet(Box<AtomView>, Box<AtomView>, TypeView),
    Index(Box<AtomView>, Box<AtomView>, TypeView),
    StringLen(Box<AtomView>),
    Binary(BinaryOp, Box<AtomView>, Box<AtomView>),
}

/// An expression without side effects.
#[derive(Debug, PartialEq)]
pub enum Atom {
    Lit(Lit),
    Id(Id),
    /// Reads the field named by the second atom from the hash table given
    /// by the first; the type is that of the table's values.
    HTGet(Box<Atom>, Box<Atom>, Type),
    /// Reads the element at the index given by the second atom from the
    /// array given by the first; the type is that of the array's elements.
    Index(Box<Atom>, Box<Atom>, Type),
    StringLen(Box<Atom>),
    Binary(BinaryOp, Box<Atom>, Box<Atom>),
}

/// The view of an atom, by recursion on its structure.
pub open spec fn atom_view(a: Atom) -> AtomView
    decreases a,
{
    match a {
        Atom::Lit(l) => AtomView::Lit(l@),
        Atom::Id(x) => AtomView::Id(x@),
        Atom::HTGet(ht, field, ty) => AtomView::HTGet(
            Box::new(atom_view(*ht)),
            Box::new(atom_view(*field)),
            ty@,
        ),
        Atom::Index(arr, index, ty) => AtomView::Index(
            Box::new(atom_view(*arr)),
            Box::new(atom_view(*index)),
            ty@,
        ),
        Atom::StringLen(s) => AtomView::StringLen(Box::new(atom_view(*s))),
        Atom::Binary(op, l, r) => AtomView::Binary(
            op,
            Box::new(atom_view(*l)),
            Box::new(atom_view(*r)),
        ),
    }
}

impl View for Atom {
    type V = AtomView;

    open spec fn view(&self) -> AtomView {
        atom_view(*self)
    }
}

/// The view of an [`Expr`].
pub ghost enum ExprView {
    Atom(AtomView),
    HT(TypeView),
    Array(TypeView),
    HTSet(AtomView, AtomView, AtomView, TypeView),
    Push(AtomView, AtomView, TypeView),
    CallDirect(Seq<char>, Seq<Seq<char>>),
    CallIndirect(Seq<char>, FnTypeView, Seq<Seq<char>>),
    ToString(AtomView),
}

/// An expression that may allocate, write or call.
#[derive(Debug, PartialEq)]
pub enum Expr {
    Atom(Atom),
    /// A new hash table with values of the given type.
    HT(Type),
    /// A new array with elements of the given type.
    Array(Type),
    /// Table, field, value, and the type of the value.
    HTSet(Atom, Atom, Atom, Type),
    /// Array, value, and the type of the value.
    Push(Atom, Atom, Type),
    /// A call of a function known by name; the arguments are locals.
    CallDirect(Id, Vec<Id>),
    /// A call through a function value held in a variable, with the type
    /// that the callee is expected to have; the arguments are locals.
    CallIndirect(Id, FnType, Vec<Id>),
    /// Makes a managed string from an interned literal.
    ToString(Atom),
}

impl View for Expr {
    type V = ExprView;

    open spec fn view(&self) -> ExprView {
        match self {
            Expr::Atom(a) => ExprView::Atom(a@),
            Expr::HT(ty) => ExprView::HT(ty@),
            Expr::Array(ty) => ExprView::Array(ty@),
            Expr::HTSet(ht, field, val, ty) => ExprView::HTSet(ht@, field@, val@, ty@),
            Expr::Push(arr, val, ty) => ExprView::Push(arr@, val@, ty@),
            Expr::CallDirect(f, args) => ExprView::CallDirect(f@, ids_view(args@)),
            Expr::CallIndirect(f, ft, args) => ExprView::CallIndirect(f@, ft@, ids_view(args@)),
            Expr::ToString(a) => ExprView::ToString(a@),
        }
    }
}

/// The view of a [`Stmt`].
pub ghost enum StmtView {
    Empty,
    Block(Seq<StmtView>),
    Var(Seq<char>, ExprView, TypeView),
    Assign(Seq<char>, ExprView),
    If(AtomView, Box<StmtView>, Box<StmtView>),
    Loop(Box<StmtView>),
    Label(LabelView, Box<StmtView>),
    Break(LabelView),
    Return(AtomView),
    Trap,
    Goto(LabelView),
}

/// A statement.
#[derive(Debug, PartialEq)]
pub enum Stmt {
    Empty,
    /// A sequence of statements with a scope of its own.
    Block(Vec<Stmt>),
    /// Declares a variable of the given type and binds it to the value of
    /// the expression.
    Var(Id, Expr, Type),
    Assign(Id, Expr),
    /// Both branches are always present.
    If(Atom, Box<Stmt>, Box<Stmt>),
    /// Repeats its body forever; only a break to an enclosing label leaves it.
    Loop(Box<Stmt>),
    Label(Label, Box<Stmt>),
    Break(Label),
    Return(Atom),
    Trap,
    /// An unstructured jump to the statement labelled with the same label.
    Goto(Label),
}

/// The view of a statement, by recursion on its structure.
pub open spec fn stmt_view(s: Stmt) -> StmtView
    decreases s,
{
    match s {
        Stmt::Empty => StmtView::Empty,
        Stmt::Block(ss) => StmtView::Block(
            Seq::new(
                ss@.len(),
                |i: int|
                    if 0 <= i < ss@.len() {
                        stmt_view(ss@[i])
                    } else {
                        StmtView::Empty
                    },
            ),
        ),
        Stmt::Var(x, e, ty) => StmtView::Var(x@, e@, ty@),
        Stmt::Assign(x, e) => StmtView::Assign(x@, e@),
        Stmt::If(c, t, e) => StmtView::If(c@, Box::new(stmt_view(*t)), Box::new(stmt_view(*e))),
        Stmt::Loop(b) => StmtView::Loop(Box::new(stmt_view(*b))),
        Stmt::Label(l, b) => StmtView::Label(l@, Box::new(stmt_view(*b))),
        Stmt::Break(l) => StmtView::Break(l@),
        Stmt::Return(a) => StmtView::Return(a@),
        Stmt::Trap => StmtView::Trap,
        Stmt::Goto(l) => StmtView::Goto(l@),
    }
}

impl View for Stmt {
    type V = StmtView;

    open spec fn view(&self) -> StmtView {
        stmt_view(*self)
    }
}

/// The views of the statements in `ss`, in order.
pub open spec fn stmts_view(ss: Seq<Stmt>) -> Seq<StmtView> {
    Seq::new(ss.len(), |i: int| ss[i]@)
}

/// The view of a [`Function`].
pub ghost struct FunctionView {
    pub params: Seq<Seq<char>>,
    pub fn_type: FnTypeView,
    pub body: StmtView,
}

/// A function: its parameter names, its type, and its body. Locals are not
/// declared ahead; `Var` statements in the body introduce them.
#[derive(Debug, PartialEq)]
pub struct Function {
    pub params: Vec<Id>,
    pub fn_type: FnType,
    pub body: Stmt,
}

impl View for Function {
    type V = FunctionView;

    open spec fn view(&self) -> FunctionView {
        FunctionView { params: ids_view(self.params@), fn_type: self.fn_type@, body: self.body@ }
    }
}

/// The view of a [`Global`].
pub ghost struct GlobalView {
    pub is_mut: bool,
    pub ty: TypeView,
    pub atom: AtomView,
}

/// A global variable with its constant initializer.
#[derive(Debug, PartialEq)]
pub struct Global {
    pub is_mut: bool,
    pub ty: Type,
    pub atom: Atom,
}

impl View for Global {
    type V = GlobalView;

    open spec fn view(&self) -> GlobalView {
        GlobalView { is_mut: self.is_mut, ty: self.ty@, atom: self.atom@ }
    }
}

/// The view of a [`Program`].
pub ghost struct ProgramView {
    pub functions: Seq<(Seq<char>, FunctionView)>,
    pub globals: Seq<(Seq<char>, GlobalView)>,
    pub data: Seq<u8>,
}

/// A program: its functions and globals by name, in order, and the data
/// that holds its interned strings.
#[derive(Debug, PartialEq)]
pub struct Program {
    pub functions: Vec<(Id, Function)>,
    pub globals: Vec<(Id, Global)>,
    pub data: Vec<u8>,
}

/// The views of the named functions `fs`, in order.
pub open spec fn functions_view(fs: Seq<(Id, Function)>) -> Seq<(Seq<char>, FunctionView)> {
    Seq::new(fs.len(), |i: int| (fs[i].0@, fs[i].1@))
}

/// The views of the named globals `gs`, in order.
pub open spec fn globals_view(gs: Seq<(Id, Global)>) -> Seq<(Seq<char>, GlobalView)> {
    Seq::new(gs.len(), |i: int| (gs[i].0@, gs[i].1@))
}

impl View for Program {
    type V = ProgramView;

    open spec fn view(&self) -> ProgramView {
        ProgramView {
            functions: functions_view(self.functions@),
            globals: globals_view(self.globals@),
            data: self.data@,
        }
    }
}

impl Clone for Lit {
    fn clone(&self) -> (r: Lit)
        ensures
            r@ == self@,
    {
        match self {
            Lit::I32(i) => Lit::I32(*i),
            Lit::Bool(b) => Lit::Bool(*b),
            Lit::String(s) => Lit::String(s.clone()),
            Lit::Interned(a) => Lit::Interned(*a),
        }
    }
}

impl Clone for Atom {
    fn clone(&self) -> (r: Atom)
        ensures
            r@ == self@,
        decreases self,
    {
        match self {
            Atom::Lit(l) => Atom::Lit(l.clone()),
            Atom::Id(x) => Atom::Id(x.clone()),
            Atom::HTGet(ht, field, ty) => Atom::HTGet(
                Box::new((**ht).clone()),
                Box::new((**field).clone()),
                ty.clone(),
            ),
            Atom::Index(arr, index, ty) => Atom::Index(
                Box::new((**arr).clone()),
                Box::new((**index).clone()),
                ty.clone(),
            ),
            Atom::StringLen(s) => Atom::StringLen(Box::new((**s).clone())),
            Atom::Binary(op, l, r) => Atom::Binary(
                *op,
                Box::new((**l).clone()),
                Box::new((**r).clone()),
            ),
        }
    }
}

/// Copies a list of identifiers.
pub fn clone_ids(ids: &Vec<Id>) -> (r: Vec<Id>)
    ensures
        ids_view(r@) == ids_view(ids@),
{
    let mut out: Vec<Id> = Vec::new();
    let mut i: usize = 0;
    while i < ids.len()
        invariant
            i <= ids.len(),
            out.len() == i,
            forall|j: int| 0 <= j < i ==> out@[j]@ == ids@[j]@,
        decreases ids.len() - i,
    {
        out.push(ids[i].clone());
        i += 1;
    }
    assert(ids_view(out@) =~= ids_view(ids@));
    out
}

impl Clone for Expr {
    fn clone(&self) -> (r: Expr)
        ensures
            r@ == self@,
    {
        match self {
            Expr::Atom(a) => Expr::Atom(a.clone()),
            Expr::HT(ty) => Expr::HT(ty.clone()),
            Expr::Array(ty) => Expr::Array(ty.clone()),
            Expr::HTSet(ht, field, val, ty) => Expr::HTSet(
                ht.clone(),
                field.clone(),
                val.clone(),
                ty.clone(),
            ),
            Expr::Push(arr, val, ty) => Expr::Push(arr.clone(), val.clone(), ty.clone()),
            Expr::CallDirect(f, args) => Expr::CallDirect(f.clone(), clone_ids(args)),
            Expr::CallIndirect(f, ft, args) => Expr::CallIndirect(
                f.clone(),
                ft.clone(),
                clone_ids(args),
            ),
            Expr::ToString(a) => Expr::ToString(a.clone()),
        }
    }
}

impl Clone for Stmt {
    fn clone(&self) -> (r: Stmt)
        ensures
            r@ == self@,
        decreases self,
    {
        match self {
            Stmt::Empty => Stmt::Empty,
            Stmt::Block(ss) => {
                let mut out: Vec<Stmt> = Vec::new();
                let mut i: usize = 0;
                while i < ss.len()
                    invariant
                        i <= ss.len(),
                        out.len() == i,
                        forall|j: int| 0 <= j < i ==> out@[j]@ == ss@[j]@,
                        self is Block,
                        *ss == self->Block_0,
                    decreases ss.len() - i,
                {
                    proof {
                        broadcast use vstd::std_specs::vec::axiom_vec_index_decreases;

                        assert(decreases_to!(*self => self->Block_0[i as int]));
                    }
                    out.push(ss[i].clone());
                    i += 1;
                }
                let r = Stmt::Block(out);
                assert(r@->Block_0 =~= self@->Block_0);
                r
            },
            Stmt::Var(x, e, ty) => Stmt::Var(x.clone(), e.clone(), ty.clone()),
            Stmt::Assign(x, e) => Stmt::Assign(x.clone(), e.clone()),
            Stmt::If(c, t, e) => Stmt::If(
                c.clone(),
                Box::new((**t).clone()),
                Box::new((**e).clone()),
            ),
            Stmt::Loop(b) => Stmt::Loop(Box::new((**b).clone())),
            Stmt::Label(l, b) => Stmt::Label(l.clone(), Box::new((**b).clone())),
            Stmt::Break(l) => Stmt::Break(l.clone()),
            Stmt::Return(a) => Stmt::Return(a.clone()),
            Stmt::Trap => Stmt::Trap,
            Stmt::Goto(l) => Stmt::Goto(l.clone()),
        }
    }
}

impl Clone for Function {
    fn clone(&self) -> (r: Function)
        ensures
            r@ == self@,
    {
        Function {
            params: clone_ids(&self.params),
            fn_type: self.fn_type.clone(),
            body: self.body.clone(),
        }
    }
}

impl Clone for Global {
    fn clone(&self) -> (r: Global)
        ensures
            r@ == self@,
    {
        Global { is_mut: self.is_mut, ty: self.ty.clone(), atom: self.atom.clone() }
    }
}

impl Clone for Program {
    fn clone(&self) -> (r: Program)
        ensures
            r@ == self@,
    {
        let mut functions: Vec<(Id, Function)> = Vec::new();
        let mut i: usize = 0;
        while i < self.functions.len()
            invariant
                i <= self.functions.len(),
                functions.len() == i,
                forall|j: int|
                    0 <= j < i ==> functions@[j].0@ == self.functions@[j].0@ && functions@[j].1@
                        == self.functions@[j].1@,
            decreases self.functions.len() - i,
        {
            functions.push((self.functions[i].0.clone(), self.functions[i].1.clone()));
            i += 1;
        }
        let mut globals: Vec<(Id, Global)> = Vec::new();
        let mut k: usize = 0;
        while k < self.globals.len()
            invariant
                k <= self.globals.len(),
                globals.len() == k,
                forall|j: int|
                    0 <= j < k ==> globals@[j].0@ == self.globals@[j].0@ && globals@[j].1@
                        == self.globals@[j].1@,
            decreases self.globals.len() - k,
        {
            globals.push((self.globals[k].0.clone(), self.globals[k].1.clone()));
            k += 1;
        }
        let r = Program { functions, globals, data: self.data.clone() };
        assert(r@.functions =~= self@.functions);
        assert(r@.globals =~= self@.globals);
        r
    }
}

} // verus!
