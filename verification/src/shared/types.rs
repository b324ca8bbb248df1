//! The types of the JankyScript language.

use crate::notwasm::syntax::{FnType, FnTypeView, Type as NotWasmType, TypeView as NotWasmTypeView};
use vstd::prelude::*;

verus! {

/// The view of a [`Type`].
pub ghost enum TypeView {
    Any,
    Float,
    Int,
    Bool,
    Function(Seq<TypeView>, Box<TypeView>),
    String,
    Array,
    DynObject,
}

/// A JankyScript type.
#[derive(Debug, PartialEq)]
pub enum Type {
    Any,
    Float,
    Int,
    Bool,
    Function(Vec<Type>, Box<Type>),
    String,
    Array,
    DynObject,
}

/// The view of a type, by recursion on its structure.
pub open spec fn type_view(t: Type) -> TypeView
    decreases t,
{
    match t {
        Type::Any => TypeView::Any,
        Type::Float => TypeView::Float,
        Type::Int => TypeView::Int,
        Type::Bool => TypeView::Bool,
        Type::Function(args, ret) => TypeView::Function(
            Seq::new(
                args@.len(),
                |i: int|
                    if 0 <= i < args@.len() {
                        type_view(args@[i])
                    } else {
                        TypeView::Any
                    },
            ),
            Box::new(type_view(*ret)),
        ),
        Type::String => TypeView::String,
        Type::Array => TypeView::Array,
        Type::DynObject => TypeView::DynObject,
    }
}

impl View for Type {
    type V = TypeView;

    open spec fn view(&self) -> TypeView {
        type_view(*self)
    }
}

/// The NotWasm type that holds the values of the type `t`. A function
/// type always has a result.
pub open spec fn notwasm_type(t: TypeView) -> NotWasmTypeView
    decreases t,
{
    match t {
        TypeView::Any => NotWasmTypeView::Any,
        TypeView::Float => NotWasmTypeView::F64,
        TypeView::Int => NotWasmTypeView::I32,
        TypeView::Bool => NotWasmTypeView::Bool,
        TypeView::Function(args, ret) => NotWasmTypeView::Fn(
            FnTypeView {
                args: Seq::new(
                    args.len(),
                    |i: int|
                        if 0 <= i < args.len() {
                            notwasm_type(args[i])
                        } else {
                            NotWasmTypeView::Any
                        },
                ),
                result: Some(Box::new(notwasm_type(*ret))),
            },
        ),
        TypeView::String => NotWasmTypeView::String,
        TypeView::Array => NotWasmTypeView::Array,
        TypeView::DynObject => NotWasmTypeView::DynObject,
    }
}

/// Whether the type `t` is ground: every type is, but for the function
/// types that take or return anything more specific than `Any`.
pub open spec fn ground(t: TypeView) -> bool {
    match t {
        TypeView::Function(args, ret) => *ret == TypeView::Any && forall|i: int|
            0 <= i < args.len() ==> args[i] == TypeView::Any,
        _ => true,
    }
}

/// The type of the functions that take `n` arguments of type `Any` and
/// return `Any`.
pub open spec fn ground_function_type(n: nat) -> TypeView {
    TypeView::Function(Seq::new(n, |i: int| TypeView::Any), Box::new(TypeView::Any))
}

impl Type {
    /// The NotWasm type that holds the values of this type.
    pub fn notwasm_typ(&self) -> (r: NotWasmType)
        ensures
            r@ == notwasm_type(self@),
        decreases self,
    {
        match self {
            Type::Any => NotWasmType::Any,
            Type::Float => NotWasmType::F64,
            Type::Int => NotWasmType::I32,
            Type::Bool => NotWasmType::Bool,
            Type::Function(arg_typs, ret_ty) => {
                let mut args: Vec<NotWasmType> = Vec::new();
                let mut i: usize = 0;
                while i < arg_typs.len()
                    invariant
                        i <= arg_typs.len(),
                        args.len() == i,
                        self is Function,
                        *arg_typs == self->Function_0,
                        forall|j: int| 0 <= j < i ==> args@[j]@ == notwasm_type(arg_typs@[j]@),
                    decreases arg_typs.len() - i,
                {
                    proof {
                        broadcast use vstd::std_specs::vec::axiom_vec_index_decreases;

                        assert(decreases_to!(*self => self->Function_0[i as int]));
                    }
                    args.push(arg_typs[i].notwasm_typ());
                    i += 1;
                }
                let r = NotWasmType::Fn(
                    FnType { args, result: Some(Box::new(ret_ty.notwasm_typ())) },
                );
                assert(r@->Fn_0.args =~= notwasm_type(self@)->Fn_0.args);
                r
            },
            Type::String => NotWasmType::String,
            Type::Array => NotWasmType::Array,
            Type::DynObject => NotWasmType::DynObject,
        }
    }

    /// Whether this type is ground.
    pub fn is_ground(&self) -> (r: bool)
        ensures
            r == ground(self@),
    {
        match self {
            Type::Function(args, result_type) => {
                match **result_type {
                    Type::Any => {
                        let mut i: usize = 0;
                        while i < args.len()
                            invariant
                                i <= args.len(),
                                self is Function,
                                *args == self->Function_0,
                                **result_type == Type::Any,
                                *result_type == self->Function_1,
                                forall|j: int| 0 <= j < i ==> args@[j]@ == TypeView::Any,
                            decreases args.len() - i,
                        {
                            if let Type::Any = args[i] {
                                // this argument is as general as can be
                            } else {
                                assert(self@->Function_0[i as int] == args@[i as int]@);
                                return false;
                            }
                            i += 1;
                        }
                        assert forall|j: int| 0 <= j < self@->Function_0.len() implies self@->Function_0[j]
                            == TypeView::Any by {
                            assert(self@->Function_0[j] == args@[j]@);
                        }
                        assert((**result_type)@ == TypeView::Any);
                        true
                    },
                    _ => {
                        assert((**result_type)@ != TypeView::Any);
                        false
                    },
                }
            },
            _ => true,
        }
    }

    /// The type of the functions that take `n` arguments of type `Any` and
    /// return `Any`.
    pub fn ground_function(n: usize) -> (r: Type)
        ensures
            r@ == ground_function_type(n as nat),
            ground(r@),
    {
        let mut args: Vec<Type> = Vec::new();
        let mut i: usize = 0;
        while i < n
            invariant
                i <= n,
                args.len() == i,
                forall|j: int| 0 <= j < i ==> args@[j]@ == TypeView::Any,
            decreases n - i,
        {
            args.push(Type::Any);
            i += 1;
        }
        let r = Type::Function(args, Box::new(Type::Any));
        assert forall|j: int| 0 <= j < n implies r@->Function_0[j] == TypeView::Any by {
            assert(r@->Function_0[j] == args@[j]@);
        }
        assert(r@->Function_0 =~= ground_function_type(n as nat)->Function_0);
        assert(Type::Any@ == TypeView::Any);
        r
    }

    /// Whether two types are the same.
    pub fn same(&self, other: &Type) -> (r: bool)
        ensures
            r == (self@ == other@),
        decreases self,
    {
        match (self, other) {
            (Type::Any, Type::Any) => true,
            (Type::Float, Type::Float) => true,
            (Type::Int, Type::Int) => true,
            (Type::Bool, Type::Bool) => true,
            (Type::String, Type::String) => true,
            (Type::Array, Type::Array) => true,
            (Type::DynObject, Type::DynObject) => true,
            (Type::Function(a1, r1), Type::Function(a2, r2)) => {
                if a1.len() != a2.len() {
                    assert(self@->Function_0.len() != other@->Function_0.len());
                    return false;
                }
                let mut i: usize = 0;
                while i < a1.len()
                    invariant
                        i <= a1.len(),
                        a1.len() == a2.len(),
                        self is Function,
                        *a1 == self->Function_0,
                        other is Function,
                        *a2 == other->Function_0,
                        forall|j: int| 0 <= j < i ==> a1@[j]@ == a2@[j]@,
                    decreases a1.len() - i,
                {
                    proof {
                        broadcast use vstd::std_specs::vec::axiom_vec_index_decreases;

                        assert(decreases_to!(*self => self->Function_0[i as int]));
                    }
                    if !a1[i].same(&a2[i]) {
                        assert(self@->Function_0[i as int] == a1@[i as int]@);
                        assert(other@->Function_0[i as int] == a2@[i as int]@);
                        return false;
                    }
                    i += 1;
                }
                assert forall|j: int| 0 <= j < a1.len() implies self@->Function_0[j]
                    == other@->Function_0[j] by {
                    assert(self@->Function_0[j] == a1@[j]@);
                    assert(other@->Function_0[j] == a2@[j]@);
                }
                assert(self@->Function_0 =~= other@->Function_0);
                r1.same(r2)
            },
            _ => false,
        }
    }
}

impl Clone for Type {
    fn clone(&self) -> (r: Type)
        ensures
            r@ == self@,
        decreases self,
    {
        match self {
            Type::Any => Type::Any,
            Type::Float => Type::Float,
            Type::Int => Type::Int,
            Type::Bool => Type::Bool,
            Type::Function(args, ret) => {
                let mut out: Vec<Type> = Vec::new();
                let mut i: usize = 0;
                while i < args.len()
                    invariant
                        i <= args.len(),
                        out.len() == i,
                        self is Function,
                        *args == self->Function_0,
                        forall|j: int| 0 <= j < i ==> out@[j]@ == args@[j]@,
                    decreases args.len() - i,
                {
                    proof {
                        broadcast use vstd::std_specs::vec::axiom_vec_index_decreases;

                        assert(decreases_to!(*self => self->Function_0[i as int]));
                    }
                    out.push(args[i].clone());
                    i += 1;
                }
                let r = Type::Function(out, Box::new((**ret).clone()));
                assert(r@->Function_0 =~= self@->Function_0);
                r
            },
            Type::String => Type::String,
            Type::Array => Type::Array,
            Type::DynObject => Type::DynObject,
        }
    }
}

} // verus!
