//! The types of JankyScript, and what the type checker reports.

use libjankscripten::jankyscript::type_checking::{ensure, TypeCheckingError};
use libjankscripten::notwasm::syntax::{FnType, Type as NotWasmType};
use libjankscripten::shared::types::Type;

fn fun_(args: Vec<Type>, ret: Type) -> Type {
    Type::Function(args, Box::new(ret))
}

#[test]
fn notwasm_types_of_base_types() {
    assert_eq!(Type::Any.notwasm_typ(), NotWasmType::Any);
    assert_eq!(Type::Float.notwasm_typ(), NotWasmType::F64);
    assert_eq!(Type::Int.notwasm_typ(), NotWasmType::I32);
    assert_eq!(Type::Bool.notwasm_typ(), NotWasmType::Bool);
    assert_eq!(Type::String.notwasm_typ(), NotWasmType::String);
    assert_eq!(Type::Array.notwasm_typ(), NotWasmType::Array);
    assert_eq!(Type::DynObject.notwasm_typ(), NotWasmType::DynObject);
}

#[test]
fn notwasm_types_of_function_types() {
    let ty = fun_(vec![Type::Int, fun_(vec![], Type::Float)], Type::String);
    assert_eq!(
        ty.notwasm_typ(),
        NotWasmType::Fn(FnType {
            args: vec![
                NotWasmType::I32,
                NotWasmType::Fn(FnType {
                    args: vec![],
                    result: Some(Box::new(NotWasmType::F64)),
                }),
            ],
            result: Some(Box::new(NotWasmType::String)),
        })
    );
}

#[test]
fn ground_types() {
    for ty in [
        Type::Any,
        Type::Float,
        Type::Int,
        Type::Bool,
        Type::String,
        Type::Array,
        Type::DynObject,
    ] {
        assert!(ty.is_ground());
    }
    assert!(fun_(vec![], Type::Any).is_ground());
    assert!(fun_(vec![Type::Any, Type::Any], Type::Any).is_ground());
    assert!(!fun_(vec![Type::Any, Type::Int], Type::Any).is_ground());
    assert!(!fun_(vec![Type::Int, Type::Any], Type::Any).is_ground());
    assert!(!fun_(vec![Type::Any], Type::Int).is_ground());
    assert!(!fun_(vec![], Type::Float).is_ground());
    assert!(!fun_(vec![fun_(vec![], Type::Any)], Type::Any).is_ground());
    assert!(!fun_(vec![], fun_(vec![], Type::Any)).is_ground());
}

#[test]
fn ground_functions() {
    assert_eq!(Type::ground_function(0), fun_(vec![], Type::Any));
    assert_eq!(
        Type::ground_function(3),
        fun_(vec![Type::Any, Type::Any, Type::Any], Type::Any)
    );
    for n in 0..5 {
        assert!(Type::ground_function(n).is_ground());
    }
}

#[test]
fn same_and_clone() {
    let a = fun_(vec![Type::Int, fun_(vec![Type::Bool], Type::Float)], Type::String);
    let b = fun_(vec![Type::Int, fun_(vec![Type::Bool], Type::Int)], Type::String);
    assert!(a.same(&a.clone()));
    assert_eq!(a.clone(), a);
    assert!(!a.same(&b));
    assert!(!a.same(&fun_(vec![Type::Int], Type::String)));
    assert!(!Type::Int.same(&Type::Float));
    assert!(Type::DynObject.same(&Type::DynObject));
}

#[test]
fn ensure_hands_back_the_type_that_matches() {
    let r = ensure("if condition", Type::Bool, Type::Bool);
    assert!(matches!(r, Ok(Type::Bool)));
    let f = Type::ground_function(2);
    assert_eq!(ensure("callee", f.clone(), f.clone()).unwrap(), f);
}

#[test]
fn ensure_reports_a_mismatch() {
    match ensure("variable declaration matches given type", Type::Int, Type::Float) {
        Err(TypeCheckingError::TypeMismatch(msg, expected, got)) => {
            assert_eq!(msg, "variable declaration matches given type");
            assert_eq!(expected, Type::Int);
            assert_eq!(got, Type::Float);
        }
        Ok(_) => panic!("the types differ"),
    }
    assert!(ensure("", fun_(vec![], Type::Any), fun_(vec![Type::Any], Type::Any)).is_err());
}
