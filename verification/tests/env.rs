//! Environments: binding, resolving, labels.

use libjankscripten::notwasm::env::{Env, IdIndex};
use libjankscripten::notwasm::error::CompileError;
use libjankscripten::notwasm::syntax::{FnType, Id, Label, Type};

fn id_(x: &str) -> Id {
    Id::Named(x.to_string())
}

#[test]
fn resolve_finds_what_bind_bound() {
    let fn_type = Type::Fn(FnType { args: vec![Type::I32], result: None });
    let env = Env::new().bind(&id_("x"), 3, &fn_type).bind_function(&id_("f"), 9);
    assert_eq!(env.resolve(&id_("x")), Ok(IdIndex::Local(3, fn_type)));
    assert_eq!(env.resolve(&id_("f")), Ok(IdIndex::Fun(9)));
    assert_eq!(
        env.resolve(&id_("y")),
        Err(CompileError::UnboundIdentifier("y".to_string()))
    );
    assert_eq!(
        Env::default().resolve(&id_("x")),
        Err(CompileError::UnboundIdentifier("x".to_string()))
    );
}

#[test]
fn bind_leaves_the_outer_environment_untouched() {
    let outer = Env::new().bind(&id_("x"), 0, &Type::I32);
    let inner = outer.bind(&id_("y"), 1, &Type::F64).bind(&id_("x"), 2, &Type::Bool);
    assert_eq!(inner.resolve(&id_("x")), Ok(IdIndex::Local(2, Type::Bool)));
    assert_eq!(inner.resolve(&id_("y")), Ok(IdIndex::Local(1, Type::F64)));
    assert_eq!(outer.resolve(&id_("x")), Ok(IdIndex::Local(0, Type::I32)));
    assert_eq!(
        outer.resolve(&id_("y")),
        Err(CompileError::UnboundIdentifier("y".to_string()))
    );
    // a copy is as good as the one it was made from, and as independent
    let copy = outer.clone();
    let _ = copy.bind(&id_("z"), 5, &Type::I32);
    assert_eq!(copy.resolve(&id_("x")), Ok(IdIndex::Local(0, Type::I32)));
    assert_eq!(
        copy.resolve(&id_("z")),
        Err(CompileError::UnboundIdentifier("z".to_string()))
    );
}

#[test]
fn index_of_id_wants_a_local() {
    let env = Env::new().bind(&id_("x"), 3, &Type::I32).bind_function(&id_("f"), 9);
    assert_eq!(env.index_of_id(&id_("x")), Ok(3));
    assert_eq!(env.index_of_id(&id_("f")), Err(CompileError::NotALocal("f".to_string())));
    assert_eq!(
        env.index_of_id(&id_("g")),
        Err(CompileError::UnboundIdentifier("g".to_string()))
    );
}

#[test]
fn break_index_counts_from_the_innermost_marker() {
    let env = Env::new().push_label(Some("a")).push_label(None).push_label(Some("b"));
    assert_eq!(env.break_index("b"), Ok(0));
    assert_eq!(env.break_index("a"), Ok(2));
    let deeper = env.push_label(None).push_label(Some("a"));
    assert_eq!(deeper.break_index("a"), Ok(0));
    assert_eq!(deeper.break_index("b"), Ok(2));
    // the environment that was derived from is as it was
    assert_eq!(env.break_index("a"), Ok(2));
}

#[test]
fn break_index_fails_on_an_unknown_label() {
    let env = Env::new().push_label(None).push_label(Some("a"));
    assert_eq!(
        env.break_index("b"),
        Err(CompileError::UnboundLabel(Label::Named("b".to_string())))
    );
    assert_eq!(
        Env::new().break_index("a"),
        Err(CompileError::UnboundLabel(Label::Named("a".to_string())))
    );
}

#[test]
fn labels_and_identifiers_do_not_mix() {
    let env = Env::new().bind(&id_("a"), 0, &Type::I32).push_label(Some("l"));
    assert_eq!(env.index_of_id(&id_("a")), Ok(0));
    assert_eq!(
        env.break_index("a"),
        Err(CompileError::UnboundLabel(Label::Named("a".to_string())))
    );
    assert_eq!(
        env.resolve(&id_("l")),
        Err(CompileError::UnboundIdentifier("l".to_string()))
    );
}
