//! The functions that the runtime provides to compiled programs.

use super::syntax::{types_view, FnType, FnTypeView, Type, TypeView};
use super::translation::mono_name;
use vstd::prelude::*;
use vstd::string::StringExecFns;

verus! {

/// The view of a [`Binding`].
pub ghost struct BindingView {
    pub name: Seq<char>,
    pub fn_type: FnTypeView,
}

/// A function of the runtime: its name and its type.
#[derive(Debug, PartialEq)]
pub struct Binding {
    pub name: String,
    pub fn_type: FnType,
}

impl View for Binding {
    type V = BindingView;

    open spec fn view(&self) -> BindingView {
        BindingView { name: self.name@, fn_type: self.fn_type@ }
    }
}

/// The names of the runtime's functions, in the order of `rt`.
pub open spec fn rt_names(rt: Seq<Binding>) -> Seq<Seq<char>> {
    Seq::new(rt.len(), |i: int| rt[i].name@)
}

/// The views of the runtime's functions, in the order of `rt`.
pub open spec fn bindings_view(rt: Seq<Binding>) -> Seq<BindingView> {
    Seq::new(rt.len(), |i: int| rt[i]@)
}

/// The names of the functions in `rt`, in order.
pub open spec fn binding_names(rt: Seq<BindingView>) -> Seq<Seq<char>> {
    Seq::new(rt.len(), |i: int| rt[i].name)
}

/// The function of the runtime named `name`, which takes `args` and
/// returns `result`.
pub open spec fn binding(name: Seq<char>, args: Seq<TypeView>, result: Option<TypeView>) -> BindingView {
    BindingView {
        name,
        fn_type: FnTypeView {
            args,
            result: match result {
                Some(t) => Some(Box::new(t)),
                None => None,
            },
        },
    }
}

/// The functions that the runtime has once for each type `ty` of the
/// values held in hash tables and arrays.
pub open spec fn mono_bindings(ty: TypeView) -> Seq<BindingView> {
    seq![
        binding(mono_name("ht_new"@, ty), seq![], Some(TypeView::HT)),
        binding(mono_name("ht_get"@, ty), seq![TypeView::HT, TypeView::I32], Some(ty)),
        binding(mono_name("ht_set"@, ty), seq![TypeView::HT, TypeView::I32, ty], Some(ty)),
        binding(mono_name("array_new"@, ty), seq![], Some(TypeView::Array)),
        binding(mono_name("array_push"@, ty), seq![TypeView::Array, ty], Some(TypeView::I32)),
        binding(mono_name("array_index"@, ty), seq![TypeView::Array, TypeView::I32], Some(ty)),
    ]
}

/// The functions that the runtime provides: those on hash tables and
/// arrays for values of the types `i32`, `f64` and `any`, those on
/// strings, and `init`, which sets the runtime up.
pub open spec fn runtime_bindings() -> Seq<BindingView> {
    mono_bindings(TypeView::I32) + mono_bindings(TypeView::F64) + mono_bindings(TypeView::Any)
        + seq![
        binding("string_from_str"@, seq![TypeView::I32], Some(TypeView::String)),
        binding("string_len"@, seq![TypeView::String], Some(TypeView::I32)),
        binding("init"@, seq![], None),
    ]
}

/// Adds to `map` the function `name`, which takes `args` and returns
/// `result`.
fn insert(map: &mut Vec<Binding>, name: String, args: Vec<Type>, result: Option<Type>)
    ensures
        bindings_view(final(map)@) == bindings_view(old(map)@).push(
            binding(
                name@,
                types_view(args@),
                match result {
                    Some(t) => Some(t@),
                    None => None,
                },
            ),
        ),
{
    let ghost before = bindings_view(map@);
    let b = Binding { name, fn_type: FnType::new(args, result) };
    map.push(b);
    proof {
        assert(bindings_view(map@) =~= before.push(b@));
    }
}

/// The name of the function `name` for values of type `ty`.
fn mono(name: &str, ty: &Type) -> (r: String)
    ensures
        r@ == mono_name(name@, ty@),
{
    String::from_str(name).concat("_").concat(ty.tag())
}

/// No types.
fn args0() -> (r: Vec<Type>)
    ensures
        types_view(r@) == Seq::<TypeView>::empty(),
{
    let r: Vec<Type> = Vec::new();
    assert(types_view(r@) =~= Seq::<TypeView>::empty());
    r
}

/// One type.
fn args1(a: Type) -> (r: Vec<Type>)
    ensures
        types_view(r@) == seq![a@],
{
    let mut r: Vec<Type> = Vec::new();
    r.push(a);
    assert(types_view(r@) =~= seq![a@]);
    r
}

/// Two types.
fn args2(a: Type, b: Type) -> (r: Vec<Type>)
    ensures
        types_view(r@) == seq![a@, b@],
{
    let mut r: Vec<Type> = Vec::new();
    r.push(a);
    r.push(b);
    assert(types_view(r@) =~= seq![a@, b@]);
    r
}

/// Three types.
fn args3(a: Type, b: Type, c: Type) -> (r: Vec<Type>)
    ensures
        types_view(r@) == seq![a@, b@, c@],
{
    let mut r: Vec<Type> = Vec::new();
    r.push(a);
    r.push(b);
    r.push(c);
    assert(types_view(r@) =~= seq![a@, b@, c@]);
    r
}

/// Adds to `map` the functions that the runtime has for values of type
/// `ty`.
fn insert_mono(map: &mut Vec<Binding>, ty: &Type)
    ensures
        bindings_view(final(map)@) == bindings_view(old(map)@) + mono_bindings(ty@),
{
    insert(map, mono("ht_new", ty), args0(), Some(Type::HT));
    insert(map, mono("ht_get", ty), args2(Type::HT, Type::I32), Some(ty.clone()));
    insert(map, mono("ht_set", ty), args3(Type::HT, Type::I32, ty.clone()), Some(ty.clone()));
    insert(map, mono("array_new", ty), args0(), Some(Type::Array));
    insert(map, mono("array_push", ty), args2(Type::Array, ty.clone()), Some(Type::I32));
    insert(map, mono("array_index", ty), args2(Type::Array, Type::I32), Some(ty.clone()));
    proof {
        assert(bindings_view(map@) =~= bindings_view(old(map)@) + mono_bindings(ty@));
    }
}

/// The functions that the runtime provides, in the order in which a
/// module imports them.
pub fn get_rt_bindings() -> (r: Vec<Binding>)
    ensures
        bindings_view(r@) == runtime_bindings(),
{
    let mut map: Vec<Binding> = Vec::new();
    proof {
        assert(bindings_view(map@) =~= Seq::empty());
    }
    insert_mono(&mut map, &Type::I32);
    insert_mono(&mut map, &Type::F64);
    insert_mono(&mut map, &Type::Any);
    insert(&mut map, String::from_str("string_from_str"), args1(Type::I32), Some(Type::String));
    insert(&mut map, String::from_str("string_len"), args1(Type::String), Some(Type::I32));
    insert(&mut map, String::from_str("init"), args0(), None);
    proof {
        assert(bindings_view(map@) =~= runtime_bindings());
    }
    map
}

} // verus!
