//! The environment of a translation: what each identifier in scope is bound
//! to, and the labels of the blocks that are open.
//!
//! An environment is a persistent value. Deriving one from another shares
//! structure and leaves the other as it was, so each nested scope gets an
//! environment of its own and no binding leaks out of its scope.

use super::error::{CompileError, CompileErrorView};
use super::lookup::{first_index, lemma_first_index, lemma_first_index_is};
use super::syntax::{Id, Label, LabelView, Type, TypeView};
use vstd::prelude::*;

verus! {

/// The view of an [`IdIndex`].
pub ghost enum IdIndexView {
    Local(u32, TypeView),
    Fun(u32),
}

/// What an identifier is bound to: a local variable, with its slot and its
/// type, or a function of the program, with its position among them.
#[derive(Debug, PartialEq)]
pub enum IdIndex {
    Local(u32, Type),
    Fun(u32),
}

impl View for IdIndex {
    type V = IdIndexView;

    open spec fn view(&self) -> IdIndexView {
        match self {
            IdIndex::Local(n, ty) => IdIndexView::Local(*n, ty@),
            IdIndex::Fun(n) => IdIndexView::Fun(*n),
        }
    }
}

impl Clone for IdIndex {
    fn clone(&self) -> (r: IdIndex)
        ensures
            r@ == self@,
    {
        match self {
            IdIndex::Local(n, ty) => IdIndex::Local(*n, ty.clone()),
            IdIndex::Fun(n) => IdIndex::Fun(*n),
        }
    }
}

/// A marker on the stack of open blocks: the name of a labelled block, or
/// `None` for a block that no break can name.
pub open spec fn marker_view(m: Option<String>) -> Option<Seq<char>> {
    match m {
        Some(s) => Some(s@),
        None => None,
    }
}

#[verifier::external_type_specification]
#[verifier::external_body]
#[verifier::reject_recursive_types(K)]
#[verifier::reject_recursive_types(V)]
#[verifier::reject_recursive_types(S)]
pub struct ExHashMap<K, V, S>(im_rc::HashMap<K, V, S>);

#[verifier::external_type_specification]
#[verifier::external_body]
#[verifier::reject_recursive_types(A)]
pub struct ExVector<A>(im_rc::Vector<A>);

/// The bindings that a persistent map of identifiers holds.
pub uninterp spec fn bindings_of(m: im_rc::HashMap<String, IdIndex>) -> Map<Seq<char>, IdIndexView>;

/// The markers that a persistent vector holds, front first.
pub uninterp spec fn markers_of(v: im_rc::Vector<Option<String>>) -> Seq<Option<Seq<char>>>;

/// `im_rc::HashMap::new`: a map that holds no binding.
#[verifier::external_body]
fn ids_new() -> (r: im_rc::HashMap<String, IdIndex>)
    ensures
        forall|k: Seq<char>| !bindings_of(r).contains_key(k),
{
    im_rc::HashMap::new()
}

/// `Clone::clone` of `im_rc::HashMap`: a map with the same bindings.
#[verifier::external_body]
fn ids_clone(m: &im_rc::HashMap<String, IdIndex>) -> (r: im_rc::HashMap<String, IdIndex>)
    ensures
        bindings_of(r) == bindings_of(*m),
{
    m.clone()
}

/// `im_rc::HashMap::insert`: binds the key to the value, in place of what
/// the key was bound to before, and leaves the other keys as they were.
#[verifier::external_body]
fn ids_insert(m: &mut im_rc::HashMap<String, IdIndex>, k: String, v: IdIndex)
    ensures
        bindings_of(*final(m)) == bindings_of(*old(m)).insert(k@, v@),
{
    m.insert(k, v);
}

/// `im_rc::HashMap::get`: the value that the key is bound to, if any.
#[verifier::external_body]
fn ids_get<'a>(m: &'a im_rc::HashMap<String, IdIndex>, k: &str) -> (r: Option<&'a IdIndex>)
    ensures
        match r {
            Some(v) => bindings_of(*m).contains_key(k@) && v@ == bindings_of(*m)[k@],
            None => !bindings_of(*m).contains_key(k@),
        },
{
    m.get(k)
}

/// `im_rc::Vector::new`: a vector that holds nothing.
#[verifier::external_body]
fn markers_new() -> (r: im_rc::Vector<Option<String>>)
    ensures
        markers_of(r).len() == 0,
{
    im_rc::Vector::new()
}

/// `Clone::clone` of `im_rc::Vector`: a vector with the same items.
#[verifier::external_body]
fn markers_clone(v: &im_rc::Vector<Option<String>>) -> (r: im_rc::Vector<Option<String>>)
    ensures
        markers_of(r) == markers_of(*v),
{
    v.clone()
}

/// `im_rc::Vector::push_front`: puts the item before all the others.
#[verifier::external_body]
fn markers_push_front(v: &mut im_rc::Vector<Option<String>>, m: Option<String>)
    ensures
        markers_of(*final(v)) == seq![marker_view(m)] + markers_of(*old(v)),
{
    v.push_front(m);
}

/// `im_rc::Vector::index_of`: the index of the first item, from the front,
/// that equals the given one, if there is any.
#[verifier::external_body]
fn markers_index_of(v: &im_rc::Vector<Option<String>>, m: &Option<String>) -> (r: Option<usize>)
    ensures
        match r {
            Some(i) => i < markers_of(*v).len() && markers_of(*v)[i as int] == marker_view(*m)
                && forall|j: int| 0 <= j < i ==> markers_of(*v)[j] != marker_view(*m),
            None => forall|j: int|
                0 <= j < markers_of(*v).len() ==> markers_of(*v)[j] != marker_view(*m),
        },
{
    v.index_of(m)
}

/// The view of an [`Env`].
pub ghost struct EnvView {
    /// The markers of the open blocks, innermost first.
    pub labels: Seq<Option<Seq<char>>>,
    /// What each identifier in scope is bound to.
    pub ids: Map<Seq<char>, IdIndexView>,
}

/// An environment: the open blocks and the identifiers in scope.
pub struct Env {
    labels: im_rc::Vector<Option<String>>,
    ids: im_rc::HashMap<String, IdIndex>,
}

impl View for Env {
    type V = EnvView;

    closed spec fn view(&self) -> EnvView {
        EnvView { labels: markers_of(self.labels), ids: bindings_of(self.ids) }
    }
}

impl Clone for Env {
    fn clone(&self) -> (r: Env)
        ensures
            r@ == self@,
    {
        Env { labels: markers_clone(&self.labels), ids: ids_clone(&self.ids) }
    }
}

impl Default for Env {
    fn default() -> (r: Env)
        ensures
            r@.labels.len() == 0,
            r@.ids =~= Map::empty(),
    {
        Env::new()
    }
}

/// The slot of the local that `id` is bound to in `ids`, or why it has none.
pub open spec fn local_index(ids: Map<Seq<char>, IdIndexView>, id: Seq<char>) -> Result<
    u32,
    CompileErrorView,
> {
    if !ids.contains_key(id) {
        Err(CompileErrorView::UnboundIdentifier(id))
    } else {
        match ids[id] {
            IdIndexView::Local(n, _) => Ok(n),
            IdIndexView::Fun(_) => Err(CompileErrorView::NotALocal(id)),
        }
    }
}

/// The distance of a break to the label `name` under the open blocks
/// `labels`: the number of markers in front of the innermost one that
/// carries `name`. Anonymous markers count. It fails where no marker
/// carries `name`, and where the distance does not fit in 32 bits.
pub open spec fn break_distance(labels: Seq<Option<Seq<char>>>, name: Seq<char>) -> Result<
    u32,
    CompileErrorView,
> {
    match first_index(labels, Some(name)) {
        None => Err(CompileErrorView::UnboundLabel(LabelView::Named(name))),
        Some(i) => if i <= u32::MAX {
            Ok(i as u32)
        } else {
            Err(CompileErrorView::TooManyLabels)
        },
    }
}

impl Env {
    /// The environment with no block open and no identifier in scope.
    pub fn new() -> (r: Env)
        ensures
            r@.labels.len() == 0,
            r@.ids =~= Map::empty(),
    {
        Env { labels: markers_new(), ids: ids_new() }
    }

    /// A new environment in which `id` is bound to the local in slot
    /// `index`, of type `ty`. This environment stays as it is.
    pub fn bind(&self, id: &Id, index: u32, ty: &Type) -> (r: Env)
        ensures
            r@.labels == self@.labels,
            r@.ids == self@.ids.insert(id@, IdIndexView::Local(index, ty@)),
    {
        let mut ids = ids_clone(&self.ids);
        ids_insert(&mut ids, String::from_str(id.name()), IdIndex::Local(index, ty.clone()));
        Env { labels: markers_clone(&self.labels), ids }
    }

    /// A new environment in which `id` is bound to the function at
    /// position `index`. This environment stays as it is.
    pub fn bind_function(&self, id: &Id, index: u32) -> (r: Env)
        ensures
            r@.labels == self@.labels,
            r@.ids == self@.ids.insert(id@, IdIndexView::Fun(index)),
    {
        let mut ids = ids_clone(&self.ids);
        ids_insert(&mut ids, String::from_str(id.name()), IdIndex::Fun(index));
        Env { labels: markers_clone(&self.labels), ids }
    }

    /// What `id` is bound to. An unbound identifier is an error.
    pub fn resolve(&self, id: &Id) -> (r: Result<IdIndex, CompileError>)
        ensures
            match r {
                Ok(b) => self@.ids.contains_key(id@) && b@ == self@.ids[id@],
                Err(e) => !self@.ids.contains_key(id@) && e@
                    == CompileErrorView::UnboundIdentifier(id@),
            },
    {
        match ids_get(&self.ids, id.name()) {
            Some(b) => Ok(b.clone()),
            None => Err(CompileError::UnboundIdentifier(String::from_str(id.name()))),
        }
    }

    /// The slot of the local variable `id`. It is an error for `id` to be
    /// unbound, and for it to name a function.
    pub fn index_of_id(&self, id: &Id) -> (r: Result<u32, CompileError>)
        ensures
            match local_index(self@.ids, id@) {
                Ok(n) => r == Ok::<u32, CompileError>(n),
                Err(e) => r is Err && r->Err_0@ == e,
            },
    {
        match ids_get(&self.ids, id.name()) {
            Some(IdIndex::Local(index, _)) => Ok(*index),
            Some(IdIndex::Fun(_)) => Err(CompileError::NotALocal(String::from_str(id.name()))),
            None => Err(CompileError::UnboundIdentifier(String::from_str(id.name()))),
        }
    }

    /// A new environment with one more block open, innermost: one that
    /// carries the given name, or an anonymous one for `None`. This
    /// environment stays as it is.
    pub fn push_label(&self, marker: Option<&str>) -> (r: Env)
        ensures
            r@.ids == self@.ids,
            r@.labels == seq![
                match marker {
                    Some(s) => Some(s@),
                    None => None,
                },
            ] + self@.labels,
    {
        let mut labels = markers_clone(&self.labels);
        let owned: Option<String> = match marker {
            Some(s) => Some(String::from_str(s)),
            None => None,
        };
        markers_push_front(&mut labels, owned);
        Env { labels, ids: ids_clone(&self.ids) }
    }

    /// The distance of a break to the label `name`, counted from the
    /// innermost open block outward.
    pub fn break_index(&self, name: &str) -> (r: Result<u32, CompileError>)
        ensures
            match break_distance(self@.labels, name@) {
                Ok(n) => r == Ok::<u32, CompileError>(n),
                Err(e) => r is Err && r->Err_0@ == e,
            },
    {
        let wanted: Option<String> = Some(String::from_str(name));
        let found = markers_index_of(&self.labels, &wanted);
        proof {
            lemma_first_index(self@.labels, Some(name@));
        }
        match found {
            Some(i) => {
                proof {
                    lemma_first_index_is(self@.labels, Some(name@), i as nat);
                }
                if i <= u32::MAX as usize {
                    Ok(i as u32)
                } else {
                    Err(CompileError::TooManyLabels)
                }
            },
            None => Err(CompileError::UnboundLabel(Label::Named(String::from_str(name)))),
        }
    }
}

} // verus!
