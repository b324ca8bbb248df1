//! What the type checker reports.

use crate::shared::types::{Type, TypeView};
use vstd::prelude::*;
use vstd::string::StringExecFns;

verus! {

/// The view of a [`TypeCheckingError`].
pub ghost enum TypeCheckingErrorView {
    TypeMismatch(Seq<char>, TypeView, TypeView),
}

/// Why a program has no type.
#[derive(Debug)]
pub enum TypeCheckingError {
    /// Where the mismatch is, the type that was expected there, and the
    /// type that was found.
    TypeMismatch(String, Type, Type),
}

impl View for TypeCheckingError {
    type V = TypeCheckingErrorView;

    open spec fn view(&self) -> TypeCheckingErrorView {
        match self {
            TypeCheckingError::TypeMismatch(msg, expected, got) => {
                TypeCheckingErrorView::TypeMismatch(msg@, expected@, got@)
            },
        }
    }
}

/// Makes sure that the type `got` is the type `expected`: it is handed
/// back where it is, and otherwise the mismatch is reported under `msg`.
pub fn ensure(msg: &str, expected: Type, got: Type) -> (r: Result<Type, TypeCheckingError>)
    ensures
        expected@ == got@ ==> r is Ok && r->Ok_0@ == got@,
        expected@ != got@ ==> r is Err && r->Err_0@ == TypeCheckingErrorView::TypeMismatch(
            msg@,
            expected@,
            got@,
        ),
{
    if expected.same(&got) {
        Ok(got)
    } else {
        Err(TypeCheckingError::TypeMismatch(String::from_str(msg), expected, got))
    }
}

} // verus!
