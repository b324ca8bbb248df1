//! The ways in which compilation fails. Every failure is final: nothing is
//! produced once one has occurred.

use super::syntax::{Label, LabelView};
use vstd::prelude::*;

verus! {

/// The view of a [`CompileError`].
pub ghost enum CompileErrorView {
    Unstructured(LabelView),
    UnboundIdentifier(Seq<char>),
    NotALocal(Seq<char>),
    NotAFunction(Seq<char>),
    UnboundLabel(LabelView),
    Goto,
    JumpTarget,
    UninternedString,
    MissingRuntime(Seq<char>),
    UnknownFunctionType,
    NoMain,
    DuplicateMain,
    TooManyFunctions,
    TooManyLocals,
    TooManyLabels,
    DataTooLarge,
    Serialize,
}

/// Why a program could not be compiled.
#[derive(Debug, PartialEq, Eq)]
pub enum CompileError {
    /// Structuring: the jump to this label cannot be written as an exit
    /// from enclosing blocks.
    Unstructured(Label),
    /// Scope: the identifier is bound to nothing.
    UnboundIdentifier(String),
    /// Scope: a local variable was expected, and the identifier names a
    /// function.
    NotALocal(String),
    /// Scope: a function was expected, and the identifier names a local
    /// variable.
    NotAFunction(String),
    /// Scope: no enclosing statement carries the label of a break.
    UnboundLabel(Label),
    /// A jump was left in a program that should hold only structured
    /// control flow.
    Goto,
    /// The target of a jump was left in such a program.
    JumpTarget,
    /// A string literal was left in a program whose literals should have
    /// been interned.
    UninternedString,
    /// Linkage: the runtime has no function of this name.
    MissingRuntime(String),
    /// Linkage: no function has the type that an indirect call expects.
    UnknownFunctionType,
    /// Linkage: the program has no function `main`.
    NoMain,
    /// Linkage: the program has more than one function `main`.
    DuplicateMain,
    /// Capacity: function indices do not fit in 32 bits.
    TooManyFunctions,
    /// Capacity: the indices of a function's locals do not fit in 32 bits.
    TooManyLocals,
    /// Capacity: a branch distance does not fit in 32 bits.
    TooManyLabels,
    /// Capacity: the offsets into the interned data do not fit in 32 bits.
    DataTooLarge,
    /// The module could not be written out as bytes.
    Serialize,
}

impl View for CompileError {
    type V = CompileErrorView;

    open spec fn view(&self) -> CompileErrorView {
        match self {
            CompileError::Unstructured(l) => CompileErrorView::Unstructured(l@),
            CompileError::UnboundIdentifier(s) => CompileErrorView::UnboundIdentifier(s@),
            CompileError::NotALocal(s) => CompileErrorView::NotALocal(s@),
            CompileError::NotAFunction(s) => CompileErrorView::NotAFunction(s@),
            CompileError::UnboundLabel(l) => CompileErrorView::UnboundLabel(l@),
            CompileError::Goto => CompileErrorView::Goto,
            CompileError::JumpTarget => CompileErrorView::JumpTarget,
            CompileError::UninternedString => CompileErrorView::UninternedString,
            CompileError::MissingRuntime(s) => CompileErrorView::MissingRuntime(s@),
            CompileError::UnknownFunctionType => CompileErrorView::UnknownFunctionType,
            CompileError::NoMain => CompileErrorView::NoMain,
            CompileError::DuplicateMain => CompileErrorView::DuplicateMain,
            CompileError::TooManyFunctions => CompileErrorView::TooManyFunctions,
            CompileError::TooManyLocals => CompileErrorView::TooManyLocals,
            CompileError::TooManyLabels => CompileErrorView::TooManyLabels,
            CompileError::DataTooLarge => CompileErrorView::DataTooLarge,
            CompileError::Serialize => CompileErrorView::Serialize,
        }
    }
}

} // verus!
