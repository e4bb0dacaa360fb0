//! The errors that evaluation can end in.

use vstd::prelude::*;
use vstd::std_specs::cmp::PartialEqSpecImpl;

verus! {

/// Why an evaluation failed.
#[derive(Debug)]
pub enum Error {
    /// The empty list was evaluated.
    NullList,
    /// A symbol has no binding in any layer, or is bound to the undefined
    /// placeholder.
    UndefinedSymbol { sym: String },
    /// The operator of an application is a symbol and not a procedure.
    NotAProcedure { exp: String },
    /// A procedure was given a number of arguments that its arity refuses.
    Arity { expected: usize, given: usize },
    /// The text could not be read as an expression.
    Syntax { exp: String },
    /// Applications were nested deeper than the context allows.
    DepthExceeded,
}

/// The mathematical value of an [`Error`].
pub enum ErrorView {
    NullList,
    UndefinedSymbol { sym: Seq<char> },
    NotAProcedure { exp: Seq<char> },
    Arity { expected: usize, given: usize },
    Syntax { exp: Seq<char> },
    DepthExceeded,
}

impl View for Error {
    type V = ErrorView;

    open spec fn view(&self) -> ErrorView {
        match self {
            Error::NullList => ErrorView::NullList,
            Error::UndefinedSymbol { sym } => ErrorView::UndefinedSymbol { sym: sym@ },
            Error::NotAProcedure { exp } => ErrorView::NotAProcedure { exp: exp@ },
            Error::Arity { expected, given } => ErrorView::Arity { expected: *expected, given: *given },
            Error::Syntax { exp } => ErrorView::Syntax { exp: exp@ },
            Error::DepthExceeded => ErrorView::DepthExceeded,
        }
    }
}

impl Clone for Error {
    fn clone(&self) -> (copy: Self)
        ensures
            copy@ == self@,
    {
        match self {
            Error::NullList => Error::NullList,
            Error::UndefinedSymbol { sym } => Error::UndefinedSymbol { sym: sym.clone() },
            Error::NotAProcedure { exp } => Error::NotAProcedure { exp: exp.clone() },
            Error::Arity { expected, given } => Error::Arity { expected: *expected, given: *given },
            Error::Syntax { exp } => Error::Syntax { exp: exp.clone() },
            Error::DepthExceeded => Error::DepthExceeded,
        }
    }
}

impl PartialEq for Error {
    fn eq(&self, other: &Self) -> (equal: bool) {
        match (self, other) {
            (Error::NullList, Error::NullList) => true,
            (Error::UndefinedSymbol { sym: a }, Error::UndefinedSymbol { sym: b }) => *a == *b,
            (Error::NotAProcedure { exp: a }, Error::NotAProcedure { exp: b }) => *a == *b,
            (
                Error::Arity { expected: e1, given: g1 },
                Error::Arity { expected: e2, given: g2 },
            ) => *e1 == *e2 && *g1 == *g2,
            (Error::Syntax { exp: a }, Error::Syntax { exp: b }) => *a == *b,
            (Error::DepthExceeded, Error::DepthExceeded) => true,
            _ => false,
        }
    }
}

impl PartialEqSpecImpl for Error {
    open spec fn obeys_eq_spec() -> bool {
        true
    }

    open spec fn eq_spec(&self, other: &Self) -> bool {
        self@ == other@
    }
}

impl Eq for Error {

}

} // verus!
