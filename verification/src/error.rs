//! The ways in which parsing and evaluation fail.

use crate::ast::Kind;
use vstd::prelude::*;
use vstd::std_specs::cmp::PartialEqSpecImpl;

verus! {

/// Why a text is not an expression.
#[derive(Clone, Copy, Debug, PartialEq, Eq, Structural)]
pub enum ParseFailure {
    /// No expression starts the text.
    NoExpression,
    /// An expression starts the text and ends before the character at
    /// index `at`, where the text goes on.  The index counts characters, not
    /// bytes.
    TrailingInput { at: usize },
}

/// A failure of parsing or of evaluation.
#[derive(Debug)]
pub enum Error {
    /// The text is not an expression.
    ParseError(ParseFailure),
    /// A value of kind `actual` stands where one of kind `expected` is needed.
    TypeMismatch { expected: Kind, actual: Kind },
    /// A variable could not be resolved; the reason is the host's.
    LookupError(String),
    /// An ordering was asked of two values that have none.
    Incomparable { left: Kind, right: Kind },
    /// `contains` was applied to operands it is not defined on.
    InvalidOperands { left: Kind, right: Kind },
}

/// What an [`Error`] is, with the reason of a lookup failure as a sequence.
pub enum ErrorView {
    ParseError(ParseFailure),
    TypeMismatch { expected: Kind, actual: Kind },
    LookupError(Seq<char>),
    Incomparable { left: Kind, right: Kind },
    InvalidOperands { left: Kind, right: Kind },
}

impl View for Error {
    type V = ErrorView;

    open spec fn view(&self) -> ErrorView {
        match self {
            Error::ParseError(failure) => ErrorView::ParseError(*failure),
            Error::TypeMismatch { expected, actual } => ErrorView::TypeMismatch {
                expected: *expected,
                actual: *actual,
            },
            Error::LookupError(reason) => ErrorView::LookupError(reason@),
            Error::Incomparable { left, right } => ErrorView::Incomparable {
                left: *left,
                right: *right,
            },
            Error::InvalidOperands { left, right } => ErrorView::InvalidOperands {
                left: *left,
                right: *right,
            },
        }
    }
}

impl PartialEq for Error {
    fn eq(&self, other: &Error) -> (r: bool) {
        match self {
            Error::ParseError(a) => match other {
                Error::ParseError(b) => *a == *b,
                _ => false,
            },
            Error::TypeMismatch { expected, actual } => match other {
                Error::TypeMismatch { expected: e2, actual: a2 } => *expected == *e2
                    && *actual == *a2,
                _ => false,
            },
            Error::LookupError(a) => match other {
                Error::LookupError(b) => *a == *b,
                _ => false,
            },
            Error::Incomparable { left, right } => match other {
                Error::Incomparable { left: l2, right: r2 } => *left == *l2 && *right == *r2,
                _ => false,
            },
            Error::InvalidOperands { left, right } => match other {
                Error::InvalidOperands { left: l2, right: r2 } => *left == *l2 && *right == *r2,
                _ => false,
            },
        }
    }
}

impl PartialEqSpecImpl for Error {
    open spec fn obeys_eq_spec() -> bool {
        true
    }

    open spec fn eq_spec(&self, other: &Error) -> bool {
        self@ == other@
    }
}

} // verus!
