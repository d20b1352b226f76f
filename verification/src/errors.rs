//! Errors produced during type checking and normalization.
//!
//! `TypeError` values are expected results describing a mistake in the input
//! program; `InternalError` values signal a violated engine invariant and
//! should never be reachable from a well-formed program.

use vstd::prelude::*;

use crate::term::{Span, Term};
use crate::var::{Debruijn, Name};

verus! {

/// A violated engine invariant: a bug in the checker or normalizer, never a
/// mistake in the input program.
#[derive(Debug)]
pub enum InternalError {
    /// A bound variable survived with no enclosing binder.
    UnsubstitutedDebruijnIndex { span: Span, name: Name, index: Debruijn },
    /// An internal lookup failed.
    UndefinedName { var_span: Span, name: Name },
}

/// The source span of an internal error.
pub open spec fn internal_error_span(e: InternalError) -> Span {
    match e {
        InternalError::UnsubstitutedDebruijnIndex { span, .. } => span,
        InternalError::UndefinedName { var_span, .. } => var_span,
    }
}

impl InternalError {
    /// The span of source code this error points at.
    pub fn span(&self) -> (r: Span)
        ensures
            r == internal_error_span(*self),
    {
        match self {
            InternalError::UnsubstitutedDebruijnIndex { span, .. } => *span,
            InternalError::UndefinedName { var_span, .. } => *var_span,
        }
    }
}

/// An error produced during type checking, carrying the source spans needed
/// to anchor a diagnostic.
#[derive(Debug)]
pub enum TypeError {
    /// An argument was applied to a term whose type is not a function type.
    NotAFunctionType { fn_span: Span, arg_span: Span, found: Term },
    /// A lambda parameter needs a type annotation and none can be inferred.
    FunctionParamNeedsAnnotation { param_span: Span, var_span: Option<Span>, name: Name },
    /// A term's type is not definitionally equal to the expected type.
    Mismatch { span: Span, found: Term, expected: Term },
    /// A function was found where a term of a non-function type was expected.
    UnexpectedFunction { span: Span, expected: Term },
    /// A term used as a type does not inhabit a universe.
    ExpectedUniverse { span: Span, found: Term },
    /// A free variable is not bound in the context.
    UndefinedName { var_span: Span, name: Name },
    /// A violated engine invariant, reported as a distinguished error.
    Internal(InternalError),
}

impl From<InternalError> for TypeError {
    fn from(src: InternalError) -> (r: TypeError) {
        TypeError::Internal(src)
    }
}

impl vstd::std_specs::convert::FromSpecImpl<InternalError> for TypeError {
    open spec fn obeys_from_spec() -> bool {
        true
    }

    open spec fn from_spec(src: InternalError) -> TypeError {
        TypeError::Internal(src)
    }
}

} // verus!
