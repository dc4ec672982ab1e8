//! The recoverable evaluation errors. Every failure the evaluator can
//! encounter is reported as a value of [`EvalError`]; the evaluator itself
//! never panics.

use vstd::prelude::*;

use crate::semantics::ErrKind;

verus! {

/// Why an evaluation failed.
#[derive(Debug, PartialEq, Eq)]
pub enum EvalError {
    /// An operator (`+`, `-`, an `If` condition) received an operand of the
    /// wrong runtime kind.
    TypeMismatch,
    /// An identifier lookup failed; carries the name that was not bound.
    UnboundIdentifier(String),
    /// The callee of an application evaluated to a non-function value.
    NotCallable,
    /// The argument count of an application differs from the parameter count.
    ArityMismatch,
    /// An unsigned subtraction would have gone below zero.
    NumericUnderflow,
    /// An addition would have exceeded `usize::MAX`.
    NumericOverflow,
    /// The evaluation exceeded its recursion budget.
    StackExhausted,
}

impl View for EvalError {
    type V = ErrKind;

    open spec fn view(&self) -> ErrKind {
        match self {
            EvalError::TypeMismatch => ErrKind::TypeMismatch,
            EvalError::UnboundIdentifier(name) => ErrKind::UnboundIdentifier(name@),
            EvalError::NotCallable => ErrKind::NotCallable,
            EvalError::ArityMismatch => ErrKind::ArityMismatch,
            EvalError::NumericUnderflow => ErrKind::NumericUnderflow,
            EvalError::NumericOverflow => ErrKind::NumericOverflow,
            EvalError::StackExhausted => ErrKind::StackExhausted,
        }
    }
}

} // verus!
