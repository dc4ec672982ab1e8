//! The runtime values the evaluator produces, and the checked arithmetic
//! and structural equality on them.

use vstd::prelude::*;

use crate::ast::AST;
use crate::ast::ast_model;
use crate::ast::clone_names;
use crate::ast::names_model;
use crate::error::EvalError;
use crate::semantics::Outcome;
use crate::semantics::Value;
use crate::semantics::num_add;
use crate::semantics::num_sub;

verus! {

/// A runtime value: a number, a boolean, or a function literal reified as a
/// value. A function value owns a copy of its defining parameter list and
/// body and keeps no reference to the environment of its definition site.
#[derive(Debug, PartialEq, Eq)]
pub enum Object {
    Num(usize),
    Bool(bool),
    Function { params: Vec<String>, body: Box<AST> },
}

/// The ghost mirror of a runtime value.
pub open spec fn obj_model(o: Object) -> Value {
    match o {
        Object::Num(v) => Value::Num(v as nat),
        Object::Bool(b) => Value::Bool(b),
        Object::Function { params, body } => Value::Function {
            params: names_model(params@),
            body: ast_model(*body),
        },
    }
}

/// The ghost mirrors of a sequence of runtime values, elementwise.
pub open spec fn objs_model(s: Seq<Object>) -> Seq<Value> {
    s.map_values(|o: Object| obj_model(o))
}

impl View for Object {
    type V = Value;

    open spec fn view(&self) -> Value {
        obj_model(*self)
    }
}

impl Clone for Object {
    /// A deep, meaning-preserving copy of the value.
    fn clone(&self) -> (r: Object)
        ensures
            r@ == self@,
    {
        match self {
            Object::Num(v) => Object::Num(*v),
            Object::Bool(b) => Object::Bool(*b),
            Object::Function { params, body } => Object::Function {
                params: clone_names(params),
                body: Box::new((**body).clone()),
            },
        }
    }
}

/// Structural equality of runtime values, as the `Equal` construct compares
/// them: numbers and booleans by value, function values by parameter list
/// and body; values of different kinds are unequal, never an error.
pub fn obj_eq(a: &Object, b: &Object) -> (r: bool)
    ensures
        r == (a@ == b@),
{
    match (a, b) {
        (Object::Num(x), Object::Num(y)) => x == y,
        (Object::Bool(x), Object::Bool(y)) => x == y,
        (
            Object::Function { params: p1, body: b1 },
            Object::Function { params: p2, body: b2 },
        ) => crate::ast::names_eq(p1, p2) && crate::ast::ast_eq(b1, b2),
        _ => false,
    }
}

impl Object {
    /// Checked addition: defined exactly where [`num_add`] succeeds, and
    /// reporting the same error where it fails.
    pub fn add(&self, rhs: &Object) -> (r: Result<Object, EvalError>)
        ensures
            match r {
                Result::Ok(o) => num_add(self@, rhs@) == Outcome::Success(o@),
                Result::Err(e) => num_add(self@, rhs@) == Outcome::Failure(e@),
            },
    {
        match (self, rhs) {
            (Object::Num(a), Object::Num(b)) => {
                if *b <= usize::MAX - *a {
                    Result::Ok(Object::Num(*a + *b))
                } else {
                    Result::Err(EvalError::NumericOverflow)
                }
            },
            _ => Result::Err(EvalError::TypeMismatch),
        }
    }

    /// Checked subtraction: defined exactly where [`num_sub`] succeeds, and
    /// reporting the same error where it fails.
    pub fn sub(&self, rhs: &Object) -> (r: Result<Object, EvalError>)
        ensures
            match r {
                Result::Ok(o) => num_sub(self@, rhs@) == Outcome::Success(o@),
                Result::Err(e) => num_sub(self@, rhs@) == Outcome::Failure(e@),
            },
    {
        match (self, rhs) {
            (Object::Num(a), Object::Num(b)) => {
                if *b <= *a {
                    Result::Ok(Object::Num(*a - *b))
                } else {
                    Result::Err(EvalError::NumericUnderflow)
                }
            },
            _ => Result::Err(EvalError::TypeMismatch),
        }
    }
}

} // verus!
