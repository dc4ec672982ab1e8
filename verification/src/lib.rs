//! A small expression-language interpreter, verified with Verus.
//!
//! The library defines an abstract syntax tree ([`AST`]) for a language with
//! unsigned-integer arithmetic, booleans, conditionals, structural equality,
//! variable binding, first-class function literals and function application,
//! together with a tree-walking evaluator ([`eval`]) that reduces an `AST`
//! to a runtime value ([`Object`]) under a mutable [`Environment`].
//!
//! The meaning of every construct is given by the mathematical interpreter
//! [`semantics::eval_spec`]; the executable evaluator is proved to agree with
//! it exactly, including the environment it leaves behind and the error it
//! reports on every failing input.

pub mod ast;
pub mod env;
pub mod error;
pub mod evaluator;
pub mod laws;
pub mod object;
pub mod semantics;

pub use ast::AST;
pub use env::Environment;
pub use error::EvalError;
pub use evaluator::eval;
pub use evaluator::eval_with_depth;
pub use object::Object;
