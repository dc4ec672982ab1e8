//! The mathematical model of the language: ghost mirrors of the syntax tree
//! and of runtime values, and the fuel-indexed interpreter `eval_spec` that
//! fixes the meaning of every construct. All executable code in this crate is
//! specified against these definitions.

use vstd::prelude::*;

verus! {

/// Ghost mirror of [`crate::AST`]: one variant per language construct,
/// with strings as character sequences and numbers as `nat`.
pub enum Expr {
    Num(nat),
    Add(Box<Expr>, Box<Expr>),
    Minus(Box<Expr>, Box<Expr>),
    Bool(bool),
    If { cond: Box<Expr>, thn: Box<Expr>, els: Box<Expr> },
    Equal(Box<Expr>, Box<Expr>),
    Define { name: Seq<char>, value: Box<Expr> },
    Ident(Seq<char>),
    Function { params: Seq<Seq<char>>, body: Box<Expr> },
    Apply { fn_lit: Box<Expr>, args: Seq<Expr> },
}

/// Ghost mirror of [`crate::Object`]: the runtime values. A function value
/// owns its parameter list and body and captures no environment.
pub enum Value {
    Num(nat),
    Bool(bool),
    Function { params: Seq<Seq<char>>, body: Expr },
}

/// Ghost mirror of [`crate::EvalError`]: the ways an evaluation can fail.
pub enum ErrKind {
    TypeMismatch,
    UnboundIdentifier(Seq<char>),
    NotCallable,
    ArityMismatch,
    NumericUnderflow,
    NumericOverflow,
    StackExhausted,
}

/// What one evaluation step yields: a value, or the first error encountered.
pub enum Outcome {
    Success(Value),
    Failure(ErrKind),
}

/// An environment as mathematics: a map from variable name to value.
pub type Bindings = Map<Seq<char>, Value>;

/// Addition on values. Both operands must be numbers; a sum beyond
/// `usize::MAX` is an error, since the machine representation is `usize`
/// and the arithmetic policy of this interpreter is to fail rather than
/// wrap or saturate.
pub open spec fn num_add(l: Value, r: Value) -> Outcome {
    match (l, r) {
        (Value::Num(a), Value::Num(b)) => {
            if a + b <= usize::MAX as nat {
                Outcome::Success(Value::Num(a + b))
            } else {
                Outcome::Failure(ErrKind::NumericOverflow)
            }
        },
        _ => Outcome::Failure(ErrKind::TypeMismatch),
    }
}

/// Subtraction on values. Both operands must be numbers; the numbers are
/// unsigned, so a difference below zero is an error rather than a wrap.
pub open spec fn num_sub(l: Value, r: Value) -> Outcome {
    match (l, r) {
        (Value::Num(a), Value::Num(b)) => {
            if b <= a {
                Outcome::Success(Value::Num((a - b) as nat))
            } else {
                Outcome::Failure(ErrKind::NumericUnderflow)
            }
        },
        _ => Outcome::Failure(ErrKind::TypeMismatch),
    }
}

/// Truthiness of a condition: `Bool(b)` selects by `b`, a number selects the
/// first branch exactly when it is nonzero, and a function value is not a
/// valid condition.
pub open spec fn branch_of(v: Value) -> Option<bool> {
    match v {
        Value::Bool(b) => Option::Some(b),
        Value::Num(n) => Option::Some(n != 0),
        Value::Function { .. } => Option::None,
    }
}

/// The bindings introduced by binding `params` positionally to `vals`.
/// When a name occurs twice among the parameters, the later position wins.
pub open spec fn param_bindings(params: Seq<Seq<char>>, vals: Seq<Value>) -> Bindings
    decreases params.len(),
{
    if params.len() == 0 || vals.len() == 0 {
        Map::empty()
    } else {
        param_bindings(params.drop_last(), vals.drop_last()).insert(
            params.last(),
            vals.last(),
        )
    }
}

/// The environment a function body runs in: the caller's bindings, with the
/// parameter bindings taking precedence over caller bindings of the same
/// name. This gives the callee dynamic-scope-like visibility of the caller's
/// variables; function values capture nothing at their definition site.
pub open spec fn call_bindings(caller: Bindings, params: Seq<Seq<char>>, vals: Seq<Value>) -> Bindings {
    caller.union_prefer_right(param_bindings(params, vals))
}

/// The meaning of an expression: evaluating `e` under `env` with recursion
/// budget `fuel` yields an outcome and the environment afterwards.
///
/// Every recursive step costs one unit of fuel, so `fuel` bounds the depth
/// of the evaluation; a derivation that would need more depth fails with
/// `StackExhausted`. Apart from that budget the language is defined exactly
/// as one would write it on paper:
///
/// * literals evaluate to themselves;
/// * `Add`/`Minus`/`Equal` evaluate the left operand, then the right operand
///   in the environment the left one produced, and combine the values;
/// * `If` evaluates the condition and then only the selected branch;
/// * `Ident` looks the name up, `Define` evaluates the value, binds it
///   (insert-or-overwrite) and yields it;
/// * `Function` reifies the literal as a value, capturing no environment;
/// * `Apply` evaluates the callee and then each argument, every one against
///   a private copy of the caller's environment, checks the argument count,
///   and runs the body under `call_bindings`; nothing done inside the call
///   leaks back into the caller's environment.
///
/// On failure the returned environment is the one reached at the point of
/// failure, so the effect of `Define`s already executed is visible.
pub open spec fn eval_spec(fuel: nat, e: Expr, env: Bindings) -> (Outcome, Bindings)
    decreases fuel, 0nat,
{
    if fuel == 0 {
        (Outcome::Failure(ErrKind::StackExhausted), env)
    } else {
        let f = (fuel - 1) as nat;
        match e {
            Expr::Num(n) => (Outcome::Success(Value::Num(n)), env),
            Expr::Bool(b) => (Outcome::Success(Value::Bool(b)), env),
            Expr::Add(l, r) => {
                let (lo, env1) = eval_spec(f, *l, env);
                match lo {
                    Outcome::Success(lv) => {
                        let (ro, env2) = eval_spec(f, *r, env1);
                        match ro {
                            Outcome::Success(rv) => (num_add(lv, rv), env2),
                            Outcome::Failure(k) => (Outcome::Failure(k), env2),
                        }
                    },
                    Outcome::Failure(k) => (Outcome::Failure(k), env1),
                }
            },
            Expr::Minus(l, r) => {
                let (lo, env1) = eval_spec(f, *l, env);
                match lo {
                    Outcome::Success(lv) => {
                        let (ro, env2) = eval_spec(f, *r, env1);
                        match ro {
                            Outcome::Success(rv) => (num_sub(lv, rv), env2),
                            Outcome::Failure(k) => (Outcome::Failure(k), env2),
                        }
                    },
                    Outcome::Failure(k) => (Outcome::Failure(k), env1),
                }
            },
            Expr::Equal(l, r) => {
                let (lo, env1) = eval_spec(f, *l, env);
                match lo {
                    Outcome::Success(lv) => {
                        let (ro, env2) = eval_spec(f, *r, env1);
                        match ro {
                            Outcome::Success(rv) => (Outcome::Success(Value::Bool(lv == rv)), env2),
                            Outcome::Failure(k) => (Outcome::Failure(k), env2),
                        }
                    },
                    Outcome::Failure(k) => (Outcome::Failure(k), env1),
                }
            },
            Expr::If { cond, thn, els } => {
                let (co, env1) = eval_spec(f, *cond, env);
                match co {
                    Outcome::Success(cv) => {
                        match branch_of(cv) {
                            Option::Some(b) => {
                                if b {
                                    eval_spec(f, *thn, env1)
                                } else {
                                    eval_spec(f, *els, env1)
                                }
                            },
                            Option::None => (Outcome::Failure(ErrKind::TypeMismatch), env1),
                        }
                    },
                    Outcome::Failure(k) => (Outcome::Failure(k), env1),
                }
            },
            Expr::Define { name, value } => {
                let (vo, env1) = eval_spec(f, *value, env);
                match vo {
                    Outcome::Success(v) => (Outcome::Success(v), env1.insert(name, v)),
                    Outcome::Failure(k) => (Outcome::Failure(k), env1),
                }
            },
            Expr::Ident(name) => {
                if env.contains_key(name) {
                    (Outcome::Success(env[name]), env)
                } else {
                    (Outcome::Failure(ErrKind::UnboundIdentifier(name)), env)
                }
            },
            Expr::Function { params, body } => {
                (Outcome::Success(Value::Function { params, body: *body }), env)
            },
            Expr::Apply { fn_lit, args } => {
                let (fo, _) = eval_spec(f, *fn_lit, env);
                match fo {
                    Outcome::Success(fv) => {
                        match fv {
                            Value::Function { params, body } => {
                                match eval_args_spec(f, args, env) {
                                    Result::Ok(vals) => {
                                        if params.len() == vals.len() {
                                            (eval_spec(f, body, call_bindings(env, params, vals)).0, env)
                                        } else {
                                            (Outcome::Failure(ErrKind::ArityMismatch), env)
                                        }
                                    },
                                    Result::Err(k) => (Outcome::Failure(k), env),
                                }
                            },
                            _ => (Outcome::Failure(ErrKind::NotCallable), env),
                        }
                    },
                    Outcome::Failure(k) => (Outcome::Failure(k), env),
                }
            },
        }
    }
}

/// The meaning of an argument list: each argument is evaluated against the
/// same caller environment (its own private copy, so no argument observes
/// another's side effects), and the first error in left-to-right order wins.
pub open spec fn eval_args_spec(fuel: nat, args: Seq<Expr>, env: Bindings) -> Result<Seq<Value>, ErrKind>
    decreases fuel, args.len() + 1,
{
    if args.len() == 0 {
        Result::Ok(Seq::empty())
    } else {
        match eval_args_spec(fuel, args.drop_last(), env) {
            Result::Ok(vs) => {
                match eval_spec(fuel, args.last(), env).0 {
                    Outcome::Success(v) => Result::Ok(vs.push(v)),
                    Outcome::Failure(k) => Result::Err(k),
                }
            },
            Result::Err(k) => Result::Err(k),
        }
    }
}

} // verus!
