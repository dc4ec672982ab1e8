//! General laws of the language, stated over the mathematical interpreter
//! [`eval_spec`] that the evaluator's contract is written against, and
//! proved from its definition.

use vstd::prelude::*;

use crate::semantics::Bindings;
use crate::semantics::ErrKind;
use crate::semantics::Expr;
use crate::semantics::Outcome;
use crate::semantics::Value;
use crate::semantics::branch_of;
use crate::semantics::eval_args_spec;
use crate::semantics::eval_spec;

verus! {

/// A numeric literal evaluates to the corresponding number, for every `n`,
/// and leaves the empty environment empty.
pub proof fn lemma_num_evaluates_to_itself(fuel: nat, n: nat)
    requires
        1 <= fuel,
    ensures
        eval_spec(fuel, Expr::Num(n), Map::empty()) == (
            Outcome::Success(Value::Num(n)),
            Map::<Seq<char>, Value>::empty(),
        ),
{
}

/// Adding two numeric literals yields their sum, for all `a` and `b` whose
/// sum is representable; a sum beyond `usize::MAX` is the one input family
/// on which the addition fails instead.
pub proof fn lemma_add_of_literals(fuel: nat, a: nat, b: nat)
    requires
        2 <= fuel,
        a + b <= usize::MAX as nat,
    ensures
        eval_spec(fuel, Expr::Add(Box::new(Expr::Num(a)), Box::new(Expr::Num(b))), Map::empty())
            == (Outcome::Success(Value::Num(a + b)), Map::<Seq<char>, Value>::empty()),
{
    reveal_with_fuel(eval_spec, 3);
}

/// Subtracting two numeric literals yields their difference when it exists;
/// a difference below zero is a `NumericUnderflow` error, never a wrap.
pub proof fn lemma_minus_of_literals(fuel: nat, a: nat, b: nat)
    requires
        2 <= fuel,
    ensures
        b <= a ==> eval_spec(
            fuel,
            Expr::Minus(Box::new(Expr::Num(a)), Box::new(Expr::Num(b))),
            Map::empty(),
        ) == (Outcome::Success(Value::Num((a - b) as nat)), Map::<Seq<char>, Value>::empty()),
        a < b ==> eval_spec(
            fuel,
            Expr::Minus(Box::new(Expr::Num(a)), Box::new(Expr::Num(b))),
            Map::empty(),
        ) == (Outcome::Failure(ErrKind::NumericUnderflow), Map::<Seq<char>, Value>::empty()),
{
    reveal_with_fuel(eval_spec, 3);
}

/// A conditional evaluates only the branch its condition selects: a
/// condition that is `Bool(true)` or a nonzero number selects the first
/// branch, one that is `Bool(false)` or zero selects the second, and the
/// unselected branch contributes nothing, not even side effects.
pub proof fn lemma_if_selects_branch(
    fuel: nat,
    cond: Expr,
    thn: Expr,
    els: Expr,
    env: Bindings,
    v: Value,
    env1: Bindings,
)
    requires
        1 <= fuel,
        eval_spec((fuel - 1) as nat, cond, env) == (Outcome::Success(v), env1),
        branch_of(v) is Some,
    ensures
        branch_of(v) == Option::Some(true) ==> eval_spec(
            fuel,
            Expr::If { cond: Box::new(cond), thn: Box::new(thn), els: Box::new(els) },
            env,
        ) == eval_spec((fuel - 1) as nat, thn, env1),
        branch_of(v) == Option::Some(false) ==> eval_spec(
            fuel,
            Expr::If { cond: Box::new(cond), thn: Box::new(thn), els: Box::new(els) },
            env,
        ) == eval_spec((fuel - 1) as nat, els, env1),
{
}

/// A definition binds the evaluated value under the given name — inserting
/// or overwriting, and leaving every other binding alone — and the
/// definition itself yields that value; looking the name up afterwards
/// yields it again.
pub proof fn lemma_define_binds(
    fuel: nat,
    name: Seq<char>,
    value: Expr,
    env: Bindings,
    v: Value,
    env1: Bindings,
)
    requires
        1 <= fuel,
        eval_spec((fuel - 1) as nat, value, env) == (Outcome::Success(v), env1),
    ensures
        eval_spec(fuel, Expr::Define { name, value: Box::new(value) }, env) == (
            Outcome::Success(v),
            env1.insert(name, v),
        ),
        env1.insert(name, v)[name] == v,
        forall|other: Seq<char>|
            other != name && env1.contains_key(other) ==> env1.insert(name, v)[other] == env1[other],
        eval_spec(1, Expr::Ident(name), env1.insert(name, v)) == (
            Outcome::Success(v),
            env1.insert(name, v),
        ),
{
}

/// Raising the recursion budget by one changes nothing about an evaluation
/// that did not run out of budget: the budget decides only whether the
/// answer is reached, never which answer.
pub proof fn lemma_budget_monotonic(fuel: nat, e: Expr, env: Bindings)
    requires
        eval_spec(fuel, e, env).0 != Outcome::Failure(ErrKind::StackExhausted),
    ensures
        eval_spec(fuel + 1, e, env) == eval_spec(fuel, e, env),
    decreases fuel, 0nat,
{
    let f = (fuel - 1) as nat;
    match e {
        Expr::Num(_) => {},
        Expr::Bool(_) => {},
        Expr::Add(l, r) => {
            lemma_budget_monotonic_binop(f, *l, *r, env);
        },
        Expr::Minus(l, r) => {
            lemma_budget_monotonic_binop(f, *l, *r, env);
        },
        Expr::Equal(l, r) => {
            lemma_budget_monotonic_binop(f, *l, *r, env);
        },
        Expr::If { cond, thn, els } => {
            let (co, env1) = eval_spec(f, *cond, env);
            assert(co != Outcome::Failure(ErrKind::StackExhausted));
            lemma_budget_monotonic(f, *cond, env);
            match co {
                Outcome::Success(cv) => {
                    match branch_of(cv) {
                        Option::Some(true) => {
                            lemma_budget_monotonic(f, *thn, env1);
                        },
                        Option::Some(false) => {
                            lemma_budget_monotonic(f, *els, env1);
                        },
                        Option::None => {},
                    }
                },
                Outcome::Failure(_) => {},
            }
        },
        Expr::Define { name, value } => {
            assert(eval_spec(f, *value, env).0 != Outcome::Failure(ErrKind::StackExhausted));
            lemma_budget_monotonic(f, *value, env);
        },
        Expr::Ident(_) => {},
        Expr::Function { .. } => {},
        Expr::Apply { fn_lit, args } => {
            let (fo, _) = eval_spec(f, *fn_lit, env);
            assert(fo != Outcome::Failure(ErrKind::StackExhausted));
            lemma_budget_monotonic(f, *fn_lit, env);
            match fo {
                Outcome::Success(fv) => {
                    match fv {
                        Value::Function { params, body } => {
                            match eval_args_spec(f, args, env) {
                                Result::Ok(vals) => {
                                    lemma_budget_args_monotonic(f, args, env);
                                    if params.len() == vals.len() {
                                        let cenv = crate::semantics::call_bindings(env, params, vals);
                                        assert(eval_spec(f, body, cenv).0 != Outcome::Failure(
                                            ErrKind::StackExhausted,
                                        ));
                                        lemma_budget_monotonic(f, body, cenv);
                                    }
                                },
                                Result::Err(k) => {
                                    assert(k != ErrKind::StackExhausted);
                                    lemma_budget_args_monotonic(f, args, env);
                                },
                            }
                        },
                        _ => {},
                    }
                },
                Outcome::Failure(_) => {},
            }
        },
    }
}

/// The two evaluations a binary operator performs are unchanged by a larger
/// budget when neither ran out of it.
proof fn lemma_budget_monotonic_binop(f: nat, l: Expr, r: Expr, env: Bindings)
    requires
        ({
            let (lo, env1) = eval_spec(f, l, env);
            lo != Outcome::Failure(ErrKind::StackExhausted) && (lo matches Outcome::Success(_)
                ==> eval_spec(f, r, env1).0 != Outcome::Failure(ErrKind::StackExhausted))
        }),
    ensures
        eval_spec(f + 1, l, env) == eval_spec(f, l, env),
        ({
            let (lo, env1) = eval_spec(f, l, env);
            lo matches Outcome::Success(_) ==> eval_spec(f + 1, r, env1) == eval_spec(f, r, env1)
        }),
    decreases f, 1nat,
{
    let (lo, env1) = eval_spec(f, l, env);
    lemma_budget_monotonic(f, l, env);
    if lo matches Outcome::Success(_) {
        lemma_budget_monotonic(f, r, env1);
    }
}

/// An argument list that did not run out of budget evaluates the same under
/// a budget one larger.
proof fn lemma_budget_args_monotonic(fuel: nat, args: Seq<Expr>, env: Bindings)
    requires
        eval_args_spec(fuel, args, env) != Result::<Seq<Value>, ErrKind>::Err(
            ErrKind::StackExhausted,
        ),
    ensures
        eval_args_spec(fuel + 1, args, env) == eval_args_spec(fuel, args, env),
    decreases fuel, args.len() + 1,
{
    if args.len() > 0 {
        match eval_args_spec(fuel, args.drop_last(), env) {
            Result::Ok(_) => {
                lemma_budget_args_monotonic(fuel, args.drop_last(), env);
                let lo = eval_spec(fuel, args.last(), env).0;
                assert(lo != Outcome::Failure(ErrKind::StackExhausted));
                lemma_budget_monotonic(fuel, args.last(), env);
            },
            Result::Err(k) => {
                assert(k != ErrKind::StackExhausted);
                lemma_budget_args_monotonic(fuel, args.drop_last(), env);
            },
        }
    }
}

/// Generalization of [`lemma_budget_monotonic`]: any budget at least as
/// large yields the identical outcome and environment.
pub proof fn lemma_budget_irrelevant_once_sufficient(d1: nat, d2: nat, e: Expr, env: Bindings)
    requires
        d1 <= d2,
        eval_spec(d1, e, env).0 != Outcome::Failure(ErrKind::StackExhausted),
    ensures
        eval_spec(d2, e, env) == eval_spec(d1, e, env),
    decreases d2 - d1,
{
    if d1 < d2 {
        lemma_budget_irrelevant_once_sufficient(d1, (d2 - 1) as nat, e, env);
        lemma_budget_monotonic((d2 - 1) as nat, e, env);
    }
}

/// An argument list that evaluates without error yields exactly one value
/// per argument.
pub proof fn lemma_eval_args_count(fuel: nat, args: Seq<Expr>, env: Bindings)
    ensures
        eval_args_spec(fuel, args, env) matches Result::Ok(vals) ==> vals.len() == args.len(),
    decreases args.len(),
{
    if args.len() > 0 {
        lemma_eval_args_count(fuel, args.drop_last(), env);
    }
}

/// An application whose callee evaluates to a function value and whose
/// arguments all evaluate, but with an argument count different from the
/// parameter count, fails with `ArityMismatch` — it does not run the body,
/// and it leaves the caller's environment unchanged.
pub proof fn lemma_apply_arity_mismatch(
    fuel: nat,
    fn_lit: Expr,
    args: Seq<Expr>,
    env: Bindings,
    params: Seq<Seq<char>>,
    body: Expr,
    vals: Seq<Value>,
)
    requires
        1 <= fuel,
        eval_spec((fuel - 1) as nat, fn_lit, env).0 == Outcome::Success(
            Value::Function { params, body },
        ),
        eval_args_spec((fuel - 1) as nat, args, env) == Result::<Seq<Value>, ErrKind>::Ok(vals),
        params.len() != args.len(),
    ensures
        eval_spec(fuel, Expr::Apply { fn_lit: Box::new(fn_lit), args }, env) == (
            Outcome::Failure(ErrKind::ArityMismatch),
            env,
        ),
{
    lemma_eval_args_count((fuel - 1) as nat, args, env);
}

} // verus!
