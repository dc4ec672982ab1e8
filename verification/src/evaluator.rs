//! The tree-walking evaluator, proved to agree with the mathematical
//! interpreter [`eval_spec`] on every input: the same value or error, and
//! the same environment afterwards.

use vstd::prelude::*;

use crate::ast::AST;
use crate::ast::ast_model;
use crate::ast::asts_model;
use crate::ast::clone_names;
use crate::ast::lemma_asts_model_index;
use crate::ast::names_model;
use crate::env::Environment;
use crate::error::EvalError;
use crate::object::Object;
use crate::object::objs_model;
use crate::semantics::Bindings;
use crate::semantics::ErrKind;
use crate::semantics::Expr;
use crate::semantics::Outcome;
use crate::semantics::Value;
use crate::semantics::call_bindings;
use crate::semantics::eval_args_spec;
use crate::semantics::eval_spec;
use crate::semantics::param_bindings;

verus! {

/// The default recursion budget of [`eval`]. Each nested evaluation step
/// costs one unit, so this bounds the depth of the native call stack; a
/// program that needs more depth fails with `StackExhausted` instead of
/// exhausting the real stack.
pub const MAX_DEPTH: u64 = 1000;

/// The executable result agrees with the outcome of the model: the same
/// value on success, the same error on failure.
pub open spec fn outcome_matches(r: Result<Object, EvalError>, o: Outcome) -> bool {
    match r {
        Result::Ok(obj) => o == Outcome::Success(obj@),
        Result::Err(e) => o == Outcome::Failure(e@),
    }
}

/// An argument list whose prefix already failed fails with that same error.
proof fn lemma_eval_args_err_prefix(fuel: nat, s: Seq<Expr>, env: Bindings, m: int)
    requires
        0 <= m <= s.len(),
        eval_args_spec(fuel, s.subrange(0, m), env) is Err,
    ensures
        eval_args_spec(fuel, s, env) == eval_args_spec(fuel, s.subrange(0, m), env),
    decreases s.len(),
{
    if m < s.len() {
        assert(s.drop_last().subrange(0, m) =~= s.subrange(0, m));
        lemma_eval_args_err_prefix(fuel, s.drop_last(), env, m);
    } else {
        assert(s.subrange(0, m) =~= s);
    }
}

/// Binding one more parameter commutes with merging over the caller's map.
proof fn lemma_union_insert(a: Bindings, b: Bindings, k: Seq<char>, v: Value)
    ensures
        a.union_prefer_right(b.insert(k, v)) == a.union_prefer_right(b).insert(k, v),
{
    assert(a.union_prefer_right(b.insert(k, v)) =~= a.union_prefer_right(b).insert(k, v));
}

/// Evaluates `ast` under `env` with the default recursion budget
/// [`MAX_DEPTH`]: exactly the outcome and the final environment that
/// [`eval_spec`] assigns to them.
pub fn eval(ast: AST, env: &mut Environment) -> (r: Result<Object, EvalError>)
    ensures
        ({
            let (o, e2) = eval_spec(MAX_DEPTH as nat, ast@, old(env)@);
            final(env)@ == e2 && outcome_matches(r, o)
        }),
{
    eval_depth(&ast, env, MAX_DEPTH)
}

/// Evaluates `ast` under `env` with an explicit recursion budget, for hosts
/// that want a tighter or looser bound than [`MAX_DEPTH`].
pub fn eval_with_depth(ast: AST, env: &mut Environment, depth: u64) -> (r: Result<Object, EvalError>)
    ensures
        ({
            let (o, e2) = eval_spec(depth as nat, ast@, old(env)@);
            final(env)@ == e2 && outcome_matches(r, o)
        }),
{
    eval_depth(&ast, env, depth)
}

/// One evaluation step: a faithful implementation of [`eval_spec`].
#[verifier::loop_isolation(false)]
fn eval_depth(ast: &AST, env: &mut Environment, fuel: u64) -> (r: Result<Object, EvalError>)
    ensures
        ({
            let (o, e2) = eval_spec(fuel as nat, ast@, old(env)@);
            final(env)@ == e2 && outcome_matches(r, o)
        }),
    decreases fuel,
{
    if fuel == 0 {
        return Result::Err(EvalError::StackExhausted);
    }
    let f: u64 = fuel - 1;
    match ast {
        AST::Num(v) => Result::Ok(Object::Num(*v)),
        AST::Bool(b) => Result::Ok(Object::Bool(*b)),
        AST::Add(l, r) => {
            match eval_depth(&**l, env, f) {
                Result::Ok(lv) => {
                    match eval_depth(&**r, env, f) {
                        Result::Ok(rv) => lv.add(&rv),
                        Result::Err(e) => Result::Err(e),
                    }
                },
                Result::Err(e) => Result::Err(e),
            }
        },
        AST::Minus(l, r) => {
            match eval_depth(&**l, env, f) {
                Result::Ok(lv) => {
                    match eval_depth(&**r, env, f) {
                        Result::Ok(rv) => lv.sub(&rv),
                        Result::Err(e) => Result::Err(e),
                    }
                },
                Result::Err(e) => Result::Err(e),
            }
        },
        AST::Equal(l, r) => {
            match eval_depth(&**l, env, f) {
                Result::Ok(lv) => {
                    match eval_depth(&**r, env, f) {
                        Result::Ok(rv) => Result::Ok(Object::Bool(crate::object::obj_eq(&lv, &rv))),
                        Result::Err(e) => Result::Err(e),
                    }
                },
                Result::Err(e) => Result::Err(e),
            }
        },
        AST::If { cond, thn, els } => {
            match eval_depth(&**cond, env, f) {
                Result::Ok(cv) => {
                    match cv {
                        Object::Bool(true) => eval_depth(&**thn, env, f),
                        Object::Bool(false) => eval_depth(&**els, env, f),
                        Object::Num(n) => {
                            if n != 0 {
                                eval_depth(&**thn, env, f)
                            } else {
                                eval_depth(&**els, env, f)
                            }
                        },
                        Object::Function { .. } => Result::Err(EvalError::TypeMismatch),
                    }
                },
                Result::Err(e) => Result::Err(e),
            }
        },
        AST::Define { name, value } => {
            match eval_depth(&**value, env, f) {
                Result::Ok(v) => {
                    env.insert(name.clone(), v.clone());
                    Result::Ok(v)
                },
                Result::Err(e) => Result::Err(e),
            }
        },
        AST::Ident(name) => {
            match env.get(name) {
                Option::Some(o) => Result::Ok(o),
                Option::None => Result::Err(EvalError::UnboundIdentifier(name.clone())),
            }
        },
        AST::Function { params, body } => {
            Result::Ok(Object::Function { params: clone_names(params), body: Box::new((**body).clone()) })
        },
        AST::Apply { fn_lit, args } => {
            let mut fenv = env.duplicate();
            match eval_depth(&**fn_lit, &mut fenv, f) {
                Result::Err(e) => Result::Err(e),
                Result::Ok(fobj) => {
                    match fobj {
                        Object::Function { params, body } => {
                            let ghost full: Seq<Expr> = asts_model(args@);
                            proof {
                                lemma_asts_model_index(args@);
                                assert(full.subrange(0, 0) =~= Seq::<Expr>::empty());
                                assert(objs_model(Seq::<Object>::empty()) =~= Seq::<Value>::empty());
                            }
                            let mut vals: Vec<Object> = Vec::new();
                            let mut i: usize = 0;
                            while i < args.len()
                                invariant
                                    i <= args@.len(),
                                    vals@.len() == i,
                                    eval_args_spec(f as nat, full.subrange(0, i as int), env@)
                                        == Result::<Seq<Value>, ErrKind>::Ok(objs_model(vals@)),
                                decreases args@.len() - i,
                            {
                                let mut aenv = env.duplicate();
                                let one = eval_depth(&args[i], &mut aenv, f);
                                proof {
                                    lemma_asts_model_index(args@);
                                    assert(full.subrange(0, i as int + 1).drop_last() =~= full.subrange(
                                        0,
                                        i as int,
                                    ));
                                    assert(full.subrange(0, i as int + 1).last() == ast_model(
                                        args@[i as int],
                                    ));
                                }
                                match one {
                                    Result::Ok(v) => {
                                        proof {
                                            assert(objs_model(vals@.push(v)) =~= objs_model(vals@).push(v@));
                                        }
                                        vals.push(v);
                                        i = i + 1;
                                    },
                                    Result::Err(e) => {
                                        proof {
                                            lemma_eval_args_err_prefix(f as nat, full, env@, i as int + 1);
                                        }
                                        return Result::Err(e);
                                    },
                                }
                            }
                            proof {
                                assert(full.subrange(0, args@.len() as int) =~= full);
                            }
                            if params.len() != vals.len() {
                                return Result::Err(EvalError::ArityMismatch);
                            }
                            let ghost pnames: Seq<Seq<char>> = names_model(params@);
                            let ghost pvals: Seq<Value> = objs_model(vals@);
                            let mut cenv = env.duplicate();
                            proof {
                                assert(pnames.subrange(0, 0) =~= Seq::<Seq<char>>::empty());
                                assert(pvals.subrange(0, 0) =~= Seq::<Value>::empty());
                                assert(cenv@ =~= env@.union_prefer_right(Map::empty()));
                            }
                            let mut j: usize = 0;
                            while j < params.len()
                                invariant
                                    j <= params@.len(),
                                    cenv@ == env@.union_prefer_right(
                                        param_bindings(
                                            pnames.subrange(0, j as int),
                                            pvals.subrange(0, j as int),
                                        ),
                                    ),
                                decreases params@.len() - j,
                            {
                                let pname = params[j].clone();
                                let pval = vals[j].clone();
                                proof {
                                    assert(pnames.subrange(0, j as int + 1).drop_last() =~= pnames.subrange(0, j as int));
                                    assert(pvals.subrange(0, j as int + 1).drop_last() =~= pvals.subrange(0, j as int));
                                    assert(pnames.subrange(0, j as int + 1).last() == pnames[j as int]);
                                    assert(pvals.subrange(0, j as int + 1).last() == pvals[j as int]);
                                    lemma_union_insert(
                                        env@,
                                        param_bindings(
                                            pnames.subrange(0, j as int),
                                            pvals.subrange(0, j as int),
                                        ),
                                        pnames[j as int],
                                        pvals[j as int],
                                    );
                                }
                                cenv.insert(pname, pval);
                                j = j + 1;
                            }
                            proof {
                                assert(pnames.subrange(0, params@.len() as int) =~= pnames);
                                assert(pvals.subrange(0, vals@.len() as int) =~= pvals);
                                assert(cenv@ == call_bindings(env@, pnames, pvals));
                            }
                            eval_depth(&*body, &mut cenv, f)
                        },
                        Object::Num(_) => Result::Err(EvalError::NotCallable),
                        Object::Bool(_) => Result::Err(EvalError::NotCallable),
                    }
                },
            }
        },
    }
}

} // verus!
