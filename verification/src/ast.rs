//! The abstract syntax tree of the language, and its view into the ghost
//! model [`Expr`].

use vstd::prelude::*;

use crate::semantics::Expr;

verus! {

/// An expression of the language. The tree is immutable once built; each
/// compound variant owns its children exclusively.
#[derive(Debug, PartialEq, Eq)]
pub enum AST {
    /// An unsigned integer literal.
    Num(usize),
    /// `left + right`.
    Add(Box<AST>, Box<AST>),
    /// `left - right`.
    Minus(Box<AST>, Box<AST>),
    /// A boolean literal.
    Bool(bool),
    /// A conditional: `cond` selects between the branch `thn` and the
    /// branch `els`.
    If { cond: Box<AST>, thn: Box<AST>, els: Box<AST> },
    /// Structural equality of the two evaluated operands.
    Equal(Box<AST>, Box<AST>),
    /// Bind `name` to the evaluated `value` in the current environment;
    /// the expression yields the bound value.
    Define { name: String, value: Box<AST> },
    /// A variable reference.
    Ident(String),
    /// A function literal: ordered parameter names and a body.
    Function { params: Vec<String>, body: Box<AST> },
    /// Function invocation: a callee expression and ordered arguments.
    Apply { fn_lit: Box<AST>, args: Vec<AST> },
}

/// The views of a parameter list: each name as its character sequence.
pub open spec fn names_model(s: Seq<String>) -> Seq<Seq<char>> {
    s.map_values(|p: String| p@)
}

/// The ghost mirror of a syntax tree.
pub open spec fn ast_model(a: AST) -> Expr
    decreases a,
{
    match a {
        AST::Num(v) => Expr::Num(v as nat),
        AST::Add(l, r) => Expr::Add(Box::new(ast_model(*l)), Box::new(ast_model(*r))),
        AST::Minus(l, r) => Expr::Minus(Box::new(ast_model(*l)), Box::new(ast_model(*r))),
        AST::Bool(b) => Expr::Bool(b),
        AST::If { cond, thn, els } => Expr::If {
            cond: Box::new(ast_model(*cond)),
            thn: Box::new(ast_model(*thn)),
            els: Box::new(ast_model(*els)),
        },
        AST::Equal(l, r) => Expr::Equal(Box::new(ast_model(*l)), Box::new(ast_model(*r))),
        AST::Define { name, value } => Expr::Define {
            name: name@,
            value: Box::new(ast_model(*value)),
        },
        AST::Ident(name) => Expr::Ident(name@),
        AST::Function { params, body } => Expr::Function {
            params: names_model(params@),
            body: Box::new(ast_model(*body)),
        },
        AST::Apply { fn_lit, args } => Expr::Apply {
            fn_lit: Box::new(ast_model(*fn_lit)),
            args: asts_model(args@),
        },
    }
}

/// The ghost mirrors of a sequence of syntax trees, elementwise.
pub open spec fn asts_model(s: Seq<AST>) -> Seq<Expr>
    decreases s,
{
    if s.len() == 0 {
        Seq::empty()
    } else {
        asts_model(s.drop_last()).push(ast_model(s.last()))
    }
}

/// `asts_model` is the elementwise image of `ast_model`.
pub proof fn lemma_asts_model_index(s: Seq<AST>)
    ensures
        asts_model(s).len() == s.len(),
        forall|i: int| 0 <= i < s.len() ==> #[trigger] asts_model(s)[i] == ast_model(s[i]),
    decreases s.len(),
{
    if s.len() > 0 {
        lemma_asts_model_index(s.drop_last());
    }
}

impl View for AST {
    type V = Expr;

    open spec fn view(&self) -> Expr {
        ast_model(*self)
    }
}

impl From<usize> for AST {
    /// A raw unsigned integer converts to the corresponding literal.
    fn from(v: usize) -> (r: AST) {
        AST::Num(v)
    }
}

impl vstd::std_specs::convert::FromSpecImpl<usize> for AST {
    open spec fn obeys_from_spec() -> bool {
        true
    }

    open spec fn from_spec(v: usize) -> AST {
        AST::Num(v)
    }
}

impl From<bool> for AST {
    /// A raw boolean converts to the corresponding literal.
    fn from(v: bool) -> (r: AST) {
        AST::Bool(v)
    }
}

impl vstd::std_specs::convert::FromSpecImpl<bool> for AST {
    open spec fn obeys_from_spec() -> bool {
        true
    }

    open spec fn from_spec(v: bool) -> AST {
        AST::Bool(v)
    }
}

/// A deep copy of a parameter list, meaning-preserving.
#[verifier::loop_isolation(false)]
pub fn clone_names(params: &Vec<String>) -> (r: Vec<String>)
    ensures
        names_model(r@) == names_model(params@),
{
    let mut out: Vec<String> = Vec::new();
    let mut i: usize = 0;
    while i < params.len()
        invariant
            i <= params@.len(),
            out@.len() == i,
            forall|j: int| 0 <= j < i ==> #[trigger] out@[j]@ == params@[j]@,
        decreases params@.len() - i,
    {
        out.push(params[i].clone());
        i = i + 1;
    }
    proof {
        assert(names_model(out@) =~= names_model(params@));
    }
    out
}

/// A deep copy of a sequence of trees, meaning-preserving.
#[verifier::loop_isolation(false)]
pub fn clone_asts(args: &Vec<AST>) -> (r: Vec<AST>)
    ensures
        asts_model(r@) == asts_model(args@),
    decreases *args,
{
    let mut out: Vec<AST> = Vec::new();
    let mut i: usize = 0;
    while i < args.len()
        invariant
            i <= args@.len(),
            out@.len() == i,
            asts_model(out@) == asts_model(args@.subrange(0, i as int)),
        decreases args@.len() - i,
    {
        let a = args[i].clone();
        proof {
            assert(out@.push(a).drop_last() =~= out@);
            assert(args@.subrange(0, i + 1).drop_last() =~= args@.subrange(0, i as int));
            assert(args@.subrange(0, i + 1).last() == args@[i as int]);
        }
        out.push(a);
        i = i + 1;
    }
    proof {
        assert(args@.subrange(0, args@.len() as int) =~= args@);
    }
    out
}

/// Structural equality of parameter lists, decided by their views.
#[verifier::loop_isolation(false)]
pub fn names_eq(a: &Vec<String>, b: &Vec<String>) -> (r: bool)
    ensures
        r == (names_model(a@) == names_model(b@)),
{
    if a.len() != b.len() {
        proof {
            assert(names_model(a@).len() == a@.len());
            assert(names_model(b@).len() == b@.len());
        }
        return false;
    }
    let mut i: usize = 0;
    while i < a.len()
        invariant
            a@.len() == b@.len(),
            i <= a@.len(),
            forall|j: int| 0 <= j < i ==> #[trigger] a@[j]@ == b@[j]@,
        decreases a@.len() - i,
    {
        if !(a[i] == b[i]) {
            proof {
                assert(names_model(a@)[i as int] == a@[i as int]@);
                assert(names_model(b@)[i as int] == b@[i as int]@);
            }
            return false;
        }
        i = i + 1;
    }
    proof {
        assert(names_model(a@) =~= names_model(b@));
    }
    true
}

/// Structural equality of syntax trees, decided by their views.
pub fn ast_eq(a: &AST, b: &AST) -> (r: bool)
    ensures
        r == (a@ == b@),
    decreases a,
{
    match (a, b) {
        (AST::Num(x), AST::Num(y)) => x == y,
        (AST::Bool(x), AST::Bool(y)) => x == y,
        (AST::Add(l1, r1), AST::Add(l2, r2)) => ast_eq(l1, l2) && ast_eq(r1, r2),
        (AST::Minus(l1, r1), AST::Minus(l2, r2)) => ast_eq(l1, l2) && ast_eq(r1, r2),
        (AST::Equal(l1, r1), AST::Equal(l2, r2)) => ast_eq(l1, l2) && ast_eq(r1, r2),
        (
            AST::If { cond: c1, thn: t1, els: e1 },
            AST::If { cond: c2, thn: t2, els: e2 },
        ) => ast_eq(c1, c2) && ast_eq(t1, t2) && ast_eq(e1, e2),
        (
            AST::Define { name: n1, value: v1 },
            AST::Define { name: n2, value: v2 },
        ) => *n1 == *n2 && ast_eq(v1, v2),
        (AST::Ident(n1), AST::Ident(n2)) => *n1 == *n2,
        (
            AST::Function { params: p1, body: b1 },
            AST::Function { params: p2, body: b2 },
        ) => names_eq(p1, p2) && ast_eq(b1, b2),
        (
            AST::Apply { fn_lit: f1, args: a1 },
            AST::Apply { fn_lit: f2, args: a2 },
        ) => ast_eq(f1, f2) && asts_eq(a1, a2),
        _ => false,
    }
}

/// Structural equality of argument lists, decided by their views.
#[verifier::loop_isolation(false)]
pub fn asts_eq(a: &Vec<AST>, b: &Vec<AST>) -> (r: bool)
    ensures
        r == (asts_model(a@) == asts_model(b@)),
    decreases *a,
{
    proof {
        lemma_asts_model_index(a@);
        lemma_asts_model_index(b@);
    }
    if a.len() != b.len() {
        return false;
    }
    let mut i: usize = 0;
    while i < a.len()
        invariant
            a@.len() == b@.len(),
            i <= a@.len(),
            forall|j: int| 0 <= j < i ==> #[trigger] asts_model(a@)[j] == asts_model(b@)[j],
        decreases a@.len() - i,
    {
        if !ast_eq(&a[i], &b[i]) {
            proof {
                assert(asts_model(a@)[i as int] == ast_model(a@[i as int]));
                assert(asts_model(b@)[i as int] == ast_model(b@[i as int]));
            }
            return false;
        }
        proof {
            assert(asts_model(a@)[i as int] == ast_model(a@[i as int]));
            assert(asts_model(b@)[i as int] == ast_model(b@[i as int]));
        }
        i = i + 1;
    }
    proof {
        assert(asts_model(a@) =~= asts_model(b@));
    }
    true
}

impl Clone for AST {
    /// A deep, meaning-preserving copy of the tree.
    fn clone(&self) -> (r: AST)
        ensures
            r@ == self@,
        decreases self,
    {
        match self {
            AST::Num(v) => AST::Num(*v),
            AST::Add(l, r) => AST::Add(Box::new((**l).clone()), Box::new((**r).clone())),
            AST::Minus(l, r) => AST::Minus(Box::new((**l).clone()), Box::new((**r).clone())),
            AST::Bool(b) => AST::Bool(*b),
            AST::If { cond, thn, els } => AST::If {
                cond: Box::new((**cond).clone()),
                thn: Box::new((**thn).clone()),
                els: Box::new((**els).clone()),
            },
            AST::Equal(l, r) => AST::Equal(Box::new((**l).clone()), Box::new((**r).clone())),
            AST::Define { name, value } => AST::Define {
                name: name.clone(),
                value: Box::new((**value).clone()),
            },
            AST::Ident(name) => AST::Ident(name.clone()),
            AST::Function { params, body } => AST::Function {
                params: clone_names(params),
                body: Box::new((**body).clone()),
            },
            AST::Apply { fn_lit, args } => AST::Apply {
                fn_lit: Box::new((**fn_lit).clone()),
                args: clone_asts(args),
            },
        }
    }
}

} // verus!
