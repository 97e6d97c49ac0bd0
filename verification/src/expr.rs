//! Expressions of the rule language and their evaluation.
//!
//! A cost is written as an arithmetic expression and a guard as a boolean one.
//! Both are trees over literals and variables, evaluated against the values
//! that a pattern captured. Evaluation is total on closed expressions: it
//! either yields a value or fails because the kinds of the values do not fit
//! the operation.

use crate::bindings::Bindings;
use crate::bytes::same_bytes;
use crate::integer::{below, equal, from_u64, int_value, product, sum};
use crate::literal::{Literal, LiteralView};
use num_bigint::BigInt;
use vstd::prelude::*;

verus! {

/// An expression that denotes a value.
#[derive(Debug, PartialEq, Eq)]
pub enum Expr {
    /// A literal value.
    Lit(Literal),
    /// A reference to a captured variable, by name.
    Var(Vec<u8>),
    /// The sum of two integers.
    Add(Box<Expr>, Box<Expr>),
    /// The product of two integers.
    Mul(Box<Expr>, Box<Expr>),
}

/// The mathematical value of an [`Expr`].
pub enum ExprView {
    Lit(LiteralView),
    Var(Seq<u8>),
    Add(Box<ExprView>, Box<ExprView>),
    Mul(Box<ExprView>, Box<ExprView>),
}

/// The mathematical tree that an expression stands for.
pub open spec fn expr_view(e: Expr) -> ExprView
    decreases e,
{
    match e {
        Expr::Lit(l) => ExprView::Lit(l@),
        Expr::Var(v) => ExprView::Var(v@),
        Expr::Add(a, b) => ExprView::Add(Box::new(expr_view(*a)), Box::new(expr_view(*b))),
        Expr::Mul(a, b) => ExprView::Mul(Box::new(expr_view(*a)), Box::new(expr_view(*b))),
    }
}

impl View for Expr {
    type V = ExprView;

    open spec fn view(&self) -> ExprView {
        expr_view(*self)
    }
}

/// The comparisons that a guard can make.
#[derive(Clone, Copy, Debug, PartialEq, Eq, Structural)]
pub enum Relation {
    Equal,
    NotEqual,
    Greater,
    GreaterEqual,
    Less,
    LessEqual,
}

/// A boolean expression that decides whether a rule may be used.
#[derive(Debug, PartialEq, Eq)]
pub enum Guard {
    /// An expression that must denote a truth value.
    Truth(Expr),
    /// A comparison of two values.
    Compare(Relation, Expr, Expr),
    /// Both guards hold; the second is only looked at if the first holds.
    And(Box<Guard>, Box<Guard>),
}

/// The mathematical value of a [`Guard`].
pub enum GuardView {
    Truth(ExprView),
    Compare(Relation, ExprView, ExprView),
    And(Box<GuardView>, Box<GuardView>),
}

/// The mathematical tree that a guard stands for.
pub open spec fn guard_view(g: Guard) -> GuardView
    decreases g,
{
    match g {
        Guard::Truth(e) => GuardView::Truth(e@),
        Guard::Compare(op, a, b) => GuardView::Compare(op, a@, b@),
        Guard::And(a, b) => GuardView::And(Box::new(guard_view(*a)), Box::new(guard_view(*b))),
    }
}

impl View for Guard {
    type V = GuardView;

    open spec fn view(&self) -> GuardView {
        guard_view(*self)
    }
}

/// Every variable of the expression is one of `vars`.
pub open spec fn expr_closed(e: ExprView, vars: Set<Seq<u8>>) -> bool
    decreases e,
{
    match e {
        ExprView::Lit(_) => true,
        ExprView::Var(v) => vars.contains(v),
        ExprView::Add(a, b) => expr_closed(*a, vars) && expr_closed(*b, vars),
        ExprView::Mul(a, b) => expr_closed(*a, vars) && expr_closed(*b, vars),
    }
}

/// Every variable of the guard is one of `vars`.
pub open spec fn guard_closed(g: GuardView, vars: Set<Seq<u8>>) -> bool
    decreases g,
{
    match g {
        GuardView::Truth(e) => expr_closed(e, vars),
        GuardView::Compare(_, a, b) => expr_closed(a, vars) && expr_closed(b, vars),
        GuardView::And(a, b) => guard_closed(*a, vars) && guard_closed(*b, vars),
    }
}

/// The value of an expression under the bindings `env`. Arithmetic is on
/// mathematical integers. There is no value where a variable is unbound or an
/// arithmetic operand is not an integer.
pub open spec fn value_of(e: ExprView, env: Map<Seq<u8>, LiteralView>) -> Option<LiteralView>
    decreases e,
{
    match e {
        ExprView::Lit(l) => Some(l),
        ExprView::Var(v) => if env.contains_key(v) {
            Some(env[v])
        } else {
            None
        },
        ExprView::Add(a, b) => match (value_of(*a, env), value_of(*b, env)) {
            (Some(LiteralView::Int(x)), Some(LiteralView::Int(y))) => Some(LiteralView::Int(x + y)),
            _ => None,
        },
        ExprView::Mul(a, b) => match (value_of(*a, env), value_of(*b, env)) {
            (Some(LiteralView::Int(x)), Some(LiteralView::Int(y))) => Some(LiteralView::Int(x * y)),
            _ => None,
        },
    }
}

/// How two integers compare under a relation.
pub open spec fn int_related(op: Relation, x: int, y: int) -> bool {
    match op {
        Relation::Equal => x == y,
        Relation::NotEqual => x != y,
        Relation::Greater => x > y,
        Relation::GreaterEqual => x >= y,
        Relation::Less => x < y,
        Relation::LessEqual => x <= y,
    }
}

/// The outcome of comparing two values. Integers compare under every
/// relation; two truth values or two strings only for equality. Values of
/// different kinds do not compare.
pub open spec fn related(op: Relation, a: LiteralView, b: LiteralView) -> Option<bool> {
    match (a, b) {
        (LiteralView::Int(x), LiteralView::Int(y)) => Some(int_related(op, x, y)),
        (LiteralView::Bool(_), LiteralView::Bool(_)) | (LiteralView::Str(_), LiteralView::Str(_)) => match op {
            Relation::Equal => Some(a == b),
            Relation::NotEqual => Some(a != b),
            _ => None,
        },
        _ => None,
    }
}

/// The truth of a guard under the bindings `env`, where it has one. A
/// conjunction whose first part is false is false whatever the second is.
pub open spec fn holds(g: GuardView, env: Map<Seq<u8>, LiteralView>) -> Option<bool>
    decreases g,
{
    match g {
        GuardView::Truth(e) => match value_of(e, env) {
            Some(LiteralView::Bool(b)) => Some(b),
            _ => None,
        },
        GuardView::Compare(op, a, b) => match (value_of(a, env), value_of(b, env)) {
            (Some(x), Some(y)) => related(op, x, y),
            _ => None,
        },
        GuardView::And(a, b) => match holds(*a, env) {
            Some(true) => holds(*b, env),
            other => other,
        },
    }
}

/// The cost that an expression denotes under `env`: its value, where that is
/// an integer and not negative.
pub open spec fn cost_of(e: ExprView, env: Map<Seq<u8>, LiteralView>) -> Option<int> {
    match value_of(e, env) {
        Some(LiteralView::Int(n)) => if n >= 0 {
            Some(n)
        } else {
            None
        },
        _ => None,
    }
}

/// Why an expression has no value, or a cost expression no cost.
#[derive(Clone, Copy, Debug, PartialEq, Eq, Structural)]
pub enum EvalError {
    /// A value is not of the kind that the operation takes: an operand of
    /// `+` or `*` that is no integer, a guard that is no truth value, a
    /// cost that is no integer, or two values that do not compare.
    KindMismatch,
    /// The cost expression denotes a negative integer.
    NegativeCost,
}

/// Compares two values under a relation.
pub fn relate(op: Relation, a: &Literal, b: &Literal) -> (r: Result<bool, EvalError>)
    ensures
        r == match related(op, a@, b@) {
            Some(outcome) => Ok::<bool, EvalError>(outcome),
            None => Err(EvalError::KindMismatch),
        },
{
    match (a, b) {
        (Literal::Int(x), Literal::Int(y)) => Ok(
            match op {
                Relation::Equal => equal(x, y),
                Relation::NotEqual => !equal(x, y),
                Relation::Greater => below(y, x),
                Relation::GreaterEqual => !below(x, y),
                Relation::Less => below(x, y),
                Relation::LessEqual => !below(y, x),
            },
        ),
        (Literal::Bool(x), Literal::Bool(y)) => match op {
            Relation::Equal => Ok(*x == *y),
            Relation::NotEqual => Ok(*x != *y),
            _ => Err(EvalError::KindMismatch),
        },
        (Literal::Str(x), Literal::Str(y)) => {
            let same = same_bytes(x.as_slice(), y.as_slice());
            assert(same == (a@ == b@));
            match op {
                Relation::Equal => Ok(same),
                Relation::NotEqual => Ok(!same),
                _ => Err(EvalError::KindMismatch),
            }
        },
        _ => Err(EvalError::KindMismatch),
    }
}

impl Expr {
    /// Evaluates the expression under `env`, which binds all its variables.
    /// Fails where an operand of `+` or `*` is no integer.
    pub fn evaluate(&self, env: &Bindings) -> (r: Result<Literal, EvalError>)
        requires
            expr_closed(self@, env@.dom()),
        ensures
            match value_of(self@, env@) {
                Some(v) => r is Ok && r.unwrap()@ == v,
                None => r is Err && r.unwrap_err() == EvalError::KindMismatch,
            },
        decreases self,
    {
        match self {
            Expr::Lit(l) => Ok(l.copy()),
            Expr::Var(v) => match env.get(v.as_slice()) {
                Some(l) => Ok(l.copy()),
                None => vstd::pervasive::unreached(),
            },
            Expr::Add(a, b) => match (a.evaluate(env), b.evaluate(env)) {
                (Ok(Literal::Int(x)), Ok(Literal::Int(y))) => Ok(Literal::Int(sum(&x, &y))),
                _ => Err(EvalError::KindMismatch),
            },
            Expr::Mul(a, b) => match (a.evaluate(env), b.evaluate(env)) {
                (Ok(Literal::Int(x)), Ok(Literal::Int(y))) => Ok(Literal::Int(product(&x, &y))),
                _ => Err(EvalError::KindMismatch),
            },
        }
    }
}

/// Evaluates a cost expression under `bindings`, which bind all its
/// variables. The cost is the expression's value, which must be an integer
/// and not negative.
pub fn evaluate_cost(expr: &Expr, bindings: &Bindings) -> (r: Result<BigInt, EvalError>)
    requires
        expr_closed(expr@, bindings@.dom()),
    ensures
        r is Ok <==> cost_of(expr@, bindings@) is Some,
        r is Ok ==> int_value(r.unwrap()) == cost_of(expr@, bindings@).unwrap(),
        r is Err ==> r.unwrap_err() == match value_of(expr@, bindings@) {
            Some(LiteralView::Int(_)) => EvalError::NegativeCost,
            _ => EvalError::KindMismatch,
        },
{
    match expr.evaluate(bindings) {
        Ok(Literal::Int(n)) => {
            let zero = from_u64(0);
            if below(&n, &zero) {
                Err(EvalError::NegativeCost)
            } else {
                Ok(n)
            }
        },
        _ => Err(EvalError::KindMismatch),
    }
}

/// Evaluates a guard under `bindings`, which bind all its variables. The
/// second part of a conjunction is evaluated only where the first is true.
/// Fails where a value is not of the kind that its place takes.
pub fn evaluate_guard(guard: &Guard, bindings: &Bindings) -> (r: Result<bool, EvalError>)
    requires
        guard_closed(guard@, bindings@.dom()),
    ensures
        r == match holds(guard@, bindings@) {
            Some(truth) => Ok::<bool, EvalError>(truth),
            None => Err(EvalError::KindMismatch),
        },
    decreases guard,
{
    match guard {
        Guard::Truth(e) => match e.evaluate(bindings) {
            Ok(Literal::Bool(b)) => Ok(b),
            _ => Err(EvalError::KindMismatch),
        },
        Guard::Compare(op, a, b) => match (a.evaluate(bindings), b.evaluate(bindings)) {
            (Ok(x), Ok(y)) => relate(*op, &x, &y),
            _ => Err(EvalError::KindMismatch),
        },
        Guard::And(a, b) => match evaluate_guard(a, bindings) {
            Ok(true) => evaluate_guard(b, bindings),
            other => other,
        },
    }
}

} // verus!
