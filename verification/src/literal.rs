//! Scalar values: what a query argument holds and what a rule pattern or an
//! expression may name.

use crate::bytes::{copy_bytes, same_bytes};
use crate::integer::{duplicate, equal, int_value};
use num_bigint::BigInt;
use vstd::prelude::*;

verus! {

/// A scalar value.
#[derive(Debug, PartialEq, Eq)]
pub enum Literal {
    /// An integer of any size.
    Int(BigInt),
    /// A truth value.
    Bool(bool),
    /// A string, as its bytes.
    Str(Vec<u8>),
}

/// The mathematical value of a [`Literal`]. Two literals are the same value
/// exactly when their views are equal.
pub enum LiteralView {
    Int(int),
    Bool(bool),
    Str(Seq<u8>),
}

impl View for Literal {
    type V = LiteralView;

    open spec fn view(&self) -> LiteralView {
        match self {
            Literal::Int(n) => LiteralView::Int(int_value(*n)),
            Literal::Bool(b) => LiteralView::Bool(*b),
            Literal::Str(s) => LiteralView::Str(s@),
        }
    }
}

impl Literal {
    /// Compares two literals by value: same kind and same content.
    pub fn same(&self, other: &Literal) -> (r: bool)
        ensures
            r == (self@ == other@),
    {
        match (self, other) {
            (Literal::Int(a), Literal::Int(b)) => equal(a, b),
            (Literal::Bool(a), Literal::Bool(b)) => *a == *b,
            (Literal::Str(a), Literal::Str(b)) => {
                let r = same_bytes(a.as_slice(), b.as_slice());
                assert(r == (self@ == other@));
                r
            },
            _ => false,
        }
    }

    /// A copy holding the same value.
    pub fn copy(&self) -> (r: Literal)
        ensures
            r@ == self@,
    {
        match self {
            Literal::Int(n) => Literal::Int(duplicate(n)),
            Literal::Bool(b) => Literal::Bool(*b),
            Literal::Str(s) => Literal::Str(copy_bytes(s.as_slice())),
        }
    }
}

} // verus!
