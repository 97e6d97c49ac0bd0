//! The grammar of guards and costs, over tokens.
//!
//! ```text
//! guard     := test { "&&" test }
//! test      := sum [ relation sum ]
//! relation  := "==" | "!=" | ">" | ">=" | "<" | "<="
//! sum       := product { "+" product }
//! product   := factor { "*" factor }
//! factor    := literal | variable | "(" sum ")"
//! literal   := integer | string | "true" | "false"
//! ```
//!
//! Each part of the grammar is a function from a position in the token list
//! to what is read there and the position behind it. Operators of one level
//! associate to the left.

use crate::bytes::copy_bytes;
use crate::expr::{Expr, ExprView, Guard, GuardView, Relation};
use crate::integer::duplicate;
use crate::literal::{Literal, LiteralView};
use crate::token::{Lexeme, LexemeView, Mark, Token, TokenView};
use vstd::prelude::*;

verus! {

/// The tokens of a list of lexemes.
pub open spec fn tokens_of(l: Seq<LexemeView>) -> Seq<TokenView> {
    l.map_values(|x: LexemeView| x.token)
}

/// The views of the tokens of a list of lexemes.
pub open spec fn token_views(l: Seq<Lexeme>) -> Seq<TokenView> {
    l.map_values(|x: Lexeme| x.token@)
}

/// The words that the grammars reserve.
#[derive(Clone, Copy, Debug, PartialEq, Eq, Structural)]
pub enum Keyword {
    True,
    False,
    When,
    Query,
    Default,
}

/// How a keyword is spelled: `true`, `false`, `when`, `query`, `default`.
pub open spec fn spelling(k: Keyword) -> Seq<u8> {
    match k {
        Keyword::True => seq![0x74u8, 0x72u8, 0x75u8, 0x65u8],
        Keyword::False => seq![0x66u8, 0x61u8, 0x6cu8, 0x73u8, 0x65u8],
        Keyword::When => seq![0x77u8, 0x68u8, 0x65u8, 0x6eu8],
        Keyword::Query => seq![0x71u8, 0x75u8, 0x65u8, 0x72u8, 0x79u8],
        Keyword::Default => seq![0x64u8, 0x65u8, 0x66u8, 0x61u8, 0x75u8, 0x6cu8, 0x74u8],
    }
}

/// The token at `i` is the mark `m`.
pub open spec fn is_mark(t: Seq<TokenView>, i: int, m: Mark) -> bool {
    0 <= i < t.len() && t[i] == TokenView::Mark(m)
}

/// The token at `i` is the name `w`.
pub open spec fn is_word(t: Seq<TokenView>, i: int, w: Seq<u8>) -> bool {
    0 <= i < t.len() && t[i] == TokenView::Name(w)
}

/// The literal that a token writes, if it writes one.
pub open spec fn literal_of(tok: TokenView) -> Option<LiteralView> {
    match tok {
        TokenView::Integer(n) => Some(LiteralView::Int(n)),
        TokenView::Text(s) => Some(LiteralView::Str(s)),
        TokenView::Name(w) => if w == spelling(Keyword::True) {
            Some(LiteralView::Bool(true))
        } else if w == spelling(Keyword::False) {
            Some(LiteralView::Bool(false))
        } else {
            None
        },
        _ => None,
    }
}

/// The comparison that a token writes, if it writes one.
pub open spec fn relation_of(tok: TokenView) -> Option<Relation> {
    match tok {
        TokenView::Mark(Mark::Equal) => Some(Relation::Equal),
        TokenView::Mark(Mark::NotEqual) => Some(Relation::NotEqual),
        TokenView::Mark(Mark::Greater) => Some(Relation::Greater),
        TokenView::Mark(Mark::GreaterEqual) => Some(Relation::GreaterEqual),
        TokenView::Mark(Mark::Less) => Some(Relation::Less),
        TokenView::Mark(Mark::LessEqual) => Some(Relation::LessEqual),
        _ => None,
    }
}

/// A factor at `i`: a literal, a variable, or a sum in parentheses.
pub open spec fn factor_at(t: Seq<TokenView>, i: int) -> Option<(ExprView, int)>
    decreases t.len() - i, 0int,
{
    if i < 0 || i >= t.len() {
        None
    } else {
        match t[i] {
            TokenView::Variable(v) => Some((ExprView::Var(v), i + 1)),
            TokenView::Mark(Mark::OpenParen) => match sum_at(t, i + 1) {
                Some((e, j)) => if is_mark(t, j, Mark::CloseParen) {
                    Some((e, j + 1))
                } else {
                    None
                },
                None => None,
            },
            tok => match literal_of(tok) {
                Some(l) => Some((ExprView::Lit(l), i + 1)),
                None => None,
            },
        }
    }
}

/// The rest of a product whose factors so far multiply to `acc`.
pub open spec fn product_from(t: Seq<TokenView>, i: int, acc: ExprView) -> Option<(ExprView, int)>
    decreases t.len() - i, 1int,
{
    if is_mark(t, i, Mark::Star) {
        match factor_at(t, i + 1) {
            Some((f, j)) => if i < j <= t.len() {
                product_from(t, j, ExprView::Mul(Box::new(acc), Box::new(f)))
            } else {
                None
            },
            None => None,
        }
    } else {
        Some((acc, i))
    }
}

/// A product at `i`: factors with `*` between them.
pub open spec fn product_at(t: Seq<TokenView>, i: int) -> Option<(ExprView, int)>
    decreases t.len() - i, 2int,
{
    match factor_at(t, i) {
        Some((f, j)) => if i < j <= t.len() {
            product_from(t, j, f)
        } else {
            None
        },
        None => None,
    }
}

/// The rest of a sum whose products so far add up to `acc`.
pub open spec fn sum_from(t: Seq<TokenView>, i: int, acc: ExprView) -> Option<(ExprView, int)>
    decreases t.len() - i, 3int,
{
    if is_mark(t, i, Mark::Plus) {
        match product_at(t, i + 1) {
            Some((p, j)) => if i < j <= t.len() {
                sum_from(t, j, ExprView::Add(Box::new(acc), Box::new(p)))
            } else {
                None
            },
            None => None,
        }
    } else {
        Some((acc, i))
    }
}

/// A sum at `i`: products with `+` between them.
pub open spec fn sum_at(t: Seq<TokenView>, i: int) -> Option<(ExprView, int)>
    decreases t.len() - i, 4int,
{
    match product_at(t, i) {
        Some((p, j)) => if i < j <= t.len() {
            sum_from(t, j, p)
        } else {
            None
        },
        None => None,
    }
}

/// A test at `i`: a comparison of two sums, or one sum that stands for a
/// truth value.
pub open spec fn test_at(t: Seq<TokenView>, i: int) -> Option<(GuardView, int)> {
    match sum_at(t, i) {
        Some((a, j)) => if 0 <= j < t.len() && relation_of(t[j]) is Some {
            match sum_at(t, j + 1) {
                Some((b, k)) => Some((GuardView::Compare(relation_of(t[j]).unwrap(), a, b), k)),
                None => None,
            }
        } else {
            Some((GuardView::Truth(a), j))
        },
        None => None,
    }
}

/// The rest of a guard whose tests so far make up `acc`.
pub open spec fn guard_from(t: Seq<TokenView>, i: int, acc: GuardView) -> Option<(GuardView, int)>
    decreases t.len() - i,
{
    if is_mark(t, i, Mark::And) {
        match test_at(t, i + 1) {
            Some((g, j)) => if i < j <= t.len() {
                guard_from(t, j, GuardView::And(Box::new(acc), Box::new(g)))
            } else {
                None
            },
            None => None,
        }
    } else {
        Some((acc, i))
    }
}

/// A guard at `i`: tests with `&&` between them.
pub open spec fn guard_at(t: Seq<TokenView>, i: int) -> Option<(GuardView, int)> {
    match test_at(t, i) {
        Some((g, j)) => if i < j <= t.len() {
            guard_from(t, j, g)
        } else {
            None
        },
        None => None,
    }
}

/// Whether a name is the keyword `k`.
pub fn spells(n: &Vec<u8>, k: Keyword) -> (r: bool)
    ensures
        r == (n@ == spelling(k)),
{
    let r = match k {
        Keyword::True => n.len() == 4 && n[0] == 0x74 && n[1] == 0x72 && n[2] == 0x75 && n[3]
            == 0x65,
        Keyword::False => n.len() == 5 && n[0] == 0x66 && n[1] == 0x61 && n[2] == 0x6c && n[3]
            == 0x73 && n[4] == 0x65,
        Keyword::When => n.len() == 4 && n[0] == 0x77 && n[1] == 0x68 && n[2] == 0x65 && n[3]
            == 0x6e,
        Keyword::Query => n.len() == 5 && n[0] == 0x71 && n[1] == 0x75 && n[2] == 0x65 && n[3]
            == 0x72 && n[4] == 0x79,
        Keyword::Default => n.len() == 7 && n[0] == 0x64 && n[1] == 0x65 && n[2] == 0x66 && n[3]
            == 0x61 && n[4] == 0x75 && n[5] == 0x6c && n[6] == 0x74,
    };
    assert(r ==> n@ =~= spelling(k));
    r
}

/// Whether the token at `i` is the keyword `k`.
pub fn word_is(lx: &Vec<Lexeme>, i: usize, k: Keyword) -> (r: bool)
    ensures
        r == is_word(token_views(lx@), i as int, spelling(k)),
        r ==> i < usize::MAX,
{
    if i < lx.len() {
        match &lx[i].token {
            Token::Name(n) => spells(n, k),
            _ => false,
        }
    } else {
        false
    }
}

/// Whether the token at `i` is the mark `m`.
pub fn mark_is(lx: &Vec<Lexeme>, i: usize, m: Mark) -> (r: bool)
    ensures
        r == is_mark(token_views(lx@), i as int, m),
        r ==> i < usize::MAX,
{
    if i < lx.len() {
        match &lx[i].token {
            Token::Mark(x) => *x == m,
            _ => false,
        }
    } else {
        false
    }
}

/// The literal that a token writes.
pub fn read_literal(tok: &Token) -> (r: Option<Literal>)
    ensures
        match literal_of(tok@) {
            Some(l) => r is Some && r.unwrap()@ == l,
            None => r is None,
        },
{
    match tok {
        Token::Integer(n) => Some(Literal::Int(duplicate(n))),
        Token::Text(s) => Some(Literal::Str(copy_bytes(s.as_slice()))),
        Token::Name(w) => {
            if spells(w, Keyword::True) {
                Some(Literal::Bool(true))
            } else if spells(w, Keyword::False) {
                Some(Literal::Bool(false))
            } else {
                None
            }
        },
        _ => None,
    }
}

/// The comparison that a token writes.
fn read_relation(tok: &Token) -> (r: Option<Relation>)
    ensures
        r == relation_of(tok@),
{
    match tok {
        Token::Mark(Mark::Equal) => Some(Relation::Equal),
        Token::Mark(Mark::NotEqual) => Some(Relation::NotEqual),
        Token::Mark(Mark::Greater) => Some(Relation::Greater),
        Token::Mark(Mark::GreaterEqual) => Some(Relation::GreaterEqual),
        Token::Mark(Mark::Less) => Some(Relation::Less),
        Token::Mark(Mark::LessEqual) => Some(Relation::LessEqual),
        _ => None,
    }
}

/// Reads a factor at `i`.
pub fn parse_factor(lx: &Vec<Lexeme>, i: usize) -> (r: Option<(Expr, usize)>)
    ensures
        match factor_at(token_views(lx@), i as int) {
            Some((e, j)) => r is Some && r.unwrap().0@ == e && r.unwrap().1 == j && i < j
                <= lx@.len(),
            None => r is None,
        },
    decreases lx@.len() - i, 0int,
{
    if i >= lx.len() {
        return None;
    }
    match &lx[i].token {
        Token::Variable(v) => Some((Expr::Var(copy_bytes(v.as_slice())), i + 1)),
        Token::Mark(Mark::OpenParen) => match parse_sum(lx, i + 1) {
            Some((e, j)) => {
                if mark_is(lx, j, Mark::CloseParen) {
                    Some((e, j + 1))
                } else {
                    None
                }
            },
            None => None,
        },
        tok => match read_literal(tok) {
            Some(l) => Some((Expr::Lit(l), i + 1)),
            None => None,
        },
    }
}

/// Reads a product at `i`.
pub fn parse_product(lx: &Vec<Lexeme>, i: usize) -> (r: Option<(Expr, usize)>)
    ensures
        match product_at(token_views(lx@), i as int) {
            Some((e, j)) => r is Some && r.unwrap().0@ == e && r.unwrap().1 == j && i < j
                <= lx@.len(),
            None => r is None,
        },
    decreases lx@.len() - i, 2int,
{
    let ghost t = token_views(lx@);
    match parse_factor(lx, i) {
        None => None,
        Some((first, j)) => {
            let mut acc = first;
            let mut at = j;
            while mark_is(lx, at, Mark::Star)
                invariant
                    t == token_views(lx@),
                    i < at <= lx@.len(),
                    product_from(t, at as int, acc@) == product_at(t, i as int),
                decreases lx@.len() - at,
            {
                let count = lx.len();
                assert(at < count);
                match parse_factor(lx, at + 1) {
                    None => {
                        return None;
                    },
                    Some((f, k)) => {
                        acc = Expr::Mul(Box::new(acc), Box::new(f));
                        at = k;
                    },
                }
            }
            Some((acc, at))
        },
    }
}

/// Reads a sum at `i`.
pub fn parse_sum(lx: &Vec<Lexeme>, i: usize) -> (r: Option<(Expr, usize)>)
    ensures
        match sum_at(token_views(lx@), i as int) {
            Some((e, j)) => r is Some && r.unwrap().0@ == e && r.unwrap().1 == j && i < j
                <= lx@.len(),
            None => r is None,
        },
    decreases lx@.len() - i, 4int,
{
    let ghost t = token_views(lx@);
    match parse_product(lx, i) {
        None => None,
        Some((first, j)) => {
            let mut acc = first;
            let mut at = j;
            while mark_is(lx, at, Mark::Plus)
                invariant
                    t == token_views(lx@),
                    i < at <= lx@.len(),
                    sum_from(t, at as int, acc@) == sum_at(t, i as int),
                decreases lx@.len() - at,
            {
                let count = lx.len();
                assert(at < count);
                match parse_product(lx, at + 1) {
                    None => {
                        return None;
                    },
                    Some((p, k)) => {
                        acc = Expr::Add(Box::new(acc), Box::new(p));
                        at = k;
                    },
                }
            }
            Some((acc, at))
        },
    }
}

/// Reads a test at `i`.
pub fn parse_test(lx: &Vec<Lexeme>, i: usize) -> (r: Option<(Guard, usize)>)
    ensures
        match test_at(token_views(lx@), i as int) {
            Some((g, j)) => r is Some && r.unwrap().0@ == g && r.unwrap().1 == j && i < j
                <= lx@.len(),
            None => r is None,
        },
{
    match parse_sum(lx, i) {
        None => None,
        Some((a, j)) => {
            let op = if j < lx.len() {
                read_relation(&lx[j].token)
            } else {
                None
            };
            match op {
                Some(relation) => match parse_sum(lx, j + 1) {
                    Some((b, k)) => Some((Guard::Compare(relation, a, b), k)),
                    None => None,
                },
                None => Some((Guard::Truth(a), j)),
            }
        },
    }
}

/// Reads a guard at `i`.
pub fn parse_guard(lx: &Vec<Lexeme>, i: usize) -> (r: Option<(Guard, usize)>)
    ensures
        match guard_at(token_views(lx@), i as int) {
            Some((g, j)) => r is Some && r.unwrap().0@ == g && r.unwrap().1 == j && i < j
                <= lx@.len(),
            None => r is None,
        },
{
    let ghost t = token_views(lx@);
    match parse_test(lx, i) {
        None => None,
        Some((first, j)) => {
            let mut acc = first;
            let mut at = j;
            while mark_is(lx, at, Mark::And)
                invariant
                    t == token_views(lx@),
                    i < at <= lx@.len(),
                    guard_from(t, at as int, acc@) == guard_at(t, i as int),
                decreases lx@.len() - at,
            {
                let count = lx.len();
                assert(at < count);
                match parse_test(lx, at + 1) {
                    None => {
                        return None;
                    },
                    Some((g, k)) => {
                        acc = Guard::And(Box::new(acc), Box::new(g));
                        at = k;
                    },
                }
            }
            Some((acc, at))
        },
    }
}

} // verus!
