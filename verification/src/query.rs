//! The part of the query language that matters for costing: one operation
//! with its variable declarations and its top-level fields.
//!
//! ```text
//! operation    := [ "query" [ name ] [ "(" declaration { declaration } ")" ] ] "{" field { field } "}"
//! declaration  := variable ":" type
//! type         := ( name | "[" type "]" ) [ "!" ]
//! field        := name [ "(" argument { argument } ")" ] [ block ]
//! argument     := name ":" ( literal | variable )
//! block        := "{" ... "}"
//! ```
//!
//! Commas count as blanks between the tokens of a query. What a field
//! selects in its block is passed over: only the braces are counted.

use crate::bytes::copy_bytes;
use crate::grammar::{
    is_mark, is_word, literal_of, mark_is, read_literal, spelling, token_views, word_is, Keyword,
};
use crate::literal::{Literal, LiteralView};
use crate::token::{Lexeme, Mark, Token, TokenView};
use vstd::prelude::*;

verus! {

/// The value of an argument as the query writes it.
#[derive(Debug, PartialEq, Eq)]
pub enum Value {
    /// A literal.
    Given(Literal),
    /// A reference to a variable of the operation.
    Reference(Vec<u8>),
}

/// The mathematical value of a [`Value`].
pub enum ValueView {
    Given(LiteralView),
    Reference(Seq<u8>),
}

impl View for Value {
    type V = ValueView;

    open spec fn view(&self) -> ValueView {
        match self {
            Value::Given(l) => ValueView::Given(l@),
            Value::Reference(v) => ValueView::Reference(v@),
        }
    }
}

/// An argument of a field.
#[derive(Debug, PartialEq, Eq)]
pub struct Argument {
    pub name: Vec<u8>,
    pub value: Value,
}

/// The mathematical value of an [`Argument`].
pub struct ArgumentView {
    pub name: Seq<u8>,
    pub value: ValueView,
}

impl View for Argument {
    type V = ArgumentView;

    open spec fn view(&self) -> ArgumentView {
        ArgumentView { name: self.name@, value: self.value@ }
    }
}

/// The views of a list of arguments.
pub open spec fn argument_views(a: Seq<Argument>) -> Seq<ArgumentView> {
    a.map_values(|x: Argument| x@)
}

/// A top-level field of an operation, with its arguments as written.
#[derive(Debug, PartialEq, Eq)]
pub struct Field {
    pub name: Vec<u8>,
    pub args: Vec<Argument>,
}

/// The mathematical value of a [`Field`].
pub struct FieldView {
    pub name: Seq<u8>,
    pub args: Seq<ArgumentView>,
}

impl View for Field {
    type V = FieldView;

    open spec fn view(&self) -> FieldView {
        FieldView { name: self.name@, args: argument_views(self.args@) }
    }
}

/// The views of a list of fields.
pub open spec fn field_views(f: Seq<Field>) -> Seq<FieldView> {
    f.map_values(|x: Field| x@)
}

/// The views of a list of names.
pub open spec fn name_views(n: Seq<Vec<u8>>) -> Seq<Seq<u8>> {
    n.map_values(|x: Vec<u8>| x@)
}

/// An operation: the variables it declares and its top-level fields.
#[derive(Debug, PartialEq, Eq)]
pub struct Operation {
    pub declared: Vec<Vec<u8>>,
    pub fields: Vec<Field>,
}

/// The mathematical value of an [`Operation`].
pub struct OperationView {
    pub declared: Seq<Seq<u8>>,
    pub fields: Seq<FieldView>,
}

impl View for Operation {
    type V = OperationView;

    open spec fn view(&self) -> OperationView {
        OperationView { declared: name_views(self.declared@), fields: field_views(self.fields@) }
    }
}

/// The position behind the `!` at `i`, if there is one.
pub open spec fn past_bang(t: Seq<TokenView>, i: int) -> int {
    if is_mark(t, i, Mark::Bang) {
        i + 1
    } else {
        i
    }
}

/// The end of the type that starts at `i`.
pub open spec fn type_at(t: Seq<TokenView>, i: int) -> Option<int>
    decreases t.len() - i,
{
    if i < 0 || i >= t.len() {
        None
    } else {
        match t[i] {
            TokenView::Name(_) => Some(past_bang(t, i + 1)),
            TokenView::Mark(Mark::OpenBracket) => match type_at(t, i + 1) {
                Some(j) => if is_mark(t, j, Mark::CloseBracket) {
                    Some(past_bang(t, j + 1))
                } else {
                    None
                },
                None => None,
            },
            _ => None,
        }
    }
}

/// The rest of the variable declarations, after those of `acc`, up to and
/// with the closing parenthesis: the names declared.
pub open spec fn declarations_from(t: Seq<TokenView>, i: int, acc: Seq<Seq<u8>>) -> Option<
    (Seq<Seq<u8>>, int),
>
    decreases t.len() - i,
{
    if 0 <= i < t.len() && is_mark(t, i + 1, Mark::Colon) {
        match t[i] {
            TokenView::Variable(v) => match type_at(t, i + 2) {
                Some(j) => if is_mark(t, j, Mark::CloseParen) {
                    Some((acc.push(v), j + 1))
                } else if i < j <= t.len() {
                    declarations_from(t, j, acc.push(v))
                } else {
                    None
                },
                None => None,
            },
            _ => None,
        }
    } else {
        None
    }
}

/// The value that a token writes: a literal or a variable reference.
pub open spec fn value_of_token(tok: TokenView) -> Option<ValueView> {
    match tok {
        TokenView::Variable(v) => Some(ValueView::Reference(v)),
        _ => match literal_of(tok) {
            Some(l) => Some(ValueView::Given(l)),
            None => None,
        },
    }
}

/// An argument at `i`: a name, a colon and a value.
pub open spec fn argument_at(t: Seq<TokenView>, i: int) -> Option<(ArgumentView, int)> {
    if 0 <= i && i + 2 < t.len() && is_mark(t, i + 1, Mark::Colon) {
        match (t[i], value_of_token(t[i + 2])) {
            (TokenView::Name(name), Some(value)) => Some((ArgumentView { name, value }, i + 3)),
            _ => None,
        }
    } else {
        None
    }
}

/// The rest of an argument list, after the arguments of `acc`, up to and
/// with the closing parenthesis.
pub open spec fn arguments_from(t: Seq<TokenView>, i: int, acc: Seq<ArgumentView>) -> Option<
    (Seq<ArgumentView>, int),
>
    decreases t.len() - i,
{
    match argument_at(t, i) {
        Some((a, j)) => if is_mark(t, j, Mark::CloseParen) {
            Some((acc.push(a), j + 1))
        } else if i < j <= t.len() {
            arguments_from(t, j, acc.push(a))
        } else {
            None
        },
        None => None,
    }
}

/// The position behind the brace that closes a block, from a position
/// inside the block at which `depth` inner braces are open.
pub open spec fn block_end(t: Seq<TokenView>, i: int, depth: nat) -> Option<int>
    decreases t.len() - i,
{
    if i < 0 || i >= t.len() {
        None
    } else if is_mark(t, i, Mark::OpenBrace) {
        block_end(t, i + 1, depth + 1)
    } else if is_mark(t, i, Mark::CloseBrace) {
        if depth == 0 {
            Some(i + 1)
        } else {
            block_end(t, i + 1, (depth - 1) as nat)
        }
    } else {
        block_end(t, i + 1, depth)
    }
}

/// The argument list at `i`, if one starts there, else no arguments.
pub open spec fn field_args_at(t: Seq<TokenView>, i: int) -> Option<(Seq<ArgumentView>, int)> {
    if is_mark(t, i, Mark::OpenParen) {
        arguments_from(t, i + 1, Seq::empty())
    } else {
        Some((Seq::empty(), i))
    }
}

/// A field at `i`: its name, its arguments, and behind them a block that
/// is passed over.
pub open spec fn field_at(t: Seq<TokenView>, i: int) -> Option<(FieldView, int)> {
    if 0 <= i < t.len() {
        match (t[i], field_args_at(t, i + 1)) {
            (TokenView::Name(name), Some((args, j))) => if is_mark(t, j, Mark::OpenBrace) {
                match block_end(t, j + 1, 0) {
                    Some(k) => Some((FieldView { name, args }, k)),
                    None => None,
                }
            } else {
                Some((FieldView { name, args }, j))
            },
            _ => None,
        }
    } else {
        None
    }
}

/// The rest of the fields of an operation, after those of `acc`, up to and
/// with the closing brace. An operation has at least one field.
pub open spec fn fields_from(t: Seq<TokenView>, i: int, acc: Seq<FieldView>) -> Option<
    (Seq<FieldView>, int),
>
    decreases t.len() - i,
{
    if is_mark(t, i, Mark::CloseBrace) {
        if acc.len() > 0 {
            Some((acc, i + 1))
        } else {
            None
        }
    } else {
        match field_at(t, i) {
            Some((f, j)) => if i < j <= t.len() {
                fields_from(t, j, acc.push(f))
            } else {
                None
            },
            None => None,
        }
    }
}

/// What stands before the fields of an operation: the word `query`, a name
/// and variable declarations, each of which may be left out if what stands
/// before it is there. Gives the declared names and the position of the
/// opening brace.
pub open spec fn header_of(t: Seq<TokenView>) -> Option<(Seq<Seq<u8>>, int)> {
    if is_word(t, 0, spelling(Keyword::Query)) {
        let i: int = if 1 < t.len() && t[1] is Name {
            2
        } else {
            1
        };
        if is_mark(t, i, Mark::OpenParen) {
            declarations_from(t, i + 1, Seq::empty())
        } else {
            Some((Seq::empty(), i))
        }
    } else {
        Some((Seq::empty(), 0))
    }
}

/// The operation that the tokens write, where they write exactly one.
pub open spec fn operation_of(t: Seq<TokenView>) -> Option<OperationView> {
    match header_of(t) {
        Some((declared, i)) => if is_mark(t, i, Mark::OpenBrace) {
            match fields_from(t, i + 1, Seq::empty()) {
                Some((fields, j)) => if j == t.len() {
                    Some(OperationView { declared, fields })
                } else {
                    None
                },
                None => None,
            }
        } else {
            None
        },
        None => None,
    }
}

/// The position behind the `!` at `i`, if there is one.
fn skip_bang(lx: &Vec<Lexeme>, i: usize) -> (r: usize)
    requires
        i <= lx@.len(),
    ensures
        r == past_bang(token_views(lx@), i as int),
        i <= r <= lx@.len(),
{
    if mark_is(lx, i, Mark::Bang) {
        i + 1
    } else {
        i
    }
}

/// Passes over a type at `i`.
pub fn parse_type(lx: &Vec<Lexeme>, i: usize) -> (r: Option<usize>)
    ensures
        match type_at(token_views(lx@), i as int) {
            Some(j) => r == Some(j as usize) && i < j <= lx@.len(),
            None => r is None,
        },
    decreases lx@.len() - i,
{
    if i >= lx.len() {
        return None;
    }
    match &lx[i].token {
        Token::Name(_) => Some(skip_bang(lx, i + 1)),
        Token::Mark(Mark::OpenBracket) => match parse_type(lx, i + 1) {
            Some(j) => {
                if mark_is(lx, j, Mark::CloseBracket) {
                    Some(skip_bang(lx, j + 1))
                } else {
                    None
                }
            },
            None => None,
        },
        _ => None,
    }
}

/// Reads variable declarations at `i`, behind their opening parenthesis.
pub fn parse_declarations(lx: &Vec<Lexeme>, i: usize) -> (r: Option<(Vec<Vec<u8>>, usize)>)
    ensures
        match declarations_from(token_views(lx@), i as int, Seq::empty()) {
            Some((names, j)) => r is Some && name_views(r.unwrap().0@) == names && r.unwrap().1
                == j && i < j <= lx@.len(),
            None => r is None,
        },
{
    let ghost t = token_views(lx@);
    let mut names: Vec<Vec<u8>> = Vec::new();
    let mut at: usize = i;
    assert(name_views(names@) =~= Seq::empty());
    loop
        invariant
            t == token_views(lx@),
            i <= at,
            declarations_from(t, at as int, name_views(names@)) == declarations_from(
                t,
                i as int,
                Seq::empty(),
            ),
        decreases lx@.len() - at,
    {
        if at >= lx.len() || !mark_is(lx, at + 1, Mark::Colon) {
            return None;
        }
        match &lx[at].token {
            Token::Variable(v) => {
                let ghost before = name_views(names@);
                names.push(copy_bytes(v.as_slice()));
                assert(name_views(names@) =~= before.push(v@));
                match parse_type(lx, at + 2) {
                    Some(j) => {
                        if mark_is(lx, j, Mark::CloseParen) {
                            return Some((names, j + 1));
                        }
                        at = j;
                    },
                    None => {
                        return None;
                    },
                }
            },
            _ => {
                return None;
            },
        }
    }
}

/// The value that a token writes.
fn read_value(tok: &Token) -> (r: Option<Value>)
    ensures
        match value_of_token(tok@) {
            Some(v) => r is Some && r.unwrap()@ == v,
            None => r is None,
        },
{
    match tok {
        Token::Variable(v) => Some(Value::Reference(copy_bytes(v.as_slice()))),
        _ => match read_literal(tok) {
            Some(l) => Some(Value::Given(l)),
            None => None,
        },
    }
}

/// Reads an argument at `i`.
pub fn parse_argument(lx: &Vec<Lexeme>, i: usize) -> (r: Option<(Argument, usize)>)
    ensures
        match argument_at(token_views(lx@), i as int) {
            Some((a, j)) => r is Some && r.unwrap().0@ == a && r.unwrap().1 == j && j == i + 3
                && j <= lx@.len(),
            None => r is None,
        },
{
    if i >= lx.len() || lx.len() - i <= 2 {
        return None;
    }
    if !mark_is(lx, i + 1, Mark::Colon) {
        return None;
    }
    match (&lx[i].token, read_value(&lx[i + 2].token)) {
        (Token::Name(n), Some(value)) => Some(
            (Argument { name: copy_bytes(n.as_slice()), value }, i + 3),
        ),
        _ => None,
    }
}

/// Reads an argument list at `i`, behind its opening parenthesis.
pub fn parse_arguments(lx: &Vec<Lexeme>, i: usize) -> (r: Option<(Vec<Argument>, usize)>)
    ensures
        match arguments_from(token_views(lx@), i as int, Seq::empty()) {
            Some((args, j)) => r is Some && argument_views(r.unwrap().0@) == args && r.unwrap().1
                == j && i < j <= lx@.len(),
            None => r is None,
        },
{
    let ghost t = token_views(lx@);
    let mut args: Vec<Argument> = Vec::new();
    let mut at: usize = i;
    assert(argument_views(args@) =~= Seq::empty());
    loop
        invariant
            t == token_views(lx@),
            i <= at,
            arguments_from(t, at as int, argument_views(args@)) == arguments_from(
                t,
                i as int,
                Seq::empty(),
            ),
        decreases lx@.len() - at,
    {
        match parse_argument(lx, at) {
            None => {
                return None;
            },
            Some((a, j)) => {
                let ghost before = argument_views(args@);
                let ghost added = a@;
                args.push(a);
                assert(argument_views(args@) =~= before.push(added));
                if mark_is(lx, j, Mark::CloseParen) {
                    return Some((args, j + 1));
                }
                at = j;
            },
        }
    }
}

/// Passes over a block at `i`, behind its opening brace.
pub fn skip_block(lx: &Vec<Lexeme>, i: usize) -> (r: Option<usize>)
    requires
        i <= lx@.len(),
    ensures
        match block_end(token_views(lx@), i as int, 0) {
            Some(k) => r == Some(k as usize) && i < k <= lx@.len(),
            None => r is None,
        },
{
    let ghost t = token_views(lx@);
    let mut at: usize = i;
    let mut depth: usize = 0;
    while at < lx.len()
        invariant
            t == token_views(lx@),
            i <= at <= lx@.len(),
            depth <= at - i,
            block_end(t, at as int, depth as nat) == block_end(t, i as int, 0),
        decreases lx@.len() - at,
    {
        if mark_is(lx, at, Mark::OpenBrace) {
            depth += 1;
        } else if mark_is(lx, at, Mark::CloseBrace) {
            if depth == 0 {
                return Some(at + 1);
            }
            depth -= 1;
        }
        at += 1;
    }
    None
}

/// Reads a field at `i`.
pub fn parse_field(lx: &Vec<Lexeme>, i: usize) -> (r: Option<(Field, usize)>)
    ensures
        match field_at(token_views(lx@), i as int) {
            Some((f, j)) => r is Some && r.unwrap().0@ == f && r.unwrap().1 == j && i < j
                <= lx@.len(),
            None => r is None,
        },
{
    if i >= lx.len() {
        return None;
    }
    match &lx[i].token {
        Token::Name(n) => {
            let name = copy_bytes(n.as_slice());
            let (args, j) = if mark_is(lx, i + 1, Mark::OpenParen) {
                match parse_arguments(lx, i + 2) {
                    Some(found) => found,
                    None => {
                        return None;
                    },
                }
            } else {
                let none: Vec<Argument> = Vec::new();
                assert(argument_views(none@) =~= Seq::empty());
                (none, i + 1)
            };
            if mark_is(lx, j, Mark::OpenBrace) {
                match skip_block(lx, j + 1) {
                    Some(k) => Some((Field { name, args }, k)),
                    None => None,
                }
            } else {
                Some((Field { name, args }, j))
            }
        },
        _ => None,
    }
}

/// Reads the fields of an operation at `i`, behind the opening brace.
pub fn parse_fields(lx: &Vec<Lexeme>, i: usize) -> (r: Option<(Vec<Field>, usize)>)
    ensures
        match fields_from(token_views(lx@), i as int, Seq::empty()) {
            Some((fields, j)) => r is Some && field_views(r.unwrap().0@) == fields && r.unwrap().1
                == j && i < j <= lx@.len(),
            None => r is None,
        },
{
    let ghost t = token_views(lx@);
    let mut fields: Vec<Field> = Vec::new();
    let mut at: usize = i;
    assert(field_views(fields@) =~= Seq::empty());
    loop
        invariant
            t == token_views(lx@),
            i <= at,
            fields_from(t, at as int, field_views(fields@)) == fields_from(
                t,
                i as int,
                Seq::empty(),
            ),
        decreases lx@.len() - at,
    {
        if mark_is(lx, at, Mark::CloseBrace) {
            if fields.len() > 0 {
                return Some((fields, at + 1));
            } else {
                return None;
            }
        }
        match parse_field(lx, at) {
            None => {
                return None;
            },
            Some((f, j)) => {
                let ghost before = field_views(fields@);
                let ghost added = f@;
                fields.push(f);
                assert(field_views(fields@) =~= before.push(added));
                at = j;
            },
        }
    }
}

/// Reads what stands before the fields of an operation.
fn parse_header(lx: &Vec<Lexeme>) -> (r: Option<(Vec<Vec<u8>>, usize)>)
    ensures
        match header_of(token_views(lx@)) {
            Some((names, j)) => r is Some && name_views(r.unwrap().0@) == names && r.unwrap().1
                == j && j <= lx@.len(),
            None => r is None,
        },
{
    let none: Vec<Vec<u8>> = Vec::new();
    assert(name_views(none@) =~= Seq::empty());
    if word_is(lx, 0, Keyword::Query) {
        let named = 1 < lx.len() && match &lx[1].token {
            Token::Name(_) => true,
            _ => false,
        };
        let i: usize = if named {
            2
        } else {
            1
        };
        if mark_is(lx, i, Mark::OpenParen) {
            parse_declarations(lx, i + 1)
        } else {
            Some((none, i))
        }
    } else {
        Some((none, 0))
    }
}

/// Reads the one operation that the tokens write.
pub fn parse_operation(lx: &Vec<Lexeme>) -> (r: Option<Operation>)
    ensures
        match operation_of(token_views(lx@)) {
            Some(op) => r is Some && r.unwrap()@ == op,
            None => r is None,
        },
{
    match parse_header(lx) {
        Some((declared, i)) => {
            if mark_is(lx, i, Mark::OpenBrace) {
                match parse_fields(lx, i + 1) {
                    Some((fields, j)) => {
                        if j == lx.len() {
                            Some(Operation { declared, fields })
                        } else {
                            None
                        }
                    },
                    None => None,
                }
            } else {
                None
            }
        },
        None => None,
    }
}

} // verus!
