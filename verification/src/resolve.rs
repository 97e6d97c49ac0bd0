//! The resolver: from a query text and a variables payload to the
//! selections of the query, each argument with its value.
//!
//! The payload is empty or one flat object, in which each entry maps a
//! variable's name, written as a string, to an integer, a truth value or a
//! string:
//!
//! ```text
//! payload := [ "{" [ entry { "," entry } ] "}" ]
//! entry   := string ":" literal
//! ```

use crate::bindings::Bindings;
use crate::bytes::{copy_bytes, same_bytes};
use crate::grammar::{is_mark, literal_of, mark_is, read_literal, token_views, tokens_of};
use crate::literal::{Literal, LiteralView};
use crate::query::{
    argument_views, field_views, name_views, operation_of, parse_operation, ArgumentView, Field, FieldView, Operation, OperationView, Value, ValueView,
};
use crate::rule::{selection_views, Selection, SelectionView};
use crate::token::{lexeme_views, lexemes, tokenize, Lexeme, Mark, Token, TokenView};
use vstd::prelude::*;
use vstd::string::StringSliceAdditionalSpecFns;

verus! {

/// Why a query could not be resolved.
#[derive(Clone, Copy, Debug, PartialEq, Eq, Structural)]
pub enum ResolveError {
    /// The query text does not follow the grammar.
    MalformedQuery,
    /// The variables payload does not follow its grammar.
    MalformedVariables,
    /// An argument refers to a variable that the operation does not declare.
    UndeclaredVariable,
    /// An argument refers to a variable for which the payload has no value.
    UnsuppliedVariable,
    /// A field has two arguments of one name.
    DuplicateArgument,
}

/// An entry of the payload at `i`: a string, a colon and a literal.
pub open spec fn entry_at(t: Seq<TokenView>, i: int) -> Option<((Seq<u8>, LiteralView), int)> {
    if 0 <= i && i + 2 < t.len() && is_mark(t, i + 1, Mark::Colon) {
        match (t[i], literal_of(t[i + 2])) {
            (TokenView::Text(name), Some(value)) => Some(((name, value), i + 3)),
            _ => None,
        }
    } else {
        None
    }
}

/// The rest of the entries of a payload, after those that built `acc`, up
/// to and with the closing brace. A name that comes again replaces its
/// earlier value.
pub open spec fn entries_from(t: Seq<TokenView>, i: int, acc: Map<Seq<u8>, LiteralView>) -> Option<
    (Map<Seq<u8>, LiteralView>, int),
>
    decreases t.len() - i,
{
    match entry_at(t, i) {
        Some(((name, value), j)) => if i < j && is_mark(t, j, Mark::Comma) {
            entries_from(t, j + 1, acc.insert(name, value))
        } else if is_mark(t, j, Mark::CloseBrace) {
            Some((acc.insert(name, value), j + 1))
        } else {
            None
        },
        None => None,
    }
}

/// The variables that a payload supplies. No tokens at all supply none.
pub open spec fn payload_of(t: Seq<TokenView>) -> Option<Map<Seq<u8>, LiteralView>> {
    if t.len() == 0 {
        Some(Map::empty())
    } else if is_mark(t, 0, Mark::OpenBrace) {
        if is_mark(t, 1, Mark::CloseBrace) {
            if t.len() == 2 {
                Some(Map::empty())
            } else {
                None
            }
        } else {
            match entries_from(t, 1, Map::empty()) {
                Some((supplied, j)) => if j == t.len() {
                    Some(supplied)
                } else {
                    None
                },
                None => None,
            }
        }
    } else {
        None
    }
}

/// The literal that an argument's value stands for. A variable must be
/// declared by the operation and supplied by the payload.
pub open spec fn value_resolved(
    v: ValueView,
    declared: Seq<Seq<u8>>,
    supplied: Map<Seq<u8>, LiteralView>,
) -> Result<LiteralView, ResolveError> {
    match v {
        ValueView::Given(l) => Ok(l),
        ValueView::Reference(name) => if !declared.contains(name) {
            Err(ResolveError::UndeclaredVariable)
        } else if !supplied.contains_key(name) {
            Err(ResolveError::UnsuppliedVariable)
        } else {
            Ok(supplied[name])
        },
    }
}

/// Resolves the arguments from position `i` on, after those that built
/// `acc`. Stops at the first argument whose name came before or whose
/// value cannot be resolved.
pub open spec fn args_resolved(
    args: Seq<ArgumentView>,
    i: int,
    declared: Seq<Seq<u8>>,
    supplied: Map<Seq<u8>, LiteralView>,
    acc: Map<Seq<u8>, LiteralView>,
) -> Result<Map<Seq<u8>, LiteralView>, ResolveError>
    decreases args.len() - i,
{
    if i < 0 || i >= args.len() {
        Ok(acc)
    } else if acc.contains_key(args[i].name) {
        Err(ResolveError::DuplicateArgument)
    } else {
        match value_resolved(args[i].value, declared, supplied) {
            Ok(l) => args_resolved(args, i + 1, declared, supplied, acc.insert(args[i].name, l)),
            Err(e) => Err(e),
        }
    }
}

/// The selection that a field stands for.
pub open spec fn field_resolved(
    f: FieldView,
    declared: Seq<Seq<u8>>,
    supplied: Map<Seq<u8>, LiteralView>,
) -> Result<SelectionView, ResolveError> {
    match args_resolved(f.args, 0, declared, supplied, Map::empty()) {
        Ok(args) => Ok(SelectionView { field: f.name, args }),
        Err(e) => Err(e),
    }
}

/// Resolves the fields from position `i` on, after the selections of
/// `acc`. Stops at the first field that cannot be resolved.
pub open spec fn fields_resolved(
    fields: Seq<FieldView>,
    i: int,
    declared: Seq<Seq<u8>>,
    supplied: Map<Seq<u8>, LiteralView>,
    acc: Seq<SelectionView>,
) -> Result<Seq<SelectionView>, ResolveError>
    decreases fields.len() - i,
{
    if i < 0 || i >= fields.len() {
        Ok(acc)
    } else {
        match field_resolved(fields[i], declared, supplied) {
            Ok(s) => fields_resolved(fields, i + 1, declared, supplied, acc.push(s)),
            Err(e) => Err(e),
        }
    }
}

/// The selections of an operation under the supplied variables: one for
/// each top-level field, in order.
pub open spec fn operation_resolved(op: OperationView, supplied: Map<Seq<u8>, LiteralView>) -> Result<
    Seq<SelectionView>,
    ResolveError,
> {
    fields_resolved(op.fields, 0, op.declared, supplied, Seq::empty())
}

/// The selections that a query text and a variables payload stand for, or
/// the reason why they stand for none. The query's grammar is checked
/// first, then the payload's, then the arguments in order.
pub open spec fn resolved(query: Seq<u8>, variables: Seq<u8>) -> Result<
    Seq<SelectionView>,
    ResolveError,
> {
    match lexemes(query, true) {
        Err(_) => Err(ResolveError::MalformedQuery),
        Ok(lq) => match operation_of(tokens_of(lq)) {
            None => Err(ResolveError::MalformedQuery),
            Some(op) => match lexemes(variables, false) {
                Err(_) => Err(ResolveError::MalformedVariables),
                Ok(lv) => match payload_of(tokens_of(lv)) {
                    None => Err(ResolveError::MalformedVariables),
                    Some(supplied) => operation_resolved(op, supplied),
                },
            },
        },
    }
}

/// Reads an entry of the payload at `i`.
fn parse_entry(lx: &Vec<Lexeme>, i: usize) -> (r: Option<(Vec<u8>, Literal, usize)>)
    ensures
        match entry_at(token_views(lx@), i as int) {
            Some(((name, value), j)) => r is Some && r.unwrap().0@ == name && r.unwrap().1@
                == value && r.unwrap().2 == j && j == i + 3 && j <= lx@.len(),
            None => r is None,
        },
{
    if i >= lx.len() || lx.len() - i <= 2 {
        return None;
    }
    if !mark_is(lx, i + 1, Mark::Colon) {
        return None;
    }
    match (&lx[i].token, read_literal(&lx[i + 2].token)) {
        (Token::Text(n), Some(value)) => Some((copy_bytes(n.as_slice()), value, i + 3)),
        _ => None,
    }
}

/// Reads the variables that a payload supplies.
pub fn parse_payload(lx: &Vec<Lexeme>) -> (r: Option<Bindings>)
    ensures
        match payload_of(token_views(lx@)) {
            Some(supplied) => r is Some && r.unwrap()@ == supplied,
            None => r is None,
        },
{
    let ghost t = token_views(lx@);
    let mut supplied = Bindings::new();
    if lx.len() == 0 {
        return Some(supplied);
    }
    if !mark_is(lx, 0, Mark::OpenBrace) {
        return None;
    }
    if mark_is(lx, 1, Mark::CloseBrace) {
        if lx.len() == 2 {
            return Some(supplied);
        } else {
            return None;
        }
    }
    let mut at: usize = 1;
    loop
        invariant
            t == token_views(lx@),
            1 <= at,
            is_mark(t, 0, Mark::OpenBrace),
            !is_mark(t, 1, Mark::CloseBrace),
            entries_from(t, at as int, supplied@) == entries_from(t, 1, Map::empty()),
        decreases lx@.len() - at,
    {
        match parse_entry(lx, at) {
            None => {
                return None;
            },
            Some((name, value, j)) => {
                supplied.set(name, value);
                if mark_is(lx, j, Mark::Comma) {
                    at = j + 1;
                } else if mark_is(lx, j, Mark::CloseBrace) {
                    if j + 1 == lx.len() {
                        return Some(supplied);
                    } else {
                        return None;
                    }
                } else {
                    return None;
                }
            },
        }
    }
}

/// Whether the operation declares the variable `name`.
pub fn declares(declared: &Vec<Vec<u8>>, name: &[u8]) -> (r: bool)
    ensures
        r == name_views(declared@).contains(name@),
{
    let mut i: usize = 0;
    while i < declared.len()
        invariant
            i <= declared.len(),
            forall|j: int| 0 <= j < i ==> name_views(declared@)[j] != name@,
        decreases declared.len() - i,
    {
        if same_bytes(declared[i].as_slice(), name) {
            assert(name_views(declared@)[i as int] == name@);
            return true;
        }
        i += 1;
    }
    false
}

/// Resolves the value of an argument.
pub fn resolve_value(value: &Value, declared: &Vec<Vec<u8>>, supplied: &Bindings) -> (r: Result<
    Literal,
    ResolveError,
>)
    ensures
        match value_resolved(value@, name_views(declared@), supplied@) {
            Ok(l) => r is Ok && r.unwrap()@ == l,
            Err(e) => r is Err && r.unwrap_err() == e,
        },
{
    match value {
        Value::Given(l) => Ok(l.copy()),
        Value::Reference(name) => {
            if !declares(declared, name.as_slice()) {
                Err(ResolveError::UndeclaredVariable)
            } else {
                match supplied.get(name.as_slice()) {
                    Some(l) => Ok(l.copy()),
                    None => Err(ResolveError::UnsuppliedVariable),
                }
            }
        },
    }
}

/// Resolves a field into a selection.
pub fn resolve_field(field: &Field, declared: &Vec<Vec<u8>>, supplied: &Bindings) -> (r: Result<
    Selection,
    ResolveError,
>)
    ensures
        match field_resolved(field@, name_views(declared@), supplied@) {
            Ok(s) => r is Ok && r.unwrap()@ == s,
            Err(e) => r is Err && r.unwrap_err() == e,
        },
{
    let ghost args = argument_views(field.args@);
    let ghost names = name_views(declared@);
    let mut given = Bindings::new();
    let mut i: usize = 0;
    while i < field.args.len()
        invariant
            i <= field.args.len(),
            args == argument_views(field.args@),
            names == name_views(declared@),
            args_resolved(args, i as int, names, supplied@, given@) == args_resolved(
                args,
                0,
                names,
                supplied@,
                Map::empty(),
            ),
        decreases field.args.len() - i,
    {
        let arg = &field.args[i];
        assert(args[i as int] == arg@);
        if given.has(arg.name.as_slice()) {
            return Err(ResolveError::DuplicateArgument);
        }
        match resolve_value(&arg.value, declared, supplied) {
            Ok(l) => {
                given.set(copy_bytes(arg.name.as_slice()), l);
            },
            Err(e) => {
                return Err(e);
            },
        }
        i += 1;
    }
    Ok(Selection { field: copy_bytes(field.name.as_slice()), args: given })
}

/// Resolves the fields of an operation into selections, in order.
pub fn resolve_operation(op: &Operation, supplied: &Bindings) -> (r: Result<
    Vec<Selection>,
    ResolveError,
>)
    ensures
        match operation_resolved(op@, supplied@) {
            Ok(s) => r is Ok && selection_views(r.unwrap()@) == s,
            Err(e) => r is Err && r.unwrap_err() == e,
        },
{
    let ghost fields = field_views(op.fields@);
    let ghost names = name_views(op.declared@);
    let mut out: Vec<Selection> = Vec::new();
    let mut i: usize = 0;
    assert(selection_views(out@) =~= Seq::empty());
    while i < op.fields.len()
        invariant
            i <= op.fields.len(),
            fields == field_views(op.fields@),
            names == name_views(op.declared@),
            fields_resolved(fields, i as int, names, supplied@, selection_views(out@))
                == fields_resolved(fields, 0, names, supplied@, Seq::empty()),
        decreases op.fields.len() - i,
    {
        assert(fields[i as int] == op.fields@[i as int]@);
        match resolve_field(&op.fields[i], &op.declared, supplied) {
            Ok(s) => {
                let ghost before = selection_views(out@);
                let ghost added = s@;
                out.push(s);
                assert(selection_views(out@) =~= before.push(added));
            },
            Err(e) => {
                return Err(e);
            },
        }
        i += 1;
    }
    Ok(out)
}

/// Resolves a query text and a variables payload into the selections of
/// the query: one for each top-level field, with the value of each of its
/// arguments.
pub fn resolve(query: &str, variables: &str) -> (r: Result<Vec<Selection>, ResolveError>)
    ensures
        match resolved(query.spec_bytes(), variables.spec_bytes()) {
            Ok(s) => r is Ok && selection_views(r.unwrap()@) == s,
            Err(e) => r is Err && r.unwrap_err() == e,
        },
{
    let lq = match tokenize(query.as_bytes(), true) {
        Ok(l) => l,
        Err(_) => {
            return Err(ResolveError::MalformedQuery);
        },
    };
    assert(token_views(lq@) =~= tokens_of(lexeme_views(lq@)));
    let op = match parse_operation(&lq) {
        Some(op) => op,
        None => {
            return Err(ResolveError::MalformedQuery);
        },
    };
    let lv = match tokenize(variables.as_bytes(), false) {
        Ok(l) => l,
        Err(_) => {
            return Err(ResolveError::MalformedVariables);
        },
    };
    assert(token_views(lv@) =~= tokens_of(lexeme_views(lv@)));
    let supplied = match parse_payload(&lv) {
        Some(s) => s,
        None => {
            return Err(ResolveError::MalformedVariables);
        },
    };
    resolve_operation(&op, &supplied)
}

} // verus!
