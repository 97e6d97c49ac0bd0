//! The parser of the rule language: from a text to its rules, in the order
//! in which they are declared, or to the first fault found.
//!
//! A rule text is a list of statements:
//!
//! ```text
//! statement := "query" "{" pattern "}" [ "when" guard ] "=>" sum ";"
//!            | "default" [ "when" guard ] "=>" sum ";"
//! pattern   := name [ "(" arg { "," arg } ")" ]
//! arg       := name ":" ( literal | variable )
//! ```

use crate::bytes::copy_bytes;
use crate::expr::GuardView;
use crate::grammar::{
    guard_at, is_mark, is_word, literal_of, mark_is, parse_guard, parse_sum, read_literal,
    spelling, sum_at, token_views, tokens_of, word_is, Keyword,
};
use crate::index::{all_valid, in_order};
use crate::rule::{
    arg_views, distinct_names, expr_is_closed, guard_is_closed, names_distinct, pattern_args,
    rule_valid, rule_views, ArgPattern, ArgPatternView, Constraint, ConstraintView, FieldPattern,
    FieldPatternView, Rule, RuleView,
};
use crate::token::{lexeme_views, lexemes, tokenize, Lexeme, LexemeView, Mark, Token, TokenView};
use vstd::prelude::*;
use vstd::string::StringSliceAdditionalSpecFns;

verus! {

/// What is wrong with a rule text.
#[derive(Clone, Copy, Debug, PartialEq, Eq, Structural)]
pub enum ParseFault {
    /// The text does not follow the grammar.
    Syntax,
    /// A pattern names one argument twice.
    DuplicateArgument,
    /// A guard or a cost uses a variable that its rule's pattern does not
    /// bind.
    UnboundVariable,
}

/// What a fault is called in a message to the author of a rule text.
pub open spec fn fault_text(fault: ParseFault) -> &'static str {
    match fault {
        ParseFault::Syntax => "the text does not follow the grammar of the rule language",
        ParseFault::DuplicateArgument => "a pattern names one argument twice",
        ParseFault::UnboundVariable => "a guard or a cost uses a variable that its pattern does not bind",
    }
}

impl ParseFault {
    /// A sentence that says what is wrong.
    pub fn message(&self) -> (r: &'static str)
        ensures
            r@ == fault_text(*self)@,
    {
        match self {
            ParseFault::Syntax => "the text does not follow the grammar of the rule language",
            ParseFault::DuplicateArgument => "a pattern names one argument twice",
            ParseFault::UnboundVariable => "a guard or a cost uses a variable that its pattern does not bind",
        }
    }
}

/// The first fault of a rule text, and where it is.
#[derive(Clone, Copy, Debug, PartialEq, Eq, Structural)]
pub struct ParseError {
    pub fault: ParseFault,
    /// The offset of a byte at which no token starts, or else the offset of
    /// the first token of the faulty statement.
    pub offset: usize,
}

/// An argument pattern at `i`: a name, a colon, and a literal or a variable.
pub open spec fn arg_at(t: Seq<TokenView>, i: int) -> Option<(ArgPatternView, int)> {
    if 0 <= i && i + 2 < t.len() && is_mark(t, i + 1, Mark::Colon) {
        match (t[i], t[i + 2]) {
            (TokenView::Name(name), TokenView::Variable(v)) => Some(
                (ArgPatternView { name, constraint: ConstraintView::Bound(v) }, i + 3),
            ),
            (TokenView::Name(name), tok) => match literal_of(tok) {
                Some(l) => Some(
                    (ArgPatternView { name, constraint: ConstraintView::Exact(l) }, i + 3),
                ),
                None => None,
            },
            _ => None,
        }
    } else {
        None
    }
}

/// The rest of an argument list, after the patterns of `acc`, up to and
/// with the closing parenthesis.
pub open spec fn args_from(t: Seq<TokenView>, i: int, acc: Seq<ArgPatternView>) -> Option<
    (Seq<ArgPatternView>, int),
>
    decreases t.len() - i,
{
    match arg_at(t, i) {
        Some((a, j)) => if i < j && is_mark(t, j, Mark::Comma) {
            args_from(t, j + 1, acc.push(a))
        } else if is_mark(t, j, Mark::CloseParen) {
            Some((acc.push(a), j + 1))
        } else {
            None
        },
        None => None,
    }
}

/// A field pattern at `i`: a name and, in parentheses, its argument
/// patterns, if it has any.
pub open spec fn pattern_at(t: Seq<TokenView>, i: int) -> Option<(FieldPatternView, int)> {
    if 0 <= i < t.len() {
        match t[i] {
            TokenView::Name(field) => if is_mark(t, i + 1, Mark::OpenParen) {
                match args_from(t, i + 2, Seq::empty()) {
                    Some((args, j)) => Some((FieldPatternView { field, args }, j)),
                    None => None,
                }
            } else {
                Some((FieldPatternView { field, args: Seq::empty() }, i + 1))
            },
            _ => None,
        }
    } else {
        None
    }
}

/// The optional guard at `i`, behind the word `when`.
pub open spec fn when_at(t: Seq<TokenView>, i: int) -> Option<(Option<GuardView>, int)> {
    if is_word(t, i, spelling(Keyword::When)) {
        match guard_at(t, i + 1) {
            Some((g, j)) => Some((Some(g), j)),
            None => None,
        }
    } else {
        Some((None, i))
    }
}

/// What follows the pattern in a statement: the optional guard, the arrow,
/// the cost and the semicolon. The rule read has order 0.
pub open spec fn body_at(t: Seq<TokenView>, i: int, pattern: Option<FieldPatternView>) -> Option<
    (RuleView, int),
> {
    match when_at(t, i) {
        Some((guard, j)) => if is_mark(t, j, Mark::Arrow) {
            match sum_at(t, j + 1) {
                Some((cost, k)) => if is_mark(t, k, Mark::Semicolon) {
                    Some((RuleView { pattern, guard, cost, order: 0 }, k + 1))
                } else {
                    None
                },
                None => None,
            }
        } else {
            None
        },
        None => None,
    }
}

/// A statement at `i`: a field rule or a default rule.
pub open spec fn statement_at(t: Seq<TokenView>, i: int) -> Option<(RuleView, int)> {
    if is_word(t, i, spelling(Keyword::Query)) {
        if is_mark(t, i + 1, Mark::OpenBrace) {
            match pattern_at(t, i + 2) {
                Some((p, j)) => if is_mark(t, j, Mark::CloseBrace) {
                    body_at(t, j + 1, Some(p))
                } else {
                    None
                },
                None => None,
            }
        } else {
            None
        }
    } else if is_word(t, i, spelling(Keyword::Default)) {
        body_at(t, i + 1, None)
    } else {
        None
    }
}

/// What is wrong with a rule that follows the grammar, if anything.
pub open spec fn fault_of(r: RuleView) -> Option<ParseFault> {
    if !distinct_names(pattern_args(r)) {
        Some(ParseFault::DuplicateArgument)
    } else if !rule_valid(r) {
        Some(ParseFault::UnboundVariable)
    } else {
        None
    }
}

/// The error that the statement starting at lexeme `i` raises.
pub open spec fn error_at(l: Seq<LexemeView>, i: int, fault: ParseFault) -> ParseError {
    ParseError { fault, offset: l[i].at as usize }
}

/// Reads the statement at `i` as the rule of order `order`, and tests the
/// rule: the rule and the position behind it, or what is wrong.
#[verifier::opaque]
pub open spec fn step_at(t: Seq<TokenView>, i: int, order: int) -> Result<(RuleView, int), ParseFault> {
    match statement_at(t, i) {
        Some((r, j)) => {
            let rule = RuleView { order, ..r };
            if fault_of(rule) is Some {
                Err(fault_of(rule).unwrap())
            } else {
                Ok((rule, j))
            }
        },
        None => Err(ParseFault::Syntax),
    }
}

/// Reads the statements from lexeme `i` on, after the rules of `acc`. Each
/// rule gets its position as its order. Reading stops at the first
/// statement that does not follow the grammar or is faulty.
pub open spec fn statements_from(l: Seq<LexemeView>, i: int, acc: Seq<RuleView>) -> Result<
    Seq<RuleView>,
    ParseError,
>
    decreases l.len() - i,
{
    if i < 0 || i >= l.len() {
        Ok(acc)
    } else {
        match step_at(tokens_of(l), i, acc.len() as int) {
            Ok((rule, j)) => if i < j <= l.len() {
                statements_from(l, j, acc.push(rule))
            } else {
                Err(error_at(l, i, ParseFault::Syntax))
            },
            Err(fault) => Err(error_at(l, i, fault)),
        }
    }
}

/// The rules that a text declares, in order, or its first fault.
pub open spec fn parsed(s: Seq<u8>) -> Result<Seq<RuleView>, ParseError> {
    match lexemes(s, false) {
        Ok(l) => statements_from(l, 0, Seq::empty()),
        Err(at) => Err(ParseError { fault: ParseFault::Syntax, offset: at as usize }),
    }
}

/// Rules read from a text are well formed, and each records its position.
pub proof fn lemma_statements_valid(l: Seq<LexemeView>, i: int, acc: Seq<RuleView>)
    requires
        all_valid(acc),
        in_order(acc),
    ensures
        statements_from(l, i, acc) is Ok ==> all_valid(statements_from(l, i, acc).unwrap())
            && in_order(statements_from(l, i, acc).unwrap()),
    decreases l.len() - i,
{
    reveal(step_at);
    if 0 <= i < l.len() {
        match step_at(tokens_of(l), i, acc.len() as int) {
            Ok((rule, j)) => {
                if i < j <= l.len() {
                    lemma_statements_valid(l, j, acc.push(rule));
                }
            },
            Err(_) => {},
        }
    }
}

/// Reads an argument pattern at `i`.
pub fn parse_arg(lx: &Vec<Lexeme>, i: usize) -> (r: Option<(ArgPattern, usize)>)
    ensures
        match arg_at(token_views(lx@), i as int) {
            Some((a, j)) => r is Some && r.unwrap().0@ == a && r.unwrap().1 == j && j == i + 3
                && j <= lx@.len(),
            None => r is None,
        },
{
    if i >= lx.len() || lx.len() - i <= 2 {
        return None;
    }
    if !mark_is(lx, i + 1, Mark::Colon) {
        return None;
    }
    match &lx[i].token {
        Token::Name(n) => {
            let name = copy_bytes(n.as_slice());
            match &lx[i + 2].token {
                Token::Variable(v) => Some(
                    (
                        ArgPattern { name, constraint: Constraint::Bound(copy_bytes(v.as_slice())) },
                        i + 3,
                    ),
                ),
                tok => match read_literal(tok) {
                    Some(l) => Some((ArgPattern { name, constraint: Constraint::Exact(l) }, i + 3)),
                    None => None,
                },
            }
        },
        _ => None,
    }
}

/// Reads an argument list at `i`, behind its opening parenthesis.
pub fn parse_args(lx: &Vec<Lexeme>, i: usize) -> (r: Option<(Vec<ArgPattern>, usize)>)
    ensures
        match args_from(token_views(lx@), i as int, Seq::empty()) {
            Some((args, j)) => r is Some && arg_views(r.unwrap().0@) == args && r.unwrap().1 == j
                && i < j <= lx@.len(),
            None => r is None,
        },
{
    let ghost t = token_views(lx@);
    let mut args: Vec<ArgPattern> = Vec::new();
    let mut at: usize = i;
    assert(arg_views(args@) =~= Seq::empty());
    loop
        invariant
            t == token_views(lx@),
            i <= at,
            args_from(t, at as int, arg_views(args@)) == args_from(t, i as int, Seq::empty()),
        decreases lx@.len() - at,
    {
        match parse_arg(lx, at) {
            None => {
                return None;
            },
            Some((a, j)) => {
                let ghost before = arg_views(args@);
                let ghost added = a@;
                args.push(a);
                assert(arg_views(args@) =~= before.push(added));
                if mark_is(lx, j, Mark::Comma) {
                    at = j + 1;
                } else if mark_is(lx, j, Mark::CloseParen) {
                    return Some((args, j + 1));
                } else {
                    return None;
                }
            },
        }
    }
}

/// Reads a field pattern at `i`.
pub fn parse_pattern(lx: &Vec<Lexeme>, i: usize) -> (r: Option<(FieldPattern, usize)>)
    ensures
        match pattern_at(token_views(lx@), i as int) {
            Some((p, j)) => r is Some && r.unwrap().0@ == p && r.unwrap().1 == j && i < j
                <= lx@.len(),
            None => r is None,
        },
{
    if i >= lx.len() {
        return None;
    }
    match &lx[i].token {
        Token::Name(n) => {
            let field = copy_bytes(n.as_slice());
            if mark_is(lx, i + 1, Mark::OpenParen) {
                match parse_args(lx, i + 2) {
                    Some((args, j)) => Some((FieldPattern { field, args }, j)),
                    None => None,
                }
            } else {
                let args: Vec<ArgPattern> = Vec::new();
                assert(arg_views(args@) =~= Seq::empty());
                Some((FieldPattern { field, args }, i + 1))
            }
        },
        _ => None,
    }
}

/// Reads what follows the pattern in a statement.
fn parse_body(lx: &Vec<Lexeme>, i: usize, pattern: Option<FieldPattern>, order: usize) -> (r:
    Option<(Rule, usize)>)
    requires
        i <= lx@.len(),
    ensures
        match body_at(
            token_views(lx@),
            i as int,
            match pattern {
                Some(p) => Some(p@),
                None => None,
            },
        ) {
            Some((rule, j)) => r is Some && r.unwrap().0@ == (RuleView {
                order: order as int,
                ..rule
            }) && r.unwrap().1 == j && i < j <= lx@.len(),
            None => r is None,
        },
{
    let (guard, j) = if word_is(lx, i, Keyword::When) {
        match parse_guard(lx, i + 1) {
            Some((g, j)) => (Some(g), j),
            None => {
                return None;
            },
        }
    } else {
        (None, i)
    };
    if !mark_is(lx, j, Mark::Arrow) {
        return None;
    }
    match parse_sum(lx, j + 1) {
        Some((cost, k)) => {
            if mark_is(lx, k, Mark::Semicolon) {
                Some((Rule { pattern, guard, cost, order }, k + 1))
            } else {
                None
            }
        },
        None => None,
    }
}

/// Reads a statement at `i` and gives the rule the order `order`.
pub fn parse_statement(lx: &Vec<Lexeme>, i: usize, order: usize) -> (r: Option<(Rule, usize)>)
    ensures
        match statement_at(token_views(lx@), i as int) {
            Some((rule, j)) => r is Some && r.unwrap().0@ == (RuleView {
                order: order as int,
                ..rule
            }) && r.unwrap().1 == j && i < j <= lx@.len(),
            None => r is None,
        },
{
    if word_is(lx, i, Keyword::Query) {
        if mark_is(lx, i + 1, Mark::OpenBrace) {
            match parse_pattern(lx, i + 2) {
                Some((p, j)) => {
                    if mark_is(lx, j, Mark::CloseBrace) {
                        parse_body(lx, j + 1, Some(p), order)
                    } else {
                        None
                    }
                },
                None => None,
            }
        } else {
            None
        }
    } else if word_is(lx, i, Keyword::Default) {
        parse_body(lx, i + 1, None, order)
    } else {
        None
    }
}

/// Finds what is wrong with a rule that follows the grammar.
pub fn check_rule(rule: &Rule) -> (r: Option<ParseFault>)
    ensures
        r == fault_of(rule@),
{
    let none: Vec<ArgPattern> = Vec::new();
    assert(arg_views(none@) =~= Seq::empty());
    let args = match &rule.pattern {
        Some(p) => &p.args,
        None => &none,
    };
    assert(arg_views(args@) == pattern_args(rule@));
    if !names_distinct(args) {
        return Some(ParseFault::DuplicateArgument);
    }
    if !expr_is_closed(&rule.cost, args) {
        return Some(ParseFault::UnboundVariable);
    }
    match &rule.guard {
        Some(g) => {
            if !guard_is_closed(g, args) {
                return Some(ParseFault::UnboundVariable);
            }
        },
        None => {},
    }
    None
}

/// Reads the statement at `i` as the rule of order `order` and tests it.
pub fn next_statement(lx: &Vec<Lexeme>, i: usize, order: usize) -> (r: Result<
    (Rule, usize),
    ParseFault,
>)
    ensures
        match step_at(token_views(lx@), i as int, order as int) {
            Ok((rule, j)) => r is Ok && r.unwrap().0@ == rule && r.unwrap().1 == j && i < j
                <= lx@.len(),
            Err(fault) => r is Err && r.unwrap_err() == fault,
        },
{
    reveal(step_at);
    match parse_statement(lx, i, order) {
        None => Err(ParseFault::Syntax),
        Some((rule, j)) => match check_rule(&rule) {
            Some(fault) => Err(fault),
            None => Ok((rule, j)),
        },
    }
}

/// Parses a rule text into its rules, in the order in which they are
/// declared. Fails with the first fault of the text; no rules are returned
/// then.
pub fn parse(text: &str) -> (r: Result<Vec<Rule>, ParseError>)
    ensures
        match parsed(text.spec_bytes()) {
            Ok(rules) => r is Ok && rule_views(r.unwrap()@) == rules,
            Err(e) => r is Err && r.unwrap_err() == e,
        },
        r is Ok ==> all_valid(rule_views(r.unwrap()@)) && in_order(rule_views(r.unwrap()@)),
{
    let s = text.as_bytes();
    let lx = match tokenize(s, false) {
        Ok(l) => l,
        Err(at) => {
            return Err(ParseError { fault: ParseFault::Syntax, offset: at });
        },
    };
    let ghost l = lexeme_views(lx@);
    assert(token_views(lx@) =~= tokens_of(l));
    let mut rules: Vec<Rule> = Vec::new();
    let mut i: usize = 0;
    assert(rule_views(rules@) =~= Seq::empty());
    proof {
        lemma_statements_valid(l, 0, Seq::empty());
    }
    while i < lx.len()
        invariant
            i <= lx.len(),
            l == lexeme_views(lx@),
            token_views(lx@) == tokens_of(l),
            parsed(text.spec_bytes()) == statements_from(l, 0, Seq::empty()),
            statements_from(l, i as int, rule_views(rules@)) == statements_from(l, 0, Seq::empty()),
        decreases lx.len() - i,
    {
        let offset = lx[i].at;
        assert(l[i as int].at == offset);
        match next_statement(&lx, i, rules.len()) {
            Err(fault) => {
                return Err(ParseError { fault, offset });
            },
            Ok((rule, j)) => {
                let ghost before = rule_views(rules@);
                let ghost added = rule@;
                rules.push(rule);
                assert(rule_views(rules@) =~= before.push(added));
                i = j;
            },
        }
    }
    Ok(rules)
}

} // verus!
