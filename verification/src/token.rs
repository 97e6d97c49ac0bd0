//! The tokens shared by the rule language, the query language and the
//! variables payload, and the scanner that cuts a text into them.

use crate::bytes::copy_range;
use crate::integer::{from_u64, int_value, negated, product, sum};
use num_bigint::BigInt;
use vstd::prelude::*;

verus! {

// The bytes that the scanner tells apart.

/// Space
pub const SPACE: u8 = 0x20;

/// Tab
pub const TAB: u8 = 0x09;

/// Line feed
pub const LINE_FEED: u8 = 0x0a;

/// Carriage return
pub const CARRIAGE_RETURN: u8 = 0x0d;

/// Backspace
pub const BACKSPACE: u8 = 0x08;

/// Form feed
pub const FORM_FEED: u8 = 0x0c;

/// `"`
pub const QUOTE: u8 = 0x22;

/// `\`
pub const BACKSLASH: u8 = 0x5c;

/// `/`
pub const SLASH: u8 = 0x2f;

/// `$`
pub const DOLLAR: u8 = 0x24;

/// `-`
pub const MINUS: u8 = 0x2d;

/// `,`
pub const COMMA: u8 = 0x2c;

/// `_`
pub const UNDERSCORE: u8 = 0x5f;

/// `0`
pub const DIGIT_0: u8 = 0x30;

/// `9`
pub const DIGIT_9: u8 = 0x39;

/// `A`
pub const UPPER_A: u8 = 0x41;

/// `Z`
pub const UPPER_Z: u8 = 0x5a;

/// `a`
pub const LOWER_A: u8 = 0x61;

/// `z`
pub const LOWER_Z: u8 = 0x7a;

/// `b`
pub const LOWER_B: u8 = 0x62;

/// `f`
pub const LOWER_F: u8 = 0x66;

/// `n`
pub const LOWER_N: u8 = 0x6e;

/// `r`
pub const LOWER_R: u8 = 0x72;

/// `t`
pub const LOWER_T: u8 = 0x74;

/// `{`
pub const OPEN_BRACE: u8 = 0x7b;

/// `}`
pub const CLOSE_BRACE: u8 = 0x7d;

/// `(`
pub const OPEN_PAREN: u8 = 0x28;

/// `)`
pub const CLOSE_PAREN: u8 = 0x29;

/// `[`
pub const OPEN_BRACKET: u8 = 0x5b;

/// `]`
pub const CLOSE_BRACKET: u8 = 0x5d;

/// `:`
pub const COLON: u8 = 0x3a;

/// `;`
pub const SEMICOLON: u8 = 0x3b;

/// `!`
pub const BANG: u8 = 0x21;

/// `@`
pub const AT: u8 = 0x40;

/// `.`
pub const DOT: u8 = 0x2e;

/// `=`
pub const EQUALS: u8 = 0x3d;

/// `>`
pub const GREATER: u8 = 0x3e;

/// `<`
pub const LESS: u8 = 0x3c;

/// `&`
pub const AMPERSAND: u8 = 0x26;

/// `+`
pub const PLUS: u8 = 0x2b;

/// `*`
pub const STAR: u8 = 0x2a;

/// Punctuation and operators.
#[derive(Clone, Copy, Debug, PartialEq, Eq, Structural)]
pub enum Mark {
    /// `{`
    OpenBrace,
    /// `}`
    CloseBrace,
    /// `(`
    OpenParen,
    /// `)`
    CloseParen,
    /// `[`
    OpenBracket,
    /// `]`
    CloseBracket,
    /// `:`
    Colon,
    /// `;`
    Semicolon,
    /// `,`
    Comma,
    /// `!`
    Bang,
    /// `@`
    At,
    /// `.`
    Dot,
    /// `=`
    Assign,
    /// `=>`
    Arrow,
    /// `==`
    Equal,
    /// `!=`
    NotEqual,
    /// `>`
    Greater,
    /// `>=`
    GreaterEqual,
    /// `<`
    Less,
    /// `<=`
    LessEqual,
    /// `&&`
    And,
    /// `+`
    Plus,
    /// `*`
    Star,
}

/// A token.
#[derive(Debug, PartialEq, Eq)]
pub enum Token {
    /// A name: a letter or `_`, then letters, digits and `_`.
    Name(Vec<u8>),
    /// `$` and a name; the name is kept.
    Variable(Vec<u8>),
    /// A decimal integer, with `-` before it where it is negative.
    Integer(BigInt),
    /// A string in double quotes, with its escapes resolved.
    Text(Vec<u8>),
    /// Punctuation or an operator.
    Mark(Mark),
}

/// The mathematical value of a [`Token`].
pub enum TokenView {
    Name(Seq<u8>),
    Variable(Seq<u8>),
    Integer(int),
    Text(Seq<u8>),
    Mark(Mark),
}

impl View for Token {
    type V = TokenView;

    open spec fn view(&self) -> TokenView {
        match self {
            Token::Name(n) => TokenView::Name(n@),
            Token::Variable(n) => TokenView::Variable(n@),
            Token::Integer(n) => TokenView::Integer(int_value(*n)),
            Token::Text(t) => TokenView::Text(t@),
            Token::Mark(m) => TokenView::Mark(*m),
        }
    }
}

/// A token and the offset of its first byte in the text.
#[derive(Debug, PartialEq, Eq)]
pub struct Lexeme {
    pub token: Token,
    pub at: usize,
}

/// The mathematical value of a [`Lexeme`].
pub struct LexemeView {
    pub token: TokenView,
    pub at: int,
}

impl View for Lexeme {
    type V = LexemeView;

    open spec fn view(&self) -> LexemeView {
        LexemeView { token: self.token@, at: self.at as int }
    }
}

/// The views of a list of lexemes.
pub open spec fn lexeme_views(l: Seq<Lexeme>) -> Seq<LexemeView> {
    l.map_values(|x: Lexeme| x@)
}

/// Space, tab, line feed and carriage return separate tokens. Where `commas`
/// is set, so does the comma.
pub open spec fn is_blank(b: u8, commas: bool) -> bool {
    b == SPACE || b == TAB || b == LINE_FEED || b == CARRIAGE_RETURN || (commas && b == COMMA)
}

/// `A` to `Z`, `a` to `z` and `_`.
pub open spec fn is_letter(b: u8) -> bool {
    (UPPER_A <= b <= UPPER_Z) || (LOWER_A <= b <= LOWER_Z) || b == UNDERSCORE
}

/// `0` to `9`.
pub open spec fn is_digit(b: u8) -> bool {
    DIGIT_0 <= b <= DIGIT_9
}

/// The end of the run of letters and digits that starts at `pos`.
pub open spec fn name_end(s: Seq<u8>, pos: int) -> int
    decreases s.len() - pos,
{
    if 0 <= pos < s.len() && (is_letter(s[pos]) || is_digit(s[pos])) {
        name_end(s, pos + 1)
    } else {
        pos
    }
}

/// The end of the run of digits that starts at `pos`.
pub open spec fn digits_end(s: Seq<u8>, pos: int) -> int
    decreases s.len() - pos,
{
    if 0 <= pos < s.len() && is_digit(s[pos]) {
        digits_end(s, pos + 1)
    } else {
        pos
    }
}

/// The number that a string of decimal digits writes.
pub open spec fn decimal(digits: Seq<u8>) -> int
    decreases digits.len(),
{
    if digits.len() == 0 {
        0
    } else {
        decimal(digits.drop_last()) * 10 + (digits.last() - DIGIT_0)
    }
}

/// The byte that stands behind a backslash for `b`, where `\b` is an escape.
pub open spec fn escaped(b: u8) -> Option<u8> {
    if b == QUOTE || b == BACKSLASH || b == SLASH {
        Some(b)
    } else if b == LOWER_N {
        Some(LINE_FEED)
    } else if b == LOWER_T {
        Some(TAB)
    } else if b == LOWER_R {
        Some(CARRIAGE_RETURN)
    } else if b == LOWER_B {
        Some(BACKSPACE)
    } else if b == LOWER_F {
        Some(FORM_FEED)
    } else {
        None
    }
}

/// Reads the rest of a string whose opening quote has been passed: the
/// string's bytes after `acc`, and the position behind the closing quote.
/// There is no result where the text ends before the quote or a backslash
/// stands before a byte that is no escape.
pub open spec fn text_from(s: Seq<u8>, pos: int, acc: Seq<u8>) -> Option<(Seq<u8>, int)>
    decreases s.len() - pos,
{
    if pos < 0 || pos >= s.len() {
        None
    } else if s[pos] == QUOTE {
        Some((acc, pos + 1))
    } else if s[pos] == BACKSLASH {
        if pos + 1 < s.len() && escaped(s[pos + 1]) is Some {
            text_from(s, pos + 2, acc.push(escaped(s[pos + 1]).unwrap()))
        } else {
            None
        }
    } else {
        text_from(s, pos + 1, acc.push(s[pos]))
    }
}

/// The mark of two bytes that starts with `a` and `b`, if there is one.
pub open spec fn double_mark(a: u8, b: u8) -> Option<Mark> {
    if a == EQUALS && b == GREATER {
        Some(Mark::Arrow)
    } else if a == EQUALS && b == EQUALS {
        Some(Mark::Equal)
    } else if a == BANG && b == EQUALS {
        Some(Mark::NotEqual)
    } else if a == GREATER && b == EQUALS {
        Some(Mark::GreaterEqual)
    } else if a == LESS && b == EQUALS {
        Some(Mark::LessEqual)
    } else if a == AMPERSAND && b == AMPERSAND {
        Some(Mark::And)
    } else {
        None
    }
}

/// The mark that the single byte `a` writes, if it writes one.
pub open spec fn single_mark(a: u8) -> Option<Mark> {
    if a == OPEN_BRACE {
        Some(Mark::OpenBrace)
    } else if a == CLOSE_BRACE {
        Some(Mark::CloseBrace)
    } else if a == OPEN_PAREN {
        Some(Mark::OpenParen)
    } else if a == CLOSE_PAREN {
        Some(Mark::CloseParen)
    } else if a == OPEN_BRACKET {
        Some(Mark::OpenBracket)
    } else if a == CLOSE_BRACKET {
        Some(Mark::CloseBracket)
    } else if a == COLON {
        Some(Mark::Colon)
    } else if a == SEMICOLON {
        Some(Mark::Semicolon)
    } else if a == COMMA {
        Some(Mark::Comma)
    } else if a == BANG {
        Some(Mark::Bang)
    } else if a == AT {
        Some(Mark::At)
    } else if a == DOT {
        Some(Mark::Dot)
    } else if a == EQUALS {
        Some(Mark::Assign)
    } else if a == GREATER {
        Some(Mark::Greater)
    } else if a == LESS {
        Some(Mark::Less)
    } else if a == PLUS {
        Some(Mark::Plus)
    } else if a == STAR {
        Some(Mark::Star)
    } else {
        None
    }
}

/// The mark that starts at `pos`, the longest that fits, and where it ends.
pub open spec fn mark_at(s: Seq<u8>, pos: int) -> Option<(Mark, int)>
    recommends
        0 <= pos < s.len(),
{
    if pos + 1 < s.len() && double_mark(s[pos], s[pos + 1]) is Some {
        Some((double_mark(s[pos], s[pos + 1]).unwrap(), pos + 2))
    } else if single_mark(s[pos]) is Some {
        Some((single_mark(s[pos]).unwrap(), pos + 1))
    } else {
        None
    }
}

/// The token that starts at `pos` and the position behind it, if a token
/// starts there.
pub open spec fn token_at(s: Seq<u8>, pos: int) -> Option<(TokenView, int)>
    recommends
        0 <= pos < s.len(),
{
    let b = s[pos];
    if is_letter(b) {
        let end = name_end(s, pos + 1);
        Some((TokenView::Name(s.subrange(pos, end)), end))
    } else if b == DOLLAR {
        if pos + 1 < s.len() && is_letter(s[pos + 1]) {
            let end = name_end(s, pos + 2);
            Some((TokenView::Variable(s.subrange(pos + 1, end)), end))
        } else {
            None
        }
    } else if is_digit(b) {
        let end = digits_end(s, pos + 1);
        Some((TokenView::Integer(decimal(s.subrange(pos, end))), end))
    } else if b == MINUS {
        if pos + 1 < s.len() && is_digit(s[pos + 1]) {
            let end = digits_end(s, pos + 2);
            Some((TokenView::Integer(-decimal(s.subrange(pos + 1, end))), end))
        } else {
            None
        }
    } else if b == QUOTE {
        match text_from(s, pos + 1, Seq::empty()) {
            Some((text, end)) => Some((TokenView::Text(text), end)),
            None => None,
        }
    } else {
        match mark_at(s, pos) {
            Some((m, end)) => Some((TokenView::Mark(m), end)),
            None => None,
        }
    }
}

/// Cuts the text from `pos` on into tokens, after those of `acc`. The error
/// is the offset of the first byte at which no token starts.
pub open spec fn lex_from(s: Seq<u8>, pos: int, commas: bool, acc: Seq<LexemeView>) -> Result<
    Seq<LexemeView>,
    int,
>
    decreases s.len() - pos,
{
    if pos < 0 || pos >= s.len() {
        Ok(acc)
    } else if is_blank(s[pos], commas) {
        lex_from(s, pos + 1, commas, acc)
    } else {
        match token_at(s, pos) {
            Some((token, end)) => if pos < end <= s.len() {
                lex_from(s, end, commas, acc.push(LexemeView { token, at: pos }))
            } else {
                Err(pos)
            },
            None => Err(pos),
        }
    }
}

/// The tokens of a text, each with its offset. Blanks separate tokens and are
/// dropped; with `commas` set, commas are blanks too.
pub open spec fn lexemes(s: Seq<u8>, commas: bool) -> Result<Seq<LexemeView>, int> {
    lex_from(s, 0, commas, Seq::empty())
}

fn blank(b: u8, commas: bool) -> (r: bool)
    ensures
        r == is_blank(b, commas),
{
    b == SPACE || b == TAB || b == LINE_FEED || b == CARRIAGE_RETURN || (commas && b == COMMA)
}

fn letter(b: u8) -> (r: bool)
    ensures
        r == is_letter(b),
{
    (UPPER_A <= b && b <= UPPER_Z) || (LOWER_A <= b && b <= LOWER_Z) || b == UNDERSCORE
}

fn digit(b: u8) -> (r: bool)
    ensures
        r == is_digit(b),
{
    DIGIT_0 <= b && b <= DIGIT_9
}

fn scan_name(s: &[u8], pos: usize) -> (end: usize)
    requires
        pos <= s.len(),
    ensures
        end == name_end(s@, pos as int),
        pos <= end <= s.len(),
{
    let mut i: usize = pos;
    while i < s.len() && (letter(s[i]) || digit(s[i]))
        invariant
            pos <= i <= s.len(),
            name_end(s@, i as int) == name_end(s@, pos as int),
        decreases s.len() - i,
    {
        i += 1;
    }
    i
}

fn scan_digits(s: &[u8], pos: usize) -> (end: usize)
    requires
        pos <= s.len(),
    ensures
        end == digits_end(s@, pos as int),
        pos <= end <= s.len(),
{
    let mut i: usize = pos;
    while i < s.len() && digit(s[i])
        invariant
            pos <= i <= s.len(),
            digits_end(s@, i as int) == digits_end(s@, pos as int),
        decreases s.len() - i,
    {
        i += 1;
    }
    i
}

/// The number written by the digits from `from` up to `to`.
fn read_decimal(s: &[u8], from: usize, to: usize) -> (r: BigInt)
    requires
        from <= to <= s.len(),
        forall|j: int| from <= j < to ==> is_digit(s@[j]),
    ensures
        int_value(r) == decimal(s@.subrange(from as int, to as int)),
{
    let ten = from_u64(10);
    let mut acc = from_u64(0);
    let mut i: usize = from;
    assert(s@.subrange(from as int, from as int) =~= Seq::<u8>::empty());
    while i < to
        invariant
            from <= i <= to <= s.len(),
            forall|j: int| from <= j < to ==> is_digit(s@[j]),
            int_value(ten) == 10,
            int_value(acc) == decimal(s@.subrange(from as int, i as int)),
        decreases to - i,
    {
        let d = from_u64((s[i] - DIGIT_0) as u64);
        let scaled = product(&acc, &ten);
        acc = sum(&scaled, &d);
        proof {
            let longer = s@.subrange(from as int, i + 1);
            assert(longer.drop_last() =~= s@.subrange(from as int, i as int));
            assert(longer.last() == s@[i as int]);
        }
        i += 1;
    }
    acc
}

proof fn lemma_digits_run(s: Seq<u8>, pos: int, j: int)
    requires
        0 <= pos <= j < digits_end(s, pos),
    ensures
        is_digit(s[j]),
        j < s.len(),
    decreases s.len() - pos,
{
    if 0 <= pos < s.len() && is_digit(s[pos]) {
        if j > pos {
            lemma_digits_run(s, pos + 1, j);
        }
    }
}

fn unescape(b: u8) -> (r: Option<u8>)
    ensures
        r == escaped(b),
{
    if b == QUOTE || b == BACKSLASH || b == SLASH {
        Some(b)
    } else if b == LOWER_N {
        Some(LINE_FEED)
    } else if b == LOWER_T {
        Some(TAB)
    } else if b == LOWER_R {
        Some(CARRIAGE_RETURN)
    } else if b == LOWER_B {
        Some(BACKSPACE)
    } else if b == LOWER_F {
        Some(FORM_FEED)
    } else {
        None
    }
}

fn scan_text(s: &[u8], pos: usize) -> (r: Option<(Vec<u8>, usize)>)
    requires
        pos <= s.len(),
    ensures
        match text_from(s@, pos as int, Seq::empty()) {
            Some((text, end)) => r is Some && r.unwrap().0@ == text && r.unwrap().1 == end && pos
                < end <= s.len(),
            None => r is None,
        },
{
    let mut out: Vec<u8> = Vec::new();
    let mut i: usize = pos;
    while i < s.len()
        invariant
            pos <= i <= s.len(),
            text_from(s@, i as int, out@) == text_from(s@, pos as int, Seq::empty()),
        decreases s.len() - i,
    {
        let b = s[i];
        if b == QUOTE {
            return Some((out, i + 1));
        } else if b == BACKSLASH {
            if i + 1 < s.len() {
                match unescape(s[i + 1]) {
                    Some(c) => {
                        out.push(c);
                        i += 2;
                    },
                    None => {
                        return None;
                    },
                }
            } else {
                return None;
            }
        } else {
            out.push(b);
            i += 1;
        }
    }
    None
}

fn two_marks(a: u8, b: u8) -> (r: Option<Mark>)
    ensures
        r == double_mark(a, b),
{
    if a == EQUALS && b == GREATER {
        Some(Mark::Arrow)
    } else if a == EQUALS && b == EQUALS {
        Some(Mark::Equal)
    } else if a == BANG && b == EQUALS {
        Some(Mark::NotEqual)
    } else if a == GREATER && b == EQUALS {
        Some(Mark::GreaterEqual)
    } else if a == LESS && b == EQUALS {
        Some(Mark::LessEqual)
    } else if a == AMPERSAND && b == AMPERSAND {
        Some(Mark::And)
    } else {
        None
    }
}

fn one_mark(a: u8) -> (r: Option<Mark>)
    ensures
        r == single_mark(a),
{
    if a == OPEN_BRACE {
        Some(Mark::OpenBrace)
    } else if a == CLOSE_BRACE {
        Some(Mark::CloseBrace)
    } else if a == OPEN_PAREN {
        Some(Mark::OpenParen)
    } else if a == CLOSE_PAREN {
        Some(Mark::CloseParen)
    } else if a == OPEN_BRACKET {
        Some(Mark::OpenBracket)
    } else if a == CLOSE_BRACKET {
        Some(Mark::CloseBracket)
    } else if a == COLON {
        Some(Mark::Colon)
    } else if a == SEMICOLON {
        Some(Mark::Semicolon)
    } else if a == COMMA {
        Some(Mark::Comma)
    } else if a == BANG {
        Some(Mark::Bang)
    } else if a == AT {
        Some(Mark::At)
    } else if a == DOT {
        Some(Mark::Dot)
    } else if a == EQUALS {
        Some(Mark::Assign)
    } else if a == GREATER {
        Some(Mark::Greater)
    } else if a == LESS {
        Some(Mark::Less)
    } else if a == PLUS {
        Some(Mark::Plus)
    } else if a == STAR {
        Some(Mark::Star)
    } else {
        None
    }
}

fn scan_mark(s: &[u8], pos: usize) -> (r: Option<(Mark, usize)>)
    requires
        pos < s.len(),
    ensures
        r == match mark_at(s@, pos as int) {
            Some((m, end)) => Some((m, end as usize)),
            None => None,
        },
        r is Some ==> pos < r.unwrap().1 <= s.len(),
{
    if pos + 1 < s.len() {
        match two_marks(s[pos], s[pos + 1]) {
            Some(m) => {
                return Some((m, pos + 2));
            },
            None => {},
        }
    }
    match one_mark(s[pos]) {
        Some(m) => Some((m, pos + 1)),
        None => None,
    }
}

/// Reads the token that starts at `pos`.
fn scan_token(s: &[u8], pos: usize) -> (r: Option<(Token, usize)>)
    requires
        pos < s.len(),
    ensures
        match token_at(s@, pos as int) {
            Some((token, end)) => r is Some && r.unwrap().0@ == token && r.unwrap().1 == end && pos
                < end <= s.len(),
            None => r is None,
        },
{
    let b = s[pos];
    if letter(b) {
        let end = scan_name(s, pos + 1);
        Some((Token::Name(copy_range(s, pos, end)), end))
    } else if b == DOLLAR {
        if pos + 1 < s.len() && letter(s[pos + 1]) {
            let end = scan_name(s, pos + 2);
            Some((Token::Variable(copy_range(s, pos + 1, end)), end))
        } else {
            None
        }
    } else if digit(b) {
        let end = scan_digits(s, pos + 1);
        proof {
            assert forall|j: int| pos <= j < end implies is_digit(s@[j]) by {
                if j > pos {
                    lemma_digits_run(s@, pos + 1, j);
                }
            }
        }
        Some((Token::Integer(read_decimal(s, pos, end)), end))
    } else if b == MINUS {
        if pos + 1 < s.len() && digit(s[pos + 1]) {
            let end = scan_digits(s, pos + 2);
            proof {
                assert forall|j: int| pos + 1 <= j < end implies is_digit(s@[j]) by {
                    if j > pos + 1 {
                        lemma_digits_run(s@, pos + 2, j);
                    }
                }
            }
            let magnitude = read_decimal(s, pos + 1, end);
            Some((Token::Integer(negated(&magnitude)), end))
        } else {
            None
        }
    } else if b == QUOTE {
        match scan_text(s, pos + 1) {
            Some((text, end)) => Some((Token::Text(text), end)),
            None => None,
        }
    } else {
        match scan_mark(s, pos) {
            Some((m, end)) => Some((Token::Mark(m), end)),
            None => None,
        }
    }
}

/// Cuts a text into tokens. With `commas` set, commas count as blanks and no
/// comma token is made. On failure the result is the offset of the first
/// byte at which no token starts.
pub fn tokenize(s: &[u8], commas: bool) -> (r: Result<Vec<Lexeme>, usize>)
    ensures
        match lexemes(s@, commas) {
            Ok(l) => r is Ok && lexeme_views(r.unwrap()@) == l,
            Err(at) => r is Err && r.unwrap_err() == at,
        },
        r is Ok ==> forall|i: int| 0 <= i < r.unwrap()@.len() ==> r.unwrap()@[i].at < s.len(),
{
    let mut out: Vec<Lexeme> = Vec::new();
    let mut pos: usize = 0;
    assert(lexeme_views(out@) =~= Seq::empty());
    while pos < s.len()
        invariant
            pos <= s.len(),
            lex_from(s@, pos as int, commas, lexeme_views(out@)) == lexemes(s@, commas),
            forall|i: int| 0 <= i < out@.len() ==> out@[i].at < s.len(),
        decreases s.len() - pos,
    {
        if blank(s[pos], commas) {
            pos += 1;
        } else {
            match scan_token(s, pos) {
                Some((token, end)) => {
                    let ghost before = lexeme_views(out@);
                    let lexeme = Lexeme { token, at: pos };
                    out.push(lexeme);
                    assert(lexeme_views(out@) =~= before.push(lexeme@));
                    pos = end;
                },
                None => {
                    return Err(pos);
                },
            }
        }
    }
    Ok(out)
}

} // verus!
