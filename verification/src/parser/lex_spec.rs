//! The lexical grammar of the C subset, stated over character sequences.
//!
//! A lexing position is the index into the input together with the line and
//! column it lies at. Each function below says what the lexer does from one
//! position: which characters it consumes, which token it produces and where
//! it stops, or which error it reports and where.
use vstd::prelude::*;
use super::ast::SourceLocation;
use super::token::{SpecToken, Token};

verus! {

/// A position in the input: character index, line and column (both from 1).
pub struct LexPos {
    pub pos: nat,
    pub line: nat,
    pub column: nat,
}

/// A lexing error: its message and where it is reported.
pub type SpecLexError = (Seq<char>, SourceLocation);

/// The position before the first character.
pub open spec fn start_pos() -> LexPos {
    LexPos { pos: 0, line: 1, column: 1 }
}

/// Positions that a lexer can reach: inside the input, with line and column
/// no larger than the characters consumed allow.
pub open spec fn pos_wf(input: Seq<char>, p: LexPos) -> bool {
    &&& p.pos <= input.len()
    &&& p.line >= 1
    &&& p.column >= 1
    &&& p.line + p.column <= p.pos + 2
}

/// The source location of a position.
pub open spec fn loc_of(p: LexPos) -> SourceLocation {
    SourceLocation { line: p.line as usize, column: p.column as usize }
}

pub open spec fn char_at(input: Seq<char>, i: nat) -> Option<char> {
    if i < input.len() {
        Some(input[i as int])
    } else {
        None
    }
}

/// Consuming one character: a newline starts the next line.
pub open spec fn step(input: Seq<char>, p: LexPos) -> LexPos {
    if p.pos < input.len() {
        if input[p.pos as int] == '\n' {
            LexPos { pos: p.pos + 1, line: p.line + 1, column: 1 }
        } else {
            LexPos { pos: p.pos + 1, line: p.line, column: p.column + 1 }
        }
    } else {
        p
    }
}

pub open spec fn is_blank(c: char) -> bool {
    c == ' ' || c == '\t' || c == '\r' || c == '\n'
}

pub open spec fn is_digit(c: char) -> bool {
    '0' <= c <= '9'
}

pub open spec fn is_ident_start(c: char) -> bool {
    ('a' <= c <= 'z') || ('A' <= c <= 'Z') || c == '_'
}

pub open spec fn is_ident_char(c: char) -> bool {
    is_ident_start(c) || is_digit(c)
}

/// Skips the rest of a line, including its newline.
pub open spec fn skip_line(input: Seq<char>, p: LexPos) -> LexPos
    decreases input.len() - p.pos,
{
    if p.pos >= input.len() {
        p
    } else if input[p.pos as int] == '\n' {
        step(input, p)
    } else {
        skip_line(input, step(input, p))
    }
}

/// Skips the inside of a block comment up to and including its `*/`; the
/// error is reported at the comment's start.
pub open spec fn skip_block_body(input: Seq<char>, p: LexPos, start: LexPos) -> Result<
    LexPos,
    SpecLexError,
>
    decreases input.len() - p.pos,
{
    if p.pos >= input.len() {
        Err(("Unterminated block comment"@, loc_of(start)))
    } else if input[p.pos as int] == '*' && char_at(input, p.pos + 1) == Some('/') {
        Ok(step(input, step(input, p)))
    } else {
        skip_block_body(input, step(input, p), start)
    }
}

/// Skips blanks, line comments and block comments.
pub open spec fn skip_trivia(input: Seq<char>, p: LexPos) -> Result<LexPos, SpecLexError>
    decreases input.len() - p.pos,
{
    if p.pos >= input.len() {
        Ok(p)
    } else {
        let c = input[p.pos as int];
        if is_blank(c) {
            skip_trivia(input, step(input, p))
        } else if c == '/' && char_at(input, p.pos + 1) == Some('/') {
            proof {
                lemma_skip_line_progress(input, p);
            }
            skip_trivia(input, skip_line(input, p))
        } else if c == '/' && char_at(input, p.pos + 1) == Some('*') {
            match skip_block_body(input, step(input, step(input, p)), p) {
                Ok(q) => {
                    proof {
                        lemma_skip_block_progress(input, step(input, step(input, p)), p);
                    }
                    skip_trivia(input, q)
                },
                Err(e) => Err(e),
            }
        } else {
            Ok(p)
        }
    }
}

/// Position after consuming the characters of `p.pos .. end`, none of which
/// is a newline.
pub open spec fn advance_to(p: LexPos, end: nat) -> LexPos {
    LexPos { pos: end, line: p.line, column: (p.column + end - p.pos) as nat }
}

/// The first index at or after `i` that does not hold a digit.
pub open spec fn digits_end(input: Seq<char>, i: nat) -> nat
    decreases input.len() - i,
{
    if i < input.len() && is_digit(input[i as int]) {
        digits_end(input, i + 1)
    } else {
        i
    }
}

/// The first index at or after `i` that does not hold an identifier character.
pub open spec fn ident_end(input: Seq<char>, i: nat) -> nat
    decreases input.len() - i,
{
    if i < input.len() && is_ident_char(input[i as int]) {
        ident_end(input, i + 1)
    } else {
        i
    }
}

/// The value of a string of decimal digits.
pub open spec fn decimal_value(s: Seq<char>) -> nat
    decreases s.len(),
{
    if s.len() == 0 {
        0
    } else {
        decimal_value(s.drop_last()) * 10 + ((s.last() as u32) - ('0' as u32)) as nat
    }
}

/// The value of a hexadecimal digit.
pub open spec fn hex_value(c: char) -> Option<nat> {
    if '0' <= c <= '9' {
        Some(((c as u32) - ('0' as u32)) as nat)
    } else if 'a' <= c <= 'f' {
        Some(((c as u32) - ('a' as u32) + 10) as nat)
    } else if 'A' <= c <= 'F' {
        Some(((c as u32) - ('A' as u32) + 10) as nat)
    } else {
        None
    }
}

/// The byte that two characters denote in base 16, as Rust's
/// `u8::from_str_radix(.., 16)` reads them: two hex digits, or a `+` sign
/// followed by one.
pub open spec fn hex_pair_value(h1: char, h2: char) -> Option<nat> {
    if h1 == '+' {
        hex_value(h2)
    } else {
        match (hex_value(h1), hex_value(h2)) {
            (Some(a), Some(b)) => Some(a * 16 + b),
            _ => None,
        }
    }
}

/// The character that an escape `\c` denotes inside a string literal.
pub open spec fn string_escape(c: char) -> Option<char> {
    if c == 'n' {
        Some('\n')
    } else if c == 't' {
        Some('\t')
    } else if c == 'r' {
        Some('\r')
    } else if c == '\\' {
        Some('\\')
    } else if c == '"' {
        Some('"')
    } else if c == '0' {
        Some('\0')
    } else {
        None
    }
}

/// The value of a character in a character literal: its code truncated to
/// eight bits.
pub open spec fn char_value(c: char) -> i8 {
    ((c as u32) as u8) as i8
}

/// The body of a string literal from `p` (after the opening quote), having
/// read `acc` so far; `loc` is where the literal starts.
pub open spec fn lex_string_body(
    input: Seq<char>,
    p: LexPos,
    acc: Seq<char>,
    loc: SourceLocation,
) -> Result<(SpecToken, LexPos), SpecLexError>
    decreases input.len() - p.pos,
{
    if p.pos >= input.len() {
        Err(("Unterminated string literal"@, loc))
    } else {
        let c = input[p.pos as int];
        if c == '"' {
            Ok((Token::StringLiteral(acc, loc), step(input, p)))
        } else if c == '\\' {
            let q = step(input, p);
            if q.pos >= input.len() {
                Err(("Unexpected end of file in string literal"@, loc_of(q)))
            } else {
                let e = input[q.pos as int];
                let r = step(input, q);
                match string_escape(e) {
                    Some(u) => lex_string_body(input, r, acc.push(u), loc),
                    None => Err(("Unknown escape sequence: \\"@ + seq![e], loc_of(r))),
                }
            }
        } else {
            lex_string_body(input, step(input, p), acc.push(c), loc)
        }
    }
}

/// The value of a character literal from `q` (after the opening quote),
/// and the position after that value.
pub open spec fn lex_char_value(input: Seq<char>, q: LexPos) -> Result<(i8, LexPos), SpecLexError> {
    if q.pos >= input.len() {
        Err(("Unexpected end of file in character literal"@, loc_of(q)))
    } else {
        let ch = input[q.pos as int];
        let q1 = step(input, q);
        if ch != '\\' {
            Ok((char_value(ch), q1))
        } else if q1.pos >= input.len() {
            Err(("Unexpected end of file in character literal"@, loc_of(q1)))
        } else {
            let e = input[q1.pos as int];
            let q2 = step(input, q1);
            if e == 'n' {
                Ok((10i8, q2))
            } else if e == 't' {
                Ok((9i8, q2))
            } else if e == 'r' {
                Ok((13i8, q2))
            } else if e == '\\' {
                Ok((92i8, q2))
            } else if e == '\'' {
                Ok((39i8, q2))
            } else if e == '0' {
                Ok((0i8, q2))
            } else if e == 'x' {
                if q2.pos >= input.len() {
                    Err(("Incomplete hex escape sequence"@, loc_of(q2)))
                } else {
                    let h1 = input[q2.pos as int];
                    let q3 = step(input, q2);
                    if q3.pos >= input.len() {
                        Err(("Incomplete hex escape sequence"@, loc_of(q3)))
                    } else {
                        let h2 = input[q3.pos as int];
                        let q4 = step(input, q3);
                        match hex_pair_value(h1, h2) {
                            Some(v) => Ok((((v as u8) as i8), q4)),
                            None => Err(
                                ("Invalid hex escape sequence: \\x"@ + seq![h1, h2], loc_of(q4)),
                            ),
                        }
                    }
                }
            } else {
                Err(("Unknown escape sequence: \\"@ + seq![e], loc_of(q2)))
            }
        }
    }
}

/// A character literal from `q` (after the opening quote) starting at `loc`.
pub open spec fn lex_char_literal(input: Seq<char>, q: LexPos, loc: SourceLocation) -> Result<
    (SpecToken, LexPos),
    SpecLexError,
> {
    match lex_char_value(input, q) {
        Err(e) => Err(e),
        Ok((v, r)) => if char_at(input, r.pos) == Some('\'') {
            Ok((Token::CharLiteral(v, loc), step(input, r)))
        } else {
            Err(("Expected closing quote in character literal"@, loc_of(step(input, r))))
        },
    }
}

/// An integer literal whose first digit is at `p`.
pub open spec fn lex_number(input: Seq<char>, p: LexPos) -> Result<(SpecToken, LexPos), SpecLexError> {
    let end = digits_end(input, p.pos + 1);
    let text = input.subrange(p.pos as int, end as int);
    let v = decimal_value(text);
    if v <= i32::MAX {
        Ok((Token::IntLiteral(v as i32, loc_of(p)), advance_to(p, end)))
    } else {
        Err(("Invalid integer literal: "@ + text, loc_of(p)))
    }
}

/// The keyword that a word spells, or an identifier.
pub open spec fn keyword_or_ident(text: Seq<char>, loc: SourceLocation) -> SpecToken {
    if text == "int"@ {
        Token::Int(loc)
    } else if text == "char"@ {
        Token::Char(loc)
    } else if text == "void"@ {
        Token::Void(loc)
    } else if text == "struct"@ {
        Token::Struct(loc)
    } else if text == "const"@ {
        Token::Const(loc)
    } else if text == "if"@ {
        Token::If(loc)
    } else if text == "else"@ {
        Token::Else(loc)
    } else if text == "while"@ {
        Token::While(loc)
    } else if text == "do"@ {
        Token::Do(loc)
    } else if text == "for"@ {
        Token::For(loc)
    } else if text == "switch"@ {
        Token::Switch(loc)
    } else if text == "case"@ {
        Token::Case(loc)
    } else if text == "default"@ {
        Token::Default(loc)
    } else if text == "break"@ {
        Token::Break(loc)
    } else if text == "continue"@ {
        Token::Continue(loc)
    } else if text == "return"@ {
        Token::Return(loc)
    } else if text == "goto"@ {
        Token::Goto(loc)
    } else if text == "sizeof"@ {
        Token::Sizeof(loc)
    } else if text == "NULL"@ {
        Token::Null(loc)
    } else {
        Token::Ident(text, loc)
    }
}

/// A keyword or identifier whose first character is at `p`.
pub open spec fn lex_word(input: Seq<char>, p: LexPos) -> (SpecToken, LexPos) {
    let end = ident_end(input, p.pos + 1);
    (keyword_or_ident(input.subrange(p.pos as int, end as int), loc_of(p)), advance_to(p, end))
}

/// An operator whose first character was consumed, reaching `q`: if the next
/// character is `next`, the two-character token `two`, otherwise `one`.
pub open spec fn op2(input: Seq<char>, q: LexPos, next: char, two: SpecToken, one: SpecToken) -> (
    SpecToken,
    LexPos,
) {
    if char_at(input, q.pos) == Some(next) {
        (two, step(input, q))
    } else {
        (one, q)
    }
}

/// An operator with two possible second characters.
pub open spec fn op3(
    input: Seq<char>,
    q: LexPos,
    n1: char,
    t1: SpecToken,
    n2: char,
    t2: SpecToken,
    one: SpecToken,
) -> (SpecToken, LexPos) {
    if char_at(input, q.pos) == Some(n1) {
        (t1, step(input, q))
    } else if char_at(input, q.pos) == Some(n2) {
        (t2, step(input, q))
    } else {
        (one, q)
    }
}

/// Operators and punctuation made of one character `c` whose first
/// character was consumed at `loc`, reaching `q`.
pub open spec fn lex_operator(input: Seq<char>, c: char, q: LexPos, loc: SourceLocation) -> Option<
    (SpecToken, LexPos),
> {
    if c == '+' {
        Some(op3(input, q, '+', Token::PlusPlus(loc), '=', Token::PlusEq(loc), Token::Plus(loc)))
    } else if c == '-' {
        if char_at(input, q.pos) == Some('-') {
            Some((Token::MinusMinus(loc), step(input, q)))
        } else if char_at(input, q.pos) == Some('=') {
            Some((Token::MinusEq(loc), step(input, q)))
        } else if char_at(input, q.pos) == Some('>') {
            Some((Token::Arrow(loc), step(input, q)))
        } else {
            Some((Token::Minus(loc), q))
        }
    } else if c == '*' {
        Some(op2(input, q, '=', Token::StarEq(loc), Token::Star(loc)))
    } else if c == '/' {
        Some(op2(input, q, '=', Token::SlashEq(loc), Token::Slash(loc)))
    } else if c == '%' {
        Some(op2(input, q, '=', Token::PercentEq(loc), Token::Percent(loc)))
    } else if c == '=' {
        Some(op2(input, q, '=', Token::EqEq(loc), Token::Eq(loc)))
    } else if c == '!' {
        Some(op2(input, q, '=', Token::NotEq(loc), Token::Bang(loc)))
    } else if c == '<' {
        Some(op3(input, q, '=', Token::Le(loc), '<', Token::LtLt(loc), Token::Lt(loc)))
    } else if c == '>' {
        Some(op3(input, q, '=', Token::Ge(loc), '>', Token::GtGt(loc), Token::Gt(loc)))
    } else if c == '&' {
        Some(op2(input, q, '&', Token::AndAnd(loc), Token::Amp(loc)))
    } else if c == '|' {
        Some(op2(input, q, '|', Token::OrOr(loc), Token::Pipe(loc)))
    } else if c == '^' {
        Some((Token::Caret(loc), q))
    } else if c == '~' {
        Some((Token::Tilde(loc), q))
    } else if c == '.' {
        Some((Token::Dot(loc), q))
    } else if c == '?' {
        Some((Token::Question(loc), q))
    } else if c == ':' {
        Some((Token::Colon(loc), q))
    } else if c == '(' {
        Some((Token::LParen(loc), q))
    } else if c == ')' {
        Some((Token::RParen(loc), q))
    } else if c == '{' {
        Some((Token::LBrace(loc), q))
    } else if c == '}' {
        Some((Token::RBrace(loc), q))
    } else if c == '[' {
        Some((Token::LBracket(loc), q))
    } else if c == ']' {
        Some((Token::RBracket(loc), q))
    } else if c == ';' {
        Some((Token::Semicolon(loc), q))
    } else if c == ',' {
        Some((Token::Comma(loc), q))
    } else {
        None
    }
}

/// The token that starts at `p`.
pub open spec fn lex_token(input: Seq<char>, p: LexPos) -> Result<(SpecToken, LexPos), SpecLexError> {
    let loc = loc_of(p);
    if p.pos >= input.len() {
        Err(("Unexpected end of file"@, loc))
    } else {
        let c = input[p.pos as int];
        let q = step(input, p);
        if c == '"' {
            lex_string_body(input, q, Seq::empty(), loc)
        } else if c == '\'' {
            lex_char_literal(input, q, loc)
        } else if is_digit(c) {
            lex_number(input, p)
        } else if is_ident_start(c) {
            Ok(lex_word(input, p))
        } else {
            match lex_operator(input, c, q, loc) {
                Some(r) => Ok(r),
                None => Err(("Unexpected character: '"@ + seq![c] + "'"@, loc)),
            }
        }
    }
}

/// All tokens from `p` on, ending with `Eof`; preprocessor lines (from a
/// `#` to the end of the line) are skipped.
pub open spec fn lex_from(input: Seq<char>, p: LexPos) -> Result<Seq<SpecToken>, SpecLexError>
    decreases input.len() - p.pos,
{
    match skip_trivia(input, p) {
        Err(e) => Err(e),
        Ok(q) => {
            proof {
                lemma_skip_trivia_progress(input, p);
            }
            if q.pos >= input.len() {
                Ok(seq![Token::Eof(loc_of(q))])
            } else if input[q.pos as int] == '#' {
                proof {
                    lemma_skip_line_progress(input, q);
                }
                lex_from(input, skip_line(input, q))
            } else {
                match lex_token(input, q) {
                    Err(e) => Err(e),
                    Ok((t, r)) => {
                        proof {
                            lemma_lex_token_progress(input, q);
                        }
                        match lex_from(input, r) {
                            Err(e) => Err(e),
                            Ok(ts) => Ok(seq![t] + ts),
                        }
                    },
                }
            }
        },
    }
}

/// The tokens of a whole source text.
pub open spec fn lex(input: Seq<char>) -> Result<Seq<SpecToken>, SpecLexError> {
    lex_from(input, start_pos())
}

// ----- progress and well-formedness facts -----

pub proof fn lemma_step_wf(input: Seq<char>, p: LexPos)
    requires
        pos_wf(input, p),
    ensures
        pos_wf(input, step(input, p)),
        p.pos < input.len() ==> step(input, p).pos == p.pos + 1,
{
}

pub proof fn lemma_skip_line_progress(input: Seq<char>, p: LexPos)
    ensures
        skip_line(input, p).pos >= p.pos,
        p.pos < input.len() ==> skip_line(input, p).pos > p.pos,
        p.pos <= input.len() ==> skip_line(input, p).pos <= input.len(),
        pos_wf(input, p) ==> pos_wf(input, skip_line(input, p)),
    decreases input.len() - p.pos,
{
    if p.pos < input.len() && input[p.pos as int] != '\n' {
        lemma_skip_line_progress(input, step(input, p));
    }
}

pub proof fn lemma_skip_block_progress(input: Seq<char>, p: LexPos, start: LexPos)
    ensures
        skip_block_body(input, p, start) matches Ok(q) ==> q.pos > p.pos,
        skip_block_body(input, p, start) matches Ok(q) ==> (p.pos <= input.len() ==> q.pos
            <= input.len()),
        skip_block_body(input, p, start) matches Ok(q) ==> (pos_wf(input, p) ==> pos_wf(
            input,
            q,
        )),
    decreases input.len() - p.pos,
{
    if p.pos < input.len() && !(input[p.pos as int] == '*' && char_at(input, p.pos + 1) == Some(
        '/',
    )) {
        lemma_skip_block_progress(input, step(input, p), start);
    }
}

pub proof fn lemma_skip_trivia_progress(input: Seq<char>, p: LexPos)
    ensures
        skip_trivia(input, p) matches Ok(q) ==> q.pos >= p.pos,
        skip_trivia(input, p) matches Ok(q) ==> (p.pos <= input.len() ==> q.pos <= input.len()),
        skip_trivia(input, p) matches Ok(q) ==> (pos_wf(input, p) ==> pos_wf(input, q)),
    decreases input.len() - p.pos,
{
    if p.pos < input.len() {
        let c = input[p.pos as int];
        if is_blank(c) {
            lemma_skip_trivia_progress(input, step(input, p));
        } else if c == '/' && char_at(input, p.pos + 1) == Some('/') {
            lemma_skip_line_progress(input, p);
            lemma_skip_trivia_progress(input, skip_line(input, p));
        } else if c == '/' && char_at(input, p.pos + 1) == Some('*') {
            let b = step(input, step(input, p));
            lemma_skip_block_progress(input, b, p);
            if let Ok(q) = skip_block_body(input, b, p) {
                lemma_skip_trivia_progress(input, q);
            }
        }
    }
}

pub proof fn lemma_digits_end(input: Seq<char>, i: nat)
    requires
        i <= input.len(),
    ensures
        i <= digits_end(input, i) <= input.len(),
        forall|k: int| i <= k < digits_end(input, i) ==> is_digit(#[trigger] input[k]),
        digits_end(input, i) < input.len() ==> !is_digit(input[digits_end(input, i) as int]),
    decreases input.len() - i,
{
    if i < input.len() && is_digit(input[i as int]) {
        lemma_digits_end(input, i + 1);
    }
}

pub proof fn lemma_ident_end(input: Seq<char>, i: nat)
    requires
        i <= input.len(),
    ensures
        i <= ident_end(input, i) <= input.len(),
        forall|k: int| i <= k < ident_end(input, i) ==> is_ident_char(#[trigger] input[k]),
        ident_end(input, i) < input.len() ==> !is_ident_char(input[ident_end(input, i) as int]),
    decreases input.len() - i,
{
    if i < input.len() && is_ident_char(input[i as int]) {
        lemma_ident_end(input, i + 1);
    }
}

pub proof fn lemma_string_body_progress(
    input: Seq<char>,
    p: LexPos,
    acc: Seq<char>,
    loc: SourceLocation,
)
    ensures
        lex_string_body(input, p, acc, loc) matches Ok((t, q)) ==> q.pos > p.pos,
        lex_string_body(input, p, acc, loc) matches Ok((t, q)) ==> t is StringLiteral,
        lex_string_body(input, p, acc, loc) matches Ok((t, q)) ==> (p.pos <= input.len() ==> q.pos
            <= input.len()),
        lex_string_body(input, p, acc, loc) matches Ok((t, q)) ==> (pos_wf(input, p) ==> pos_wf(
            input,
            q,
        )),
    decreases input.len() - p.pos,
{
    if p.pos < input.len() {
        let c = input[p.pos as int];
        if c == '\\' {
            let q = step(input, p);
            if q.pos < input.len() {
                let e = input[q.pos as int];
                if let Some(u) = string_escape(e) {
                    lemma_string_body_progress(input, step(input, q), acc.push(u), loc);
                }
            }
        } else if c != '"' {
            lemma_string_body_progress(input, step(input, p), acc.push(c), loc);
        }
    }
}

pub proof fn lemma_lex_token_progress(input: Seq<char>, p: LexPos)
    ensures
        lex_token(input, p) matches Ok((t, q)) ==> q.pos > p.pos,
        lex_token(input, p) matches Ok((t, q)) ==> !(t is Eof),
        lex_token(input, p) matches Ok((t, q)) ==> (p.pos <= input.len() ==> q.pos <= input.len()),
        lex_token(input, p) matches Ok((t, q)) ==> (pos_wf(input, p) ==> pos_wf(input, q)),
{
    if p.pos < input.len() {
        let c = input[p.pos as int];
        let q = step(input, p);
        if c == '"' {
            lemma_string_body_progress(input, q, Seq::empty(), loc_of(p));
        } else if is_digit(c) {
            lemma_digits_end(input, p.pos + 1);
        } else if is_ident_start(c) {
            lemma_ident_end(input, p.pos + 1);
        }
    }
}

/// The tokens of a successful lexing end with the one and only `Eof`.
pub proof fn lemma_lex_from_shape(input: Seq<char>, p: LexPos)
    requires
        p.pos <= input.len(),
    ensures
        lex_from(input, p) matches Ok(ts) ==> {
            &&& ts.len() >= 1
            &&& ts.last() is Eof
            &&& forall|i: int| 0 <= i < ts.len() - 1 ==> !(#[trigger] ts[i] is Eof)
        },
    decreases input.len() - p.pos,
{
    lemma_skip_trivia_progress(input, p);
    if let Ok(q) = skip_trivia(input, p) {
        if q.pos < input.len() {
            if input[q.pos as int] == '#' {
                lemma_skip_line_progress(input, q);
                lemma_lex_from_shape(input, skip_line(input, q));
            } else {
                lemma_lex_token_progress(input, q);
                if let Ok((t, r)) = lex_token(input, q) {
                    lemma_lex_from_shape(input, r);
                    if let Ok(ts) = lex_from(input, r) {
                        let all = seq![t] + ts;
                        assert forall|i: int| 0 <= i < all.len() - 1 implies !(#[trigger] all[i] is Eof) by {
                            if i > 0 {
                                assert(all[i] == ts[i - 1]);
                            }
                        }
                        assert(all.last() == ts.last());
                    }
                }
            }
        }
    }
}

} // verus!
