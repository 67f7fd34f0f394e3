//! Lexer (tokenizer) for C source code
//!
//! Converts raw source text into a flat [`Token`] stream consumed by the parser.
//! `#include` and other preprocessor directives are silently skipped rather than
//! parsed, matching the interpreter's no-preprocessor policy. What the lexer
//! does is stated exactly by the functions of [`super::lex_spec`].
use vstd::prelude::*;
use super::ast::SourceLocation;
use super::lex_spec::{
    char_at, decimal_value, digits_end, hex_pair_value, hex_value, ident_end, is_digit,
    is_ident_char, is_ident_start, keyword_or_ident, lemma_digits_end, lemma_ident_end,
    lemma_lex_token_progress, lemma_skip_block_progress, lemma_skip_line_progress,
    lemma_skip_trivia_progress, lemma_step_wf, lex_char_literal, lex_char_value, lex_from,
    lex_number, lex_string_body, lex_token, lex_word, loc_of, pos_wf, skip_block_body, skip_line,
    skip_trivia, start_pos, step, LexPos, SpecLexError,
};
use crate::text::{chars_of, push_char};
pub use super::token::{SpecToken, Token};

verus! {

/// Lexer error type
#[derive(Debug)]
pub struct LexError {
    pub message: String,
    pub location: SourceLocation,
}

impl View for LexError {
    type V = SpecLexError;

    open spec fn view(&self) -> SpecLexError {
        (self.message@, self.location)
    }
}

impl LexError {
    /// The error as one line of text.
    pub fn to_text(&self) -> (r: String)
        ensures
            r@ == "Lexer error at line "@ + crate::text::int_text(self.location.line as int)
                + ", column "@ + crate::text::int_text(self.location.column as int) + ": "@
                + self.message@,
    {
        let mut s = String::from_str("Lexer error at line ");
        crate::text::push_decimal(&mut s, self.location.line as u64);
        s.append(", column ");
        crate::text::push_decimal(&mut s, self.location.column as u64);
        s.append(": ");
        s.append(self.message.as_str());
        s
    }
}

/// The views of a sequence of tokens.
pub open spec fn tokens_view(ts: Seq<Token>) -> Seq<SpecToken> {
    ts.map_values(|t: Token| t@)
}

fn lex_error(message: String, location: SourceLocation) -> (e: LexError)
    ensures
        e@ == (message@, location),
{
    LexError { message, location }
}

/// Lexer for C source code
pub struct Lexer {
    input: Vec<char>,
    position: usize,
    line: usize,
    column: usize,
}

impl Lexer {
    /// The characters being lexed.
    pub closed spec fn source(&self) -> Seq<char> {
        self.input@
    }

    /// The current position.
    pub closed spec fn at(&self) -> LexPos {
        LexPos { pos: self.position as nat, line: self.line as nat, column: self.column as nat }
    }

    /// The lexer's invariant.
    pub closed spec fn wf(&self) -> bool {
        &&& pos_wf(self.input@, self.at())
        &&& self.input@.len() <= isize::MAX
    }

    /// Create a new lexer for the given source string.
    pub fn new(input: &str) -> (r: Self)
        ensures
            r.wf(),
            r.source() == input@,
            r.at() == start_pos(),
    {
        Self { input: chars_of(input), position: 0, line: 1, column: 1 }
    }

    /// Tokenize the entire input
    pub fn tokenize(&mut self) -> (r: Result<Vec<Token>, LexError>)
        requires
            old(self).wf(),
        ensures
            final(self).wf(),
            final(self).source() == old(self).source(),
            match lex_from(old(self).source(), old(self).at()) {
                Ok(ts) => r matches Ok(v) && tokens_view(v@) == ts,
                Err(e) => r matches Err(err) && err@ == e,
            },
    {
        let mut tokens: Vec<Token> = Vec::new();
        let ghost input = self.input@;
        let ghost whole = lex_from(input, self.at());
        loop
            invariant_except_break
                whole == match lex_from(input, self.at()) {
                    Ok(ts) => Ok(tokens_view(tokens@) + ts),
                    Err(e) => Err(e),
                },
            invariant
                self.wf(),
                self.input@ == input,
                input == old(self).input@,
                whole == lex_from(old(self).input@, old(self).at()),
            ensures
                self.wf(),
                self.input@ == input,
                match whole {
                    Ok(ts) => tokens_view(tokens@) == ts,
                    Err(e) => false,
                },
            decreases input.len() - self.position,
        {
            let ghost p = self.at();
            proof {
                lemma_skip_trivia_progress(input, p);
            }
            match self.skip_whitespace_and_comments() {
                Ok(()) => {},
                Err(e) => {
                    return Err(e);
                },
            }
            let ghost q = self.at();
            if self.is_at_end() {
                let loc = self.current_location();
                proof {
                    assert(tokens_view(tokens@.push(Token::Eof(loc))) =~= tokens_view(tokens@)
                        + seq![Token::Eof(loc)]);
                }
                tokens.push(Token::Eof(loc));
                break ;
            }
            // Skip #include and other preprocessor lines
            if self.next_is('#') {
                proof {
                    lemma_skip_line_progress(input, q);
                }
                let _ = self.skip_preprocessor_directive();
                continue ;
            }
            proof {
                lemma_lex_token_progress(input, q);
            }
            match self.next_token() {
                Ok(t) => {
                    proof {
                        assert(tokens_view(tokens@.push(t)) =~= tokens_view(tokens@) + seq![t@]);
                        match lex_from(input, self.at()) {
                            Ok(ts) => {
                                assert(tokens_view(tokens@) + (seq![t@] + ts) =~= tokens_view(
                                    tokens@.push(t),
                                ) + ts);
                            },
                            Err(e) => {},
                        }
                    }
                    tokens.push(t);
                },
                Err(e) => {
                    return Err(e);
                },
            }
        }
        proof {
            assert(tokens_view(tokens@) + seq![] =~= tokens_view(tokens@));
        }
        Ok(tokens)
    }

    /// Get next token
    fn next_token(&mut self) -> (r: Result<Token, LexError>)
        requires
            old(self).wf(),
        ensures
            final(self).wf(),
            final(self).source() == old(self).source(),
            match lex_token(old(self).source(), old(self).at()) {
                Ok((t, q)) => r matches Ok(tok) && tok@ == t && final(self).at() == q,
                Err(e) => r matches Err(err) && err@ == e,
            },
    {
        let ghost input = self.input@;
        let ghost p = self.at();
        let loc = self.current_location();
        let ch = match self.advance() {
            Some(c) => c,
            None => {
                return Err(lex_error(String::from_str("Unexpected end of file"), loc));
            },
        };
        let ghost q = self.at();
        if ch == '"' {
            return self.string_literal();
        }
        if ch == '\'' {
            return self.char_literal();
        }
        if '0' <= ch && ch <= '9' {
            return self.number_literal(ch);
        }
        if ('a' <= ch && ch <= 'z') || ('A' <= ch && ch <= 'Z') || ch == '_' {
            return self.identifier_or_keyword(ch);
        }
        proof {
            lemma_step_wf(input, q);
        }
        if ch == '+' {
            if self.next_is('+') {
                self.advance();
                Ok(Token::PlusPlus(loc))
            } else if self.next_is('=') {
                self.advance();
                Ok(Token::PlusEq(loc))
            } else {
                Ok(Token::Plus(loc))
            }
        } else if ch == '-' {
            if self.next_is('-') {
                self.advance();
                Ok(Token::MinusMinus(loc))
            } else if self.next_is('=') {
                self.advance();
                Ok(Token::MinusEq(loc))
            } else if self.next_is('>') {
                self.advance();
                Ok(Token::Arrow(loc))
            } else {
                Ok(Token::Minus(loc))
            }
        } else if ch == '*' {
            if self.next_is('=') {
                self.advance();
                Ok(Token::StarEq(loc))
            } else {
                Ok(Token::Star(loc))
            }
        } else if ch == '/' {
            if self.next_is('=') {
                self.advance();
                Ok(Token::SlashEq(loc))
            } else {
                Ok(Token::Slash(loc))
            }
        } else if ch == '%' {
            if self.next_is('=') {
                self.advance();
                Ok(Token::PercentEq(loc))
            } else {
                Ok(Token::Percent(loc))
            }
        } else if ch == '=' {
            if self.next_is('=') {
                self.advance();
                Ok(Token::EqEq(loc))
            } else {
                Ok(Token::Eq(loc))
            }
        } else if ch == '!' {
            if self.next_is('=') {
                self.advance();
                Ok(Token::NotEq(loc))
            } else {
                Ok(Token::Bang(loc))
            }
        } else if ch == '<' {
            if self.next_is('=') {
                self.advance();
                Ok(Token::Le(loc))
            } else if self.next_is('<') {
                self.advance();
                Ok(Token::LtLt(loc))
            } else {
                Ok(Token::Lt(loc))
            }
        } else if ch == '>' {
            if self.next_is('=') {
                self.advance();
                Ok(Token::Ge(loc))
            } else if self.next_is('>') {
                self.advance();
                Ok(Token::GtGt(loc))
            } else {
                Ok(Token::Gt(loc))
            }
        } else if ch == '&' {
            if self.next_is('&') {
                self.advance();
                Ok(Token::AndAnd(loc))
            } else {
                Ok(Token::Amp(loc))
            }
        } else if ch == '|' {
            if self.next_is('|') {
                self.advance();
                Ok(Token::OrOr(loc))
            } else {
                Ok(Token::Pipe(loc))
            }
        } else if ch == '^' {
            Ok(Token::Caret(loc))
        } else if ch == '~' {
            Ok(Token::Tilde(loc))
        } else if ch == '.' {
            Ok(Token::Dot(loc))
        } else if ch == '?' {
            Ok(Token::Question(loc))
        } else if ch == ':' {
            Ok(Token::Colon(loc))
        } else if ch == '(' {
            Ok(Token::LParen(loc))
        } else if ch == ')' {
            Ok(Token::RParen(loc))
        } else if ch == '{' {
            Ok(Token::LBrace(loc))
        } else if ch == '}' {
            Ok(Token::RBrace(loc))
        } else if ch == '[' {
            Ok(Token::LBracket(loc))
        } else if ch == ']' {
            Ok(Token::RBracket(loc))
        } else if ch == ';' {
            Ok(Token::Semicolon(loc))
        } else if ch == ',' {
            Ok(Token::Comma(loc))
        } else {
            let mut m = String::from_str("Unexpected character: '");
            push_char(&mut m, ch);
            m.append("'");
            Err(lex_error(m, loc))
        }
    }

    /// Parse string literal
    fn string_literal(&mut self) -> (r: Result<Token, LexError>)
        requires
            old(self).wf(),
            old(self).at().column >= 2,
        ensures
            final(self).wf(),
            final(self).source() == old(self).source(),
            match lex_string_body(
                old(self).source(),
                old(self).at(),
                Seq::empty(),
                (SourceLocation {
                    line: old(self).at().line as usize,
                    column: (old(self).at().column - 1) as usize,
                }),
            ) {
                Ok((t, q)) => r matches Ok(tok) && tok@ == t && final(self).at() == q,
                Err(e) => r matches Err(err) && err@ == e,
            },
    {
        let ghost input = self.input@;
        let loc = SourceLocation::new(self.line, self.column - 1);
        let ghost whole = lex_string_body(input, self.at(), Seq::empty(), loc);
        let mut string = String::new();
        loop
            invariant
                self.wf(),
                self.input@ == input,
                input == old(self).input@,
                loc == (SourceLocation { line: old(self).line, column: (old(self).column - 1) as usize }),
                whole == lex_string_body(input, old(self).at(), Seq::empty(), loc),
                whole == lex_string_body(input, self.at(), string@, loc),
            decreases input.len() - self.position,
        {
            let ghost p = self.at();
            let ch = match self.peek() {
                Some(c) => c,
                None => {
                    return Err(lex_error(String::from_str("Unterminated string literal"), loc));
                },
            };
            if ch == '"' {
                self.advance();  // consume closing quote
                return Ok(Token::StringLiteral(string, loc));
            }
            if ch == '\\' {
                self.advance();
                let escaped = match self.advance() {
                    Some(e) => e,
                    None => {
                        return Err(
                            lex_error(
                                String::from_str("Unexpected end of file in string literal"),
                                self.current_location(),
                            ),
                        );
                    },
                };
                let unescaped = if escaped == 'n' {
                    '\n'
                } else if escaped == 't' {
                    '\t'
                } else if escaped == 'r' {
                    '\r'
                } else if escaped == '\\' {
                    '\\'
                } else if escaped == '"' {
                    '"'
                } else if escaped == '0' {
                    '\0'
                } else {
                    let mut m = String::from_str("Unknown escape sequence: \\");
                    push_char(&mut m, escaped);
                    return Err(lex_error(m, self.current_location()));
                };
                push_char(&mut string, unescaped);
            } else {
                push_char(&mut string, ch);
                self.advance();
            }
        }
    }

    /// Parse character literal
    fn char_literal(&mut self) -> (r: Result<Token, LexError>)
        requires
            old(self).wf(),
            old(self).at().column >= 2,
        ensures
            final(self).wf(),
            final(self).source() == old(self).source(),
            match lex_char_literal(
                old(self).source(),
                old(self).at(),
                (SourceLocation {
                    line: old(self).at().line as usize,
                    column: (old(self).at().column - 1) as usize,
                }),
            ) {
                Ok((t, q)) => r matches Ok(tok) && tok@ == t && final(self).at() == q,
                Err(e) => r matches Err(err) && err@ == e,
            },
    {
        let loc = SourceLocation::new(self.line, self.column - 1);
        let value = match self.char_value() {
            Ok(v) => v,
            Err(e) => {
                return Err(e);
            },
        };
        // Expect closing quote
        let close = self.advance();
        match close {
            Some(c) => {
                if c != '\'' {
                    return Err(
                        lex_error(
                            String::from_str("Expected closing quote in character literal"),
                            self.current_location(),
                        ),
                    );
                }
            },
            None => {
                return Err(
                    lex_error(
                        String::from_str("Expected closing quote in character literal"),
                        self.current_location(),
                    ),
                );
            },
        }
        Ok(Token::CharLiteral(value, loc))
    }

    /// The value inside a character literal, escapes resolved.
    fn char_value(&mut self) -> (r: Result<i8, LexError>)
        requires
            old(self).wf(),
        ensures
            final(self).wf(),
            final(self).source() == old(self).source(),
            match lex_char_value(old(self).source(), old(self).at()) {
                Ok((v, q)) => r matches Ok(x) && x == v && final(self).at() == q,
                Err(e) => r matches Err(err) && err@ == e,
            },
    {
        let ch = match self.advance() {
            Some(c) => c,
            None => {
                return Err(
                    lex_error(
                        String::from_str("Unexpected end of file in character literal"),
                        self.current_location(),
                    ),
                );
            },
        };
        if ch != '\\' {
            return Ok(((ch as u32) as u8) as i8);
        }
        // Handle escape sequences
        let escaped = match self.advance() {
            Some(c) => c,
            None => {
                return Err(
                    lex_error(
                        String::from_str("Unexpected end of file in character literal"),
                        self.current_location(),
                    ),
                );
            },
        };
        if escaped == 'n' {
            Ok(10)
        } else if escaped == 't' {
            Ok(9)
        } else if escaped == 'r' {
            Ok(13)
        } else if escaped == '\\' {
            Ok(92)
        } else if escaped == '\'' {
            Ok(39)
        } else if escaped == '0' {
            Ok(0)
        } else if escaped == 'x' {
            // Hex escape: \xHH
            let hex1 = match self.advance() {
                Some(c) => c,
                None => {
                    return Err(
                        lex_error(
                            String::from_str("Incomplete hex escape sequence"),
                            self.current_location(),
                        ),
                    );
                },
            };
            let hex2 = match self.advance() {
                Some(c) => c,
                None => {
                    return Err(
                        lex_error(
                            String::from_str("Incomplete hex escape sequence"),
                            self.current_location(),
                        ),
                    );
                },
            };
            match hex_pair(hex1, hex2) {
                Some(v) => Ok(v as i8),
                None => {
                    let mut m = String::from_str("Invalid hex escape sequence: \\x");
                    push_char(&mut m, hex1);
                    push_char(&mut m, hex2);
                    proof {
                        assert(m@ =~= "Invalid hex escape sequence: \\x"@ + seq![hex1, hex2]);
                    }
                    Err(lex_error(m, self.current_location()))
                },
            }
        } else {
            let mut m = String::from_str("Unknown escape sequence: \\");
            push_char(&mut m, escaped);
            Err(lex_error(m, self.current_location()))
        }
    }

    /// Parse numeric literal (integers only)
    fn number_literal(&mut self, first_digit: char) -> (r: Result<Token, LexError>)
        requires
            old(self).wf(),
            old(self).at().column >= 2,
            old(self).at().pos >= 1,
            old(self).source()[old(self).at().pos - 1] == first_digit,
            is_digit(first_digit),
        ensures
            final(self).wf(),
            final(self).source() == old(self).source(),
            match lex_number(old(self).source(), Self::before(old(self).at())) {
                Ok((t, q)) => r matches Ok(tok) && tok@ == t && final(self).at() == q,
                Err(e) => r matches Err(err) && err@ == e,
            },
    {
        let ghost input = self.input@;
        let ghost p = Self::before(self.at());
        let loc = SourceLocation::new(self.line, self.column - 1);
        let mut num_str = String::new();
        push_char(&mut num_str, first_digit);
        let mut value: u64 = ((first_digit as u32) - 48) as u64;
        let mut too_big = false;
        proof {
            lemma_digits_end(input, p.pos + 1);
            assert(num_str@ =~= input.subrange(p.pos as int, self.position as int));
            assert(num_str@.drop_last() =~= Seq::<char>::empty());
            assert(num_str@.last() == first_digit);
            assert(decimal_value(Seq::<char>::empty()) == 0);
        }
        while self.position < self.input.len() && is_ascii_digit(self.input[self.position])
            invariant
                self.wf(),
                self.input@ == input,
                p.pos < self.position <= digits_end(input, p.pos + 1),
                self.line == p.line,
                self.column == p.column + (self.position - p.pos),
                num_str@ == input.subrange(p.pos as int, self.position as int),
                too_big == (decimal_value(num_str@) > i32::MAX),
                !too_big ==> value == decimal_value(num_str@),
            decreases input.len() - self.position,
        {
            proof {
                lemma_digits_end(input, p.pos + 1);
            }
            let ch = self.input[self.position];
            let ghost old_str = num_str@;
            push_char(&mut num_str, ch);
            self.advance();
            proof {
                assert(num_str@ =~= input.subrange(p.pos as int, self.position as int));
                assert(num_str@.drop_last() == old_str);
                assert(num_str@.last() == ch);
            }
            if !too_big {
                value = value * 10 + ((ch as u32) - 48) as u64;
                if value > 2147483647 {
                    too_big = true;
                }
            }
        }
        if too_big {
            let mut m = String::from_str("Invalid integer literal: ");
            m.append(num_str.as_str());
            return Err(lex_error(m, loc));
        }
        Ok(Token::IntLiteral(value as i32, loc))
    }

    /// Parse identifier or keyword
    fn identifier_or_keyword(&mut self, first_char: char) -> (r: Result<Token, LexError>)
        requires
            old(self).wf(),
            old(self).at().column >= 2,
            old(self).at().pos >= 1,
            old(self).source()[old(self).at().pos - 1] == first_char,
            is_ident_start(first_char),
        ensures
            final(self).wf(),
            final(self).source() == old(self).source(),
            r matches Ok(tok) && (tok@, final(self).at()) == lex_word(
                old(self).source(),
                Self::before(old(self).at()),
            ),
    {
        let ghost input = self.input@;
        let ghost p = Self::before(self.at());
        let loc = SourceLocation::new(self.line, self.column - 1);
        let mut ident = String::new();
        push_char(&mut ident, first_char);
        proof {
            lemma_ident_end(input, p.pos + 1);
            assert(ident@ =~= input.subrange(p.pos as int, self.position as int));
        }
        while self.position < self.input.len() && is_ident_char_exec(self.input[self.position])
            invariant
                self.wf(),
                self.input@ == input,
                p.pos < self.position <= ident_end(input, p.pos + 1),
                self.line == p.line,
                self.column == p.column + (self.position - p.pos),
                ident@ == input.subrange(p.pos as int, self.position as int),
            decreases input.len() - self.position,
        {
            proof {
                lemma_ident_end(input, p.pos + 1);
            }
            let ch = self.input[self.position];
            push_char(&mut ident, ch);
            self.advance();
            proof {
                assert(ident@ =~= input.subrange(p.pos as int, self.position as int));
            }
        }
        Ok(keyword_token(ident, loc))
    }

    /// The position one character back, on the same line.
    pub open spec fn before(p: LexPos) -> LexPos {
        LexPos { pos: (p.pos - 1) as nat, line: p.line, column: (p.column - 1) as nat }
    }

    /// Skip whitespace and comments
    fn skip_whitespace_and_comments(&mut self) -> (r: Result<(), LexError>)
        requires
            old(self).wf(),
        ensures
            final(self).wf(),
            final(self).source() == old(self).source(),
            match skip_trivia(old(self).source(), old(self).at()) {
                Ok(q) => r is Ok && final(self).at() == q,
                Err(e) => r matches Err(err) && err@ == e,
            },
    {
        let ghost input = self.input@;
        let ghost whole = skip_trivia(input, self.at());
        loop
            invariant_except_break
                whole == skip_trivia(input, self.at()),
            invariant
                self.wf(),
                self.input@ == input,
                input == old(self).input@,
                whole == skip_trivia(old(self).input@, old(self).at()),
            ensures
                self.wf(),
                self.input@ == input,
                whole == Ok::<LexPos, SpecLexError>(self.at()),
            decreases input.len() - self.position,
        {
            let ghost p = self.at();
            match self.peek() {
                Some(c) => {
                    if c == ' ' || c == '\t' || c == '\r' || c == '\n' {
                        self.advance();
                    } else if c == '/' {
                        if self.peek_ahead_is(1, '/') {
                            // Single-line comment
                            proof {
                                lemma_skip_line_progress(input, p);
                            }
                            self.skip_line_comment();
                        } else if self.peek_ahead_is(1, '*') {
                            // Multi-line comment
                            proof {
                                lemma_skip_block_progress(
                                    input,
                                    step(input, step(input, p)),
                                    p,
                                );
                            }
                            match self.skip_block_comment() {
                                Ok(()) => {},
                                Err(e) => {
                                    return Err(e);
                                },
                            }
                        } else {
                            break ;
                        }
                    } else {
                        break ;
                    }
                },
                None => {
                    break ;
                },
            }
        }
        Ok(())
    }

    /// Skip single-line comment (// ...)
    fn skip_line_comment(&mut self)
        requires
            old(self).wf(),
        ensures
            final(self).wf(),
            final(self).source() == old(self).source(),
            final(self).at() == skip_line(old(self).source(), old(self).at()),
    {
        let ghost input = self.input@;
        let ghost target = skip_line(input, self.at());
        loop
            invariant_except_break
                target == skip_line(input, self.at()),
            invariant
                self.wf(),
                self.input@ == input,
            ensures
                self.wf(),
                self.input@ == input,
                target == self.at(),
            decreases input.len() - self.position,
        {
            match self.peek() {
                Some(ch) => {
                    self.advance();
                    if ch == '\n' {
                        break ;
                    }
                },
                None => {
                    break ;
                },
            }
        }
    }

    /// Skip multi-line comment (/* ... */)
    fn skip_block_comment(&mut self) -> (r: Result<(), LexError>)
        requires
            old(self).wf(),
        ensures
            final(self).wf(),
            final(self).source() == old(self).source(),
            match skip_block_body(
                old(self).source(),
                step(old(self).source(), step(old(self).source(), old(self).at())),
                old(self).at(),
            ) {
                Ok(q) => r is Ok && final(self).at() == q,
                Err(e) => r matches Err(err) && err@ == e,
            },
    {
        let ghost input = self.input@;
        let ghost start = self.at();
        let start_loc = self.current_location();
        self.advance();  // skip '/'
        self.advance();  // skip '*'
        let ghost whole = skip_block_body(input, self.at(), start);
        assert(self.at() == step(input, step(input, start)));
        while !self.is_at_end()
            invariant
                self.position <= input.len(),
                self.wf(),
                self.input@ == input,
                input == old(self).input@,
                start == old(self).at(),
                start_loc == loc_of(start),
                whole == skip_block_body(input, step(input, step(input, start)), start),
                whole == skip_block_body(input, self.at(), start),
            decreases input.len() - self.position,
        {
            let ghost p = self.at();
            if self.next_is('*') && self.peek_ahead_is(1, '/') {
                self.advance();  // skip '*'
                self.advance();  // skip '/'
                return Ok(());
            }
            self.advance();
        }
        Err(lex_error(String::from_str("Unterminated block comment"), start_loc))
    }

    /// Skip preprocessor directive (#include, etc.)
    fn skip_preprocessor_directive(&mut self) -> (r: Result<(), LexError>)
        requires
            old(self).wf(),
        ensures
            final(self).wf(),
            final(self).source() == old(self).source(),
            final(self).at() == skip_line(old(self).source(), old(self).at()),
            r is Ok,
    {
        self.skip_line_comment();
        Ok(())
    }

    /// Peek at current character without consuming
    fn peek(&self) -> (r: Option<char>)
        ensures
            r == char_at(self.source(), self.at().pos),
    {
        if self.position < self.input.len() {
            Some(self.input[self.position])
        } else {
            None
        }
    }

    /// Whether the current character is `c`.
    fn next_is(&self, c: char) -> (r: bool)
        ensures
            r == (char_at(self.source(), self.at().pos) == Some(c)),
    {
        self.position < self.input.len() && self.input[self.position] == c
    }

    /// Peek ahead n characters
    fn peek_ahead(&self, n: usize) -> (r: Option<char>)
        requires
            self.position + n <= usize::MAX,
        ensures
            r == char_at(self.source(), (self.at().pos + n) as nat),
    {
        let pos = self.position + n;
        if pos < self.input.len() {
            Some(self.input[pos])
        } else {
            None
        }
    }

    /// Whether the character `n` ahead is `c`.
    fn peek_ahead_is(&self, n: usize, c: char) -> (r: bool)
        requires
            self.position + n <= usize::MAX,
        ensures
            r == (char_at(self.source(), (self.at().pos + n) as nat) == Some(c)),
    {
        match self.peek_ahead(n) {
            Some(d) => d == c,
            None => false,
        }
    }

    /// Advance to next character
    fn advance(&mut self) -> (r: Option<char>)
        requires
            old(self).wf(),
        ensures
            final(self).wf(),
            final(self).source() == old(self).source(),
            r == char_at(old(self).source(), old(self).at().pos),
            final(self).at() == step(old(self).source(), old(self).at()),
    {
        if self.position >= self.input.len() {
            return None;
        }
        let ch = self.input[self.position];
        self.position += 1;
        if ch == '\n' {
            self.line += 1;
            self.column = 1;
        } else {
            self.column += 1;
        }
        Some(ch)
    }

    /// Check if at end of input
    fn is_at_end(&self) -> (r: bool)
        ensures
            r == (self.at().pos >= self.source().len()),
    {
        self.position >= self.input.len()
    }

    /// Get current source location
    fn current_location(&self) -> (r: SourceLocation)
        ensures
            r == loc_of(self.at()),
    {
        SourceLocation::new(self.line, self.column)
    }
}

fn is_ascii_digit(c: char) -> (r: bool)
    ensures
        r == is_digit(c),
{
    '0' <= c && c <= '9'
}

fn is_ident_char_exec(c: char) -> (r: bool)
    ensures
        r == is_ident_char(c),
{
    ('a' <= c && c <= 'z') || ('A' <= c && c <= 'Z') || c == '_' || ('0' <= c && c <= '9')
}

pub(crate) fn hex_digit_value(c: char) -> (r: Option<u8>)
    ensures
        match hex_value(c) {
            Some(v) => r == Some(v as u8),
            None => r is None,
        },
{
    if '0' <= c && c <= '9' {
        Some(((c as u32) - 48) as u8)
    } else if 'a' <= c && c <= 'f' {
        Some(((c as u32) - 97 + 10) as u8)
    } else if 'A' <= c && c <= 'F' {
        Some(((c as u32) - 65 + 10) as u8)
    } else {
        None
    }
}

/// The byte denoted by a two-character hex escape.
fn hex_pair(h1: char, h2: char) -> (r: Option<u8>)
    ensures
        match hex_pair_value(h1, h2) {
            Some(v) => r == Some(v as u8),
            None => r is None,
        },
{
    if h1 == '+' {
        hex_digit_value(h2)
    } else {
        match (hex_digit_value(h1), hex_digit_value(h2)) {
            (Some(a), Some(b)) => Some(a * 16 + b),
            _ => None,
        }
    }
}

pub(crate) fn text_is(s: &String, lit: &str) -> (r: bool)
    ensures
        r == (s@ == lit@),
{
    let t = String::from_str(lit);
    *s == t
}

/// The keyword token a word spells, or an identifier token.
fn keyword_token(ident: String, loc: SourceLocation) -> (t: Token)
    ensures
        t@ == keyword_or_ident(ident@, loc),
{
    if text_is(&ident, "int") {
        Token::Int(loc)
    } else if text_is(&ident, "char") {
        Token::Char(loc)
    } else if text_is(&ident, "void") {
        Token::Void(loc)
    } else if text_is(&ident, "struct") {
        Token::Struct(loc)
    } else if text_is(&ident, "const") {
        Token::Const(loc)
    } else if text_is(&ident, "if") {
        Token::If(loc)
    } else if text_is(&ident, "else") {
        Token::Else(loc)
    } else if text_is(&ident, "while") {
        Token::While(loc)
    } else if text_is(&ident, "do") {
        Token::Do(loc)
    } else if text_is(&ident, "for") {
        Token::For(loc)
    } else if text_is(&ident, "switch") {
        Token::Switch(loc)
    } else if text_is(&ident, "case") {
        Token::Case(loc)
    } else if text_is(&ident, "default") {
        Token::Default(loc)
    } else if text_is(&ident, "break") {
        Token::Break(loc)
    } else if text_is(&ident, "continue") {
        Token::Continue(loc)
    } else if text_is(&ident, "return") {
        Token::Return(loc)
    } else if text_is(&ident, "goto") {
        Token::Goto(loc)
    } else if text_is(&ident, "sizeof") {
        Token::Sizeof(loc)
    } else if text_is(&ident, "NULL") {
        Token::Null(loc)
    } else {
        Token::Ident(ident, loc)
    }
}

} // verus!
