//! Tokens of the C subset.
//!
//! Every token carries the [`SourceLocation`] where it starts. The token type
//! is generic in the representation of its text payloads: executable tokens
//! hold `String`s, their views hold `Seq<char>`s.
use vstd::prelude::*;
use super::ast::SourceLocation;
use crate::text::{
    hex_byte_text, int_text, is_printable_byte, printable_byte, push_char, push_hex_byte, push_int,
};

verus! {

/// All token variants produced by the lexer, generic in the text payload.
#[derive(Debug, Clone, PartialEq)]
pub enum Token<S = String> {
    // literals
    IntLiteral(i32, SourceLocation),
    CharLiteral(i8, SourceLocation),
    StringLiteral(S, SourceLocation),
    Ident(S, SourceLocation),
    Int(SourceLocation),
    Char(SourceLocation),
    Void(SourceLocation),
    Struct(SourceLocation),
    Const(SourceLocation),
    If(SourceLocation),
    Else(SourceLocation),
    While(SourceLocation),
    Do(SourceLocation),
    For(SourceLocation),
    Switch(SourceLocation),
    Case(SourceLocation),
    Default(SourceLocation),
    Break(SourceLocation),
    Continue(SourceLocation),
    Return(SourceLocation),
    Goto(SourceLocation),
    Sizeof(SourceLocation),
    Null(SourceLocation),
    Plus(SourceLocation),
    Minus(SourceLocation),
    Star(SourceLocation),
    Slash(SourceLocation),
    Percent(SourceLocation),
    EqEq(SourceLocation),
    NotEq(SourceLocation),
    Lt(SourceLocation),
    Le(SourceLocation),
    Gt(SourceLocation),
    Ge(SourceLocation),
    AndAnd(SourceLocation),
    OrOr(SourceLocation),
    Bang(SourceLocation),
    Amp(SourceLocation),
    Pipe(SourceLocation),
    Caret(SourceLocation),
    Tilde(SourceLocation),
    LtLt(SourceLocation),
    GtGt(SourceLocation),
    Eq(SourceLocation),
    PlusEq(SourceLocation),
    MinusEq(SourceLocation),
    StarEq(SourceLocation),
    SlashEq(SourceLocation),
    PercentEq(SourceLocation),
    PlusPlus(SourceLocation),
    MinusMinus(SourceLocation),
    Dot(SourceLocation),
    Arrow(SourceLocation),
    Question(SourceLocation),
    Colon(SourceLocation),
    LParen(SourceLocation),
    RParen(SourceLocation),
    LBrace(SourceLocation),
    RBrace(SourceLocation),
    LBracket(SourceLocation),
    RBracket(SourceLocation),
    Semicolon(SourceLocation),
    Comma(SourceLocation),
    Eof(SourceLocation),
}

/// The mathematical value of a token: text payloads as character sequences.
pub type SpecToken = Token<Seq<char>>;

impl View for Token<String> {
    type V = Token<Seq<char>>;

    open spec fn view(&self) -> Token<Seq<char>> {
        match self {
            Token::IntLiteral(v, l) => Token::IntLiteral(*v, *l),
            Token::CharLiteral(v, l) => Token::CharLiteral(*v, *l),
            Token::StringLiteral(s, l) => Token::StringLiteral(s@, *l),
            Token::Ident(s, l) => Token::Ident(s@, *l),
            Token::Int(l) => Token::Int(*l),
            Token::Char(l) => Token::Char(*l),
            Token::Void(l) => Token::Void(*l),
            Token::Struct(l) => Token::Struct(*l),
            Token::Const(l) => Token::Const(*l),
            Token::If(l) => Token::If(*l),
            Token::Else(l) => Token::Else(*l),
            Token::While(l) => Token::While(*l),
            Token::Do(l) => Token::Do(*l),
            Token::For(l) => Token::For(*l),
            Token::Switch(l) => Token::Switch(*l),
            Token::Case(l) => Token::Case(*l),
            Token::Default(l) => Token::Default(*l),
            Token::Break(l) => Token::Break(*l),
            Token::Continue(l) => Token::Continue(*l),
            Token::Return(l) => Token::Return(*l),
            Token::Goto(l) => Token::Goto(*l),
            Token::Sizeof(l) => Token::Sizeof(*l),
            Token::Null(l) => Token::Null(*l),
            Token::Plus(l) => Token::Plus(*l),
            Token::Minus(l) => Token::Minus(*l),
            Token::Star(l) => Token::Star(*l),
            Token::Slash(l) => Token::Slash(*l),
            Token::Percent(l) => Token::Percent(*l),
            Token::EqEq(l) => Token::EqEq(*l),
            Token::NotEq(l) => Token::NotEq(*l),
            Token::Lt(l) => Token::Lt(*l),
            Token::Le(l) => Token::Le(*l),
            Token::Gt(l) => Token::Gt(*l),
            Token::Ge(l) => Token::Ge(*l),
            Token::AndAnd(l) => Token::AndAnd(*l),
            Token::OrOr(l) => Token::OrOr(*l),
            Token::Bang(l) => Token::Bang(*l),
            Token::Amp(l) => Token::Amp(*l),
            Token::Pipe(l) => Token::Pipe(*l),
            Token::Caret(l) => Token::Caret(*l),
            Token::Tilde(l) => Token::Tilde(*l),
            Token::LtLt(l) => Token::LtLt(*l),
            Token::GtGt(l) => Token::GtGt(*l),
            Token::Eq(l) => Token::Eq(*l),
            Token::PlusEq(l) => Token::PlusEq(*l),
            Token::MinusEq(l) => Token::MinusEq(*l),
            Token::StarEq(l) => Token::StarEq(*l),
            Token::SlashEq(l) => Token::SlashEq(*l),
            Token::PercentEq(l) => Token::PercentEq(*l),
            Token::PlusPlus(l) => Token::PlusPlus(*l),
            Token::MinusMinus(l) => Token::MinusMinus(*l),
            Token::Dot(l) => Token::Dot(*l),
            Token::Arrow(l) => Token::Arrow(*l),
            Token::Question(l) => Token::Question(*l),
            Token::Colon(l) => Token::Colon(*l),
            Token::LParen(l) => Token::LParen(*l),
            Token::RParen(l) => Token::RParen(*l),
            Token::LBrace(l) => Token::LBrace(*l),
            Token::RBrace(l) => Token::RBrace(*l),
            Token::LBracket(l) => Token::LBracket(*l),
            Token::RBracket(l) => Token::RBracket(*l),
            Token::Semicolon(l) => Token::Semicolon(*l),
            Token::Comma(l) => Token::Comma(*l),
            Token::Eof(l) => Token::Eof(*l),
        }
    }
}

impl<S> Token<S> {
    /// Where the token starts.
    pub open spec fn loc(self) -> SourceLocation {
        match self {
            Token::IntLiteral(_, loc) => loc,
            Token::CharLiteral(_, loc) => loc,
            Token::StringLiteral(_, loc) => loc,
            Token::Ident(_, loc) => loc,
            Token::Int(loc) => loc,
            Token::Char(loc) => loc,
            Token::Void(loc) => loc,
            Token::Struct(loc) => loc,
            Token::Const(loc) => loc,
            Token::If(loc) => loc,
            Token::Else(loc) => loc,
            Token::While(loc) => loc,
            Token::Do(loc) => loc,
            Token::For(loc) => loc,
            Token::Switch(loc) => loc,
            Token::Case(loc) => loc,
            Token::Default(loc) => loc,
            Token::Break(loc) => loc,
            Token::Continue(loc) => loc,
            Token::Return(loc) => loc,
            Token::Goto(loc) => loc,
            Token::Sizeof(loc) => loc,
            Token::Null(loc) => loc,
            Token::Plus(loc) => loc,
            Token::Minus(loc) => loc,
            Token::Star(loc) => loc,
            Token::Slash(loc) => loc,
            Token::Percent(loc) => loc,
            Token::EqEq(loc) => loc,
            Token::NotEq(loc) => loc,
            Token::Lt(loc) => loc,
            Token::Le(loc) => loc,
            Token::Gt(loc) => loc,
            Token::Ge(loc) => loc,
            Token::AndAnd(loc) => loc,
            Token::OrOr(loc) => loc,
            Token::Bang(loc) => loc,
            Token::Amp(loc) => loc,
            Token::Pipe(loc) => loc,
            Token::Caret(loc) => loc,
            Token::Tilde(loc) => loc,
            Token::LtLt(loc) => loc,
            Token::GtGt(loc) => loc,
            Token::Eq(loc) => loc,
            Token::PlusEq(loc) => loc,
            Token::MinusEq(loc) => loc,
            Token::StarEq(loc) => loc,
            Token::SlashEq(loc) => loc,
            Token::PercentEq(loc) => loc,
            Token::PlusPlus(loc) => loc,
            Token::MinusMinus(loc) => loc,
            Token::Dot(loc) => loc,
            Token::Arrow(loc) => loc,
            Token::Question(loc) => loc,
            Token::Colon(loc) => loc,
            Token::LParen(loc) => loc,
            Token::RParen(loc) => loc,
            Token::LBrace(loc) => loc,
            Token::RBrace(loc) => loc,
            Token::LBracket(loc) => loc,
            Token::RBracket(loc) => loc,
            Token::Semicolon(loc) => loc,
            Token::Comma(loc) => loc,
            Token::Eof(loc) => loc,
        }
    }

    /// The variant of the token, as a number (payloads and location ignored).
    pub open spec fn kind(self) -> nat {
        match self {
            Token::IntLiteral(..) => 0,
            Token::CharLiteral(..) => 1,
            Token::StringLiteral(..) => 2,
            Token::Ident(..) => 3,
            Token::Int(..) => 4,
            Token::Char(..) => 5,
            Token::Void(..) => 6,
            Token::Struct(..) => 7,
            Token::Const(..) => 8,
            Token::If(..) => 9,
            Token::Else(..) => 10,
            Token::While(..) => 11,
            Token::Do(..) => 12,
            Token::For(..) => 13,
            Token::Switch(..) => 14,
            Token::Case(..) => 15,
            Token::Default(..) => 16,
            Token::Break(..) => 17,
            Token::Continue(..) => 18,
            Token::Return(..) => 19,
            Token::Goto(..) => 20,
            Token::Sizeof(..) => 21,
            Token::Null(..) => 22,
            Token::Plus(..) => 23,
            Token::Minus(..) => 24,
            Token::Star(..) => 25,
            Token::Slash(..) => 26,
            Token::Percent(..) => 27,
            Token::EqEq(..) => 28,
            Token::NotEq(..) => 29,
            Token::Lt(..) => 30,
            Token::Le(..) => 31,
            Token::Gt(..) => 32,
            Token::Ge(..) => 33,
            Token::AndAnd(..) => 34,
            Token::OrOr(..) => 35,
            Token::Bang(..) => 36,
            Token::Amp(..) => 37,
            Token::Pipe(..) => 38,
            Token::Caret(..) => 39,
            Token::Tilde(..) => 40,
            Token::LtLt(..) => 41,
            Token::GtGt(..) => 42,
            Token::Eq(..) => 43,
            Token::PlusEq(..) => 44,
            Token::MinusEq(..) => 45,
            Token::StarEq(..) => 46,
            Token::SlashEq(..) => 47,
            Token::PercentEq(..) => 48,
            Token::PlusPlus(..) => 49,
            Token::MinusMinus(..) => 50,
            Token::Dot(..) => 51,
            Token::Arrow(..) => 52,
            Token::Question(..) => 53,
            Token::Colon(..) => 54,
            Token::LParen(..) => 55,
            Token::RParen(..) => 56,
            Token::LBrace(..) => 57,
            Token::RBrace(..) => 58,
            Token::LBracket(..) => 59,
            Token::RBracket(..) => 60,
            Token::Semicolon(..) => 61,
            Token::Comma(..) => 62,
            Token::Eof(..) => 63,
        }
    }
}

impl Token<String> {
    /// Returns the source location where this token appears.
    pub fn location(&self) -> (r: SourceLocation)
        ensures
            r == self@.loc(),
    {
        match self {
            Token::IntLiteral(_, loc) => *loc,
            Token::CharLiteral(_, loc) => *loc,
            Token::StringLiteral(_, loc) => *loc,
            Token::Ident(_, loc) => *loc,
            Token::Int(loc) => *loc,
            Token::Char(loc) => *loc,
            Token::Void(loc) => *loc,
            Token::Struct(loc) => *loc,
            Token::Const(loc) => *loc,
            Token::If(loc) => *loc,
            Token::Else(loc) => *loc,
            Token::While(loc) => *loc,
            Token::Do(loc) => *loc,
            Token::For(loc) => *loc,
            Token::Switch(loc) => *loc,
            Token::Case(loc) => *loc,
            Token::Default(loc) => *loc,
            Token::Break(loc) => *loc,
            Token::Continue(loc) => *loc,
            Token::Return(loc) => *loc,
            Token::Goto(loc) => *loc,
            Token::Sizeof(loc) => *loc,
            Token::Null(loc) => *loc,
            Token::Plus(loc) => *loc,
            Token::Minus(loc) => *loc,
            Token::Star(loc) => *loc,
            Token::Slash(loc) => *loc,
            Token::Percent(loc) => *loc,
            Token::EqEq(loc) => *loc,
            Token::NotEq(loc) => *loc,
            Token::Lt(loc) => *loc,
            Token::Le(loc) => *loc,
            Token::Gt(loc) => *loc,
            Token::Ge(loc) => *loc,
            Token::AndAnd(loc) => *loc,
            Token::OrOr(loc) => *loc,
            Token::Bang(loc) => *loc,
            Token::Amp(loc) => *loc,
            Token::Pipe(loc) => *loc,
            Token::Caret(loc) => *loc,
            Token::Tilde(loc) => *loc,
            Token::LtLt(loc) => *loc,
            Token::GtGt(loc) => *loc,
            Token::Eq(loc) => *loc,
            Token::PlusEq(loc) => *loc,
            Token::MinusEq(loc) => *loc,
            Token::StarEq(loc) => *loc,
            Token::SlashEq(loc) => *loc,
            Token::PercentEq(loc) => *loc,
            Token::PlusPlus(loc) => *loc,
            Token::MinusMinus(loc) => *loc,
            Token::Dot(loc) => *loc,
            Token::Arrow(loc) => *loc,
            Token::Question(loc) => *loc,
            Token::Colon(loc) => *loc,
            Token::LParen(loc) => *loc,
            Token::RParen(loc) => *loc,
            Token::LBrace(loc) => *loc,
            Token::RBrace(loc) => *loc,
            Token::LBracket(loc) => *loc,
            Token::RBracket(loc) => *loc,
            Token::Semicolon(loc) => *loc,
            Token::Comma(loc) => *loc,
            Token::Eof(loc) => *loc,
        }
    }

    /// Returns the variant number of this token.
    pub fn kind_index(&self) -> (r: u8)
        ensures
            r as nat == self@.kind(),
    {
        match self {
            Token::IntLiteral(..) => 0,
            Token::CharLiteral(..) => 1,
            Token::StringLiteral(..) => 2,
            Token::Ident(..) => 3,
            Token::Int(..) => 4,
            Token::Char(..) => 5,
            Token::Void(..) => 6,
            Token::Struct(..) => 7,
            Token::Const(..) => 8,
            Token::If(..) => 9,
            Token::Else(..) => 10,
            Token::While(..) => 11,
            Token::Do(..) => 12,
            Token::For(..) => 13,
            Token::Switch(..) => 14,
            Token::Case(..) => 15,
            Token::Default(..) => 16,
            Token::Break(..) => 17,
            Token::Continue(..) => 18,
            Token::Return(..) => 19,
            Token::Goto(..) => 20,
            Token::Sizeof(..) => 21,
            Token::Null(..) => 22,
            Token::Plus(..) => 23,
            Token::Minus(..) => 24,
            Token::Star(..) => 25,
            Token::Slash(..) => 26,
            Token::Percent(..) => 27,
            Token::EqEq(..) => 28,
            Token::NotEq(..) => 29,
            Token::Lt(..) => 30,
            Token::Le(..) => 31,
            Token::Gt(..) => 32,
            Token::Ge(..) => 33,
            Token::AndAnd(..) => 34,
            Token::OrOr(..) => 35,
            Token::Bang(..) => 36,
            Token::Amp(..) => 37,
            Token::Pipe(..) => 38,
            Token::Caret(..) => 39,
            Token::Tilde(..) => 40,
            Token::LtLt(..) => 41,
            Token::GtGt(..) => 42,
            Token::Eq(..) => 43,
            Token::PlusEq(..) => 44,
            Token::MinusEq(..) => 45,
            Token::StarEq(..) => 46,
            Token::SlashEq(..) => 47,
            Token::PercentEq(..) => 48,
            Token::PlusPlus(..) => 49,
            Token::MinusMinus(..) => 50,
            Token::Dot(..) => 51,
            Token::Arrow(..) => 52,
            Token::Question(..) => 53,
            Token::Colon(..) => 54,
            Token::LParen(..) => 55,
            Token::RParen(..) => 56,
            Token::LBrace(..) => 57,
            Token::RBrace(..) => 58,
            Token::LBracket(..) => 59,
            Token::RBracket(..) => 60,
            Token::Semicolon(..) => 61,
            Token::Comma(..) => 62,
            Token::Eof(..) => 63,
        }
    }

    /// Whether two tokens are of the same variant.
    pub fn same_kind(&self, other: &Token) -> (r: bool)
        ensures
            r == (self@.kind() == other@.kind()),
    {
        self.kind_index() == other.kind_index()
    }

    /// A copy of this token with the same value.
    pub fn duplicate(&self) -> (r: Token)
        ensures
            r@ == self@,
    {
        match self {
            Token::IntLiteral(v, l) => Token::IntLiteral(*v, *l),
            Token::CharLiteral(v, l) => Token::CharLiteral(*v, *l),
            Token::StringLiteral(s, l) => Token::StringLiteral(s.clone(), *l),
            Token::Ident(s, l) => Token::Ident(s.clone(), *l),
            Token::Int(l) => Token::Int(*l),
            Token::Char(l) => Token::Char(*l),
            Token::Void(l) => Token::Void(*l),
            Token::Struct(l) => Token::Struct(*l),
            Token::Const(l) => Token::Const(*l),
            Token::If(l) => Token::If(*l),
            Token::Else(l) => Token::Else(*l),
            Token::While(l) => Token::While(*l),
            Token::Do(l) => Token::Do(*l),
            Token::For(l) => Token::For(*l),
            Token::Switch(l) => Token::Switch(*l),
            Token::Case(l) => Token::Case(*l),
            Token::Default(l) => Token::Default(*l),
            Token::Break(l) => Token::Break(*l),
            Token::Continue(l) => Token::Continue(*l),
            Token::Return(l) => Token::Return(*l),
            Token::Goto(l) => Token::Goto(*l),
            Token::Sizeof(l) => Token::Sizeof(*l),
            Token::Null(l) => Token::Null(*l),
            Token::Plus(l) => Token::Plus(*l),
            Token::Minus(l) => Token::Minus(*l),
            Token::Star(l) => Token::Star(*l),
            Token::Slash(l) => Token::Slash(*l),
            Token::Percent(l) => Token::Percent(*l),
            Token::EqEq(l) => Token::EqEq(*l),
            Token::NotEq(l) => Token::NotEq(*l),
            Token::Lt(l) => Token::Lt(*l),
            Token::Le(l) => Token::Le(*l),
            Token::Gt(l) => Token::Gt(*l),
            Token::Ge(l) => Token::Ge(*l),
            Token::AndAnd(l) => Token::AndAnd(*l),
            Token::OrOr(l) => Token::OrOr(*l),
            Token::Bang(l) => Token::Bang(*l),
            Token::Amp(l) => Token::Amp(*l),
            Token::Pipe(l) => Token::Pipe(*l),
            Token::Caret(l) => Token::Caret(*l),
            Token::Tilde(l) => Token::Tilde(*l),
            Token::LtLt(l) => Token::LtLt(*l),
            Token::GtGt(l) => Token::GtGt(*l),
            Token::Eq(l) => Token::Eq(*l),
            Token::PlusEq(l) => Token::PlusEq(*l),
            Token::MinusEq(l) => Token::MinusEq(*l),
            Token::StarEq(l) => Token::StarEq(*l),
            Token::SlashEq(l) => Token::SlashEq(*l),
            Token::PercentEq(l) => Token::PercentEq(*l),
            Token::PlusPlus(l) => Token::PlusPlus(*l),
            Token::MinusMinus(l) => Token::MinusMinus(*l),
            Token::Dot(l) => Token::Dot(*l),
            Token::Arrow(l) => Token::Arrow(*l),
            Token::Question(l) => Token::Question(*l),
            Token::Colon(l) => Token::Colon(*l),
            Token::LParen(l) => Token::LParen(*l),
            Token::RParen(l) => Token::RParen(*l),
            Token::LBrace(l) => Token::LBrace(*l),
            Token::RBrace(l) => Token::RBrace(*l),
            Token::LBracket(l) => Token::LBracket(*l),
            Token::RBracket(l) => Token::RBracket(*l),
            Token::Semicolon(l) => Token::Semicolon(*l),
            Token::Comma(l) => Token::Comma(*l),
            Token::Eof(l) => Token::Eof(*l),
        }
    }

    /// The human-readable description of the token used in error messages.
    pub fn describe(&self) -> (r: String)
        ensures
            r@ == describe_token(self@),
    {
        match self {
            Token::IntLiteral(n, _) => {
                let mut s = String::from_str("int literal ");
                push_int(&mut s, *n as i64);
                s
            },
            Token::CharLiteral(c, _) => {
                let byte = *c as u8;
                if is_printable_byte(byte) {
                    let mut s = String::from_str("char literal '");
                    push_char(&mut s, byte as char);
                    s.append("'");
                    s
                } else {
                    let mut s = String::from_str("char literal '\\x");
                    push_hex_byte(&mut s, byte);
                    s.append("'");
                    s
                }
            },
            Token::StringLiteral(t, _) => {
                let mut s = String::from_str("string literal \"");
                s.append(t.as_str());
                s.append("\"");
                s
            },
            Token::Ident(t, _) => {
                let mut s = String::from_str("identifier '");
                s.append(t.as_str());
                s.append("'");
                s
            },
            Token::Int(_) => String::from_str("'int'"),
            Token::Char(_) => String::from_str("'char'"),
            Token::Void(_) => String::from_str("'void'"),
            Token::Struct(_) => String::from_str("'struct'"),
            Token::Const(_) => String::from_str("'const'"),
            Token::If(_) => String::from_str("'if'"),
            Token::Else(_) => String::from_str("'else'"),
            Token::While(_) => String::from_str("'while'"),
            Token::Do(_) => String::from_str("'do'"),
            Token::For(_) => String::from_str("'for'"),
            Token::Switch(_) => String::from_str("'switch'"),
            Token::Case(_) => String::from_str("'case'"),
            Token::Default(_) => String::from_str("'default'"),
            Token::Break(_) => String::from_str("'break'"),
            Token::Continue(_) => String::from_str("'continue'"),
            Token::Return(_) => String::from_str("'return'"),
            Token::Goto(_) => String::from_str("'goto'"),
            Token::Sizeof(_) => String::from_str("'sizeof'"),
            Token::Null(_) => String::from_str("'NULL'"),
            Token::Plus(_) => String::from_str("'+'"),
            Token::Minus(_) => String::from_str("'-'"),
            Token::Star(_) => String::from_str("'*'"),
            Token::Slash(_) => String::from_str("'/'"),
            Token::Percent(_) => String::from_str("'%'"),
            Token::EqEq(_) => String::from_str("'=='"),
            Token::NotEq(_) => String::from_str("'!='"),
            Token::Lt(_) => String::from_str("'<'"),
            Token::Le(_) => String::from_str("'<='"),
            Token::Gt(_) => String::from_str("'>'"),
            Token::Ge(_) => String::from_str("'>='"),
            Token::AndAnd(_) => String::from_str("'&&'"),
            Token::OrOr(_) => String::from_str("'||'"),
            Token::Bang(_) => String::from_str("'!'"),
            Token::Amp(_) => String::from_str("'&'"),
            Token::Pipe(_) => String::from_str("'|'"),
            Token::Caret(_) => String::from_str("'^'"),
            Token::Tilde(_) => String::from_str("'~'"),
            Token::LtLt(_) => String::from_str("'<<'"),
            Token::GtGt(_) => String::from_str("'>>'"),
            Token::Eq(_) => String::from_str("'='"),
            Token::PlusEq(_) => String::from_str("'+='"),
            Token::MinusEq(_) => String::from_str("'-='"),
            Token::StarEq(_) => String::from_str("'*='"),
            Token::SlashEq(_) => String::from_str("'/='"),
            Token::PercentEq(_) => String::from_str("'%='"),
            Token::PlusPlus(_) => String::from_str("'++'"),
            Token::MinusMinus(_) => String::from_str("'--'"),
            Token::Dot(_) => String::from_str("'.'"),
            Token::Arrow(_) => String::from_str("'->'"),
            Token::Question(_) => String::from_str("'?'"),
            Token::Colon(_) => String::from_str("':'"),
            Token::LParen(_) => String::from_str("'('"),
            Token::RParen(_) => String::from_str("')'"),
            Token::LBrace(_) => String::from_str("'{'"),
            Token::RBrace(_) => String::from_str("'}'"),
            Token::LBracket(_) => String::from_str("'['"),
            Token::RBracket(_) => String::from_str("']'"),
            Token::Semicolon(_) => String::from_str("';'"),
            Token::Comma(_) => String::from_str("','"),
            Token::Eof(_) => String::from_str("end of file"),
        }
    }
}


/// How a token is described in messages.
pub open spec fn describe_token(t: SpecToken) -> Seq<char> {
    match t {
        Token::IntLiteral(n, _) => "int literal "@ + int_text(n as int),
        Token::CharLiteral(c, _) => {
            let b = c as u8;
            if printable_byte(b) {
                "char literal '"@ + seq![b as char] + "'"@
            } else {
                "char literal '\\x"@ + hex_byte_text(b) + "'"@
            }
        },
        Token::StringLiteral(s, _) => "string literal \""@ + s + "\""@,
        Token::Ident(s, _) => "identifier '"@ + s + "'"@,
            Token::Int(_) => "'int'"@,
            Token::Char(_) => "'char'"@,
            Token::Void(_) => "'void'"@,
            Token::Struct(_) => "'struct'"@,
            Token::Const(_) => "'const'"@,
            Token::If(_) => "'if'"@,
            Token::Else(_) => "'else'"@,
            Token::While(_) => "'while'"@,
            Token::Do(_) => "'do'"@,
            Token::For(_) => "'for'"@,
            Token::Switch(_) => "'switch'"@,
            Token::Case(_) => "'case'"@,
            Token::Default(_) => "'default'"@,
            Token::Break(_) => "'break'"@,
            Token::Continue(_) => "'continue'"@,
            Token::Return(_) => "'return'"@,
            Token::Goto(_) => "'goto'"@,
            Token::Sizeof(_) => "'sizeof'"@,
            Token::Null(_) => "'NULL'"@,
            Token::Plus(_) => "'+'"@,
            Token::Minus(_) => "'-'"@,
            Token::Star(_) => "'*'"@,
            Token::Slash(_) => "'/'"@,
            Token::Percent(_) => "'%'"@,
            Token::EqEq(_) => "'=='"@,
            Token::NotEq(_) => "'!='"@,
            Token::Lt(_) => "'<'"@,
            Token::Le(_) => "'<='"@,
            Token::Gt(_) => "'>'"@,
            Token::Ge(_) => "'>='"@,
            Token::AndAnd(_) => "'&&'"@,
            Token::OrOr(_) => "'||'"@,
            Token::Bang(_) => "'!'"@,
            Token::Amp(_) => "'&'"@,
            Token::Pipe(_) => "'|'"@,
            Token::Caret(_) => "'^'"@,
            Token::Tilde(_) => "'~'"@,
            Token::LtLt(_) => "'<<'"@,
            Token::GtGt(_) => "'>>'"@,
            Token::Eq(_) => "'='"@,
            Token::PlusEq(_) => "'+='"@,
            Token::MinusEq(_) => "'-='"@,
            Token::StarEq(_) => "'*='"@,
            Token::SlashEq(_) => "'/='"@,
            Token::PercentEq(_) => "'%='"@,
            Token::PlusPlus(_) => "'++'"@,
            Token::MinusMinus(_) => "'--'"@,
            Token::Dot(_) => "'.'"@,
            Token::Arrow(_) => "'->'"@,
            Token::Question(_) => "'?'"@,
            Token::Colon(_) => "':'"@,
            Token::LParen(_) => "'('"@,
            Token::RParen(_) => "')'"@,
            Token::LBrace(_) => "'{'"@,
            Token::RBrace(_) => "'}'"@,
            Token::LBracket(_) => "'['"@,
            Token::RBracket(_) => "']'"@,
            Token::Semicolon(_) => "';'"@,
            Token::Comma(_) => "','"@,
            Token::Eof(_) => "end of file"@,
    }
}

} // verus!
