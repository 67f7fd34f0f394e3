//! Laws of the lexer: what an escape in a character literal stands for,
//! and that operator and keyword tokens are what was read.
use vstd::prelude::*;
use super::ast::SourceLocation;
use super::lex_spec::{char_value, keyword_or_ident, lex_char_value, lex_operator, loc_of, step, string_escape, LexPos};
use super::token::{describe_token, Token};

verus! {

/// In a character literal, an escape `\c` stands for the code of the same
/// character that `\c` stands for in a string literal (for each escape
/// both kinds of literal know: `\n`, `\t`, `\r`, `\\` and `\0`).
pub proof fn law_char_escape_is_string_escape(input: Seq<char>, q: LexPos)
    requires
        q.pos + 1 < input.len(),
        input[q.pos as int] == '\\',
        input[q.pos + 1int] != '"',
        string_escape(input[q.pos + 1int]) is Some,
    ensures
        lex_char_value(input, q) matches Ok((v, _)) && v == char_value(
            string_escape(input[q.pos + 1int])->Some_0,
        ),
{
    let e = input[q.pos + 1int];
    assert('\n' as u32 == 10u32);
    assert('\t' as u32 == 9u32);
    assert('\r' as u32 == 13u32);
    assert('\\' as u32 == 92u32);
    assert('\0' as u32 == 0u32);
}

/// The escape `\'` stands for the code of the quote character.
pub proof fn law_escaped_quote(input: Seq<char>, q: LexPos)
    requires
        q.pos + 1 < input.len(),
        input[q.pos as int] == '\\',
        input[q.pos + 1int] == '\'',
    ensures
        lex_char_value(input, q) matches Ok((v, _)) && v == char_value('\''),
{
    assert('\'' as u32 == 39u32);
}

/// A character other than a backslash stands for its own code.
pub proof fn law_plain_char(input: Seq<char>, q: LexPos)
    requires
        q.pos < input.len(),
        input[q.pos as int] != '\\',
    ensures
        lex_char_value(input, q) matches Ok((v, _)) && v == char_value(input[q.pos as int]),
{
}


/// An operator or punctuation token is described by exactly the characters
/// the lexer consumed for it, in quotes: the lexer reads `<=` as the token
/// for `<=`, `->` as the arrow, and so on.
pub proof fn law_operator_token_is_what_was_read(input: Seq<char>, p: LexPos)
    requires
        p.pos < input.len(),
        lex_operator(input, input[p.pos as int], step(input, p), loc_of(p)) is Some,
    ensures
        lex_operator(input, input[p.pos as int], step(input, p), loc_of(p)) matches Some((t, r)) && p.pos
            < r.pos <= input.len() && describe_token(t) == seq!['\''] + input.subrange(
            p.pos as int,
            r.pos as int,
        ) + seq!['\''],
{
    reveal_strlit("'!'");
    reveal_strlit("'!='");
    reveal_strlit("'%'");
    reveal_strlit("'%='");
    reveal_strlit("'&&'");
    reveal_strlit("'&'");
    reveal_strlit("'('");
    reveal_strlit("')'");
    reveal_strlit("'*'");
    reveal_strlit("'*='");
    reveal_strlit("'+'");
    reveal_strlit("'++'");
    reveal_strlit("'+='");
    reveal_strlit("','");
    reveal_strlit("'-'");
    reveal_strlit("'--'");
    reveal_strlit("'-='");
    reveal_strlit("'->'");
    reveal_strlit("'.'");
    reveal_strlit("'/'");
    reveal_strlit("'/='");
    reveal_strlit("':'");
    reveal_strlit("';'");
    reveal_strlit("'<'");
    reveal_strlit("'<<'");
    reveal_strlit("'<='");
    reveal_strlit("'='");
    reveal_strlit("'=='");
    reveal_strlit("'>'");
    reveal_strlit("'>='");
    reveal_strlit("'>>'");
    reveal_strlit("'?'");
    reveal_strlit("'['");
    reveal_strlit("']'");
    reveal_strlit("'^'");
    reveal_strlit("'{'");
    reveal_strlit("'|'");
    reveal_strlit("'||'");
    reveal_strlit("'}'");
    reveal_strlit("'~'");
    let c = input[p.pos as int];
    let q = step(input, p);
    let (t, r) = lex_operator(input, c, q, loc_of(p))->Some_0;
    if r.pos == q.pos {
        assert(input.subrange(p.pos as int, r.pos as int) =~= seq![c]);
    } else {
        assert(input.subrange(p.pos as int, r.pos as int) =~= seq![c, input[q.pos as int]]);
    }
    assert(describe_token(t) =~= seq!['\''] + input.subrange(p.pos as int, r.pos as int) + seq!['\'']);
}

/// A keyword token is described by the word it was read from, in quotes;
/// a word that is no keyword is an identifier with that text.
pub proof fn law_keywords_are_what_was_read(text: Seq<char>, loc: SourceLocation)
    ensures
        keyword_or_ident(text, loc) matches Token::Ident(s, l) ==> s == text && l == loc,
        !(keyword_or_ident(text, loc) is Ident) ==> describe_token(keyword_or_ident(text, loc)) == seq![
            '\'',
        ] + text + seq!['\''],
{
    reveal_strlit("'int'");
    reveal_strlit("int");
    reveal_strlit("'char'");
    reveal_strlit("char");
    reveal_strlit("'void'");
    reveal_strlit("void");
    reveal_strlit("'struct'");
    reveal_strlit("struct");
    reveal_strlit("'const'");
    reveal_strlit("const");
    reveal_strlit("'if'");
    reveal_strlit("if");
    reveal_strlit("'else'");
    reveal_strlit("else");
    reveal_strlit("'while'");
    reveal_strlit("while");
    reveal_strlit("'do'");
    reveal_strlit("do");
    reveal_strlit("'for'");
    reveal_strlit("for");
    reveal_strlit("'switch'");
    reveal_strlit("switch");
    reveal_strlit("'case'");
    reveal_strlit("case");
    reveal_strlit("'default'");
    reveal_strlit("default");
    reveal_strlit("'break'");
    reveal_strlit("break");
    reveal_strlit("'continue'");
    reveal_strlit("continue");
    reveal_strlit("'return'");
    reveal_strlit("return");
    reveal_strlit("'goto'");
    reveal_strlit("goto");
    reveal_strlit("'sizeof'");
    reveal_strlit("sizeof");
    reveal_strlit("'NULL'");
    reveal_strlit("NULL");
    assert(describe_token(keyword_or_ident(text, loc)) =~= seq!['\''] + text + seq!['\'']
        || keyword_or_ident(text, loc) is Ident);
}

} // verus!
