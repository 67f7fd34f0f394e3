//! The source pane: syntax highlighting of a line of C, and scrolling that
//! keeps the current line at a steady row.
//!
//! Highlighting uses a simple character-by-character tokenizer rather than
//! the full lexer: `//` comments, string literals, words and single
//! symbols.
use vstd::prelude::*;
use super::heap::max_scroll;
use crate::parser::lexer::text_is;
use crate::text::{chars_of, decimal_digits, push_char, push_decimal};

verus! {

/// Scroll state for the source pane
#[derive(Debug, Clone, Copy, Default)]
pub struct SourceScrollState {
    pub offset: usize,
    pub target_line_row: Option<usize>,
}

/// The row the current line is kept at: the one chosen before (at first the
/// middle of the window), within the window.
pub open spec fn target_row(chosen: Option<usize>, height: usize) -> usize {
    let row = match chosen {
        Some(r) => r,
        None => height / 2,
    };
    let last = if height > 0 {
        (height - 1) as usize
    } else {
        0
    };
    if row < last {
        row
    } else {
        last
    }
}

/// The offset that puts 1-based line `line` at row `row`, kept within range;
/// unchanged when the line is not in the source.
pub open spec fn source_offset(offset: usize, line: usize, total: usize, height: usize, row: usize) -> usize {
    if line > 0 && line <= total {
        let want: usize = if line - 1 > row {
            (line - 1 - row) as usize
        } else {
            0
        };
        if want < max_scroll(total, height) {
            want
        } else {
            max_scroll(total, height)
        }
    } else {
        offset
    }
}

impl SourceScrollState {
    /// Scroll so that `current_line` (1-based) of `total_lines` sits at the
    /// target row of a window of `visible_height` rows.
    pub fn follow(&mut self, current_line: usize, total_lines: usize, visible_height: usize)
        ensures
            final(self).target_line_row == Some(
                target_row(old(self).target_line_row, visible_height),
            ),
            final(self).offset == source_offset(
                old(self).offset,
                current_line,
                total_lines,
                visible_height,
                target_row(old(self).target_line_row, visible_height),
            ),
    {
        let chosen = match self.target_line_row {
            Some(r) => r,
            None => visible_height / 2,
        };
        let last = if visible_height > 0 {
            visible_height - 1
        } else {
            0
        };
        let row = if chosen < last {
            chosen
        } else {
            last
        };
        self.target_line_row = Some(row);
        if current_line > 0 && current_line <= total_lines {
            let idx = current_line - 1;
            self.offset = if idx > row {
                idx - row
            } else {
                0
            };
            if total_lines > visible_height {
                let max_scroll = total_lines - visible_height;
                if self.offset > max_scroll {
                    self.offset = max_scroll;
                }
            } else {
                self.offset = 0;
            }
        }
    }
}

/// Following a line of the source keeps it on screen: after scrolling, the
/// window of `height` rows shows line `line` (from 1), at the row chosen
/// for it unless the window would pass an end of the source.
pub proof fn law_current_line_visible(offset: usize, line: usize, total: usize, height: usize, chosen: Option<usize>)
    requires
        1 <= line <= total,
        height >= 1,
    ensures
        source_offset(offset, line, total, height, target_row(chosen, height)) <= line - 1,
        line - 1 < source_offset(offset, line, total, height, target_row(chosen, height)) + height,
{
}

/// What a piece of a highlighted line is, which decides its style.
#[derive(Debug, Clone, Copy, PartialEq, Eq, Structural)]
pub enum Highlight {
    /// A word cut short by a comment or a string literal, left unstyled
    Plain,
    Comment,
    StringLiteral,
    /// `{ } ( ) [ ]`
    Bracket,
    /// `; , .` and the operator characters `+ - * / = & | ! < >`
    Punctuation,
    /// Any other character that is not part of a word, left unstyled
    OtherSymbol,
    TypeName,
    Keyword,
    /// `NULL`
    Constant,
    /// A word followed by `(`
    FunctionName,
    Identifier,
}

/// Unicode's alphabetic-or-numeric property of a character.
pub uninterp spec fn alphanumeric(c: char) -> bool;

/// An ASCII letter or digit.
pub open spec fn ascii_alphanumeric(c: char) -> bool {
    ('a' <= c <= 'z') || ('A' <= c <= 'Z') || ('0' <= c <= '9')
}

/// std's `char::is_alphanumeric`: whether the character is alphabetic or
/// numeric in Unicode; on ASCII, exactly the letters and digits.
#[verifier::external_body]
fn is_alphanumeric(c: char) -> (r: bool)
    ensures
        r == alphanumeric(c),
        (c as u32) < 128 ==> (r == ascii_alphanumeric(c)),
{
    c.is_alphanumeric()
}

/// A character that belongs to a word.
pub open spec fn word_char(c: char) -> bool {
    alphanumeric(c) || c == '_'
}

/// How a word is highlighted: type names, keywords and `NULL` by what they
/// are, other words as functions where `(` follows them, else as
/// identifiers.
pub open spec fn word_highlight(w: Seq<char>, is_function: bool) -> Highlight {
    if w == "int"@ || w == "char"@ || w == "void"@ || w == "bool"@ || w == "float"@ || w
        == "double"@ || w == "long"@ || w == "short"@ || w == "unsigned"@ || w == "signed"@ {
        Highlight::TypeName
    } else if w == "struct"@ || w == "return"@ || w == "if"@ || w == "else"@ || w == "while"@ || w
        == "for"@ || w == "do"@ || w == "switch"@ || w == "case"@ || w == "default"@ || w
        == "break"@ || w == "continue"@ || w == "goto"@ || w == "sizeof"@ {
        Highlight::Keyword
    } else if w == "NULL"@ {
        Highlight::Constant
    } else if is_function {
        Highlight::FunctionName
    } else {
        Highlight::Identifier
    }
}

/// How a character outside words is highlighted.
pub open spec fn symbol_highlight(c: char) -> Highlight {
    if c == '{' || c == '}' || c == '(' || c == ')' || c == '[' || c == ']' {
        Highlight::Bracket
    } else if c == ';' || c == ',' || c == '.' || c == '+' || c == '-' || c == '*' || c == '/' || c
        == '=' || c == '&' || c == '|' || c == '!' || c == '<' || c == '>' {
        Highlight::Punctuation
    } else {
        Highlight::OtherSymbol
    }
}

fn words_highlight(word: &String, is_function: bool) -> (r: Highlight)
    ensures
        r == word_highlight(word@, is_function),
{
    if text_is(word, "int") || text_is(word, "char") || text_is(word, "void") || text_is(word, "bool")
        || text_is(word, "float") || text_is(word, "double") || text_is(word, "long") || text_is(
        word,
        "short",
    ) || text_is(word, "unsigned") || text_is(word, "signed") {
        Highlight::TypeName
    } else if text_is(word, "struct") || text_is(word, "return") || text_is(word, "if") || text_is(
        word,
        "else",
    ) || text_is(word, "while") || text_is(word, "for") || text_is(word, "do") || text_is(
        word,
        "switch",
    ) || text_is(word, "case") || text_is(word, "default") || text_is(word, "break") || text_is(
        word,
        "continue",
    ) || text_is(word, "goto") || text_is(word, "sizeof") {
        Highlight::Keyword
    } else if text_is(word, "NULL") {
        Highlight::Constant
    } else if is_function {
        Highlight::FunctionName
    } else {
        Highlight::Identifier
    }
}

fn symbols_highlight(c: char) -> (r: Highlight)
    ensures
        r == symbol_highlight(c),
{
    if c == '{' || c == '}' || c == '(' || c == ')' || c == '[' || c == ']' {
        Highlight::Bracket
    } else if c == ';' || c == ',' || c == '.' || c == '+' || c == '-' || c == '*' || c == '/' || c
        == '=' || c == '&' || c == '|' || c == '!' || c == '<' || c == '>' {
        Highlight::Punctuation
    } else {
        Highlight::OtherSymbol
    }
}

/// Where a string literal whose text starts at `e` ends: at the closing
/// quote, a backslash skipping the character after it, or past the line.
pub open spec fn closing_quote(cs: Seq<char>, e: int) -> int
    decreases cs.len() + 1 - e,
{
    if e < 0 || e >= cs.len() || cs[e] == '"' {
        e
    } else if cs[e] == '\\' {
        closing_quote(cs, e + 2)
    } else {
        closing_quote(cs, e + 1)
    }
}

/// The end of a string literal is no earlier than where its text starts,
/// and at most one past the line.
pub proof fn lemma_closing_bounds(cs: Seq<char>, e: int)
    requires
        0 <= e <= cs.len() + 1,
    ensures
        e <= closing_quote(cs, e) <= cs.len() + 1,
    decreases cs.len() + 1 - e,
{
    if e < cs.len() && cs[e] != '"' {
        if cs[e] == '\\' {
            lemma_closing_bounds(cs, e + 2);
        } else {
            lemma_closing_bounds(cs, e + 1);
        }
    }
}

/// A pending word as a piece, in the given style.
pub open spec fn word_piece(w: Seq<char>, h: Highlight) -> Seq<(Seq<char>, Highlight)> {
    if w.len() == 0 {
        Seq::empty()
    } else {
        seq![(w, h)]
    }
}

/// The highlighted pieces of a line from character `i` on, with the word
/// `word` pending. A `//` comment runs to the end of the line; a string
/// literal runs to its closing quote (a backslash skips the character after
/// it) or to the end of the line. Both are cut from the line's characters.
pub open spec fn pieces_from(cs: Seq<char>, i: int, word: Seq<char>) -> Seq<(Seq<char>, Highlight)>
    decreases cs.len() + 1 - i,
{
    if i < 0 || i >= cs.len() {
        word_piece(word, word_highlight(word, false))
    } else {
        let c = cs[i];
        if c == '/' && i + 1 < cs.len() && cs[i + 1] == '/' {
            word_piece(word, Highlight::Plain).push((cs.subrange(i, cs.len() as int), Highlight::Comment))
        } else if c == '"' {
            let close = closing_quote(cs, i + 1);
            let end = if close < cs.len() {
                close + 1
            } else {
                close
            };
            proof {
                lemma_closing_bounds(cs, i + 1);
            }
            word_piece(word, Highlight::Plain).push(
                (cs.subrange(i, if end <= cs.len() { end } else { cs.len() as int }), Highlight::StringLiteral),
            ) + pieces_from(cs, end, Seq::empty())
        } else if !word_char(c) {
            word_piece(word, word_highlight(word, c == '(')).push((seq![c], symbol_highlight(c)))
                + pieces_from(cs, i + 1, Seq::empty())
        } else {
            pieces_from(cs, i + 1, word.push(c))
        }
    }
}

/// The highlighted pieces of a line.
pub open spec fn line_pieces(line: Seq<char>) -> Seq<(Seq<char>, Highlight)> {
    pieces_from(line, 0, Seq::empty())
}

/// The characters of a line from `a` up to `b`.
fn chars_text(chars: &Vec<char>, a: usize, b: usize) -> (r: String)
    requires
        a <= b <= chars@.len(),
    ensures
        r@ == chars@.subrange(a as int, b as int),
{
    let mut r = String::new();
    let mut k: usize = a;
    assert(r@ =~= chars@.subrange(a as int, a as int));
    while k < b
        invariant
            a <= k <= b <= chars@.len(),
            r@ == chars@.subrange(a as int, k as int),
        decreases b - k,
    {
        push_char(&mut r, chars[k]);
        k = k + 1;
        assert(r@ =~= chars@.subrange(a as int, k as int));
    }
    r
}

/// The pieces as text and highlight.
pub open spec fn pieces_of(v: Seq<(String, Highlight)>) -> Seq<(Seq<char>, Highlight)> {
    v.map_values(|p: (String, Highlight)| (p.0@, p.1))
}

proof fn lemma_pieces_push(v: Seq<(String, Highlight)>, p: (String, Highlight))
    ensures
        pieces_of(v.push(p)) == pieces_of(v).push((p.0@, p.1)),
{
    assert(pieces_of(v.push(p)) =~= pieces_of(v).push((p.0@, p.1)));
}

/// Adds a pending word as a piece, in the given style.
fn flush_word(spans: &mut Vec<(String, Highlight)>, word: &String, h: Highlight)
    ensures
        pieces_of(final(spans)@) == pieces_of(old(spans)@) + word_piece(word@, h),
{
    if !word.as_str().is_empty() {
        let copy = word.clone();
        proof {
            lemma_pieces_push(spans@, (copy, h));
        }
        spans.push((copy, h));
    } else {
        assert(pieces_of(spans@) + word_piece(word@, h) =~= pieces_of(spans@));
    }
}

/// Adds a piece.
fn push_piece(spans: &mut Vec<(String, Highlight)>, text: String, h: Highlight)
    ensures
        pieces_of(final(spans)@) == pieces_of(old(spans)@).push((text@, h)),
{
    proof {
        lemma_pieces_push(spans@, (text, h));
    }
    spans.push((text, h));
}

/// Simple syntax highlighting for a line of C code: the line cut into
/// pieces, each with what it is.
pub fn highlight_source_code(line: &str) -> (r: Vec<(String, Highlight)>)
    ensures
        pieces_of(r@) == line_pieces(line@),
{
    let chars = chars_of(line);
    let mut spans: Vec<(String, Highlight)> = Vec::new();
    let mut current_word = String::new();
    let mut i: usize = 0;
    proof {
        assert(pieces_of(spans@) =~= Seq::<(Seq<char>, Highlight)>::empty());
        assert(Seq::<(Seq<char>, Highlight)>::empty() + line_pieces(line@) =~= line_pieces(line@));
    }
    while i < chars.len()
        invariant
            chars@ == line@,
            chars@.len() <= isize::MAX,
            i <= chars@.len() + 1,
            line_pieces(line@) == pieces_of(spans@) + pieces_from(chars@, i as int, current_word@),
        decreases chars@.len() + 1 - i,
    {
        let ghost before = pieces_of(spans@);
        let ghost w = current_word@;
        let c = chars[i];
        if c == '/' && i + 1 < chars.len() && chars[i + 1] == '/' {
            proof {
                assert(chars@[i as int] == '/' && chars@[i + 1] == '/');
            }
            flush_word(&mut spans, &current_word, Highlight::Plain);
            let t = chars_text(&chars, i, chars.len());
            push_piece(&mut spans, t, Highlight::Comment);
            proof {
                assert(pieces_of(spans@) =~= before + word_piece(w, Highlight::Plain).push(
                    (t@, Highlight::Comment),
                ));
            }
            return spans;
        }
        if c == '"' {
            let mut end: usize = i + 1;
            while end < chars.len() && chars[end] != '"'
                invariant
                    chars@ == line@,
                    chars@.len() <= isize::MAX,
                    i + 1 <= end <= chars@.len() + 1,
                    closing_quote(chars@, end as int) == closing_quote(chars@, i + 1),
                decreases chars@.len() + 1 - end,
            {
                if chars[end] == '\\' {
                    end = end + 2;
                } else {
                    end = end + 1;
                }
            }
            assert(closing_quote(chars@, end as int) == end);
            if end < chars.len() {
                end = end + 1;
            }
            proof {
                assert(chars@[i as int] == '"');
            }
            flush_word(&mut spans, &current_word, Highlight::Plain);
            let stop = if end <= chars.len() {
                end
            } else {
                chars.len()
            };
            let t = chars_text(&chars, i, stop);
            push_piece(&mut spans, t, Highlight::StringLiteral);
            current_word = String::new();
            proof {
                let piece = word_piece(w, Highlight::Plain).push((t@, Highlight::StringLiteral));
                let rest = pieces_from(chars@, end as int, Seq::empty());
                assert(before + (piece + rest) =~= (before + piece) + rest);
                assert(pieces_of(spans@) =~= before + word_piece(w, Highlight::Plain).push(
                    (t@, Highlight::StringLiteral),
                ));
                assert(current_word@ =~= Seq::<char>::empty());
            }
            i = end;
        } else if !is_alphanumeric(c) && c != '_' {
            let is_func = c == '(';
            let style = words_highlight(&current_word, is_func);
            flush_word(&mut spans, &current_word, style);
            current_word = String::new();
            let mut symbol = String::new();
            push_char(&mut symbol, c);
            push_piece(&mut spans, symbol, symbols_highlight(c));
            proof {
                assert(symbol@ =~= seq![c]);
                let piece = word_piece(w, word_highlight(w, c == '(')).push((seq![c], symbol_highlight(c)));
                let rest = pieces_from(chars@, i + 1, Seq::empty());
                assert(before + (piece + rest) =~= (before + piece) + rest);
                assert(pieces_of(spans@) =~= before + word_piece(w, word_highlight(w, c == '(')).push(
                    (seq![c], symbol_highlight(c)),
                ));
                assert(current_word@ =~= Seq::<char>::empty());
            }
            i = i + 1;
        } else {
            push_char(&mut current_word, c);
            i = i + 1;
        }
    }
    let ghost before = pieces_of(spans@);
    let style = words_highlight(&current_word, false);
    flush_word(&mut spans, &current_word, style);
    proof {
        assert(before + word_piece(current_word@, style) =~= pieces_of(spans@));
        assert(pieces_from(chars@, i as int, current_word@) == word_piece(current_word@, style));
    }
    spans
}

/// The parts of a text between its '\n's: one more than it has of them.
pub open spec fn segments(s: Seq<char>) -> Seq<Seq<char>>
    decreases s.len(),
{
    if s.len() == 0 {
        seq![Seq::empty()]
    } else {
        let prev = segments(s.drop_last());
        if s.last() == '\n' {
            prev.push(Seq::empty())
        } else {
            prev.update(prev.len() - 1, prev.last().push(s.last()))
        }
    }
}

/// A line without the '\r' of a "\r\n" ending.
pub open spec fn without_cr(t: Seq<char>) -> Seq<char> {
    if t.len() > 0 && t.last() == '\r' {
        t.drop_last()
    } else {
        t
    }
}

/// The lines of a text as `str::lines` gives them: split at each '\n', a
/// '\r' right before a '\n' dropped, and no empty line after a final '\n'.
pub open spec fn text_lines(s: Seq<char>) -> Seq<Seq<char>> {
    let segs = segments(s);
    let n: int = if segs.last().len() == 0 {
        segs.len() - 1
    } else {
        segs.len() as int
    };
    Seq::new(
        n as nat,
        |k: int|
            if k < segs.len() - 1 {
                without_cr(segs[k])
            } else {
                segs[k]
            },
    )
}

proof fn lemma_segments_len(s: Seq<char>)
    ensures
        segments(s).len() >= 1,
    decreases s.len(),
{
    if s.len() > 0 {
        lemma_segments_len(s.drop_last());
    }
}

/// The text of each string.
pub open spec fn line_texts(v: Seq<String>) -> Seq<Seq<char>> {
    v.map_values(|x: String| x@)
}

/// The lines of a text.
pub(crate) fn split_lines(source: &str) -> (r: Vec<String>)
    ensures
        line_texts(r@) == text_lines(source@),
{
    let chars = chars_of(source);
    let ghost s = source@;
    let mut done: Vec<String> = Vec::new();
    let ghost mut raw: Seq<Seq<char>> = Seq::empty();
    let mut cur = String::new();
    let mut i: usize = 0;
    assert(s.take(0) =~= Seq::<char>::empty());
    assert(segments(s.take(0)) =~= raw.push(cur@));
    while i < chars.len()
        invariant
            chars@ == s,
            0 <= i <= s.len(),
            segments(s.take(i as int)) == raw.push(cur@),
            done@.len() == raw.len(),
            forall|k: int| 0 <= k < raw.len() ==> (#[trigger] done@[k])@ == without_cr(raw[k]),
        decreases s.len() - i,
    {
        let c = chars[i];
        assert(s.take(i + 1).drop_last() =~= s.take(i as int));
        assert(s.take(i + 1).last() == c);
        if c == '\n' {
            let ghost old_raw = raw;
            let ghost line = cur@;
            let mut finished = cur;
            let n = finished.unicode_len();
            if n > 0 && finished.as_str().get_char(n - 1) == '\r' {
                let mut stripped = String::new();
                let mut j: usize = 0;
                while j + 1 < n
                    invariant
                        n == line.len(),
                        finished@ == line,
                        0 <= j < n,
                        stripped@ == line.take(j as int),
                    decreases n - j,
                {
                    push_char(&mut stripped, finished.as_str().get_char(j));
                    j = j + 1;
                    assert(stripped@ =~= line.take(j as int));
                }
                assert(line.take(j as int) =~= line.drop_last());
                finished = stripped;
            }
            assert(finished@ == without_cr(line));
            done.push(finished);
            proof {
                raw = old_raw.push(line);
            }
            cur = String::new();
            assert(segments(s.take(i + 1)) =~= raw.push(cur@));
        } else {
            let ghost before = cur@;
            push_char(&mut cur, c);
            assert(segments(s.take(i + 1)) =~= raw.push(cur@));
        }
        i = i + 1;
    }
    assert(s.take(s.len() as int) =~= s);
    if cur.unicode_len() > 0 {
        let ghost last = cur@;
        done.push(cur);
        assert(line_texts(done@) =~= text_lines(s)) by {
            assert forall|k: int| 0 <= k < raw.len() implies done@[k]@ == without_cr(raw[k]) by {}
        }
    } else {
        assert(line_texts(done@) =~= text_lines(s));
    }
    done
}

/// Where a line stands: in an error, waiting for input, the current line,
/// or none of these.
#[derive(Debug, Clone, Copy, PartialEq, Eq, Structural)]
pub enum LineMark {
    Error,
    Scanf,
    Current,
    Normal,
}

/// The color role of a piece of the source pane.
#[derive(Debug, Clone, Copy, PartialEq, Eq, Structural)]
pub enum SourceTone {
    /// A line number, in the color of its line's mark
    LineNumber(LineMark),
    /// Highlighted code
    Code(Highlight),
    /// Highlighted code over the background of the current line, marked as
    /// waiting for input or not
    Emphasized(Highlight, LineMark),
    /// Code in the error colors
    ErrorCode,
}

/// A line of the source pane.
pub type SourceLine = Vec<(String, SourceTone)>;

pub open spec fn source_line_view(l: SourceLine) -> Seq<(Seq<char>, SourceTone)> {
    l@.map_values(|p: (String, SourceTone)| (p.0@, p.1))
}

pub open spec fn source_lines_view(v: Seq<SourceLine>) -> Seq<Seq<(Seq<char>, SourceTone)>> {
    v.map_values(|l: SourceLine| source_line_view(l))
}

/// The mark of a line number: an error or a wait for input marks every
/// line, else the current one stands out.
pub open spec fn line_mark(is_error: bool, is_scanf: bool, is_current: bool) -> LineMark {
    if is_error {
        LineMark::Error
    } else if is_scanf {
        LineMark::Scanf
    } else if is_current {
        LineMark::Current
    } else {
        LineMark::Normal
    }
}

/// The tone of highlighted code on a line: all in the error colors during
/// an error, over the current line's background on the current line.
pub open spec fn code_tone(h: Highlight, is_error: bool, is_scanf: bool, is_current: bool) -> SourceTone {
    if is_error {
        SourceTone::ErrorCode
    } else if is_current {
        SourceTone::Emphasized(h, if is_scanf {
            LineMark::Scanf
        } else {
            LineMark::Current
        })
    } else {
        SourceTone::Code(h)
    }
}

/// A line number right-aligned in four columns, and a blank.
pub open spec fn number_text(n: nat) -> Seq<char> {
    let d = decimal_digits(n);
    Seq::new(if d.len() < 4 {
        (4 - d.len()) as nat
    } else {
        0
    }, |i: int| ' ') + d + " "@
}

/// The pieces of line `n` (from 1) with text `text`: its number, then its
/// highlighted code.
pub open spec fn numbered_line(
    text: Seq<char>,
    n: nat,
    current_line: usize,
    is_error: bool,
    is_scanf: bool,
) -> Seq<(Seq<char>, SourceTone)> {
    let is_current = n == current_line;
    seq![(number_text(n), SourceTone::LineNumber(line_mark(is_error, is_scanf, is_current)))]
        + line_pieces(text).map_values(
        |p: (Seq<char>, Highlight)| (p.0, code_tone(p.1, is_error, is_scanf, is_current)),
    )
}

/// The rows of the source pane: the lines from `offset` on, at most
/// `height` of them.
pub open spec fn source_rows(
    lines: Seq<Seq<char>>,
    offset: usize,
    height: usize,
    current_line: usize,
    is_error: bool,
    is_scanf: bool,
) -> Seq<Seq<(Seq<char>, SourceTone)>> {
    let count: int = if offset >= lines.len() {
        0
    } else if lines.len() - offset < height {
        lines.len() - offset
    } else {
        height as int
    };
    Seq::new(
        count as nat,
        |j: int| numbered_line(lines[offset + j], (offset + j + 1) as nat, current_line, is_error, is_scanf),
    )
}

/// The rows a pane `area_height` high shows inside its borders, at least
/// one.
pub open spec fn pane_rows(area_height: u16) -> usize {
    if area_height > 3 {
        (area_height - 2) as usize
    } else {
        1
    }
}

fn number_string(n: usize) -> (r: String)
    ensures
        r@ == number_text(n as nat),
{
    let mut digits = String::new();
    push_decimal(&mut digits, n as u64);
    let len = digits.unicode_len();
    let pad: usize = if len < 4 {
        4 - len
    } else {
        0
    };
    let mut r = String::new();
    let mut k: usize = 0;
    assert(r@ =~= Seq::new(0, |i: int| ' '));
    while k < pad
        invariant
            0 <= k <= pad,
            r@ == Seq::new(k as nat, |i: int| ' '),
        decreases pad - k,
    {
        push_char(&mut r, ' ');
        k = k + 1;
        assert(r@ =~= Seq::new(k as nat, |i: int| ' '));
    }
    r.append(digits.as_str());
    r.append(" ");
    assert(r@ =~= number_text(n as nat));
    r
}

/// The row of line `n` (from 1).
fn numbered_row(text: &String, n: usize, current_line: usize, is_error: bool, is_scanf: bool) -> (r: SourceLine)
    ensures
        source_line_view(r) == numbered_line(text@, n as nat, current_line, is_error, is_scanf),
{
    let is_current = n == current_line;
    let mark = if is_error {
        LineMark::Error
    } else if is_scanf {
        LineMark::Scanf
    } else if is_current {
        LineMark::Current
    } else {
        LineMark::Normal
    };
    let mut row: SourceLine = Vec::new();
    row.push((number_string(n), SourceTone::LineNumber(mark)));
    let pieces = highlight_source_code(text.as_str());
    let ghost ps = line_pieces(text@);
    let mut k: usize = 0;
    while k < pieces.len()
        invariant
            pieces_of(pieces@) == ps,
            0 <= k <= pieces@.len(),
            row@.len() == k + 1,
            source_line_view(row)[0] == (number_text(n as nat), SourceTone::LineNumber(line_mark(is_error, is_scanf, is_current))),
            forall|j: int| 0 <= j < k ==> source_line_view(row)[j + 1] == (ps[j].0, code_tone(ps[j].1, is_error, is_scanf, is_current)),
        decreases pieces@.len() - k,
    {
        let h = pieces[k].1;
        let tone = if is_error {
            SourceTone::ErrorCode
        } else if is_current {
            SourceTone::Emphasized(h, if is_scanf {
                LineMark::Scanf
            } else {
                LineMark::Current
            })
        } else {
            SourceTone::Code(h)
        };
        let text_k = pieces[k].0.clone();
        assert(ps[k as int] == (pieces@[k as int].0@, pieces@[k as int].1));
        row.push((text_k, tone));
        k = k + 1;
    }
    assert(source_line_view(row) =~= numbered_line(text@, n as nat, current_line, is_error, is_scanf));
    row
}

/// The rows the source pane shows, `area_height` high with its borders,
/// after scrolling so that `current_line` (from 1) stays at the chosen row:
/// each line numbered and highlighted, in the error colors during an error,
/// the current line over its background.
pub fn render_source_pane(
    source_code: &str,
    current_line: usize,
    is_error: bool,
    is_scanf: bool,
    area_height: u16,
    scroll_state: &mut SourceScrollState,
) -> (r: Vec<SourceLine>)
    ensures
        final(scroll_state).target_line_row == Some(
            target_row(old(scroll_state).target_line_row, pane_rows(area_height)),
        ),
        final(scroll_state).offset == source_offset(
            old(scroll_state).offset,
            current_line,
            text_lines(source_code@).len() as usize,
            pane_rows(area_height),
            target_row(old(scroll_state).target_line_row, pane_rows(area_height)),
        ),
        source_lines_view(r@) == source_rows(
            text_lines(source_code@),
            final(scroll_state).offset,
            pane_rows(area_height),
            current_line,
            is_error,
            is_scanf,
        ),
{
    let lines = split_lines(source_code);
    let ghost ls = text_lines(source_code@);
    let total = lines.len();
    let height: usize = if area_height > 3 {
        (area_height - 2) as usize
    } else {
        1
    };
    scroll_state.follow(current_line, total, height);
    let offset = scroll_state.offset;
    let count: usize = if offset >= total {
        0
    } else if total - offset < height {
        total - offset
    } else {
        height
    };
    let mut rows: Vec<SourceLine> = Vec::new();
    let mut j: usize = 0;
    while j < count
        invariant
            line_texts(lines@) == ls,
            total == lines@.len(),
            count <= height,
            offset < total || count == 0,
            count == 0 || offset + count <= total,
            0 <= j <= count,
            rows@.len() == j,
            forall|q: int| 0 <= q < j ==> source_line_view(#[trigger] rows@[q]) == numbered_line(
                ls[offset + q],
                (offset + q + 1) as nat,
                current_line,
                is_error,
                is_scanf,
            ),
        decreases count - j,
    {
        let idx = offset + j;
        assert(lines@[idx as int]@ == ls[idx as int]);
        let row = numbered_row(&lines[idx], idx + 1, current_line, is_error, is_scanf);
        rows.push(row);
        j = j + 1;
    }
    assert(source_lines_view(rows@) =~= source_rows(ls, offset, height, current_line, is_error, is_scanf));
    rows
}

} // verus!
