//! The stack pane: the lines it shows for each call frame (its header, the
//! call chain that led to it, the return value, its variables), its
//! scrolling, and the splitting of long lines.
use vstd::prelude::*;
use vstd::string::StringSliceAdditionalSpecFns;
use vstd::utf8::{
    decode_utf8, encode_utf8, encode_utf8_decode_utf8, encode_utf8_valid_utf8, is_char_boundary,
    is_char_boundary_start_end_of_seq, valid_utf8,
};
use super::heap::follow_growth;
use super::utils::formatting::{format_type_annotation, format_value_styled, styled_value, type_text, Tone};
use super::utils::rendering::{
    address_string, address_text, blank_string, blanks, byte_len, elements_fit, elements_lines,
    fields_fit, fields_lines, lemma_stack_lines_push, pieces_width, push_piece, push_value_pieces,
    render_array_elements, render_struct_fields, room, stack_line_view, stack_lines_view, text_bytes,
    value_pieces, StackLine, StackTone,
};
use crate::interpreter::engine::FunctionDef;
use crate::memory::names::NameMap;
use crate::memory::stack::{InitState, LocalVar, Stack, StackFrame};
use crate::memory::value::Value;
use crate::parser::ast::StructDef;
use crate::text::{chars_of, decimal_digits, push_char, push_decimal};

verus! {

/// Scroll state for the stack pane
#[derive(Debug, Clone, Copy, Default)]
pub struct StackScrollState {
    pub offset: usize,
    pub prev_item_count: usize,
}

impl StackScrollState {
    /// Scroll for a list of `total_items` rows shown `visible_height` at a
    /// time: to the bottom when content grew, else keep the user's position,
    /// clamped.
    pub fn update(&mut self, total_items: usize, visible_height: usize)
        ensures
            final(self).offset == follow_growth(
                old(self).offset,
                old(self).prev_item_count,
                total_items,
                visible_height,
            ),
            final(self).prev_item_count == total_items,
    {
        if total_items > self.prev_item_count {
            if total_items > visible_height {
                self.offset = total_items - visible_height;
            } else {
                self.offset = 0;
            }
        } else {
            if total_items > visible_height {
                let max_scroll = total_items - visible_height;
                if self.offset > max_scroll {
                    self.offset = max_scroll;
                }
            } else {
                self.offset = 0;
            }
        }
        self.prev_item_count = total_items;
    }
}

/// The last character boundary at or before byte `i`.
pub open spec fn boundary_at_or_before(bytes: Seq<u8>, i: int) -> int
    decreases i,
{
    if i <= 0 || is_char_boundary(bytes, i) {
        if i <= 0 {
            0
        } else {
            i
        }
    } else {
        boundary_at_or_before(bytes, i - 1)
    }
}

/// The first character boundary at or after byte `i`.
pub open spec fn boundary_at_or_after(bytes: Seq<u8>, i: int) -> int
    decreases bytes.len() - i,
{
    if i >= bytes.len() || is_char_boundary(bytes, i) {
        if i >= bytes.len() {
            bytes.len() as int
        } else {
            i
        }
    } else {
        boundary_at_or_after(bytes, i + 1)
    }
}

/// Where a text of `bytes` is split to fit `max` bytes: nowhere when it
/// fits; else at the last character boundary within `max` bytes, or after
/// the first character when even that does not fit.
pub open spec fn split_index(bytes: Seq<u8>, max: int) -> int {
    if bytes.len() <= max {
        bytes.len() as int
    } else if boundary_at_or_before(bytes, max) == 0 {
        boundary_at_or_after(bytes, 1)
    } else {
        boundary_at_or_before(bytes, max)
    }
}

proof fn lemma_boundary_before(bytes: Seq<u8>, i: int)
    requires
        valid_utf8(bytes),
        0 <= i <= bytes.len(),
    ensures
        0 <= boundary_at_or_before(bytes, i) <= i,
        is_char_boundary(bytes, boundary_at_or_before(bytes, i)),
    decreases i,
{
    is_char_boundary_start_end_of_seq(bytes);
    if i > 0 && !is_char_boundary(bytes, i) {
        lemma_boundary_before(bytes, i - 1);
    }
}

proof fn lemma_boundary_after(bytes: Seq<u8>, i: int)
    requires
        valid_utf8(bytes),
        0 <= i <= bytes.len(),
    ensures
        i <= boundary_at_or_after(bytes, i) <= bytes.len(),
        is_char_boundary(bytes, boundary_at_or_after(bytes, i)),
    decreases bytes.len() - i,
{
    is_char_boundary_start_end_of_seq(bytes);
    if i < bytes.len() && !is_char_boundary(bytes, i) {
        lemma_boundary_after(bytes, i + 1);
    }
}

/// Split a string at a character boundary, ensuring we don't cut in the
/// middle of a char
pub fn split_at_char_boundary(s: &str, max_chars: usize) -> (r: (&str, &str))
    requires
        s.spec_bytes().len() <= usize::MAX,
    ensures
        r.0.spec_bytes() == s.spec_bytes().subrange(0, split_index(s.spec_bytes(), max_chars as int)),
        r.1.spec_bytes() == s.spec_bytes().subrange(
            split_index(s.spec_bytes(), max_chars as int),
            s.spec_bytes().len() as int,
        ),
{
    let ghost bytes = s.spec_bytes();
    proof {
        encode_utf8_valid_utf8(s@);
        is_char_boundary_start_end_of_seq(bytes);
    }
    let len = s.len();
    if len <= max_chars {
        proof {
            reveal_strlit("");
            assert(bytes.subrange(0, bytes.len() as int) =~= bytes);
            assert(bytes.subrange(bytes.len() as int, bytes.len() as int) =~= Seq::<u8>::empty());
            assert(""@ =~= Seq::<char>::empty());
            assert(vstd::utf8::encode_utf8(Seq::<char>::empty()) =~= Seq::<u8>::empty());
        }
        return (s, "");
    }
    // Find the last valid char boundary at or before max_chars
    let mut end = if max_chars < len {
        max_chars
    } else {
        len
    };
    while end > 0 && !s.is_char_boundary(end)
        invariant
            valid_utf8(bytes),
            bytes == s.spec_bytes(),
            len == bytes.len(),
            max_chars < len,
            0 <= end <= max_chars,
            boundary_at_or_before(bytes, end as int) == boundary_at_or_before(bytes, max_chars as int),
        decreases end,
    {
        end = end - 1;
    }
    proof {
        lemma_boundary_before(bytes, end as int);
    }
    if end == 0 {
        // Edge case: first char is wider than max_chars, just take it
        let mut first_char_end: usize = 1;
        while first_char_end < len && !s.is_char_boundary(first_char_end)
            invariant
                valid_utf8(bytes),
                bytes == s.spec_bytes(),
                len == bytes.len(),
                1 <= first_char_end <= len,
                boundary_at_or_after(bytes, first_char_end as int) == boundary_at_or_after(bytes, 1),
            decreases len - first_char_end,
        {
            first_char_end = first_char_end + 1;
        }
        proof {
            lemma_boundary_after(bytes, first_char_end as int);
        }
        s.split_at(first_char_end)
    } else {
        s.split_at(end)
    }
}

/// Whether a character has Unicode's White_Space property (what
/// `char::is_whitespace` tests): tab through carriage return, space, next
/// line, no-break space, ogham space mark, the spaces from en quad to hair
/// space, line and paragraph separators, narrow no-break space, medium
/// mathematical space and ideographic space.
pub open spec fn white_space(c: char) -> bool {
    let u = c as u32;
    ||| 0x09 <= u <= 0x0D
    ||| u == 0x20
    ||| u == 0x85
    ||| u == 0xA0
    ||| u == 0x1680
    ||| 0x2000 <= u <= 0x200A
    ||| u == 0x2028
    ||| u == 0x2029
    ||| u == 0x202F
    ||| u == 0x205F
    ||| u == 0x3000
}

/// Whether a character is white space.
fn is_whitespace(c: char) -> (r: bool)
    ensures
        r == white_space(c),
{
    let u = c as u32;
    (0x09 <= u && u <= 0x0D) || u == 0x20 || u == 0x85 || u == 0xA0 || u == 0x1680 || (0x2000 <= u
        && u <= 0x200A) || u == 0x2028 || u == 0x2029 || u == 0x202F || u == 0x205F || u == 0x3000
}

/// A text without its leading white space.
pub open spec fn trim_start(s: Seq<char>) -> Seq<char>
    decreases s.len(),
{
    if s.len() > 0 && white_space(s[0]) {
        trim_start(s.drop_first())
    } else {
        s
    }
}

/// A text without its trailing white space.
pub open spec fn trim_end(s: Seq<char>) -> Seq<char>
    decreases s.len(),
{
    if s.len() > 0 && white_space(s.last()) {
        trim_end(s.drop_last())
    } else {
        s
    }
}

/// A text without its leading and trailing white space.
pub open spec fn trim_text(s: Seq<char>) -> Seq<char> {
    trim_end(trim_start(s))
}

/// Where the line `k` lines after the one at position `i` starts, when the
/// text has it.
pub open spec fn line_start(s: Seq<char>, i: int, k: nat) -> Option<int>
    decreases s.len() - i,
{
    if i < 0 || i >= s.len() {
        None
    } else if k == 0 {
        Some(i)
    } else if s[i] == '\n' {
        line_start(s, i + 1, (k - 1) as nat)
    } else {
        line_start(s, i + 1, k)
    }
}

/// Where the line running through position `i` ends: at the next '\n', or
/// at the end of the text.
pub open spec fn line_end(s: Seq<char>, i: int) -> int
    decreases s.len() - i,
{
    if i < 0 || i >= s.len() {
        s.len() as int
    } else if s[i] == '\n' {
        i
    } else {
        line_end(s, i + 1)
    }
}

/// Line `k` of a text, counted from 0: lines end at each '\n', and a final
/// '\n' ends the last line rather than starting another.
pub open spec fn nth_line(s: Seq<char>, k: nat) -> Option<Seq<char>> {
    match line_start(s, 0, k) {
        Some(a) => Some(s.subrange(a, line_end(s, a))),
        None => None,
    }
}

/// What a call site shows of the source: its line (numbered from 1)
/// trimmed, or "???" when the source has no such line.
pub open spec fn call_site_text(source: Seq<char>, line: usize) -> Seq<char> {
    match nth_line(source, if line > 0 { (line - 1) as nat } else { 0 }) {
        Some(t) => trim_text(t),
        None => "???"@,
    }
}

/// Line `k` of a text, counted from 0.
fn source_line(source: &Vec<char>, k: usize) -> (r: Option<Vec<char>>)
    ensures
        match nth_line(source@, k as nat) {
            Some(t) => r matches Some(v) && v@ == t,
            None => r is None,
        },
{
    let n = source.len();
    let mut i: usize = 0;
    let mut left: usize = k;
    while i < n && left > 0
        invariant
            0 <= i <= n,
            n == source@.len(),
            line_start(source@, 0, k as nat) == line_start(source@, i as int, left as nat),
        decreases n - i,
    {
        if source[i] == '\n' {
            left = left - 1;
        }
        i = i + 1;
    }
    if i >= n {
        return None;
    }
    let mut line: Vec<char> = Vec::new();
    let mut j: usize = i;
    while j < n && source[j] != '\n'
        invariant
            i <= j <= n,
            n == source@.len(),
            line@ == source@.subrange(i as int, j as int),
            line_end(source@, i as int) == line_end(source@, j as int),
        decreases n - j,
    {
        line.push(source[j]);
        j = j + 1;
    }
    Some(line)
}

/// A text without its leading and trailing white space.
pub(crate) fn trim_chars(s: &Vec<char>) -> (r: String)
    ensures
        r@ == trim_text(s@),
{
    let n = s.len();
    let mut a: usize = 0;
    assert(s@.skip(0) =~= s@);
    while a < n && is_whitespace(s[a])
        invariant
            0 <= a <= n,
            n == s@.len(),
            trim_start(s@) == trim_start(s@.skip(a as int)),
        decreases n - a,
    {
        assert(s@.skip(a as int).drop_first() =~= s@.skip(a + 1));
        a = a + 1;
    }
    let ghost t = s@.skip(a as int);
    assert(trim_start(s@) == t);
    let mut b: usize = n;
    assert(t =~= s@.subrange(a as int, n as int));
    while b > a && is_whitespace(s[b - 1])
        invariant
            a <= b <= n,
            n == s@.len(),
            trim_end(t) == trim_end(s@.subrange(a as int, b as int)),
        decreases b,
    {
        assert(s@.subrange(a as int, b as int).drop_last() =~= s@.subrange(a as int, b - 1));
        b = b - 1;
    }
    let mut r = String::new();
    let mut k: usize = a;
    assert(r@ =~= s@.subrange(a as int, a as int));
    while k < b
        invariant
            a <= k <= b <= n,
            n == s@.len(),
            r@ == s@.subrange(a as int, k as int),
        decreases b - k,
    {
        push_char(&mut r, s[k]);
        k = k + 1;
        assert(r@ =~= s@.subrange(a as int, k as int));
    }
    r
}

/// The continuation lines of a call site too long for its line: indented,
/// each as much of the rest as fits `w` bytes, split between characters.
pub open spec fn wrapped_rest(bytes: Seq<u8>, w: int) -> Seq<Seq<(Seq<char>, StackTone)>>
    decreases bytes.len(),
{
    let k = split_index(bytes, w);
    if bytes.len() == 0 || k <= 0 || k > bytes.len() {
        Seq::empty()
    } else {
        seq![seq![("    "@, StackTone::Plain), (decode_utf8(bytes.take(k)), StackTone::Muted)]]
            + wrapped_rest(bytes.skip(k), w)
    }
}

/// The number of the calling frame, as a call site shows it.
pub open spec fn call_label(n: nat) -> Seq<char> {
    "["@ + decimal_digits(n) + "] "@
}

/// The width in bytes of "  ↪ [n] name() → ": 13 for the arrows, the
/// blanks and the brackets after the name, plus the label and the name.
pub open spec fn call_info_width(n: nat, name: Seq<char>) -> nat {
    13 + byte_len(call_label(n)) + byte_len(name)
}

/// The start of a call site's line: the calling frame's number and
/// function.
pub open spec fn call_prefix(n: nat, name: Seq<char>) -> Seq<(Seq<char>, StackTone)> {
    seq![
        ("  ↪ "@, StackTone::Muted),
        (call_label(n), StackTone::Muted),
        (name + "()"@, StackTone::Caller),
        (" → "@, StackTone::Muted),
    ]
}

/// The lines of a call site in frame `n`'s function `name`: on one line
/// when it fits the width, else as much as fits after the prefix, the rest
/// wrapped under it.
pub open spec fn call_site_lines(n: nat, name: Seq<char>, site: Seq<char>, width: nat) -> Seq<
    Seq<(Seq<char>, StackTone)>,
> {
    let info = call_info_width(n, name);
    let bytes = encode_utf8(site);
    if info + bytes.len() <= width {
        seq![call_prefix(n, name).push((site, StackTone::Muted))]
    } else {
        let k = split_index(bytes, room(width, info) as int);
        seq![call_prefix(n, name).push((decode_utf8(bytes.take(k)), StackTone::Muted))]
            + wrapped_rest(bytes.skip(k), room(width, 4) as int)
    }
}

/// A split of a non-empty text leaves at least one byte on the left and
/// never more than the text.
proof fn lemma_split_index_range(bytes: Seq<u8>, max: int)
    requires
        valid_utf8(bytes),
        bytes.len() > 0,
    ensures
        1 <= split_index(bytes, max) <= bytes.len(),
{
    if bytes.len() > max {
        if max >= 0 {
            lemma_boundary_before(bytes, max);
        }
        lemma_boundary_after(bytes, 1);
    }
}

/// A text is empty exactly when its encoding is.
proof fn lemma_empty_encoding(s: Seq<char>)
    ensures
        (s.len() == 0) == (encode_utf8(s).len() == 0),
{
    encode_utf8_decode_utf8(s);
    if encode_utf8(s).len() == 0 {
        assert(encode_utf8(s) =~= Seq::<u8>::empty());
    }
    if s.len() == 0 {
        assert(s =~= Seq::<char>::empty());
    }
}

fn push_line(items: &mut Vec<StackLine>, line: StackLine)
    ensures
        stack_lines_view(final(items)@) == stack_lines_view(old(items)@).push(stack_line_view(line)),
{
    proof {
        lemma_stack_lines_push(items@, line);
    }
    items.push(line);
}

/// Append the lines of a call site `site` in frame `n`'s function `name`.
fn push_call_site(items: &mut Vec<StackLine>, n: usize, name: &String, site: String, width: usize)
    ensures
        stack_lines_view(final(items)@) == stack_lines_view(old(items)@) + call_site_lines(
            n as nat,
            name@,
            site@,
            width as nat,
        ),
{
    let ghost head = stack_lines_view(items@);
    let mut label = String::from_str("[");
    push_decimal(&mut label, n as u64);
    label.append("] ");
    assert(label@ =~= call_label(n as nat));
    let info: u128 = 13 + text_bytes(&label) as u128 + text_bytes(name) as u128;
    let mut prefix: StackLine = Vec::new();
    push_piece(&mut prefix, String::from_str("  ↪ "), StackTone::Muted);
    push_piece(&mut prefix, label, StackTone::Muted);
    let mut callee = name.clone();
    callee.append("()");
    push_piece(&mut prefix, callee, StackTone::Caller);
    push_piece(&mut prefix, String::from_str(" → "), StackTone::Muted);
    assert(stack_line_view(prefix) =~= call_prefix(n as nat, name@));
    let site_len = text_bytes(&site);
    let ghost bytes = encode_utf8(site@);
    if info + site_len as u128 <= width as u128 {
        push_piece(&mut prefix, site, StackTone::Muted);
        push_line(items, prefix);
        assert(stack_lines_view(items@) =~= head + call_site_lines(n as nat, name@, site@, width as nat));
        return;
    }
    let first_max: usize = if (width as u128) > info {
        (width as u128 - info) as usize
    } else {
        0
    };
    let (first, rest) = split_at_char_boundary(site.as_str(), first_max);
    let ghost k = split_index(bytes, first_max as int);
    proof {
        encode_utf8_valid_utf8(site@);
        if bytes.len() > 0 {
            lemma_split_index_range(bytes, first_max as int);
        }
        encode_utf8_decode_utf8(first@);
        assert(bytes.take(k) =~= bytes.subrange(0, k));
        assert(bytes.skip(k) =~= bytes.subrange(k, bytes.len() as int));
    }
    push_piece(&mut prefix, String::from_str(first), StackTone::Muted);
    push_line(items, prefix);
    let wrap: usize = if width > 4 {
        width - 4
    } else {
        0
    };
    let ghost target = head + call_site_lines(n as nat, name@, site@, width as nat);
    assert(target =~= stack_lines_view(items@) + wrapped_rest(rest.spec_bytes(), wrap as int));
    assert(rest.spec_bytes().len() <= site_len);
    let mut remaining: &str = rest;
    while !remaining.is_empty()
        invariant
            target == stack_lines_view(items@) + wrapped_rest(remaining.spec_bytes(), wrap as int),
            remaining.spec_bytes().len() <= usize::MAX,
        decreases remaining.spec_bytes().len(),
    {
        let ghost rb = remaining.spec_bytes();
        proof {
            encode_utf8_valid_utf8(remaining@);
            lemma_empty_encoding(remaining@);
            lemma_split_index_range(rb, wrap as int);
        }
        let (part, next) = split_at_char_boundary(remaining, wrap);
        let ghost j = split_index(rb, wrap as int);
        proof {
            encode_utf8_decode_utf8(part@);
            assert(rb.take(j) =~= rb.subrange(0, j));
            assert(rb.skip(j) =~= rb.subrange(j, rb.len() as int));
        }
        let mut line: StackLine = Vec::new();
        push_piece(&mut line, String::from_str("    "), StackTone::Plain);
        push_piece(&mut line, String::from_str(part), StackTone::Muted);
        let ghost before = stack_lines_view(items@);
        push_line(items, line);
        proof {
            assert(stack_line_view(line) =~= seq![("    "@, StackTone::Plain), (decode_utf8(rb.take(j)), StackTone::Muted)]);
            let rest_lines = wrapped_rest(rb.skip(j), wrap as int);
            assert(wrapped_rest(rb, wrap as int) =~= seq![stack_line_view(line)] + rest_lines);
            assert(before + (seq![stack_line_view(line)] + rest_lines) =~= before.push(stack_line_view(line)) + rest_lines);
        }
        remaining = next;
    }
    proof {
        lemma_empty_encoding(remaining@);
        assert(remaining.spec_bytes() =~= Seq::<u8>::empty());
        assert(stack_lines_view(items@) + Seq::<Seq<(Seq<char>, StackTone)>>::empty() =~= stack_lines_view(items@));
    }
}

/// A returned value's pieces, in the return color, each keeping the
/// emphasis of its kind.
pub open spec fn returned_pieces(v: Value) -> Seq<(Seq<char>, StackTone)> {
    styled_value(v, 0).map_values(|p: (Seq<char>, Tone)| (p.0, StackTone::Returned(p.1)))
}

/// The declared return type of the function `name`, or "?" when it has no
/// definition.
pub open spec fn return_type_text(fdefs: Map<Seq<char>, FunctionDef>, name: Seq<char>) -> Seq<char> {
    if fdefs.contains_key(name) {
        type_text(fdefs[name].return_type)
    } else {
        "?"@
    }
}

/// The line of the value the running function returned, with its type at
/// the right edge; the marker, the word and the colon count as 16 columns.
pub open spec fn return_line(v: Value, type_str: Seq<char>, width: nat) -> Seq<(Seq<char>, StackTone)> {
    seq![
        ("     ↖ "@, StackTone::ReturnMark),
        ("return "@, StackTone::ReturnMark),
        (": "@, StackTone::Return),
    ] + returned_pieces(v) + seq![
        (blanks(room(width, 16 + pieces_width(returned_pieces(v)) + byte_len(type_str))), StackTone::Plain),
        (type_str, StackTone::TypeName),
    ]
}

/// The line of a returned value, its type that of the function `name`.
fn return_value_line(
    v: &Value,
    function_defs: &NameMap<FunctionDef>,
    name: &String,
    struct_defs: &[StructDef],
    width: usize,
) -> (r: StackLine)
    requires
        function_defs.wf(),
    ensures
        stack_line_view(r) == return_line(*v, return_type_text(function_defs@, name@), width as nat),
{
    let mut line: StackLine = Vec::new();
    push_piece(&mut line, String::from_str("     ↖ "), StackTone::ReturnMark);
    push_piece(&mut line, String::from_str("return "), StackTone::ReturnMark);
    push_piece(&mut line, String::from_str(": "), StackTone::Return);
    let ghost start = stack_line_view(line);
    let pieces = format_value_styled(v, struct_defs, 0);
    let ghost vp = returned_pieces(*v);
    assert(vp.len() == 1);
    let text = pieces[0].0.clone();
    let tone = pieces[0].1;
    let val_width = text_bytes(&text);
    push_piece(&mut line, text, StackTone::Returned(tone));
    proof {
        assert(vp[0] == (pieces@[0].0@, StackTone::Returned(pieces@[0].1)));
        assert(vp.drop_last() =~= Seq::<(Seq<char>, StackTone)>::empty());
        assert(pieces_width(vp.drop_last()) == 0);
        assert(vp.last() == vp[0]);
        assert(stack_line_view(line) =~= start + vp);
    }
    let type_str = match function_defs.get(name.as_str()) {
        Some(fd) => format_type_annotation(&fd.return_type, struct_defs),
        None => String::from_str("?"),
    };
    let total: u128 = 16 + val_width as u128 + text_bytes(&type_str) as u128;
    let pad: usize = if (width as u128) > total {
        (width as u128 - total) as usize
    } else {
        0
    };
    push_piece(&mut line, blank_string(pad), StackTone::Plain);
    push_piece(&mut line, type_str, StackTone::TypeName);
    assert(stack_line_view(line) =~= return_line(*v, return_type_text(function_defs@, name@), width as nat));
    line
}

/// The note a variable's initialization state adds to its line.
pub open spec fn init_note(s: InitState) -> Option<Seq<char>> {
    match s {
        InitState::Initialized => None,
        InitState::Uninitialized => Some(" [uninit]"@),
        InitState::PartiallyInitialized(_) => Some(" [partial]"@),
    }
}

/// The piece of a note: in the failure color, or empty.
pub open spec fn note_piece(note: Option<Seq<char>>) -> (Seq<char>, StackTone) {
    match note {
        Some(t) => (t, StackTone::Failure),
        None => (Seq::empty(), StackTone::Plain),
    }
}

/// The width in bytes of a note.
pub open spec fn note_width(note: Option<Seq<char>>) -> nat {
    match note {
        Some(t) => byte_len(t),
        None => 0,
    }
}

/// A variable's address, highlighted when an error is about it.
pub open spec fn address_piece(a: u64, error_address: Option<u64>) -> (Seq<char>, StackTone) {
    (address_text(a as nat), if error_address == Some(a) {
        StackTone::Highlighted
    } else {
        StackTone::Muted
    })
}

/// The header line of an array or struct variable: address, name, colon,
/// initialization note and its type at the right edge (15 columns count for
/// the address, the blanks and the colon).
pub open spec fn compound_header(var: LocalVar, name: Seq<char>, error_address: Option<u64>, width: nat) -> Seq<
    (Seq<char>, StackTone),
> {
    let type_str = type_text(var.var_type);
    let note = init_note(var.init_state);
    seq![
        address_piece(var.address, error_address),
        (" "@ + name + " "@, StackTone::Text),
        (": "@, StackTone::Text),
        note_piece(note),
        (blanks(room(width, 15 + byte_len(name) + note_width(note) + byte_len(type_str))), StackTone::Plain),
        (type_str, StackTone::TypeName),
    ]
}

/// The line of a variable with a plain value: address, name, value,
/// initialization note (none where the value already shows it is
/// uninitialized) and its type at the right edge (14 columns count for the
/// address, the blank and the colon).
pub open spec fn scalar_line(var: LocalVar, name: Seq<char>, error_address: Option<u64>, width: nat) -> Seq<
    (Seq<char>, StackTone),
> {
    let type_str = type_text(var.var_type);
    let note = if var.value is Uninitialized {
        None
    } else {
        init_note(var.init_state)
    };
    let vals = value_pieces(var.value, 0);
    seq![address_piece(var.address, error_address), (name + " "@, StackTone::Text), (": "@, StackTone::Text)]
        + vals + seq![note_piece(note)] + if type_str.len() > 0 {
        seq![
            (blanks(room(width, 14 + byte_len(name) + pieces_width(vals) + note_width(note) + byte_len(type_str))), StackTone::Plain),
            (type_str, StackTone::TypeName),
        ]
    } else {
        Seq::empty()
    }
}

/// The lines of a variable: an array or struct under its header, its
/// elements or fields one level in; another value on one line.
pub open spec fn variable_lines(
    var: LocalVar,
    name: Seq<char>,
    defs: Seq<StructDef>,
    error_address: Option<u64>,
    width: nat,
) -> Seq<Seq<(Seq<char>, StackTone)>> {
    match var.value {
        Value::Array(es) => seq![compound_header(var, name, error_address, width)]
            + elements_lines(es@, var.var_type@, var.address as nat, 1, defs, width, 0),
        Value::Struct(fs) => seq![compound_header(var, name, error_address, width)]
            + fields_lines(fs@, var.var_type@, var.address as nat, 1, defs, width, 0),
        _ => seq![scalar_line(var, name, error_address, width)],
    }
}

/// What listing a variable needs: known layouts and addresses within 64
/// bits for every element and field it holds.
pub open spec fn variable_fits(var: LocalVar, defs: Seq<StructDef>) -> bool {
    match var.value {
        Value::Array(es) => elements_fit(es@, var.var_type@, var.address as nat, 1, defs),
        Value::Struct(fs) => fields_fit(fs@, var.var_type@, var.address as nat, 1, defs),
        _ => true,
    }
}

/// Append the piece of a variable's address.
fn push_address(line: &mut StackLine, a: u64, error_address: Option<u64>)
    ensures
        stack_line_view(*final(line)) == stack_line_view(*old(line)).push(address_piece(a, error_address)),
{
    let hit = match error_address {
        Some(e) => e == a,
        None => false,
    };
    let tone = if hit {
        StackTone::Highlighted
    } else {
        StackTone::Muted
    };
    push_piece(line, address_string(a), tone);
}

/// The note of an initialization state, as text.
fn note_text(s: &InitState) -> (r: Option<String>)
    ensures
        match init_note(*s) {
            Some(t) => r matches Some(x) && x@ == t,
            None => r is None,
        },
{
    match s {
        InitState::Initialized => None,
        InitState::Uninitialized => Some(String::from_str(" [uninit]")),
        InitState::PartiallyInitialized(_) => Some(String::from_str(" [partial]")),
    }
}

/// Append a note's piece; returns its width.
fn push_note(line: &mut StackLine, note: Option<String>) -> (r: usize)
    ensures
        stack_line_view(*final(line)) == stack_line_view(*old(line)).push(
            note_piece(match note {
                Some(t) => Some(t@),
                None => None,
            }),
        ),
        r == note_width(match note {
            Some(t) => Some(t@),
            None => None,
        }),
{
    match note {
        Some(t) => {
            let w = text_bytes(&t);
            push_piece(line, t, StackTone::Failure);
            w
        },
        None => {
            push_piece(line, String::new(), StackTone::Plain);
            0
        },
    }
}

/// Append the lines of the variable `name`.
fn push_variable(
    items: &mut Vec<StackLine>,
    var: &LocalVar,
    name: &String,
    struct_defs: &[StructDef],
    error_address: Option<u64>,
    width: usize,
)
    requires
        variable_fits(*var, struct_defs@),
    ensures
        stack_lines_view(final(items)@) == stack_lines_view(old(items)@) + variable_lines(
            *var,
            name@,
            struct_defs@,
            error_address,
            width as nat,
        ),
{
    let ghost head = stack_lines_view(items@);
    let type_str = format_type_annotation(&var.var_type, struct_defs);
    let type_len = text_bytes(&type_str);
    let name_len = text_bytes(name);
    let mut line: StackLine = Vec::new();
    push_address(&mut line, var.address, error_address);
    match &var.value {
        Value::Array(_) | Value::Struct(_) => {
            let mut label = String::from_str(" ");
            label.append(name.as_str());
            label.append(" ");
            push_piece(&mut line, label, StackTone::Text);
            push_piece(&mut line, String::from_str(": "), StackTone::Text);
            let note_len = push_note(&mut line, note_text(&var.init_state));
            let total: u128 = 15 + name_len as u128 + note_len as u128 + type_len as u128;
            let pad: usize = if (width as u128) > total {
                (width as u128 - total) as usize
            } else {
                0
            };
            push_piece(&mut line, blank_string(pad), StackTone::Plain);
            push_piece(&mut line, type_str, StackTone::TypeName);
            assert(stack_line_view(line) =~= compound_header(*var, name@, error_address, width as nat));
            push_line(items, line);
            match &var.value {
                Value::Array(elements) => {
                    render_array_elements(
                        items,
                        elements.as_slice(),
                        &var.var_type,
                        var.address,
                        1,
                        struct_defs,
                        width,
                    );
                },
                Value::Struct(fields) => {
                    render_struct_fields(items, fields, &var.var_type, var.address, 1, struct_defs, width);
                },
                _ => {},
            }
            assert(stack_lines_view(items@) =~= head + variable_lines(
                *var,
                name@,
                struct_defs@,
                error_address,
                width as nat,
            ));
        },
        v => {
            let mut label = name.clone();
            label.append(" ");
            push_piece(&mut line, label, StackTone::Text);
            push_piece(&mut line, String::from_str(": "), StackTone::Text);
            let ghost start = stack_line_view(line);
            let val_width = push_value_pieces(&mut line, v, struct_defs, 0);
            let note = match v {
                Value::Uninitialized => None,
                _ => note_text(&var.init_state),
            };
            let note_len = push_note(&mut line, note);
            if type_len > 0 {
                let total: u128 = 14 + name_len as u128 + val_width as u128 + note_len as u128
                    + type_len as u128;
                let pad: usize = if (width as u128) > total {
                    (width as u128 - total) as usize
                } else {
                    0
                };
                push_piece(&mut line, blank_string(pad), StackTone::Plain);
                push_piece(&mut line, type_str, StackTone::TypeName);
            }
            assert(stack_line_view(line) =~= scalar_line(*var, name@, error_address, width as nat));
            push_line(items, line);
            assert(stack_lines_view(items@) =~= head + variable_lines(
                *var,
                name@,
                struct_defs@,
                error_address,
                width as nat,
            ));
        },
    }
}

/// The lines of a frame's variables in declaration order, from the `i`-th
/// name on.
pub open spec fn locals_lines(
    f: StackFrame,
    defs: Seq<StructDef>,
    error_address: Option<u64>,
    width: nat,
    i: nat,
) -> Seq<Seq<(Seq<char>, StackTone)>>
    decreases f@.order.len() - i,
{
    if i >= f@.order.len() {
        Seq::empty()
    } else {
        let name = f@.order[i as int];
        (if f@.locals.contains_key(name) {
            variable_lines(f@.locals[name], name, defs, error_address, width)
        } else {
            Seq::empty()
        }) + locals_lines(f, defs, error_address, width, i + 1)
    }
}

/// The header of the frame at `depth`, running `name`.
pub open spec fn frame_header(depth: nat, name: Seq<char>) -> Seq<(Seq<char>, StackTone)> {
    seq![
        ("▸ "@, StackTone::Marker),
        ("Frame "@ + decimal_digits(depth) + " "@, StackTone::Muted),
        ("│ "@, StackTone::Muted),
        (name + "()"@, StackTone::FunctionName),
    ]
}

/// The call chain shown under the frame at `depth`: for each frame from
/// the `c`-th up to it, the call site it was entered from, in the frame
/// before it.
pub open spec fn chain_lines(frames: Seq<StackFrame>, source: Seq<char>, depth: nat, c: nat, width: nat) -> Seq<
    Seq<(Seq<char>, StackTone)>,
>
    decreases depth + 1 - c,
{
    if c < 1 || c > depth || c >= frames.len() {
        Seq::empty()
    } else {
        (match frames[c as int].return_to() {
            Some(loc) => call_site_lines(
                (c - 1) as nat,
                frames[c - 1].name(),
                call_site_text(source, loc.line),
                width,
            ),
            None => Seq::empty(),
        }) + chain_lines(frames, source, depth, c + 1, width)
    }
}

/// The lines of the frame at `d`: its header, the call chain that led to
/// it, the returned value (top frame only), its variables, and a blank
/// line before the next frame.
pub open spec fn frame_lines(
    frames: Seq<StackFrame>,
    d: nat,
    source: Seq<char>,
    ret: Option<Value>,
    fdefs: Map<Seq<char>, FunctionDef>,
    defs: Seq<StructDef>,
    error_address: Option<u64>,
    width: nat,
) -> Seq<Seq<(Seq<char>, StackTone)>> {
    let f = frames[d as int];
    seq![frame_header(d, f.name())] + chain_lines(frames, source, d, 1, width) + (if d + 1 == frames.len() {
        match ret {
            Some(v) => seq![return_line(v, return_type_text(fdefs, f.name()), width)],
            None => Seq::empty(),
        }
    } else {
        Seq::empty()
    }) + locals_lines(f, defs, error_address, width, 0) + (if d + 1 < frames.len() {
        seq![seq![(Seq::<char>::empty(), StackTone::Muted)]]
    } else {
        Seq::empty()
    })
}

/// The lines of the frames from the `d`-th on.
pub open spec fn frames_lines(
    frames: Seq<StackFrame>,
    source: Seq<char>,
    ret: Option<Value>,
    fdefs: Map<Seq<char>, FunctionDef>,
    defs: Seq<StructDef>,
    error_address: Option<u64>,
    width: nat,
    d: nat,
) -> Seq<Seq<(Seq<char>, StackTone)>>
    decreases frames.len() - d,
{
    if d >= frames.len() {
        Seq::empty()
    } else {
        frame_lines(frames, d, source, ret, fdefs, defs, error_address, width) + frames_lines(
            frames,
            source,
            ret,
            fdefs,
            defs,
            error_address,
            width,
            d + 1,
        )
    }
}

/// The lines of the stack pane: "(empty)" without frames, else every
/// frame's lines from the outermost.
pub open spec fn stack_pane(
    frames: Seq<StackFrame>,
    source: Seq<char>,
    ret: Option<Value>,
    fdefs: Map<Seq<char>, FunctionDef>,
    defs: Seq<StructDef>,
    error_address: Option<u64>,
    width: nat,
) -> Seq<Seq<(Seq<char>, StackTone)>> {
    if frames.len() == 0 {
        seq![seq![("(empty)"@, StackTone::Muted)]]
    } else {
        frames_lines(frames, source, ret, fdefs, defs, error_address, width, 0)
    }
}

/// What listing the stack needs: every variable of every frame fits.
pub open spec fn stack_fits(frames: Seq<StackFrame>, defs: Seq<StructDef>) -> bool {
    forall|d: int, name: Seq<char>|
        #![trigger frames[d]@.locals[name]]
        0 <= d < frames.len() && frames[d]@.locals.contains_key(name) ==> variable_fits(
            frames[d]@.locals[name],
            defs,
        )
}

/// The value a reference points to, if any.
pub open spec fn pointed(v: Option<&Value>) -> Option<Value> {
    match v {
        Some(x) => Some(*x),
        None => None,
    }
}

/// Append the call chain of the frame at `depth`.
fn push_call_chain(items: &mut Vec<StackLine>, frames: &[StackFrame], depth: usize, source: &Vec<char>, width: usize)
    requires
        depth < frames@.len(),
    ensures
        stack_lines_view(final(items)@) == stack_lines_view(old(items)@) + chain_lines(
            frames@,
            source@,
            depth as nat,
            1,
            width as nat,
        ),
{
    let ghost head = stack_lines_view(items@);
    let ghost target = head + chain_lines(frames@, source@, depth as nat, 1, width as nat);
    let mut c: usize = 1;
    while c <= depth
        invariant
            1 <= c <= depth + 1,
            depth < frames@.len(),
            target == stack_lines_view(items@) + chain_lines(frames@, source@, depth as nat, c as nat, width as nat),
        decreases depth + 1 - c,
    {
        let ghost before = stack_lines_view(items@);
        match frames[c].return_location() {
            Some(loc) => {
                let line_no: usize = if loc.line > 0 {
                    loc.line - 1
                } else {
                    0
                };
                let site = match source_line(source, line_no) {
                    Some(chars) => trim_chars(&chars),
                    None => String::from_str("???"),
                };
                push_call_site(items, c - 1, frames[c - 1].function_name(), site, width);
            },
            None => {},
        }
        proof {
            let this = match frames@[c as int].return_to() {
                Some(loc) => call_site_lines(
                    (c - 1) as nat,
                    frames@[c - 1].name(),
                    call_site_text(source@, loc.line),
                    width as nat,
                ),
                None => Seq::empty(),
            };
            let rest = chain_lines(frames@, source@, depth as nat, (c + 1) as nat, width as nat);
            assert(before + (this + rest) =~= (before + this) + rest);
            assert(before + Seq::<Seq<(Seq<char>, StackTone)>>::empty() =~= before);
        }
        c = c + 1;
    }
    assert(stack_lines_view(items@) + Seq::<Seq<(Seq<char>, StackTone)>>::empty() =~= stack_lines_view(items@));
}

/// Append the lines of a frame's variables in declaration order.
fn push_locals(
    items: &mut Vec<StackLine>,
    frame: &StackFrame,
    struct_defs: &[StructDef],
    error_address: Option<u64>,
    width: usize,
)
    requires
        frame.wf(),
        forall|name: Seq<char>|
            #![trigger frame@.locals[name]]
            frame@.locals.contains_key(name) ==> variable_fits(frame@.locals[name], struct_defs@),
    ensures
        stack_lines_view(final(items)@) == stack_lines_view(old(items)@) + locals_lines(
            *frame,
            struct_defs@,
            error_address,
            width as nat,
            0,
        ),
{
    let ghost head = stack_lines_view(items@);
    let ghost target = head + locals_lines(*frame, struct_defs@, error_address, width as nat, 0);
    let names = frame.declared_names();
    let mut i: usize = 0;
    while i < names.len()
        invariant
            frame.wf(),
            forall|name: Seq<char>|
                #![trigger frame@.locals[name]]
                frame@.locals.contains_key(name) ==> variable_fits(frame@.locals[name], struct_defs@),
            crate::memory::stack::texts(names@) == frame@.order,
            0 <= i <= names@.len(),
            target == stack_lines_view(items@) + locals_lines(*frame, struct_defs@, error_address, width as nat, i as nat),
        decreases names@.len() - i,
    {
        let ghost before = stack_lines_view(items@);
        let ghost name = frame@.order[i as int];
        assert(name == names@[i as int]@);
        match frame.get_var(names[i].as_str()) {
            Some(var) => {
                push_variable(items, var, &names[i], struct_defs, error_address, width);
            },
            None => {},
        }
        proof {
            let this = if frame@.locals.contains_key(name) {
                variable_lines(frame@.locals[name], name, struct_defs@, error_address, width as nat)
            } else {
                Seq::empty()
            };
            let rest = locals_lines(*frame, struct_defs@, error_address, width as nat, (i + 1) as nat);
            assert(before + (this + rest) =~= (before + this) + rest);
            assert(before + Seq::<Seq<(Seq<char>, StackTone)>>::empty() =~= before);
        }
        i = i + 1;
    }
    assert(stack_lines_view(items@) + Seq::<Seq<(Seq<char>, StackTone)>>::empty() =~= stack_lines_view(items@));
}

/// Append the lines of the frame at `d`.
fn push_frame(
    items: &mut Vec<StackLine>,
    frames: &[StackFrame],
    d: usize,
    source: &Vec<char>,
    return_value: Option<&Value>,
    function_defs: &NameMap<FunctionDef>,
    struct_defs: &[StructDef],
    error_address: Option<u64>,
    width: usize,
)
    requires
        d < frames@.len(),
        frames@[d as int].wf(),
        function_defs.wf(),
        stack_fits(frames@, struct_defs@),
    ensures
        stack_lines_view(final(items)@) == stack_lines_view(old(items)@) + frame_lines(
            frames@,
            d as nat,
            source@,
            pointed(return_value),
            function_defs@,
            struct_defs@,
            error_address,
            width as nat,
        ),
{
    let ghost head = stack_lines_view(items@);
    let frame = &frames[d];
    let mut header: StackLine = Vec::new();
    push_piece(&mut header, String::from_str("▸ "), StackTone::Marker);
    let mut title = String::from_str("Frame ");
    push_decimal(&mut title, d as u64);
    title.append(" ");
    push_piece(&mut header, title, StackTone::Muted);
    push_piece(&mut header, String::from_str("│ "), StackTone::Muted);
    let mut callee = frame.function_name().clone();
    callee.append("()");
    push_piece(&mut header, callee, StackTone::FunctionName);
    assert(stack_line_view(header) =~= frame_header(d as nat, frame.name()));
    push_line(items, header);
    let ghost v1 = stack_lines_view(items@);
    push_call_chain(items, frames, d, source, width);
    let ghost v2 = stack_lines_view(items@);
    if d + 1 == frames.len() {
        match return_value {
            Some(v) => {
                let line = return_value_line(v, function_defs, frame.function_name(), struct_defs, width);
                push_line(items, line);
            },
            None => {},
        }
    }
    let ghost v3 = stack_lines_view(items@);
    let ghost ret_part = if d + 1 == frames@.len() {
        match pointed(return_value) {
            Some(v) => seq![return_line(v, return_type_text(function_defs@, frame.name()), width as nat)],
            None => Seq::empty(),
        }
    } else {
        Seq::<Seq<(Seq<char>, StackTone)>>::empty()
    };
    assert(v3 =~= v2 + ret_part);
    proof {
        assert forall|name: Seq<char>|
            #![trigger frame@.locals[name]]
            frame@.locals.contains_key(name) implies variable_fits(frame@.locals[name], struct_defs@) by {
            assert(frames@[d as int]@.locals[name] == frame@.locals[name]);
        }
    }
    push_locals(items, frame, struct_defs, error_address, width);
    let ghost v4 = stack_lines_view(items@);
    if d + 1 < frames.len() {
        let mut sep: StackLine = Vec::new();
        assert(stack_line_view(sep) =~= Seq::<(Seq<char>, StackTone)>::empty());
        push_piece(&mut sep, String::new(), StackTone::Muted);
        assert(stack_line_view(sep) =~= seq![(Seq::<char>::empty(), StackTone::Muted)]);
        push_line(items, sep);
    }
    let ghost sep_part = if d + 1 < frames@.len() {
        seq![seq![(Seq::<char>::empty(), StackTone::Muted)]]
    } else {
        Seq::<Seq<(Seq<char>, StackTone)>>::empty()
    };
    assert(stack_lines_view(items@) =~= v4 + sep_part);
    assert(stack_lines_view(items@) =~= head + frame_lines(
        frames@,
        d as nat,
        source@,
        pointed(return_value),
        function_defs@,
        struct_defs@,
        error_address,
        width as nat,
    ));
}

/// What the stack pane shows: the call stack, the struct definitions, the
/// program's source, the value the running function just returned, the
/// function definitions, and the address an error is about.
pub struct StackRenderData<'a> {
    pub stack: &'a Stack,
    pub struct_defs: &'a [StructDef],
    pub source_code: &'a str,
    pub return_value: Option<&'a Value>,
    pub function_defs: &'a NameMap<FunctionDef>,
    pub error_address: Option<u64>,
}

/// The lines the stack pane shows for a call stack, `area_width` columns
/// wide with its borders: "(empty)" without frames; else for each frame
/// from the outermost its header, the call sites that led to it (the
/// source line trimmed, wrapped to the width), the value just returned
/// (top frame), its variables in declaration order with their addresses
/// and types (arrays and structs element by element), and a blank line
/// between frames.
pub fn render_stack_pane(data: StackRenderData, area_width: u16) -> (r: Vec<StackLine>)
    requires
        data.stack.wf(),
        data.function_defs.wf(),
        stack_fits(data.stack@, data.struct_defs@),
    ensures
        stack_lines_view(r@) == stack_pane(
            data.stack@,
            data.source_code@,
            pointed(data.return_value),
            data.function_defs@,
            data.struct_defs@,
            data.error_address,
            room(area_width as nat, 2),
        ),
{
    let stack = data.stack;
    let struct_defs = data.struct_defs;
    let source_code = data.source_code;
    let return_value = data.return_value;
    let function_defs = data.function_defs;
    let error_address = data.error_address;
    let width: usize = if area_width > 2 {
        (area_width - 2) as usize
    } else {
        0
    };
    let frames = stack.frames();
    let mut items: Vec<StackLine> = Vec::new();
    if frames.len() == 0 {
        let mut line: StackLine = Vec::new();
        assert(stack_line_view(line) =~= Seq::<(Seq<char>, StackTone)>::empty());
        push_piece(&mut line, String::from_str("(empty)"), StackTone::Muted);
        assert(stack_line_view(line) =~= seq![("(empty)"@, StackTone::Muted)]);
        push_line(&mut items, line);
        assert(stack_lines_view(items@) =~= seq![seq![("(empty)"@, StackTone::Muted)]]);
        return items;
    }
    let source = chars_of(source_code);
    let ghost target = frames_lines(
        stack@,
        source_code@,
        pointed(return_value),
        function_defs@,
        struct_defs@,
        error_address,
        width as nat,
        0,
    );
    assert(stack_lines_view(items@) =~= Seq::<Seq<(Seq<char>, StackTone)>>::empty());
    let mut d: usize = 0;
    while d < frames.len()
        invariant
            frames@ == stack@,
            stack.wf(),
            function_defs.wf(),
            stack_fits(stack@, struct_defs@),
            source@ == source_code@,
            0 <= d <= frames@.len(),
            target == stack_lines_view(items@) + frames_lines(
                stack@,
                source_code@,
                pointed(return_value),
                function_defs@,
                struct_defs@,
                error_address,
                width as nat,
                d as nat,
            ),
        decreases frames@.len() - d,
    {
        let ghost before = stack_lines_view(items@);
        push_frame(
            &mut items,
            frames,
            d,
            &source,
            return_value,
            function_defs,
            struct_defs,
            error_address,
            width,
        );
        proof {
            let this = frame_lines(
                stack@,
                d as nat,
                source_code@,
                pointed(return_value),
                function_defs@,
                struct_defs@,
                error_address,
                width as nat,
            );
            let rest = frames_lines(
                stack@,
                source_code@,
                pointed(return_value),
                function_defs@,
                struct_defs@,
                error_address,
                width as nat,
                (d + 1) as nat,
            );
            assert(before + (this + rest) =~= (before + this) + rest);
        }
        d = d + 1;
    }
    assert(stack_lines_view(items@) + Seq::<Seq<(Seq<char>, StackTone)>>::empty() =~= stack_lines_view(items@));
    items
}

} // verus!
