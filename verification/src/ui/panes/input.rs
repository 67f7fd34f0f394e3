//! The input pane: the stored inputs beside the source lines that read
//! them, scrolled to keep the last input read in view.
use vstd::prelude::*;
use super::heap::{max_scroll, push_spaces, spaces, text_len, utf8_len};
use super::source::{highlight_source_code, line_pieces, line_texts, pieces_of, split_lines, text_lines, Highlight};
use super::stack::{trim_chars, trim_end, trim_start, trim_text};
use crate::snapshot::TerminalLine;
use crate::text::{chars_of, decimal_digits, push_decimal};

verus! {

/// Scroll state for the input pane
#[derive(Debug, Clone, Copy, Default)]
pub struct InputScrollState {
    pub offset: usize,
}

/// The offset after bringing line `active - 1` into a window of `height`
/// rows (when there is one) and keeping the offset within range.
pub open spec fn input_offset(offset: usize, active: usize, total: usize, height: usize) -> usize {
    if total > height {
        let moved: int = if active > 0 {
            let last = active - 1;
            let down: int = if last >= offset + height {
                last - height + 1
            } else {
                offset as int
            };
            if last < down {
                last
            } else {
                down
            }
        } else {
            offset as int
        };
        if moved < max_scroll(total, height) {
            moved as usize
        } else {
            max_scroll(total, height)
        }
    } else {
        0
    }
}

impl InputScrollState {
    /// Scroll so that the last of the `active_count` lines read so far is
    /// visible in a window of `content_height` rows over `total_lines`.
    pub fn follow(&mut self, active_count: usize, total_lines: usize, content_height: usize)
        requires
            old(self).offset + content_height <= usize::MAX,
        ensures
            final(self).offset == input_offset(old(self).offset, active_count, total_lines, content_height),
    {
        if total_lines > content_height {
            if active_count > 0 {
                let last_active_idx = active_count - 1;
                if last_active_idx >= self.offset + content_height {
                    self.offset = last_active_idx - content_height + 1;
                }
                if last_active_idx < self.offset {
                    self.offset = last_active_idx;
                }
            }
            let max_scroll = total_lines - content_height;
            if self.offset > max_scroll {
                self.offset = max_scroll;
            }
        } else {
            self.offset = 0;
        }
    }
}

/// Following the inputs read keeps the last of them on screen: after
/// scrolling, a window of `height` rows over `total` lines shows line
/// `active - 1`, and never starts past the last full window.
pub proof fn law_last_input_visible(offset: usize, active: usize, total: usize, height: usize)
    requires
        1 <= active <= total,
        height >= 1,
        offset + height <= usize::MAX,
    ensures
        input_offset(offset, active, total, height) <= active - 1,
        active - 1 < input_offset(offset, active, total, height) + height,
        input_offset(offset, active, total, height) <= max_scroll(total, height),
{
}

/// How a piece of the input pane is drawn.
#[derive(Debug, Clone, Copy, PartialEq, Eq)]
pub enum InputTone {
    /// Spacing.
    Plain,
    /// Line numbers, separators and arrows of inputs already read, and the
    /// placeholder.
    Muted,
    /// What belongs to inputs not yet read.
    Dim,
    /// Source code of an input already read, highlighted.
    Code(Highlight),
    /// An input not yet read.
    Pending,
    /// The last input read, when it is the last one stored.
    Latest,
    /// An input read earlier.
    Earlier,
}

/// Data needed to render the input pane: the stored input lines, each
/// with the source line that read it, and how many have been read up to
/// the snapshot on display.
pub struct InputRenderData<'a> {
    pub all_input_lines: &'a [TerminalLine],
    pub active_count: usize,
    pub is_focused: bool,
    pub source_code: &'a str,
}

/// What the input pane shows: its title, whether its border is
/// highlighted, and its rows (scrolled by the scroll state).
pub struct InputPane {
    pub title: String,
    pub focused: bool,
    pub rows: Vec<Vec<(String, InputTone)>>,
}

/// The largest line number of the inputs, or 1 when there are none.
pub open spec fn max_line_number(ls: Seq<TerminalLine>) -> nat
    decreases ls.len(),
{
    if ls.len() == 0 {
        1
    } else {
        let rest = max_line_number(ls.drop_last());
        if ls.len() == 1 || ls.last().location.line > rest { ls.last().location.line as nat } else { rest }
    }
}

/// The largest byte length of the inputs, or 1 when there are none.
pub open spec fn max_input_len(ls: Seq<TerminalLine>) -> nat
    decreases ls.len(),
{
    if ls.len() == 0 {
        1
    } else {
        let rest = max_input_len(ls.drop_last());
        if ls.len() == 1 || utf8_len(ls.last().text@) > rest { utf8_len(ls.last().text@) } else { rest }
    }
}

/// A text right-aligned in `width` characters.
pub open spec fn right_aligned(s: Seq<char>, width: nat) -> Seq<char> {
    if s.len() < width { spaces((width - s.len()) as nat) + s } else { s }
}

/// The width of the line-number column: that of the largest number, at
/// least two.
pub open spec fn number_width(ls: Seq<TerminalLine>) -> nat {
    let d = decimal_digits(max_line_number(ls)).len();
    if d < 2 { 2 } else { d }
}

/// The source line an input was read at (line `n`, counted from 1), or an
/// empty text past the end of the source.
pub open spec fn source_line_at(lines: Seq<Seq<char>>, n: usize) -> Seq<char> {
    let k: int = if n == 0 { 0 } else { n - 1 };
    if k < lines.len() { lines[k] } else { Seq::empty() }
}

/// The spaces that push the arrow and input to the right edge of a pane
/// `width` columns wide.
pub open spec fn right_pad(width: u16, w: nat, src: Seq<char>, mw: nat) -> int {
    let used = ((1 + w + 3 + utf8_len(src) + 3 + mw + 2) as int) as u16;
    if width > used { width - used } else { 0 }
}

/// Row `idx` of the input pane.
pub open spec fn input_row(
    ls: Seq<TerminalLine>,
    idx: int,
    active_count: usize,
    lines: Seq<Seq<char>>,
    width: u16,
) -> Seq<(Seq<char>, InputTone)> {
    let l = ls[idx];
    let w = number_width(ls);
    let mw = max_input_len(ls);
    let active = idx < active_count;
    let latest = idx + 1 == active_count && active_count == ls.len();
    let src = trim_text(source_line_at(lines, l.location.line));
    let pad = right_pad(width, w, src, mw);
    let mark = if active { InputTone::Muted } else { InputTone::Dim };
    let input_tone = if !active {
        InputTone::Pending
    } else if latest {
        InputTone::Latest
    } else {
        InputTone::Earlier
    };
    seq![
        (" "@, InputTone::Plain),
        (right_aligned(decimal_digits(l.location.line as nat), w), mark),
        (" : "@, InputTone::Muted),
    ] + (if active {
        line_pieces(src).map_values(|p: (Seq<char>, Highlight)| (p.0, InputTone::Code(p.1)))
    } else {
        seq![(src, InputTone::Dim)]
    }) + (if pad > 0 { seq![(spaces(pad as nat), InputTone::Plain)] } else { Seq::empty() }) + seq![
        ("\u{2190}"@, mark),
        (" "@, InputTone::Plain),
        (right_aligned(l.text@, mw), input_tone),
        (" "@, InputTone::Plain),
    ]
}

/// The rows of the input pane: a placeholder, or a row for each input.
pub open spec fn input_rows(
    ls: Seq<TerminalLine>,
    active_count: usize,
    source: Seq<char>,
    width: u16,
) -> Seq<Seq<(Seq<char>, InputTone)>> {
    if ls.len() == 0 {
        seq![seq![("(no input)"@, InputTone::Muted)]]
    } else {
        Seq::new(ls.len(), |i: int| input_row(ls, i, active_count, text_lines(source), width))
    }
}

/// Texts and tones of a row.
pub open spec fn input_row_view(v: Vec<(String, InputTone)>) -> Seq<(Seq<char>, InputTone)> {
    v@.map_values(|p: (String, InputTone)| (p.0@, p.1))
}

/// Texts and tones of the rows.
pub open spec fn input_rows_view(v: Seq<Vec<(String, InputTone)>>) -> Seq<Seq<(Seq<char>, InputTone)>> {
    v.map_values(|r: Vec<(String, InputTone)>| input_row_view(r))
}

/// The largest line number of the inputs, or 1 when there are none.
fn largest_line_number(ls: &[TerminalLine]) -> (r: usize)
    ensures
        r == max_line_number(ls@),
{
    let mut best: usize = 1;
    let mut i: usize = 0;
    while i < ls.len()
        invariant
            0 <= i <= ls@.len(),
            best == max_line_number(ls@.take(i as int)),
        decreases ls@.len() - i,
    {
        assert(ls@.take(i + 1).drop_last() =~= ls@.take(i as int));
        if i == 0 || ls[i].location.line > best {
            best = ls[i].location.line;
        }
        i = i + 1;
    }
    assert(ls@.take(ls@.len() as int) =~= ls@);
    best
}

/// The largest byte length of the inputs, or 1 when there are none.
fn largest_input_len(ls: &[TerminalLine]) -> (r: usize)
    ensures
        r == max_input_len(ls@),
{
    let mut best: usize = 1;
    let mut i: usize = 0;
    while i < ls.len()
        invariant
            0 <= i <= ls@.len(),
            best == max_input_len(ls@.take(i as int)),
        decreases ls@.len() - i,
    {
        assert(ls@.take(i + 1).drop_last() =~= ls@.take(i as int));
        let n = text_len(&ls[i].text);
        if i == 0 || n > best {
            best = n;
        }
        i = i + 1;
    }
    assert(ls@.take(ls@.len() as int) =~= ls@);
    best
}

/// A text right-aligned in `width` characters.
fn right_align(s: &String, width: usize) -> (r: String)
    ensures
        r@ == right_aligned(s@, width as nat),
{
    let n = s.unicode_len();
    let mut r = String::new();
    if n < width {
        push_spaces(&mut r, width - n);
    }
    r.append(s.as_str());
    assert(r@ =~= right_aligned(s@, width as nat));
    r
}

/// Row `idx` of the input pane.
fn input_row_of(
    ls: &[TerminalLine],
    idx: usize,
    active_count: usize,
    lines: &Vec<String>,
    width: u16,
    w: usize,
    mw: usize,
) -> (r: Vec<(String, InputTone)>)
    requires
        idx < ls@.len(),
        w == number_width(ls@),
        mw == max_input_len(ls@),
        ls@.len() <= usize::MAX,
    ensures
        input_row_view(r) == input_row(ls@, idx as int, active_count, line_texts(lines@), width),
{
    let l = &ls[idx];
    let active = idx < active_count;
    let latest = idx + 1 == active_count && active_count == ls.len();
    let n = l.location.line;
    let k: usize = if n == 0 { 0 } else { n - 1 };
    let src = if k < lines.len() {
        let cs = chars_of(lines[k].as_str());
        trim_chars(&cs)
    } else {
        String::new()
    };
    let ghost src_spec = trim_text(source_line_at(line_texts(lines@), n));
    proof {
        if k < lines@.len() {
            assert(line_texts(lines@)[k as int] == lines@[k as int]@);
        } else {
            assert(trim_text(Seq::<char>::empty()) =~= Seq::<char>::empty()) by {
                reveal_with_fuel(trim_start, 1);
                reveal_with_fuel(trim_end, 1);
            }
        }
    }
    assert(src@ == src_spec);
    let src_len = text_len(&src);
    let used_wide: u128 = 1u128 + w as u128 + 3 + src_len as u128 + 3 + mw as u128 + 2;
    let used: u16 = used_wide as u16;
    let pad: u16 = if width > used { width - used } else { 0 };
    let mark = if active { InputTone::Muted } else { InputTone::Dim };
    let input_tone = if !active {
        InputTone::Pending
    } else if latest {
        InputTone::Latest
    } else {
        InputTone::Earlier
    };
    let mut row: Vec<(String, InputTone)> = Vec::new();
    let mut digits = String::new();
    push_decimal(&mut digits, n as u64);
    assert(digits@ =~= decimal_digits(n as nat));
    row.push((String::from_str(" "), InputTone::Plain));
    row.push((right_align(&digits, w), mark));
    row.push((String::from_str(" : "), InputTone::Muted));
    proof {
        reveal_strlit(" ");
        reveal_strlit(" : ");
        reveal_strlit("\u{2190}");
    }
    let ghost head = input_row_view(row);
    let ghost code: Seq<(Seq<char>, InputTone)> = if active {
        line_pieces(src@).map_values(|p: (Seq<char>, Highlight)| (p.0, InputTone::Code(p.1)))
    } else {
        seq![(src@, InputTone::Dim)]
    };
    assert(head =~= seq![
        (" "@, InputTone::Plain),
        (right_aligned(decimal_digits(n as nat), w as nat), mark),
        (" : "@, InputTone::Muted),
    ]);
    if active {
        let pieces = highlight_source_code(src.as_str());
        let mut j: usize = 0;
        while j < pieces.len()
            invariant
                0 <= j <= pieces@.len(),
                pieces_of(pieces@) == line_pieces(src@),
                input_row_view(row) == head + pieces_of(pieces@).take(j as int).map_values(
                    |p: (Seq<char>, Highlight)| (p.0, InputTone::Code(p.1)),
                ),
            decreases pieces@.len() - j,
        {
            let text = pieces[j].0.clone();
            let h = pieces[j].1;
            let ghost before = row@;
            row.push((text, InputTone::Code(h)));
            proof {
                assert(input_row_view(row) =~= input_row_view_seq(before).push((text@, InputTone::Code(h))));
                assert(pieces_of(pieces@)[j as int] == (text@, h));
                assert(pieces_of(pieces@).take(j + 1) =~= pieces_of(pieces@).take(j as int).push(
                    pieces_of(pieces@)[j as int],
                ));
                assert(pieces_of(pieces@).take(j + 1).map_values(
                    |p: (Seq<char>, Highlight)| (p.0, InputTone::Code(p.1)),
                ) =~= pieces_of(pieces@).take(j as int).map_values(
                    |p: (Seq<char>, Highlight)| (p.0, InputTone::Code(p.1)),
                ).push((text@, InputTone::Code(h))));
            }
            j = j + 1;
        }
        assert(pieces_of(pieces@).take(pieces@.len() as int) =~= pieces_of(pieces@));
        assert(input_row_view(row) =~= head + code);
    } else {
        let ghost before = row@;
        row.push((src, InputTone::Dim));
        assert(input_row_view(row) =~= input_row_view_seq(before).push((src_spec, InputTone::Dim)));
        assert(input_row_view(row) =~= head + code);
    }
    let ghost mid = input_row_view(row);
    let ghost gap: Seq<(Seq<char>, InputTone)> = if pad > 0 {
        seq![(spaces(pad as nat), InputTone::Plain)]
    } else {
        Seq::empty()
    };
    if pad > 0 {
        let mut sp = String::new();
        push_spaces(&mut sp, pad as usize);
        assert(sp@ =~= spaces(pad as nat));
        let ghost before = row@;
        row.push((sp, InputTone::Plain));
        assert(input_row_view(row) =~= input_row_view_seq(before).push((spaces(pad as nat), InputTone::Plain)));
    }
    assert(input_row_view(row) =~= mid + gap);
    let ghost with_gap = input_row_view(row);
    let aligned = right_align(&l.text, mw);
    row.push((String::from_str("\u{2190}"), mark));
    row.push((String::from_str(" "), InputTone::Plain));
    row.push((aligned, input_tone));
    row.push((String::from_str(" "), InputTone::Plain));
    assert(input_row_view(row) =~= with_gap + seq![
        ("\u{2190}"@, mark),
        (" "@, InputTone::Plain),
        (right_aligned(l.text@, mw as nat), input_tone),
        (" "@, InputTone::Plain),
    ]);
    proof {
        assert(pad as int == right_pad(width, w as nat, src@, mw as nat));
    }
    assert(input_row_view(row) =~= input_row(ls@, idx as int, active_count, line_texts(lines@), width));
    row
}

/// The rows of the input pane.
pub open spec fn input_row_view_seq(v: Seq<(String, InputTone)>) -> Seq<(Seq<char>, InputTone)> {
    v.map_values(|p: (String, InputTone)| (p.0@, p.1))
}

/// Render the input pane, `width` columns by `height` rows: the stored
/// inputs with the source lines that read them, those not yet read dimmed,
/// scrolled so that the last input read is in view.
pub fn render_input_pane(
    data: InputRenderData,
    scroll_state: &mut InputScrollState,
    width: u16,
    height: u16,
) -> (r: InputPane)
    requires
        old(scroll_state).offset + height <= usize::MAX,
    ensures
        r.title@ == " Stored Input "@,
        r.focused == data.is_focused,
        input_rows_view(r.rows@) == input_rows(
            data.all_input_lines@,
            data.active_count,
            data.source_code@,
            width,
        ),
        final(scroll_state).offset == input_offset(
            old(scroll_state).offset,
            data.active_count,
            input_rows(data.all_input_lines@, data.active_count, data.source_code@, width).len() as usize,
            (if height >= 2 { height - 2 } else { 0 }) as usize,
        ),
{
    let ls = data.all_input_lines;
    let lines = split_lines(data.source_code);
    let mut rows: Vec<Vec<(String, InputTone)>> = Vec::new();
    proof {
        reveal_strlit(" Stored Input ");
        reveal_strlit("(no input)");
    }
    if ls.len() == 0 {
        let row = vec![(String::from_str("(no input)"), InputTone::Muted)];
        assert(input_row_view(row) =~= seq![("(no input)"@, InputTone::Muted)]);
        rows.push(row);
        assert(input_rows_view(rows@) =~= input_rows(ls@, data.active_count, data.source_code@, width));
    } else {
        let max_no = largest_line_number(ls);
        let mut digits = String::new();
        push_decimal(&mut digits, max_no as u64);
        let d = digits.unicode_len();
        let w: usize = if d < 2 { 2 } else { d };
        let mw = largest_input_len(ls);
        let mut i: usize = 0;
        while i < ls.len()
            invariant
                0 <= i <= ls@.len(),
                w == number_width(ls@),
                mw == max_input_len(ls@),
                line_texts(lines@) == text_lines(data.source_code@),
                input_rows_view(rows@) =~= Seq::new(
                    i as nat,
                    |k: int| input_row(ls@, k, data.active_count, text_lines(data.source_code@), width),
                ),
            decreases ls@.len() - i,
        {
            let row = input_row_of(ls, i, data.active_count, &lines, width, w, mw);
            let ghost before = rows@;
            rows.push(row);
            assert(input_rows_view(rows@) =~= input_rows_view(before).push(input_row_view(row)));
            i = i + 1;
        }
    }
    let content_height: usize = if height >= 2 { (height - 2) as usize } else { 0 };
    let total = rows.len();
    scroll_state.follow(data.active_count, total, content_height);
    InputPane { title: String::from_str(" Stored Input "), focused: data.is_focused, rows }
}

} // verus!
