//! Scrolling of the terminal pane.
use vstd::prelude::*;
use super::heap::max_scroll;
use crate::snapshot::{MockTerminal, lines_view, output_lines};

verus! {

/// Scroll state for the terminal pane
#[derive(Debug, Clone, Copy, Default)]
pub struct TerminalScrollState {
    pub offset: usize,
}

/// An offset kept within range.
pub open spec fn clamped(offset: usize, total: usize, height: usize) -> usize {
    if offset < max_scroll(total, height) {
        offset
    } else {
        max_scroll(total, height)
    }
}

impl TerminalScrollState {
    /// Keep the scroll position within a list of `total_items` rows shown
    /// `content_height` at a time.
    pub fn clamp(&mut self, total_items: usize, content_height: usize)
        ensures
            final(self).offset == clamped(old(self).offset, total_items, content_height),
    {
        if total_items > content_height {
            let max_scroll = total_items - content_height;
            if self.offset > max_scroll {
                self.offset = max_scroll;
            }
        } else {
            self.offset = 0;
        }
    }
}

/// How a piece of the terminal pane is drawn.
#[derive(Debug, Clone, Copy, PartialEq, Eq)]
pub enum TerminalTone {
    /// Placeholder text and an idle prompt.
    Muted,
    /// A line the program printed.
    Output,
    /// The prompt while the program waits for input.
    Accent,
    /// What is typed while the program waits for input.
    Typed,
}

/// Data needed to render the terminal pane
pub struct TerminalRenderData<'a> {
    pub terminal: &'a MockTerminal,
    pub is_focused: bool,
    pub is_scanf_input: bool,
    pub input_buffer: &'a str,
}

/// What the terminal pane shows: its title, whether its border is
/// highlighted, the rows in view and the input bar at the bottom (absent
/// when the pane has no inner row).
pub struct TerminalPane {
    pub title: String,
    pub focused: bool,
    pub rows: Vec<(String, TerminalTone)>,
    pub prompt: Option<Vec<(String, TerminalTone)>>,
}

/// The rows of the pane before scrolling: a placeholder, or each output line.
pub open spec fn terminal_items(out: Seq<Seq<char>>) -> Seq<(Seq<char>, TerminalTone)> {
    if out.len() == 0 {
        seq![("(no output)"@, TerminalTone::Muted)]
    } else {
        out.map_values(|t: Seq<char>| (t, TerminalTone::Output))
    }
}

/// Rows inside the border of a pane `height` rows high.
pub open spec fn inner_rows(height: u16) -> int {
    if height >= 2 { height - 2 } else { 0 }
}

/// Rows left for output once one is kept for the input bar (at least one).
pub open spec fn content_rows(height: u16) -> int {
    if inner_rows(height) >= 2 { inner_rows(height) - 1 } else { 1 }
}

/// The pane's title.
pub open spec fn terminal_title(waiting: bool) -> Seq<char> {
    if waiting { " Terminal \u{2014} waiting for input "@ } else { " Terminal "@ }
}

/// The input bar: a prompt and the typed text, with a blinking cursor while
/// the program waits for input.
pub open spec fn prompt_pieces(waiting: bool, buffer: Seq<char>, frame_count: u64) -> Seq<(Seq<char>, TerminalTone)> {
    if waiting {
        let cursor = if (frame_count / 8) % 2 == 0 { "\u{2588}"@ } else { " "@ };
        seq![("> "@, TerminalTone::Accent), (buffer, TerminalTone::Typed), (cursor, TerminalTone::Accent)]
    } else {
        seq![("> "@, TerminalTone::Muted), (buffer, TerminalTone::Muted)]
    }
}

/// The rows in view from `offset`, at most `height` of them.
pub open spec fn window<T>(items: Seq<T>, offset: int, height: int) -> Seq<T> {
    let end = if offset + height < items.len() { offset + height } else { items.len() as int };
    items.subrange(offset, end)
}

/// Texts and tones of a row list.
pub open spec fn rows_view(v: Seq<(String, TerminalTone)>) -> Seq<(Seq<char>, TerminalTone)> {
    v.map_values(|p: (String, TerminalTone)| (p.0@, p.1))
}

/// Render the terminal pane, `height` rows high, on animation frame
/// `frame_count`: the scroll position is kept within range and the rows in
/// view are those from it.
pub fn render_terminal_pane(
    data: TerminalRenderData,
    scroll_state: &mut TerminalScrollState,
    height: u16,
    frame_count: u64,
) -> (r: TerminalPane)
    ensures
        r.title@ == terminal_title(data.is_scanf_input),
        r.focused == data.is_focused,
        ({
            let items = terminal_items(output_lines(lines_view(data.terminal.lines@)));
            &&& final(scroll_state).offset == clamped(
                old(scroll_state).offset,
                items.len() as usize,
                content_rows(height) as usize,
            )
            &&& rows_view(r.rows@) == window(items, final(scroll_state).offset as int, content_rows(height))
        }),
        match r.prompt {
            Some(p) => inner_rows(height) > 0 && rows_view(p@) == prompt_pieces(
                data.is_scanf_input,
                data.input_buffer@,
                frame_count,
            ),
            None => inner_rows(height) == 0,
        },
{
    let lines = data.terminal.get_output();
    let ghost out = output_lines(lines_view(data.terminal.lines@));
    let title = if data.is_scanf_input {
        String::from_str(" Terminal \u{2014} waiting for input ")
    } else {
        String::from_str(" Terminal ")
    };
    proof {
        reveal_strlit(" Terminal \u{2014} waiting for input ");
        reveal_strlit(" Terminal ");
        reveal_strlit("(no output)");
        reveal_strlit("> ");
        reveal_strlit("\u{2588}");
        reveal_strlit(" ");
    }
    let inner_height: u16 = if height >= 2 { height - 2 } else { 0 };
    let content_height: usize = if inner_height >= 2 { (inner_height - 1) as usize } else { 1 };
    let mut items: Vec<(String, TerminalTone)> = Vec::new();
    if lines.len() == 0 {
        items.push((String::from_str("(no output)"), TerminalTone::Muted));
        assert(rows_view(items@) =~= terminal_items(out));
    } else {
        let mut i: usize = 0;
        while i < lines.len()
            invariant
                0 <= i <= lines@.len(),
                lines@.map_values(|x: String| x@) == out,
                rows_view(items@) =~= out.take(i as int).map_values(
                    |t: Seq<char>| (t, TerminalTone::Output),
                ),
            decreases lines@.len() - i,
        {
            let text = lines[i].clone();
            let ghost before = items@;
            items.push((text, TerminalTone::Output));
            proof {
                assert(out[i as int] == lines@[i as int]@);
                assert(text@ == lines@[i as int]@);
                assert(rows_view(items@) =~= rows_view(before).push((text@, TerminalTone::Output)));
                assert(out.take(i + 1) =~= out.take(i as int).push(out[i as int]));
                assert(out.take(i + 1).map_values(|t: Seq<char>| (t, TerminalTone::Output))
                    =~= out.take(i as int).map_values(|t: Seq<char>| (t, TerminalTone::Output)).push(
                    (out[i as int], TerminalTone::Output),
                ));
            }
            i = i + 1;
        }
        assert(out.take(lines@.len() as int) =~= out);
        assert(rows_view(items@) =~= terminal_items(out));
    }
    let total_items = items.len();
    scroll_state.clamp(total_items, content_height);
    let offset = scroll_state.offset;
    let end: usize = if offset < total_items && total_items - offset > content_height {
        offset + content_height
    } else {
        total_items
    };
    let mut rows: Vec<(String, TerminalTone)> = Vec::new();
    let mut k: usize = offset;
    proof {
        assert(offset <= total_items) by {
            assert(max_scroll(total_items, content_height) <= total_items);
        }
    }
    while k < end
        invariant
            offset <= k <= end <= items@.len(),
            rows_view(rows@) =~= rows_view(items@).subrange(offset as int, k as int),
        decreases end - k,
    {
        let text = items[k].0.clone();
        let tone = items[k].1;
        let ghost before = rows@;
        rows.push((text, tone));
        proof {
            assert(rows_view(rows@) =~= rows_view(before).push((text@, tone)));
            assert(rows_view(items@)[k as int] == (text@, tone));
            assert(rows_view(items@).subrange(offset as int, k + 1) =~= rows_view(items@).subrange(
                offset as int,
                k as int,
            ).push(rows_view(items@)[k as int]));
        }
        k = k + 1;
    }
    let prompt = if inner_height > 0 {
        let mut p: Vec<(String, TerminalTone)> = Vec::new();
        let buffer = String::from_str(data.input_buffer);
        if data.is_scanf_input {
            let cursor = if (frame_count / 8) % 2 == 0 {
                String::from_str("\u{2588}")
            } else {
                String::from_str(" ")
            };
            p.push((String::from_str("> "), TerminalTone::Accent));
            p.push((buffer, TerminalTone::Typed));
            p.push((cursor, TerminalTone::Accent));
        } else {
            p.push((String::from_str("> "), TerminalTone::Muted));
            p.push((buffer, TerminalTone::Muted));
        }
        assert(rows_view(p@) =~= prompt_pieces(data.is_scanf_input, data.input_buffer@, frame_count));
        Some(p)
    } else {
        None
    };
    TerminalPane { title, focused: data.is_focused, rows, prompt }
}

} // verus!
