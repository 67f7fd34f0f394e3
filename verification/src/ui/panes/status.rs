//! The status bar: the step counter and the last message on the left, the
//! key bindings and where execution stands on the right.
use vstd::prelude::*;
use crate::text::{decimal_digits, push_decimal};
use crate::ui::app::ErrorState;

verus! {

/// The color role of a piece of the status bar.
#[derive(Debug, Clone, Copy, PartialEq, Eq, Structural)]
pub enum StatusTone {
    /// The step counter
    Step,
    /// The step counter after an error
    FailedStep,
    Separator,
    /// Messages and key descriptions
    Text,
    /// A message after an error
    ErrorText,
    /// A key
    Key,
    Playing,
    End,
    Start,
}

/// A piece of the status bar.
pub type StatusPiece = (String, StatusTone);

pub open spec fn status_pieces(v: Seq<StatusPiece>) -> Seq<(Seq<char>, StatusTone)> {
    v.map_values(|p: StatusPiece| (p.0@, p.1))
}

/// The step counter: the step shown (from 1) out of all of them, or out of
/// "?" after an error.
pub open spec fn step_text(current: usize, total: usize, failed: bool) -> Seq<char> {
    " Step "@ + decimal_digits((current + 1) as nat) + "/"@ + (if failed {
        "?"@
    } else {
        decimal_digits(total as nat)
    }) + " "@
}

/// The left side: step counter and message, in the error color after an
/// error.
pub open spec fn status_left(message: Seq<char>, current: usize, total: usize, failed: bool) -> Seq<
    (Seq<char>, StatusTone),
> {
    seq![
        (step_text(current, total, failed), if failed {
            StatusTone::FailedStep
        } else {
            StatusTone::Step
        }),
        (" | "@, StatusTone::Separator),
        (" "@ + message + " "@, if failed {
            StatusTone::ErrorText
        } else {
            StatusTone::Text
        }),
    ]
}

/// The key bindings.
pub open spec fn key_help() -> Seq<(Seq<char>, StatusTone)> {
    seq![
        (" ←/→ "@, StatusTone::Key),
        (" step "@, StatusTone::Text),
        ("│"@, StatusTone::Separator),
        (" "@, StatusTone::Text),
        (" s "@, StatusTone::Key),
        (" step over "@, StatusTone::Text),
        ("│"@, StatusTone::Separator),
        (" "@, StatusTone::Text),
        (" 1-9 "@, StatusTone::Key),
        (" jump "@, StatusTone::Text),
        ("│"@, StatusTone::Separator),
        (" "@, StatusTone::Text),
        (" ⎵ "@, StatusTone::Key),
        (" play "@, StatusTone::Text),
        ("│"@, StatusTone::Separator),
        (" "@, StatusTone::Text),
        (" ↵ / ⌫ "@, StatusTone::Key),
        (" end/start "@, StatusTone::Text),
        ("│"@, StatusTone::Separator),
        (" "@, StatusTone::Text),
        ("q"@, StatusTone::Key),
        (" quit "@, StatusTone::Text),
    ]
}

/// The right side: the key bindings, then "PLAYING" while playing, else
/// "END" at the last step (or past it), else "START" at the first.
pub open spec fn status_right(current: usize, total: usize, playing: bool) -> Seq<(Seq<char>, StatusTone)> {
    key_help() + if playing {
        seq![("│"@, StatusTone::Separator), (" ▶ PLAYING "@, StatusTone::Playing)]
    } else if current + 1 >= total {
        seq![("│"@, StatusTone::Separator), (" END "@, StatusTone::End)]
    } else if current == 0 {
        seq![("│"@, StatusTone::Separator), (" START "@, StatusTone::Start)]
    } else {
        Seq::empty()
    }
}

fn push_status(pieces: &mut Vec<StatusPiece>, text: &str, tone: StatusTone)
    ensures
        status_pieces(final(pieces)@) == status_pieces(old(pieces)@).push((text@, tone)),
{
    let s = String::from_str(text);
    pieces.push((s, tone));
    assert(status_pieces(pieces@) =~= status_pieces(old(pieces)@).push((text@, tone)));
}

/// The two sides of the status bar, for step `current_step` (counted from
/// 0) of `total_steps`, the last message, any error and whether playback
/// runs.
pub fn render_status_bar(
    message: &str,
    current_step: usize,
    total_steps: usize,
    error_state: Option<&ErrorState>,
    is_playing: bool,
) -> (r: (Vec<StatusPiece>, Vec<StatusPiece>))
    requires
        current_step < usize::MAX,
    ensures
        status_pieces(r.0@) == status_left(message@, current_step, total_steps, error_state is Some),
        status_pieces(r.1@) == status_right(current_step, total_steps, is_playing),
{
    let failed = error_state.is_some();
    let mut step = String::from_str(" Step ");
    push_decimal(&mut step, (current_step + 1) as u64);
    step.append("/");
    if failed {
        step.append("?");
    } else {
        push_decimal(&mut step, total_steps as u64);
    }
    step.append(" ");
    let mut left: Vec<StatusPiece> = Vec::new();
    left.push((step, if failed {
        StatusTone::FailedStep
    } else {
        StatusTone::Step
    }));
    push_status(&mut left, " | ", StatusTone::Separator);
    let mut text = String::from_str(" ");
    text.append(message);
    text.append(" ");
    let ghost before = status_pieces(left@);
    let tone = if failed {
        StatusTone::ErrorText
    } else {
        StatusTone::Text
    };
    let ghost t = text@;
    left.push((text, tone));
    assert(status_pieces(left@) =~= before.push((t, tone)));
    assert(status_pieces(left@) =~= status_left(message@, current_step, total_steps, failed));
    let mut right: Vec<StatusPiece> = Vec::new();
    push_status(&mut right, " ←/→ ", StatusTone::Key);
    push_status(&mut right, " step ", StatusTone::Text);
    push_status(&mut right, "│", StatusTone::Separator);
    push_status(&mut right, " ", StatusTone::Text);
    push_status(&mut right, " s ", StatusTone::Key);
    push_status(&mut right, " step over ", StatusTone::Text);
    push_status(&mut right, "│", StatusTone::Separator);
    push_status(&mut right, " ", StatusTone::Text);
    push_status(&mut right, " 1-9 ", StatusTone::Key);
    push_status(&mut right, " jump ", StatusTone::Text);
    push_status(&mut right, "│", StatusTone::Separator);
    push_status(&mut right, " ", StatusTone::Text);
    push_status(&mut right, " ⎵ ", StatusTone::Key);
    push_status(&mut right, " play ", StatusTone::Text);
    push_status(&mut right, "│", StatusTone::Separator);
    push_status(&mut right, " ", StatusTone::Text);
    push_status(&mut right, " ↵ / ⌫ ", StatusTone::Key);
    push_status(&mut right, " end/start ", StatusTone::Text);
    push_status(&mut right, "│", StatusTone::Separator);
    push_status(&mut right, " ", StatusTone::Text);
    push_status(&mut right, "q", StatusTone::Key);
    push_status(&mut right, " quit ", StatusTone::Text);
    assert(status_pieces(right@) =~= key_help());
    let is_at_start = current_step == 0;
    let is_at_end = current_step + 1 >= total_steps;
    if is_playing {
        push_status(&mut right, "│", StatusTone::Separator);
        push_status(&mut right, " ▶ PLAYING ", StatusTone::Playing);
    } else if is_at_end {
        push_status(&mut right, "│", StatusTone::Separator);
        push_status(&mut right, " END ", StatusTone::End);
    } else if is_at_start {
        push_status(&mut right, "│", StatusTone::Separator);
        push_status(&mut right, " START ", StatusTone::Start);
    }
    assert(status_pieces(right@) =~= status_right(current_step, total_steps, is_playing));
    (left, right)
}

} // verus!
