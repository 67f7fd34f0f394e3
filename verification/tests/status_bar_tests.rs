use crustty::parser::ast::SourceLocation;
use crustty::ui::app::ErrorState;
use crustty::ui::panes::status::{render_status_bar, StatusPiece, StatusTone};

fn piece(text: &str, tone: StatusTone) -> StatusPiece {
    (text.to_string(), tone)
}

fn key_help() -> Vec<StatusPiece> {
    let mut v = Vec::new();
    for (key, desc) in [
        (" ←/→ ", " step "),
        (" s ", " step over "),
        (" 1-9 ", " jump "),
        (" ⎵ ", " play "),
        (" ↵ / ⌫ ", " end/start "),
    ] {
        v.push(piece(key, StatusTone::Key));
        v.push(piece(desc, StatusTone::Text));
        v.push(piece("│", StatusTone::Separator));
        v.push(piece(" ", StatusTone::Text));
    }
    v.push(piece("q", StatusTone::Key));
    v.push(piece(" quit ", StatusTone::Text));
    v
}

fn with_marker(marker: &str, tone: StatusTone) -> Vec<StatusPiece> {
    let mut v = key_help();
    v.push(piece("│", StatusTone::Separator));
    v.push(piece(marker, tone));
    v
}

#[test]
fn status_bar_at_first_step() {
    let (left, right) = render_status_bar("Ready", 0, 5, None, false);
    assert_eq!(
        left,
        vec![
            piece(" Step 1/5 ", StatusTone::Step),
            piece(" | ", StatusTone::Separator),
            piece(" Ready ", StatusTone::Text),
        ]
    );
    assert_eq!(right, with_marker(" START ", StatusTone::Start));
}

#[test]
fn status_bar_in_the_middle_shows_no_marker() {
    let (_, right) = render_status_bar("", 2, 5, None, false);
    assert_eq!(right, key_help());
}

#[test]
fn status_bar_at_last_step() {
    let (left, right) = render_status_bar("Done", 4, 5, None, false);
    assert_eq!(left[0], piece(" Step 5/5 ", StatusTone::Step));
    assert_eq!(right, with_marker(" END ", StatusTone::End));
}

#[test]
fn status_bar_playing_wins_over_position() {
    let (_, right) = render_status_bar("", 4, 5, None, true);
    assert_eq!(right, with_marker(" ▶ PLAYING ", StatusTone::Playing));
}

#[test]
fn status_bar_after_an_error() {
    let err = ErrorState::ParseError { message: "bad".to_string(), location: SourceLocation::new(1, 1) };
    let (left, _) = render_status_bar("Boom", 2, 5, Some(&err), false);
    assert_eq!(
        left,
        vec![
            piece(" Step 3/? ", StatusTone::FailedStep),
            piece(" | ", StatusTone::Separator),
            piece(" Boom ", StatusTone::ErrorText),
        ]
    );
}
