use crustty::ui::panes::source::{render_source_pane, Highlight, LineMark, SourceScrollState, SourceTone};

fn p(text: &str, tone: SourceTone) -> (String, SourceTone) {
    (text.to_string(), tone)
}

fn fresh() -> SourceScrollState {
    SourceScrollState { offset: 0, target_line_row: None }
}

#[test]
fn source_pane_marks_the_current_line() {
    let mut scroll = fresh();
    let rows = render_source_pane("int x;\n// note\n", 1, false, false, 10, &mut scroll);
    assert_eq!(scroll.offset, 0);
    assert_eq!(scroll.target_line_row, Some(4));
    assert_eq!(
        rows,
        vec![
            vec![
                p("   1 ", SourceTone::LineNumber(LineMark::Current)),
                p("int", SourceTone::Emphasized(Highlight::TypeName, LineMark::Current)),
                p(" ", SourceTone::Emphasized(Highlight::OtherSymbol, LineMark::Current)),
                p("x", SourceTone::Emphasized(Highlight::Identifier, LineMark::Current)),
                p(";", SourceTone::Emphasized(Highlight::Punctuation, LineMark::Current)),
            ],
            vec![
                p("   2 ", SourceTone::LineNumber(LineMark::Normal)),
                p("// note", SourceTone::Code(Highlight::Comment)),
            ],
        ]
    );
}

#[test]
fn source_pane_error_colors_every_line() {
    let mut scroll = fresh();
    let rows = render_source_pane("x;\r\ny;", 2, true, false, 10, &mut scroll);
    assert_eq!(
        rows,
        vec![
            vec![
                p("   1 ", SourceTone::LineNumber(LineMark::Error)),
                p("x", SourceTone::ErrorCode),
                p(";", SourceTone::ErrorCode),
            ],
            vec![
                p("   2 ", SourceTone::LineNumber(LineMark::Error)),
                p("y", SourceTone::ErrorCode),
                p(";", SourceTone::ErrorCode),
            ],
        ]
    );
}

#[test]
fn source_pane_waiting_for_input() {
    let mut scroll = fresh();
    let rows = render_source_pane("a;\nb;\n", 2, false, true, 10, &mut scroll);
    assert_eq!(rows[0][0], p("   1 ", SourceTone::LineNumber(LineMark::Scanf)));
    assert_eq!(rows[0][1], p("a", SourceTone::Code(Highlight::Identifier)));
    assert_eq!(rows[1][1], p("b", SourceTone::Emphasized(Highlight::Identifier, LineMark::Scanf)));
}

#[test]
fn source_pane_scrolls_to_keep_the_row() {
    let source: String = (1..=20).map(|i| format!("x{};\n", i)).collect();
    let mut scroll = fresh();
    // 7 rows inside the borders; the current line sits at row 3.
    let rows = render_source_pane(&source, 15, false, false, 9, &mut scroll);
    assert_eq!(scroll.target_line_row, Some(3));
    assert_eq!(scroll.offset, 11);
    assert_eq!(rows.len(), 7);
    assert_eq!(rows[0][0], p("  12 ", SourceTone::LineNumber(LineMark::Normal)));
    assert_eq!(rows[3][0], p("  15 ", SourceTone::LineNumber(LineMark::Current)));
    // Near the end the offset stops at the last full window.
    let rows = render_source_pane(&source, 20, false, false, 9, &mut scroll);
    assert_eq!(scroll.offset, 13);
    assert_eq!(rows[6][0], p("  20 ", SourceTone::LineNumber(LineMark::Current)));
}

#[test]
fn source_pane_empty_source() {
    let mut scroll = fresh();
    let rows = render_source_pane("", 1, false, false, 10, &mut scroll);
    assert!(rows.is_empty());
    assert_eq!(scroll.offset, 0);
}
