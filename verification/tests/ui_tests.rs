use crustty::interpreter::errors::RuntimeError;
use crustty::memory::heap::HeapBlock;
use crustty::parser::ast::{BaseType, Field, SourceLocation, StructDef, Type};
use crustty::snapshot::{MockTerminal, SnapshotManager, TerminalLine};
use crustty::ui::app::{AppState, ErrorState, FocusedPane, Key, KeyAction, Step};
use crustty::ui::panes::heap::HeapScrollState;
use crustty::ui::panes::input::{render_input_pane, InputRenderData, InputScrollState, InputTone};
use crustty::ui::panes::source::{highlight_source_code, Highlight, SourceScrollState};
use crustty::ui::panes::stack::StackScrollState;
use crustty::ui::panes::terminal::{render_terminal_pane, TerminalRenderData, TerminalScrollState, TerminalTone};
use crustty::ui::panes::utils::formatting::format_type_annotation;
use crustty::ui::panes::utils::memory::{calculate_field_offsets, interpret_heap_data, read_typed_value};

fn loc(line: usize) -> SourceLocation {
    SourceLocation::new(line, 1)
}

#[test]
fn focus_cycles_through_panes() {
    assert_eq!(FocusedPane::Source.next(), FocusedPane::Terminal);
    assert_eq!(FocusedPane::Terminal.next(), FocusedPane::Stack);
    assert_eq!(FocusedPane::Stack.next(), FocusedPane::Heap);
    assert_eq!(FocusedPane::Heap.next(), FocusedPane::Source);
    for p in [FocusedPane::Source, FocusedPane::Stack, FocusedPane::Heap, FocusedPane::Terminal] {
        assert_eq!(p.next().prev(), p);
        assert_eq!(p.prev().next(), p);
        assert_eq!(p.next().next().next().next(), p);
    }
}

#[test]
fn error_state_queries() {
    let parse = ErrorState::ParseError { message: "Expected ';'".to_string(), location: loc(3) };
    assert_eq!(parse.line(), 3);
    assert_eq!(parse.memory_address(), None);
    assert_eq!(parse.message(), "Parse Error: Expected ';'");
    let rt = ErrorState::RuntimeError(RuntimeError::DoubleFree { address: 0x20, location: loc(7) });
    assert_eq!(rt.line(), 7);
    assert_eq!(rt.memory_address(), Some(0x20));
    assert_eq!(rt.message(), "Runtime Error: Double free at address 0x20 at line 7");
    let oom = ErrorState::RuntimeError(RuntimeError::OutOfMemory { requested: 1, limit: 0 });
    assert_eq!(oom.line(), 0);
    let un = ErrorState::RuntimeError(RuntimeError::UninitializedRead { var: "v".to_string(), address: None, location: loc(1) });
    assert_eq!(un.memory_address(), None);
}

#[test]
fn type_annotations() {
    let defs: Vec<StructDef> = vec![];
    assert_eq!(format_type_annotation(&Type::new(BaseType::Int), &defs), "int");
    assert_eq!(
        format_type_annotation(&Type::new(BaseType::Char).with_const().with_pointer().with_pointer(), &defs),
        "const char**"
    );
    assert_eq!(
        format_type_annotation(&Type::new(BaseType::Struct("Node".to_string())).with_array(Some(3)).with_array(None), &defs),
        "struct Node[3][]"
    );
}

fn pair_def() -> StructDef {
    StructDef {
        name: "Pair".to_string(),
        fields: vec![
            Field { name: "c".to_string(), field_type: Type::new(BaseType::Char) },
            Field { name: "n".to_string(), field_type: Type::new(BaseType::Int) },
            Field { name: "p".to_string(), field_type: Type::new(BaseType::Int).with_pointer() },
        ],
    }
}

#[test]
fn field_offsets_follow_each_other() {
    let defs = vec![pair_def()];
    let offs = calculate_field_offsets(&pair_def().fields, &defs);
    let summary: Vec<(String, usize, usize)> = offs.iter().map(|(n, o, s, _)| (n.clone(), *o, *s)).collect();
    assert_eq!(summary, vec![("c".to_string(), 0, 1), ("n".to_string(), 1, 4), ("p".to_string(), 5, 8)]);
    assert_eq!(offs[2].3, Type::new(BaseType::Int).with_pointer());
}

#[test]
fn typed_values_from_bytes() {
    let defs = vec![pair_def()];
    let int_t = Type::new(BaseType::Int);
    assert_eq!(read_typed_value(&[0xFF, 0xFF, 0xFF, 0xFF], &[true; 4], &int_t, &defs), Some("-1".to_string()));
    assert_eq!(read_typed_value(&[42, 1, 0, 0], &[true; 4], &int_t, &defs), Some("298".to_string()));
    assert_eq!(read_typed_value(&[1, 2, 3, 4], &[true, false, true, true], &int_t, &defs), Some("[partial]".to_string()));
    assert_eq!(read_typed_value(&[1, 2, 3, 4], &[false; 4], &int_t, &defs), Some("[uninit]".to_string()));
    assert_eq!(read_typed_value(&[1, 2], &[true; 2], &int_t, &defs), None);
    let ptr = Type::new(BaseType::Char).with_pointer();
    assert_eq!(read_typed_value(&[0; 8], &[true; 8], &ptr, &defs), Some("NULL".to_string()));
    assert_eq!(read_typed_value(&[0x10, 0, 0xff, 0x7f, 0, 0, 0, 0], &[true; 8], &ptr, &defs), Some("0x7fff0010".to_string()));
    let ch = Type::new(BaseType::Char);
    assert_eq!(read_typed_value(&[b'A'], &[true], &ch, &defs), Some("'A'".to_string()));
    assert_eq!(read_typed_value(&[10], &[true], &ch, &defs), Some("'\\x0a'".to_string()));
    let s = Type::new(BaseType::Char).with_array(Some(4));
    assert_eq!(read_typed_value(b"hi\0x", &[true; 4], &s, &defs), Some("\"hi\"".to_string()));
    assert_eq!(read_typed_value(b"h\ni", &[true; 3], &Type::new(BaseType::Char).with_array(Some(3)), &defs), None);
    assert_eq!(read_typed_value(b"\0abc", &[true; 4], &s, &defs), None);
    let st = Type::new(BaseType::Struct("Pair".to_string()));
    assert_eq!(read_typed_value(&[0; 13], &[true; 13], &st, &defs), Some("struct Pair".to_string()));
    assert_eq!(read_typed_value(&[], &[], &Type::new(BaseType::Void), &defs), None);
}

#[test]
fn heap_data_interpretation() {
    let defs: Vec<StructDef> = vec![];
    let mut block = HeapBlock::new(4);
    assert_eq!(interpret_heap_data(&block, &Type::new(BaseType::Int), &defs), None);
    block.write_bytes(0, &[7, 0, 0, 0]).unwrap();
    assert_eq!(interpret_heap_data(&block, &Type::new(BaseType::Int), &defs), Some("7".to_string()));
    assert_eq!(interpret_heap_data(&block, &Type::new(BaseType::Int).with_pointer(), &defs), Some("0x00000007".to_string()));
    let mut text = HeapBlock::new(3);
    text.write_bytes(0, b"ok\0").unwrap();
    assert_eq!(interpret_heap_data(&text, &Type::new(BaseType::Char), &defs), Some("\"ok\"".to_string()));
    let mut one = HeapBlock::new(1);
    one.write_bytes(0, b"z").unwrap();
    assert_eq!(interpret_heap_data(&one, &Type::new(BaseType::Char), &defs), Some("'z'".to_string()));
    assert_eq!(interpret_heap_data(&one, &Type::new(BaseType::Struct("S".to_string())), &defs), None);
}

#[test]
fn terminal_output_lines() {
    let mut term = MockTerminal::new();
    term.print("Hello, ".to_string(), loc(2));
    term.print("world\n".to_string(), loc(2));
    term.print("a\nb".to_string(), loc(3));
    term.println("".to_string(), loc(4));
    assert_eq!(term.lines.len(), 3);
    assert_eq!(term.get_output(), vec!["Hello, world".to_string(), "a".to_string(), "b".to_string()]);
    term.delete_output_from_line(2);
    assert_eq!(term.get_output(), vec!["a".to_string(), "b".to_string()]);
    term.clear();
    assert!(term.get_output().is_empty());
    assert!(MockTerminal::default().lines.is_empty());
}

#[test]
fn terminal_blank_lines_kept() {
    let mut term = MockTerminal::new();
    term.print("x\n\n".to_string(), loc(1));
    assert_eq!(term.get_output(), vec!["x".to_string(), "".to_string()]);
}

#[test]
fn snapshot_manager_accounting() {
    let mut m = SnapshotManager::new(1000);
    assert!(m.is_empty());
    assert_eq!(m.memory_usage(), 0);
    assert_eq!(m.memory_limit(), 1000);
    assert!(m.latest().is_none());
    assert!(m.get(0).is_none());
    assert_eq!(m.count(), 0);
    assert_eq!(m.len(), 0);
    m.clear();
    assert_eq!(m.memory_usage(), 0);
}

#[test]
fn scroll_states_follow_content() {
    let mut h = HeapScrollState::default();
    h.update(30, 10);
    assert_eq!((h.offset, h.prev_item_count), (20, 30));
    h.offset = 5;
    h.update(30, 10);
    assert_eq!(h.offset, 5);
    h.offset = 25;
    h.update(28, 10);
    assert_eq!(h.offset, 18);
    h.update(5, 10);
    assert_eq!(h.offset, 0);
    let mut s = StackScrollState::default();
    s.update(12, 4);
    assert_eq!(s.offset, 8);
    let mut t = TerminalScrollState { offset: 50 };
    t.clamp(20, 5);
    assert_eq!(t.offset, 15);
    t.clamp(3, 5);
    assert_eq!(t.offset, 0);
    let mut src = SourceScrollState::default();
    src.follow(40, 100, 21);
    assert_eq!(src.target_line_row, Some(10));
    assert_eq!(src.offset, 29);
    src.follow(3, 100, 21);
    assert_eq!(src.offset, 0);
    src.follow(100, 100, 21);
    assert_eq!(src.offset, 79);
    src.follow(0, 100, 21);
    assert_eq!(src.offset, 79);
    let mut i = InputScrollState::default();
    i.follow(12, 20, 5);
    assert_eq!(i.offset, 7);
    i.follow(3, 20, 5);
    assert_eq!(i.offset, 2);
    i.follow(0, 4, 5);
    assert_eq!(i.offset, 0);
}

fn snapshot_with(frames: usize, heap_bytes: usize, lines: usize) -> crustty::snapshot::Snapshot {
    let mut stack = crustty::memory::stack::Stack::new();
    for _ in 0..frames {
        stack.push_frame("f".to_string(), None);
    }
    let mut heap = crustty::memory::heap::Heap::new(1 << 20);
    if heap_bytes > 0 {
        heap.allocate(heap_bytes).unwrap();
    }
    let mut terminal = MockTerminal::new();
    for i in 0..lines {
        terminal.println(format!("{}", i), loc(i + 1));
    }
    crustty::snapshot::Snapshot {
        stack,
        heap,
        terminal,
        current_statement_index: 0,
        source_location: loc(1),
        return_value: None,
        pointer_types: rustc_hash::FxHashMap::default(),
        stack_address_map: rustc_hash::FxHashMap::default(),
        next_stack_address: 4,
        execution_depth: 0,
    }
}

#[test]
fn snapshot_sizes_and_limit() {
    let s = snapshot_with(2, 30, 1);
    assert_eq!(s.estimated_size(), 2 * 100 + 30 + 50);
    let mut m = SnapshotManager::new(400);
    assert_eq!(m.push(s), Ok(()));
    assert_eq!(m.memory_usage(), 280);
    assert_eq!(m.len(), 1);
    assert_eq!(m.latest().unwrap().heap.total_allocated(), 30);
    let big = snapshot_with(1, 50, 0);
    assert_eq!(m.push(big), Err("Snapshot memory limit exceeded: 280 + 150 > 400".to_string()));
    assert_eq!(m.len(), 1);
    assert_eq!(m.memory_usage(), 280);
    m.push(snapshot_with(0, 0, 2)).unwrap();
    assert_eq!(m.get(1).unwrap().terminal.lines.len(), 2);
    assert_eq!(m.memory_usage(), 380);
    m.clear();
    assert!(m.is_empty());
    assert_eq!(m.memory_usage(), 0);
}

fn pieces(line: &str) -> Vec<(String, Highlight)> {
    highlight_source_code(line)
}

fn p(text: &str, h: Highlight) -> (String, Highlight) {
    (text.to_string(), h)
}

#[test]
fn highlight_declaration_line() {
    assert_eq!(
        pieces("int main() {"),
        vec![
            p("int", Highlight::TypeName),
            p(" ", Highlight::OtherSymbol),
            p("main", Highlight::FunctionName),
            p("(", Highlight::Bracket),
            p(")", Highlight::Bracket),
            p(" ", Highlight::OtherSymbol),
            p("{", Highlight::Bracket),
        ]
    );
}

#[test]
fn highlight_strings_and_comments() {
    assert_eq!(
        pieces("printf(\"hi\\n\"); // done"),
        vec![
            p("printf", Highlight::FunctionName),
            p("(", Highlight::Bracket),
            p("\"hi\\n\"", Highlight::StringLiteral),
            p(")", Highlight::Bracket),
            p(";", Highlight::Punctuation),
            p(" ", Highlight::OtherSymbol),
            p("// done", Highlight::Comment),
        ]
    );
    assert_eq!(pieces("abc// c"), vec![p("abc", Highlight::Plain), p("// c", Highlight::Comment)]);
    assert_eq!(pieces("s\"x"), vec![p("s", Highlight::Plain), p("\"x", Highlight::StringLiteral)]);
}

#[test]
fn highlight_words() {
    assert_eq!(
        pieces("x=NULL"),
        vec![p("x", Highlight::Identifier), p("=", Highlight::Punctuation), p("NULL", Highlight::Constant)]
    );
    assert_eq!(pieces("while"), vec![p("while", Highlight::Keyword)]);
    assert_eq!(pieces("my_var2#"), vec![p("my_var2", Highlight::Identifier), p("#", Highlight::OtherSymbol)]);
    assert_eq!(pieces(""), vec![]);
}

#[test]
fn highlight_handles_non_ascii_text() {
    assert_eq!(pieces("\"\u{e9}\""), vec![p("\"\u{e9}\"", Highlight::StringLiteral)]);
    assert_eq!(
        pieces("\u{e9} = 1; // ok"),
        vec![
            p("\u{e9}", Highlight::Identifier),
            p(" ", Highlight::OtherSymbol),
            p("=", Highlight::Punctuation),
            p(" ", Highlight::OtherSymbol),
            p("1", Highlight::Identifier),
            p(";", Highlight::Punctuation),
            p(" ", Highlight::OtherSymbol),
            p("// ok", Highlight::Comment),
        ]
    );
    assert_eq!(
        pieces("s = \"\u{e9}t\u{e9}\"; // caf\u{e9}"),
        vec![
            p("s", Highlight::Identifier),
            p(" ", Highlight::OtherSymbol),
            p("=", Highlight::Punctuation),
            p(" ", Highlight::OtherSymbol),
            p("\"\u{e9}t\u{e9}\"", Highlight::StringLiteral),
            p(";", Highlight::Punctuation),
            p(" ", Highlight::OtherSymbol),
            p("// caf\u{e9}", Highlight::Comment),
        ]
    );
}

fn end_of_history() -> RuntimeError {
    RuntimeError::HistoryOperationFailed {
        message: "Reached end of execution".to_string(),
        location: SourceLocation::new(1, 1),
    }
}

#[test]
fn app_starts_ready_and_quits() {
    let mut app = AppState::new();
    assert_eq!(app.status_message, "Ready!");
    assert_eq!(app.focused_pane, FocusedPane::Source);
    assert!(matches!(app.handle_key_event(Key::Tab, false, true), KeyAction::Nothing));
    assert_eq!(app.focused_pane, FocusedPane::Terminal);
    app.handle_key_event(Key::BackTab, false, true);
    assert_eq!(app.focused_pane, FocusedPane::Source);
    app.handle_key_event(Key::Char('q'), false, true);
    assert!(app.should_quit);
}

#[test]
fn app_steps_and_reports() {
    let mut app = AppState::new();
    app.is_playing = true;
    assert!(matches!(app.handle_key_event(Key::Char('3'), false, true), KeyAction::StepForwardTimes(3)));
    assert!(!app.is_playing);
    app.finish_multi_step(2, false);
    assert_eq!(app.status_message, "Stepped forward 2 step(s)");
    assert_eq!(app.terminal_scroll, usize::MAX);

    assert!(matches!(app.handle_key_event(Key::Right, false, true), KeyAction::Step(Step::Forward)));
    app.finish_step(Step::Forward, Ok(()), false);
    assert_eq!(app.status_message, "Stepped forward");
    app.finish_step(Step::Forward, Err(end_of_history()), false);
    assert_eq!(app.status_message, "Reached end of execution");
    assert!(app.error_state.is_none());
    app.finish_step(Step::Forward, Ok(()), true);
    assert_eq!(app.status_message, "Waiting for scanf input\u{2026}");

    let mut app = AppState::new();
    let err = RuntimeError::HistoryOperationFailed {
        message: "Already at the beginning of execution".to_string(),
        location: SourceLocation::new(3, 1),
    };
    app.finish_step(Step::Backward, Err(err.clone()), false);
    assert_eq!(app.status_message, err.to_text());
    app.finish_step(Step::BackOver, Err(err), false);
    assert_eq!(app.status_message, "Already at the beginning of execution");
    assert!(app.error_state.is_none());
    app.finish_step(Step::Over, Err(RuntimeError::NoMainFunction), false);
    assert_eq!(app.status_message, "Error: No main() function found");
    assert!(app.error_state.is_some());
}

#[test]
fn app_refuses_steps_while_an_error_is_shown() {
    let error = ErrorState::RuntimeError(RuntimeError::NoMainFunction);
    let mut app = AppState::new_with_error(error);
    assert_eq!(app.status_message, "Runtime Error: No main() function found");
    app.status_message = "other".to_string();
    assert!(matches!(app.handle_key_event(Key::Right, false, true), KeyAction::Nothing));
    assert_eq!(app.status_message, "Runtime Error: No main() function found");
    assert!(matches!(app.handle_key_event(Key::Enter, false, true), KeyAction::Nothing));
    app.is_playing = true;
    assert!(!app.check_playing(false));
    assert_eq!(app.status_message, "Stopped: Runtime Error: No main() function found");
    assert!(!app.is_playing);
}

#[test]
fn app_scanf_input_editing() {
    let mut app = AppState::new();
    app.handle_key_event(Key::Char('4'), true, true);
    app.handle_key_event(Key::Char('2'), true, true);
    app.handle_key_event(Key::Char('x'), true, true);
    app.handle_key_event(Key::Backspace, true, true);
    assert_eq!(app.scanf_input_buffer, "42");
    match app.handle_key_event(Key::Enter, true, true) {
        KeyAction::SubmitInput(line) => assert_eq!(line, "42"),
        other => panic!("unexpected {:?}", other),
    }
    assert_eq!(app.scanf_input_buffer, "");
    app.finish_input(Ok(()), false);
    assert_eq!(app.status_message, "Input accepted");
    app.finish_input(Ok(()), true);
    assert_eq!(app.status_message, "Waiting for scanf input\u{2026}");
}

#[test]
fn app_play_and_scroll() {
    let mut app = AppState::new();
    assert!(matches!(app.handle_key_event(Key::Char(' '), false, true), KeyAction::PlayToggled));
    assert!(app.is_playing);
    assert_eq!(app.status_message, "Playing...");
    assert!(matches!(app.handle_key_event(Key::Char(' '), false, false), KeyAction::Nothing));
    assert!(app.is_playing);
    assert!(app.finish_play_step(Ok(()), false));
    assert!(!app.finish_play_step(Err(end_of_history()), false));
    assert!(!app.is_playing);
    app.handle_key_event(Key::Char(' '), false, true);
    app.handle_key_event(Key::Char(' '), false, true);
    assert_eq!(app.status_message, "Paused");

    app.focused_pane = FocusedPane::Stack;
    app.handle_key_event(Key::Up, false, true);
    assert_eq!(app.stack_scroll.offset, 0);
    app.handle_key_event(Key::Down, false, true);
    app.handle_key_event(Key::Down, false, true);
    assert_eq!(app.stack_scroll.offset, 2);
    app.handle_key_event(Key::Up, false, true);
    assert_eq!(app.stack_scroll.offset, 1);
    app.focused_pane = FocusedPane::Source;
    app.source_scroll.target_line_row = Some(0);
    app.handle_key_event(Key::Down, false, true);
    assert_eq!(app.source_scroll.target_line_row, Some(0));
    app.handle_key_event(Key::Up, false, true);
    assert_eq!(app.source_scroll.target_line_row, Some(1));
}

fn t(text: &str, tone: TerminalTone) -> (String, TerminalTone) {
    (text.to_string(), tone)
}

#[test]
fn terminal_pane_placeholder_and_idle_prompt() {
    let term = MockTerminal::new();
    let mut scroll = TerminalScrollState { offset: 4 };
    let data = TerminalRenderData { terminal: &term, is_focused: true, is_scanf_input: false, input_buffer: "12" };
    let pane = render_terminal_pane(data, &mut scroll, 10, 0);
    assert_eq!(pane.title, " Terminal ");
    assert!(pane.focused);
    assert_eq!(scroll.offset, 0);
    assert_eq!(pane.rows, vec![t("(no output)", TerminalTone::Muted)]);
    assert_eq!(pane.prompt, Some(vec![t("> ", TerminalTone::Muted), t("12", TerminalTone::Muted)]));
}

#[test]
fn terminal_pane_scrolls_and_waits_for_input() {
    let mut term = MockTerminal::new();
    for i in 1..=5 {
        term.println(format!("line {}", i), loc(i));
    }
    // Five rows high: three inside the border, one kept for the input bar.
    let mut scroll = TerminalScrollState { offset: 10 };
    let data = TerminalRenderData { terminal: &term, is_focused: false, is_scanf_input: true, input_buffer: "ab" };
    let pane = render_terminal_pane(data, &mut scroll, 5, 3);
    assert_eq!(pane.title, " Terminal \u{2014} waiting for input ");
    assert!(!pane.focused);
    assert_eq!(scroll.offset, 3);
    assert_eq!(pane.rows, vec![t("line 4", TerminalTone::Output), t("line 5", TerminalTone::Output)]);
    assert_eq!(
        pane.prompt,
        Some(vec![t("> ", TerminalTone::Accent), t("ab", TerminalTone::Typed), t("\u{2588}", TerminalTone::Accent)])
    );
    let mut scroll = TerminalScrollState { offset: 1 };
    let data = TerminalRenderData { terminal: &term, is_focused: false, is_scanf_input: true, input_buffer: "" };
    let pane = render_terminal_pane(data, &mut scroll, 5, 8);
    assert_eq!(scroll.offset, 1);
    assert_eq!(pane.rows, vec![t("line 2", TerminalTone::Output), t("line 3", TerminalTone::Output)]);
    assert_eq!(
        pane.prompt,
        Some(vec![t("> ", TerminalTone::Accent), t("", TerminalTone::Typed), t(" ", TerminalTone::Accent)])
    );
}

#[test]
fn terminal_pane_without_inner_rows() {
    let mut term = MockTerminal::new();
    term.println("a".to_string(), loc(1));
    term.println("b".to_string(), loc(2));
    let mut scroll = TerminalScrollState { offset: 0 };
    let data = TerminalRenderData { terminal: &term, is_focused: false, is_scanf_input: false, input_buffer: "" };
    let pane = render_terminal_pane(data, &mut scroll, 1, 0);
    assert_eq!(pane.prompt, None);
    assert_eq!(pane.rows, vec![t("a", TerminalTone::Output)]);
}

fn inp(text: &str, tone: InputTone) -> (String, InputTone) {
    (text.to_string(), tone)
}

fn stored(text: &str, line: usize) -> TerminalLine {
    TerminalLine { text: text.to_string(), location: loc(line) }
}

const SCANF_SOURCE: &str = "int main() {\n  scanf(\"%d\", &x);\n  scanf(\"%d\", &y);\n}\n";

#[test]
fn input_pane_without_inputs() {
    let mut scroll = InputScrollState { offset: 3 };
    let data = InputRenderData { all_input_lines: &[], active_count: 0, is_focused: true, source_code: SCANF_SOURCE };
    let pane = render_input_pane(data, &mut scroll, 40, 10);
    assert_eq!(pane.title, " Stored Input ");
    assert!(pane.focused);
    assert_eq!(pane.rows, vec![vec![inp("(no input)", InputTone::Muted)]]);
    assert_eq!(scroll.offset, 0);
}

#[test]
fn input_pane_rows_read_and_pending() {
    let lines = vec![stored("5", 2), stored("17", 3)];
    let mut scroll = InputScrollState { offset: 0 };
    let data = InputRenderData { all_input_lines: &lines, active_count: 1, is_focused: false, source_code: SCANF_SOURCE };
    let pane = render_input_pane(data, &mut scroll, 40, 10);
    assert!(!pane.focused);
    let pad = " ".repeat(11);
    assert_eq!(
        pane.rows[0],
        vec![
            inp(" ", InputTone::Plain),
            inp(" 2", InputTone::Muted),
            inp(" : ", InputTone::Muted),
            inp("scanf", InputTone::Code(Highlight::FunctionName)),
            inp("(", InputTone::Code(Highlight::Bracket)),
            inp("\"%d\"", InputTone::Code(Highlight::StringLiteral)),
            inp(",", InputTone::Code(Highlight::Punctuation)),
            inp(" ", InputTone::Code(Highlight::OtherSymbol)),
            inp("&", InputTone::Code(Highlight::Punctuation)),
            inp("x", InputTone::Code(Highlight::Identifier)),
            inp(")", InputTone::Code(Highlight::Bracket)),
            inp(";", InputTone::Code(Highlight::Punctuation)),
            inp(&pad, InputTone::Plain),
            inp("\u{2190}", InputTone::Muted),
            inp(" ", InputTone::Plain),
            inp(" 5", InputTone::Earlier),
            inp(" ", InputTone::Plain),
        ]
    );
    assert_eq!(
        pane.rows[1],
        vec![
            inp(" ", InputTone::Plain),
            inp(" 3", InputTone::Dim),
            inp(" : ", InputTone::Muted),
            inp("scanf(\"%d\", &y);", InputTone::Dim),
            inp(&pad, InputTone::Plain),
            inp("\u{2190}", InputTone::Dim),
            inp(" ", InputTone::Plain),
            inp("17", InputTone::Pending),
            inp(" ", InputTone::Plain),
        ]
    );
    assert_eq!(pane.rows.len(), 2);
    assert_eq!(scroll.offset, 0);
}

#[test]
fn input_pane_latest_input_and_scrolling() {
    let lines = vec![stored("5", 2), stored("17", 3)];
    // Three rows high: one row inside the border, so the last input read is scrolled to.
    let mut scroll = InputScrollState { offset: 0 };
    let data = InputRenderData { all_input_lines: &lines, active_count: 2, is_focused: false, source_code: SCANF_SOURCE };
    let pane = render_input_pane(data, &mut scroll, 10, 3);
    assert_eq!(scroll.offset, 1);
    // Too narrow for padding: no spacing piece before the arrow.
    assert_eq!(
        pane.rows[1][3..],
        [
            inp("scanf", InputTone::Code(Highlight::FunctionName)),
            inp("(", InputTone::Code(Highlight::Bracket)),
            inp("\"%d\"", InputTone::Code(Highlight::StringLiteral)),
            inp(",", InputTone::Code(Highlight::Punctuation)),
            inp(" ", InputTone::Code(Highlight::OtherSymbol)),
            inp("&", InputTone::Code(Highlight::Punctuation)),
            inp("y", InputTone::Code(Highlight::Identifier)),
            inp(")", InputTone::Code(Highlight::Bracket)),
            inp(";", InputTone::Code(Highlight::Punctuation)),
            inp("\u{2190}", InputTone::Muted),
            inp(" ", InputTone::Plain),
            inp("17", InputTone::Latest),
            inp(" ", InputTone::Plain),
        ]
    );
    assert_eq!(pane.rows[0][14], inp(" 5", InputTone::Earlier));
    // An input read at a line past the end of the source shows no code.
    let lines = vec![stored("abc", 120)];
    let mut scroll = InputScrollState { offset: 0 };
    let data = InputRenderData { all_input_lines: &lines, active_count: 0, is_focused: false, source_code: "x" };
    let pane = render_input_pane(data, &mut scroll, 0, 0);
    assert_eq!(
        pane.rows[0],
        vec![
            inp(" ", InputTone::Plain),
            inp("120", InputTone::Dim),
            inp(" : ", InputTone::Muted),
            inp("", InputTone::Dim),
            inp("\u{2190}", InputTone::Dim),
            inp(" ", InputTone::Plain),
            inp("abc", InputTone::Pending),
            inp(" ", InputTone::Plain),
        ]
    );
}
