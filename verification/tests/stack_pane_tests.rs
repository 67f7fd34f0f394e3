use crustty::interpreter::engine::FunctionDef;
use crustty::memory::names::NameMap;
use crustty::memory::stack::{InitState, Stack};
use crustty::memory::value::Value;
use crustty::parser::ast::{BaseType, Field, SourceLocation, StructDef, Type};
use crustty::ui::panes::stack::{render_stack_pane, StackRenderData};
use crustty::ui::panes::utils::formatting::Tone;
use crustty::ui::panes::utils::rendering::{StackLine, StackTone};

fn piece(text: &str, tone: StackTone) -> (String, StackTone) {
    (text.to_string(), tone)
}

fn spaces(n: usize) -> (String, StackTone) {
    (" ".repeat(n), StackTone::Plain)
}

fn header(depth: usize, name: &str) -> StackLine {
    vec![
        piece("▸ ", StackTone::Marker),
        piece(&format!("Frame {} ", depth), StackTone::Muted),
        piece("│ ", StackTone::Muted),
        piece(&format!("{}()", name), StackTone::FunctionName),
    ]
}

fn call_prefix(n: usize, name: &str) -> Vec<(String, StackTone)> {
    vec![
        piece("  ↪ ", StackTone::Muted),
        piece(&format!("[{}] ", n), StackTone::Muted),
        piece(&format!("{}()", name), StackTone::Caller),
        piece(" → ", StackTone::Muted),
    ]
}

fn with(mut prefix: Vec<(String, StackTone)>, last: (String, StackTone)) -> StackLine {
    prefix.push(last);
    prefix
}

fn stack_pane_lines(
    stack: &Stack,
    struct_defs: &[StructDef],
    source_code: &str,
    return_value: Option<&Value>,
    function_defs: &NameMap<FunctionDef>,
    error_address: Option<u64>,
    area_width: u16,
) -> Vec<StackLine> {
    let data = StackRenderData { stack, struct_defs, source_code, return_value, function_defs, error_address };
    render_stack_pane(data, area_width)
}

fn no_functions() -> NameMap<FunctionDef> {
    NameMap::new()
}

fn two_frames(source_line: usize) -> Stack {
    let mut stack = Stack::new();
    stack.push_frame("main".to_string(), None);
    stack.push_frame("f".to_string(), Some(SourceLocation::new(source_line, 5)));
    stack
}

#[test]
fn stack_pane_without_frames() {
    let stack = Stack::new();
    let lines = stack_pane_lines(&stack, &[], "", None, &no_functions(), None, 40);
    assert_eq!(lines, vec![vec![piece("(empty)", StackTone::Muted)]]);
}

#[test]
fn stack_pane_one_variable() {
    let mut stack = Stack::new();
    stack.push_frame("main".to_string(), None);
    let frame = stack.current_frame_mut().unwrap();
    frame.declare_var("n".to_string(), Type::new(BaseType::Int), InitState::Initialized, 0x7fff0000);
    frame.get_var_mut("n").unwrap().value = Value::Int(3);
    let lines = stack_pane_lines(&stack, &[], "", None, &no_functions(), None, 40);
    assert_eq!(
        lines,
        vec![
            header(0, "main"),
            vec![
                piece("0x7fff0000 ", StackTone::Muted),
                piece("n ", StackTone::Text),
                piece(": ", StackTone::Text),
                piece("3", StackTone::Value(Tone::Number)),
                piece("", StackTone::Plain),
                spaces(19),
                piece("int", StackTone::TypeName),
            ],
        ]
    );
}

#[test]
fn stack_pane_call_chain_return_value_and_error_address() {
    let mut stack = two_frames(2);
    let frame = stack.current_frame_mut().unwrap();
    frame.declare_var("y".to_string(), Type::new(BaseType::Char), InitState::Uninitialized, 0x7fff0004);
    let mut functions: NameMap<FunctionDef> = NameMap::new();
    functions.insert(
        "f".to_string(),
        FunctionDef {
            params: vec![],
            body: vec![],
            return_type: Type::new(BaseType::Int),
            location: SourceLocation::new(1, 1),
        },
    );
    let source = "int main() {\n    int x = f();\n}\n";
    let ret = Value::Int(7);
    let lines = stack_pane_lines(&stack, &[], source, Some(&ret), &functions, Some(0x7fff0004), 40);
    assert_eq!(
        lines,
        vec![
            header(0, "main"),
            vec![piece("", StackTone::Muted)],
            header(1, "f"),
            with(call_prefix(0, "main"), piece("int x = f();", StackTone::Muted)),
            vec![
                piece("     ↖ ", StackTone::ReturnMark),
                piece("return ", StackTone::ReturnMark),
                piece(": ", StackTone::Return),
                piece("7", StackTone::Returned(Tone::Number)),
                spaces(18),
                piece("int", StackTone::TypeName),
            ],
            vec![
                piece("0x7fff0004 ", StackTone::Highlighted),
                piece("y ", StackTone::Text),
                piece(": ", StackTone::Text),
                piece("[uninit]", StackTone::Value(Tone::Missing)),
                piece("", StackTone::Plain),
                spaces(11),
                piece("char", StackTone::TypeName),
            ],
        ]
    );
}

#[test]
fn stack_pane_unknown_function_and_missing_line() {
    let stack = two_frames(9);
    let ret = Value::Int(1);
    let lines = stack_pane_lines(&stack, &[], "int main() {}\n", Some(&ret), &no_functions(), None, 40);
    assert_eq!(lines[3], with(call_prefix(0, "main"), piece("???", StackTone::Muted)));
    assert_eq!(lines[4][4], spaces(20));
    assert_eq!(lines[4][5], piece("?", StackTone::TypeName));
}

#[test]
fn stack_pane_long_call_site_wraps() {
    let stack = two_frames(1);
    let source = "  compute(alpha, beta, gamma, delta);  ";
    let lines = stack_pane_lines(&stack, &[], source, None, &no_functions(), None, 30);
    assert_eq!(
        lines[3..].to_vec(),
        vec![
            with(call_prefix(0, "main"), piece("compute", StackTone::Muted)),
            vec![spaces(4), piece("(alpha, beta, gamma, del", StackTone::Muted)],
            vec![spaces(4), piece("ta);", StackTone::Muted)],
        ]
    );
}

#[test]
fn stack_pane_wrap_keeps_characters_whole() {
    let stack = two_frames(2);
    let source = "int main() {\ns = \"h\u{e9}llo\";\n}";
    let lines = stack_pane_lines(&stack, &[], source, None, &no_functions(), None, 30);
    assert_eq!(
        lines[3..].to_vec(),
        vec![
            with(call_prefix(0, "main"), piece("s = \"h", StackTone::Muted)),
            vec![spaces(4), piece("\u{e9}llo\";", StackTone::Muted)],
        ]
    );
}

#[test]
fn stack_pane_arrays_and_structs() {
    let defs = vec![StructDef {
        name: "Point".to_string(),
        fields: vec![
            Field { name: "x".to_string(), field_type: Type::new(BaseType::Int) },
            Field { name: "y".to_string(), field_type: Type::new(BaseType::Int) },
        ],
    }];
    let mut stack = Stack::new();
    stack.push_frame("main".to_string(), None);
    let frame = stack.current_frame_mut().unwrap();
    frame.declare_var(
        "arr".to_string(),
        Type::new(BaseType::Int).with_array(Some(2)),
        InitState::Initialized,
        0x7fff0000,
    );
    frame.get_var_mut("arr").unwrap().value = Value::Array(vec![Value::Int(1), Value::Int(2)]);
    frame.declare_var(
        "pt".to_string(),
        Type::new(BaseType::Struct("Point".to_string())),
        InitState::PartiallyInitialized(vec![
            ("x".to_string(), InitState::Initialized),
            ("y".to_string(), InitState::Uninitialized),
        ]),
        0x7fff0008,
    );
    frame.get_var_mut("pt").unwrap().value =
        Value::Struct(vec![("x".to_string(), Value::Int(1)), ("y".to_string(), Value::Uninitialized)]);
    let lines = stack_pane_lines(&stack, &defs, "", None, &no_functions(), None, 40);
    assert_eq!(
        lines,
        vec![
            header(0, "main"),
            vec![
                piece("0x7fff0000 ", StackTone::Muted),
                piece(" arr ", StackTone::Text),
                piece(": ", StackTone::Text),
                piece("", StackTone::Plain),
                spaces(14),
                piece("int[2]", StackTone::TypeName),
            ],
            vec![
                piece("0x7fff0000 ", StackTone::Muted),
                piece("  ", StackTone::Plain),
                piece("[0] ", StackTone::Text),
                piece(": ", StackTone::Text),
                piece("1", StackTone::Value(Tone::Number)),
                spaces(15),
                piece("int", StackTone::TypeName),
            ],
            vec![
                piece("0x7fff0004 ", StackTone::Muted),
                piece("  ", StackTone::Plain),
                piece("[1] ", StackTone::Text),
                piece(": ", StackTone::Text),
                piece("2", StackTone::Value(Tone::Number)),
                spaces(15),
                piece("int", StackTone::TypeName),
            ],
            vec![
                piece("0x7fff0008 ", StackTone::Muted),
                piece(" pt ", StackTone::Text),
                piece(": ", StackTone::Text),
                piece(" [partial]", StackTone::Failure),
                spaces(0),
                piece("struct Point", StackTone::TypeName),
            ],
            vec![
                piece("0x7fff0008 ", StackTone::Muted),
                piece("  ", StackTone::Plain),
                piece(".x ", StackTone::Text),
                piece(": ", StackTone::Text),
                piece("1", StackTone::Value(Tone::Number)),
                spaces(16),
                piece("int", StackTone::TypeName),
            ],
            vec![
                piece("0x7fff000c ", StackTone::Muted),
                piece("  ", StackTone::Plain),
                piece(".y ", StackTone::Text),
                piece(": ", StackTone::Text),
                piece("[uninit]", StackTone::Value(Tone::Missing)),
                spaces(9),
                piece("int", StackTone::TypeName),
            ],
        ]
    );
}

#[test]
fn stack_pane_call_site_trims_unicode_white_space() {
    let stack = two_frames(1);
    let source = "\u{3000}\t f(x);\u{a0}\u{2003}";
    let lines = stack_pane_lines(&stack, &[], source, None, &no_functions(), None, 40);
    assert_eq!(lines[3], with(call_prefix(0, "main"), piece("f(x);", StackTone::Muted)));
}
