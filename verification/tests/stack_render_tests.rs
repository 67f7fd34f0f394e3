use crustty::memory::value::Value;
use crustty::parser::ast::{BaseType, Field, StructDef, Type};
use crustty::ui::panes::utils::formatting::Tone;
use crustty::ui::panes::utils::rendering::{render_array_elements, render_struct_fields, StackLine, StackTone};

fn piece(text: &str, tone: StackTone) -> (String, StackTone) {
    (text.to_string(), tone)
}

fn spaces(n: usize) -> (String, StackTone) {
    (" ".repeat(n), StackTone::Plain)
}

fn point_def() -> StructDef {
    StructDef {
        name: "Point".to_string(),
        fields: vec![
            Field { name: "y".to_string(), field_type: Type::new(BaseType::Int) },
            Field { name: "x".to_string(), field_type: Type::new(BaseType::Char) },
        ],
    }
}

fn point_value() -> Value {
    Value::Struct(vec![("y".to_string(), Value::Int(5)), ("x".to_string(), Value::Char(65))])
}

#[test]
fn array_elements_one_line_each() {
    let mut lines: Vec<StackLine> = Vec::new();
    let t = Type::new(BaseType::Int).with_array(Some(2));
    render_array_elements(&mut lines, &[Value::Int(1), Value::Int(2)], &t, 0x1000, 1, &[], 40);
    assert_eq!(
        lines,
        vec![
            vec![
                piece("0x00001000 ", StackTone::Muted),
                piece("  ", StackTone::Plain),
                piece("[0] ", StackTone::Text),
                piece(": ", StackTone::Text),
                piece("1", StackTone::Value(Tone::Number)),
                spaces(17),
                piece("int", StackTone::TypeName),
            ],
            vec![
                piece("0x00001004 ", StackTone::Muted),
                piece("  ", StackTone::Plain),
                piece("[1] ", StackTone::Text),
                piece(": ", StackTone::Text),
                piece("2", StackTone::Value(Tone::Number)),
                spaces(17),
                piece("int", StackTone::TypeName),
            ],
        ]
    );
}

#[test]
fn array_elements_keep_what_came_before() {
    let first = vec![piece("frame", StackTone::Text)];
    let mut lines: Vec<StackLine> = vec![first.clone()];
    let t = Type::new(BaseType::Int).with_array(Some(1));
    render_array_elements(&mut lines, &[Value::Uninitialized], &t, 0x10, 0, &[], 0);
    assert_eq!(lines.len(), 2);
    assert_eq!(lines[0], first);
    assert_eq!(
        lines[1],
        vec![
            piece("0x00000010 ", StackTone::Muted),
            piece("", StackTone::Plain),
            piece("[0] ", StackTone::Text),
            piece(": ", StackTone::Text),
            piece("[uninit]", StackTone::Value(Tone::Missing)),
            spaces(0),
            piece("int", StackTone::TypeName),
        ]
    );
}

#[test]
fn nested_array_rows_under_headers() {
    let mut lines: Vec<StackLine> = Vec::new();
    let t = Type::new(BaseType::Int).with_array(Some(2)).with_array(Some(2));
    let rows = vec![
        Value::Array(vec![Value::Int(1), Value::Int(2)]),
        Value::Array(vec![Value::Int(3), Value::Int(4)]),
    ];
    render_array_elements(&mut lines, &rows, &t, 0x2000, 0, &[], 30);
    let header = |addr: &str, label: &str| {
        vec![
            piece(addr, StackTone::Muted),
            piece("", StackTone::Plain),
            piece(label, StackTone::Text),
            piece(": ", StackTone::Text),
            spaces(7),
            piece("int[2]", StackTone::TypeName),
        ]
    };
    let cell = |addr: &str, label: &str, v: &str| {
        vec![
            piece(addr, StackTone::Muted),
            piece("  ", StackTone::Plain),
            piece(label, StackTone::Text),
            piece(": ", StackTone::Text),
            piece(v, StackTone::Value(Tone::Number)),
            spaces(7),
            piece("int", StackTone::TypeName),
        ]
    };
    assert_eq!(
        lines,
        vec![
            header("0x00002000 ", "[0] "),
            cell("0x00002000 ", "[0] ", "1"),
            cell("0x00002004 ", "[1] ", "2"),
            header("0x00002008 ", "[1] "),
            cell("0x00002008 ", "[0] ", "3"),
            cell("0x0000200c ", "[1] ", "4"),
        ]
    );
}

#[test]
fn struct_fields_in_name_order_at_their_offsets() {
    let mut lines: Vec<StackLine> = Vec::new();
    let defs = vec![point_def()];
    let t = Type::new(BaseType::Struct("Point".to_string()));
    let fields = match point_value() {
        Value::Struct(fs) => fs,
        _ => unreachable!(),
    };
    render_struct_fields(&mut lines, &fields, &t, 0x3000, 0, &defs, 30);
    assert_eq!(
        lines,
        vec![
            vec![
                piece("0x00003004 ", StackTone::Muted),
                piece("", StackTone::Plain),
                piece(".x ", StackTone::Text),
                piece(": ", StackTone::Text),
                piece("'A'", StackTone::Value(Tone::Text)),
                spaces(7),
                piece("char", StackTone::TypeName),
            ],
            vec![
                piece("0x00003000 ", StackTone::Muted),
                piece("", StackTone::Plain),
                piece(".y ", StackTone::Text),
                piece(": ", StackTone::Text),
                piece("5", StackTone::Value(Tone::Number)),
                spaces(10),
                piece("int", StackTone::TypeName),
            ],
        ]
    );
}

#[test]
fn struct_field_missing_from_definition_has_no_address() {
    let mut lines: Vec<StackLine> = Vec::new();
    let defs = vec![point_def()];
    let t = Type::new(BaseType::Struct("Point".to_string()));
    let fields = vec![("z".to_string(), Value::Int(1))];
    render_struct_fields(&mut lines, &fields, &t, 0x3000, 0, &defs, 30);
    assert_eq!(
        lines,
        vec![vec![
            spaces(14),
            piece("", StackTone::Plain),
            piece(".z ", StackTone::Text),
            piece(": ", StackTone::Text),
            piece("1", StackTone::Value(Tone::Number)),
        ]]
    );
}

#[test]
fn nested_struct_fields_are_indented() {
    let mut lines: Vec<StackLine> = Vec::new();
    let outer = StructDef {
        name: "Outer".to_string(),
        fields: vec![
            Field { name: "p".to_string(), field_type: Type::new(BaseType::Struct("Point".to_string())) },
            Field { name: "n".to_string(), field_type: Type::new(BaseType::Int) },
        ],
    };
    let defs = vec![point_def(), outer];
    let t = Type::new(BaseType::Struct("Outer".to_string()));
    let fields = vec![("p".to_string(), point_value()), ("n".to_string(), Value::Int(7))];
    render_struct_fields(&mut lines, &fields, &t, 0x4000, 0, &defs, 30);
    assert_eq!(
        lines,
        vec![
            vec![
                piece("0x00004005 ", StackTone::Muted),
                piece("", StackTone::Plain),
                piece(".n ", StackTone::Text),
                piece(": ", StackTone::Text),
                piece("7", StackTone::Value(Tone::Number)),
                spaces(10),
                piece("int", StackTone::TypeName),
            ],
            vec![
                piece("0x00004000 ", StackTone::Muted),
                piece("", StackTone::Plain),
                piece(".p ", StackTone::Text),
                piece(": ", StackTone::Text),
                spaces(2),
                piece("struct Point", StackTone::TypeName),
            ],
            vec![
                piece("0x00004004 ", StackTone::Muted),
                piece("  ", StackTone::Plain),
                piece(".x ", StackTone::Text),
                piece(": ", StackTone::Text),
                piece("'A'", StackTone::Value(Tone::Text)),
                spaces(5),
                piece("char", StackTone::TypeName),
            ],
            vec![
                piece("0x00004000 ", StackTone::Muted),
                piece("  ", StackTone::Plain),
                piece(".y ", StackTone::Text),
                piece(": ", StackTone::Text),
                piece("5", StackTone::Value(Tone::Number)),
                spaces(8),
                piece("int", StackTone::TypeName),
            ],
        ]
    );
}
