use crustty::interpreter::builtins::{expect_int_arg, format_printf, read_string_from_heap};
use crustty::interpreter::engine::{get_location, FunctionDef};
use crustty::interpreter::errors::RuntimeError;
use crustty::interpreter::type_system::{
    calculate_field_offset, get_field_type, infer_expr_type, values_equal,
};
use crustty::memory::heap::Heap;
use crustty::memory::names::NameMap;
use crustty::memory::stack::{InitState, Stack};
use crustty::memory::value::Value;
use crustty::ui::panes::utils::formatting::{format_value_string, format_value_styled, Tone};
use crustty::parser::ast::{AstNode, BaseType, BinOp, Field, SourceLocation, StructDef, Type, UnOp};

fn loc(line: usize) -> SourceLocation {
    SourceLocation::new(line, 1)
}

fn heap_with(bytes: &[u8]) -> (Heap, u64) {
    let mut heap = Heap::new(1024);
    let addr = heap.allocate(bytes.len()).unwrap();
    heap.write_bytes_at(addr, bytes).unwrap();
    (heap, addr)
}

fn printf(fmt: &str, args: &[Value]) -> Result<String, RuntimeError> {
    let heap = Heap::new(1024);
    format_printf(&heap, fmt, args, loc(1))
}

fn message_of(e: RuntimeError) -> String {
    match e {
        RuntimeError::InvalidPrintfFormat { message, .. } => message,
        RuntimeError::UnsupportedOperation { message, .. } => message,
        RuntimeError::InvalidString { message, .. } => message,
        other => panic!("unexpected error {:?}", other),
    }
}

#[test]
fn printf_integer_conversions() {
    assert_eq!(printf("x=%d", &[Value::Int(-42)]).unwrap(), "x=-42");
    assert_eq!(printf("%u", &[Value::Int(-1)]).unwrap(), "4294967295");
    assert_eq!(printf("%x %x", &[Value::Int(255), Value::Int(-1)]).unwrap(), "ff ffffffff");
    assert_eq!(printf("%c%c", &[Value::Int(72), Value::Char(105)]).unwrap(), "Hi");
    assert_eq!(printf("%d", &[Value::Char(-3)]).unwrap(), "-3");
    assert_eq!(printf("100%%", &[]).unwrap(), "100%");
}

#[test]
fn printf_escapes_and_trailing_marks() {
    assert_eq!(printf("a\\nb\\tc", &[]).unwrap(), "a\nb\tc");
    assert_eq!(printf("q\\\"\\\\", &[]).unwrap(), "q\"\\");
    assert_eq!(printf("\\z", &[]).unwrap(), "\\z");
    assert_eq!(printf("end%", &[]).unwrap(), "end%");
    assert_eq!(printf("end\\", &[]).unwrap(), "end\\");
}

#[test]
fn printf_errors() {
    let e = printf("%d %d", &[Value::Int(1)]).unwrap_err();
    assert_eq!(message_of(e), "Not enough arguments for format string");
    let e = printf("%x", &[Value::Pointer(4096)]).unwrap_err();
    assert_eq!(message_of(e), "%x expects int, got Pointer(4096)");
    let e = printf("%s", &[Value::Int(3)]).unwrap_err();
    assert_eq!(message_of(e), "%s expects pointer, got Int(3)");
    let e = printf("%n", &[Value::Int(3)]).unwrap_err();
    assert_eq!(message_of(e), "%n format specifier not yet implemented");
    let e = printf("%q", &[]).unwrap_err();
    assert_eq!(message_of(e), "Unsupported format specifier: %q");
    let e = printf("%s", &[]).unwrap_err();
    assert_eq!(message_of(e), "Not enough arguments for format string");
}

#[test]
fn printf_reads_strings_from_heap() {
    let (heap, addr) = heap_with(b"hey\0");
    let out = format_printf(&heap, "<%s> %d", &[Value::Pointer(addr), Value::Int(7)], loc(2)).unwrap();
    assert_eq!(out, "<hey> 7");
}

#[test]
fn read_string_until_terminator() {
    let (heap, addr) = heap_with(b"ab\0cd");
    assert_eq!(read_string_from_heap(&heap, addr, loc(1)).unwrap(), "ab");
    assert_eq!(read_string_from_heap(&heap, addr + 3, loc(1)).is_err(), true);
}

#[test]
fn read_string_errors() {
    let (heap, addr) = heap_with(b"ab");
    match read_string_from_heap(&heap, addr, loc(5)) {
        Err(RuntimeError::InvalidMemoryOperation { message, location }) => {
            assert_eq!(message, format!("Invalid read: address 0x{:x} not in any allocated block", addr + 2));
            assert_eq!(location, loc(5));
        }
        other => panic!("unexpected {:?}", other),
    }
    let (heap, addr) = heap_with(&[0xff, 0xfe, 0]);
    let e = read_string_from_heap(&heap, addr, loc(1)).unwrap_err();
    assert_eq!(message_of(e), "Invalid UTF-8 in string");
    let (mut heap, addr) = heap_with(b"x\0");
    heap.free(addr).unwrap();
    match read_string_from_heap(&heap, addr, loc(4)) {
        Err(RuntimeError::UseAfterFree { address, location }) => {
            assert_eq!(address, addr);
            assert_eq!(location, loc(4));
        }
        other => panic!("unexpected {:?}", other),
    }
}

#[test]
fn read_string_too_long() {
    let mut heap = Heap::new(20000);
    let addr = heap.allocate(10002).unwrap();
    let bytes = vec![b'a'; 10002];
    heap.write_bytes_at(addr, &bytes).unwrap();
    let e = read_string_from_heap(&heap, addr, loc(1)).unwrap_err();
    assert_eq!(message_of(e), "String too long or missing null terminator");
}

#[test]
fn int_arguments() {
    assert_eq!(expect_int_arg(&[Value::Int(5)], 0, 'd', loc(1)).unwrap(), 5);
    assert_eq!(expect_int_arg(&[Value::Char(-1)], 0, 'd', loc(1)).unwrap(), -1);
    let e = expect_int_arg(&[Value::Null], 0, 'u', loc(1)).unwrap_err();
    assert_eq!(message_of(e), "%u expects int, got Null");
    let e = expect_int_arg(&[], 0, 'd', loc(1)).unwrap_err();
    assert_eq!(message_of(e), "Not enough arguments for format string");
}

#[test]
fn switch_value_equality() {
    assert!(values_equal(&Value::Int(3), &Value::Int(3)));
    assert!(!values_equal(&Value::Int(3), &Value::Char(3)));
    assert!(values_equal(&Value::Null, &Value::Pointer(0)));
    assert!(values_equal(&Value::Pointer(0), &Value::Null));
    assert!(!values_equal(&Value::Null, &Value::Pointer(8)));
    assert!(!values_equal(&Value::Uninitialized, &Value::Uninitialized));
}

fn point_defs() -> Vec<StructDef> {
    vec![StructDef {
        name: "Point".to_string(),
        fields: vec![
            Field { name: "tag".to_string(), field_type: Type::new(BaseType::Char) },
            Field { name: "x".to_string(), field_type: Type::new(BaseType::Int) },
            Field { name: "next".to_string(), field_type: Type::new(BaseType::Struct("Point".to_string())).with_pointer() },
        ],
    }]
}

#[test]
fn struct_field_types_and_offsets() {
    let defs = point_defs();
    let p = "Point".to_string();
    let t = get_field_type(&defs, &p, &"x".to_string(), loc(1)).unwrap();
    assert_eq!(t, Type::new(BaseType::Int));
    assert_eq!(calculate_field_offset(&defs, &p, &"tag".to_string(), loc(1)).unwrap(), 0);
    assert_eq!(calculate_field_offset(&defs, &p, &"x".to_string(), loc(1)).unwrap(), 1);
    assert_eq!(calculate_field_offset(&defs, &p, &"next".to_string(), loc(1)).unwrap(), 5);
    match calculate_field_offset(&defs, &p, &"y".to_string(), loc(3)) {
        Err(RuntimeError::MissingStructField { struct_name, field_name, location }) => {
            assert_eq!(struct_name, "Point");
            assert_eq!(field_name, "y");
            assert_eq!(location, loc(3));
        }
        other => panic!("unexpected {:?}", other),
    }
    match get_field_type(&defs, &"Line".to_string(), &"x".to_string(), loc(2)) {
        Err(RuntimeError::StructNotDefined { name, .. }) => assert_eq!(name, "Line"),
        other => panic!("unexpected {:?}", other),
    }
}

fn var(name: &str) -> AstNode {
    AstNode::Variable(name.to_string(), loc(1))
}

fn unary(op: UnOp, operand: AstNode) -> AstNode {
    AstNode::UnaryOp { op, operand: Box::new(operand), location: loc(2) }
}

fn stack_with_vars() -> Stack {
    let mut stack = Stack::new();
    stack.push_frame("main".to_string(), None);
    let frame = stack.current_frame_mut().unwrap();
    frame.declare_var("n".to_string(), Type::new(BaseType::Int), InitState::Initialized, 0x7fff0000);
    frame.declare_var(
        "arr".to_string(),
        Type::new(BaseType::Int).with_array(Some(3)).with_array(Some(4)),
        InitState::Initialized,
        0x7fff0004,
    );
    frame.declare_var(
        "p".to_string(),
        Type::new(BaseType::Struct("Point".to_string())).with_pointer(),
        InitState::Initialized,
        0x7fff0040,
    );
    stack
}

#[test]
fn expression_types() {
    let stack = stack_with_vars();
    let defs = point_defs();
    let mut functions: NameMap<FunctionDef> = NameMap::new();
    functions.insert(
        "make".to_string(),
        FunctionDef { params: vec![], body: vec![], return_type: Type::new(BaseType::Char).with_pointer(), location: loc(1) },
    );
    let infer = |e: &AstNode| infer_expr_type(&stack, &defs, &functions, e);

    assert_eq!(infer(&AstNode::IntLiteral(1, loc(1))).unwrap(), Type::new(BaseType::Int));
    assert_eq!(infer(&AstNode::StringLiteral("s".to_string(), loc(1))).unwrap(), Type::new(BaseType::Char).with_pointer());
    assert_eq!(infer(&AstNode::Null { location: loc(1) }).unwrap(), Type::new(BaseType::Void).with_pointer());
    assert_eq!(infer(&unary(UnOp::AddrOf, var("n"))).unwrap(), Type::new(BaseType::Int).with_pointer());
    assert_eq!(infer(&unary(UnOp::Not, var("p"))).unwrap(), Type::new(BaseType::Int));
    let sum = AstNode::BinaryOp { op: BinOp::Add, left: Box::new(AstNode::IntLiteral(1, loc(1))), right: Box::new(var("p")), location: loc(1) };
    assert_eq!(infer(&sum).unwrap(), Type::new(BaseType::Struct("Point".to_string())).with_pointer());
    let index = AstNode::ArrayAccess { array: Box::new(var("arr")), index: Box::new(AstNode::IntLiteral(0, loc(1))), location: loc(1) };
    assert_eq!(infer(&index).unwrap(), Type::new(BaseType::Int).with_array(Some(4)));
    let member = AstNode::PointerMemberAccess { object: Box::new(var("p")), member: "x".to_string(), location: loc(1) };
    assert_eq!(infer(&member).unwrap(), Type::new(BaseType::Int));
    let call = AstNode::FunctionCall { name: "make".to_string(), args: vec![], location: loc(1) };
    assert_eq!(infer(&call).unwrap(), Type::new(BaseType::Char).with_pointer());
}

#[test]
fn expression_type_errors() {
    let stack = stack_with_vars();
    let defs = point_defs();
    let functions: NameMap<FunctionDef> = NameMap::new();
    let infer = |e: &AstNode| infer_expr_type(&stack, &defs, &functions, e);

    match infer(&unary(UnOp::Deref, var("n"))) {
        Err(RuntimeError::TypeError { expected, got, location }) => {
            assert_eq!(expected, "pointer");
            assert_eq!(got, "Type { base: Int, is_const: false, pointer_depth: 0, array_dims: [] }");
            assert_eq!(location, loc(2));
        }
        other => panic!("unexpected {:?}", other),
    }
    match infer(&var("missing")) {
        Err(RuntimeError::UndefinedVariable { name, .. }) => assert_eq!(name, "missing"),
        other => panic!("unexpected {:?}", other),
    }
    let call = AstNode::FunctionCall { name: "g".to_string(), args: vec![], location: loc(6) };
    match infer(&call) {
        Err(RuntimeError::UndefinedFunction { name, location }) => {
            assert_eq!(name, "g");
            assert_eq!(location, loc(6));
        }
        other => panic!("unexpected {:?}", other),
    }
    let member = AstNode::MemberAccess { object: Box::new(var("n")), member: "x".to_string(), location: loc(1) };
    match infer(&member) {
        Err(RuntimeError::TypeError { expected, .. }) => assert_eq!(expected, "struct"),
        other => panic!("unexpected {:?}", other),
    }
    match infer(&AstNode::Break { location: loc(1) }) {
        Err(RuntimeError::UnsupportedOperation { message, location }) => {
            assert!(message.starts_with("Cannot infer type of expression: "));
            assert_eq!(location, SourceLocation::new(1, 1));
        }
        other => panic!("unexpected {:?}", other),
    }
    let empty = Stack::new();
    match infer_expr_type(&empty, &defs, &functions, &var("n")) {
        Err(RuntimeError::NoStackFrame { location }) => assert_eq!(location, loc(1)),
        other => panic!("unexpected {:?}", other),
    }
}

#[test]
fn node_locations() {
    assert_eq!(get_location(&AstNode::IntLiteral(1, loc(4))), Some(loc(4)));
    assert_eq!(get_location(&AstNode::Break { location: loc(9) }), Some(loc(9)));
    assert_eq!(get_location(&AstNode::CharLiteral(65, loc(2))), None);
    let def = AstNode::StructDef { name: "S".to_string(), fields: vec![], location: loc(1) };
    assert_eq!(get_location(&def), None);
}

#[test]
fn value_summaries() {
    let defs: Vec<StructDef> = vec![];
    let show = |v: &Value| format_value_string(v, &defs, 0);
    assert_eq!(show(&Value::Int(-5)), "-5");
    assert_eq!(show(&Value::Char(65)), "'A'");
    assert_eq!(show(&Value::Char(10)), "'\\x0a'");
    assert_eq!(show(&Value::Char(-1)), "'\\xff'");
    assert_eq!(show(&Value::Pointer(0)), "NULL");
    assert_eq!(show(&Value::Pointer(0x1000)), "0x00001000");
    assert_eq!(show(&Value::Struct(vec![])), "{ struct }");
    assert_eq!(show(&Value::Uninitialized), "[uninit]");
    assert_eq!(show(&Value::Null), "Unknown");
    let five = Value::Array(vec![Value::Int(1), Value::Int(2), Value::Int(3), Value::Int(4), Value::Int(5)]);
    assert_eq!(show(&five), "[1, 2, 3, ...]");
    let two = Value::Array(vec![Value::Int(1), Value::Array(vec![Value::Char(66)])]);
    assert_eq!(show(&two), "[1, ['B']]");
    assert_eq!(show(&Value::Array(vec![])), "[]");
}

#[test]
fn printf_plain_text_is_copied() {
    assert_eq!(printf("hello, world", &[Value::Int(1), Value::Null]).unwrap(), "hello, world");
    assert_eq!(printf("", &[]).unwrap(), "");
}

#[test]
fn styled_value_pieces() {
    let defs: Vec<StructDef> = vec![];
    assert_eq!(format_value_styled(&Value::Int(7), &defs, 0), vec![("7".to_string(), Tone::Number)]);
    assert_eq!(format_value_styled(&Value::Pointer(0), &defs, 0), vec![("NULL".to_string(), Tone::Number)]);
    assert_eq!(format_value_styled(&Value::Pointer(16), &defs, 0), vec![("0x00000010".to_string(), Tone::Address)]);
    let arr = Value::Array(vec![Value::Int(1)]);
    assert_eq!(format_value_styled(&arr, &defs, 2), vec![("[1]".to_string(), Tone::Plain)]);
    assert_eq!(format_value_styled(&arr, &defs, 3), vec![("[...]".to_string(), Tone::Muted)]);
    assert_eq!(format_value_styled(&Value::Uninitialized, &defs, 0), vec![("[uninit]".to_string(), Tone::Missing)]);
    assert_eq!(format_value_styled(&Value::Null, &defs, 0), vec![("Unknown".to_string(), Tone::Error)]);
}
