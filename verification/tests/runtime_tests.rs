use crustty::interpreter::errors::RuntimeError;
use crustty::memory::stack::{InitState, LocalVar, Stack, StackFrame};
use crustty::memory::value::Value;
use crustty::parser::ast::{BaseType, SourceLocation, Type};

fn loc(line: usize) -> SourceLocation {
    SourceLocation::new(line, 1)
}

#[test]
fn runtime_error_messages() {
    let e = RuntimeError::UninitializedRead { var: "x".to_string(), address: Some(4), location: loc(3) };
    assert_eq!(e.to_text(), "Read from uninitialized variable 'x' at line 3");
    let e = RuntimeError::BufferOverrun { index: 5, size: 4, location: loc(7) };
    assert_eq!(e.to_text(), "Buffer overrun at line 7: index 5 out of bounds for size 4");
    let e = RuntimeError::UseAfterFree { address: 0x7fff0000, location: loc(2) };
    assert_eq!(e.to_text(), "Use-after-free: address 0x7fff0000 at line 2");
    let e = RuntimeError::OutOfMemory { requested: 10, limit: 8 };
    assert_eq!(e.to_text(), "Out of memory: requested 10 bytes, limit is 8");
    assert_eq!(RuntimeError::NoMainFunction.to_text(), "No main() function found");
    let e = RuntimeError::ArgumentCountMismatch { function: "f".to_string(), expected: 1, got: 2, location: loc(9) };
    assert_eq!(e.to_text(), "Function 'f' expects 1 argument, got 2 at line 9");
    let e = RuntimeError::ArgumentCountMismatch { function: "g".to_string(), expected: 3, got: 0, location: loc(1) };
    assert_eq!(e.to_text(), "Function 'g' expects 3 arguments, got 0 at line 1");
    let e = RuntimeError::InvalidPointer { message: "bad".to_string(), address: Some(255), location: loc(4) };
    assert_eq!(e.to_text(), "Invalid pointer at 0xff: bad at line 4");
    let e = RuntimeError::InvalidPointer { message: "bad".to_string(), address: None, location: loc(4) };
    assert_eq!(e.to_text(), "Invalid pointer: bad at line 4");
    let e = RuntimeError::InvalidMallocSize { size: -3, location: loc(6) };
    assert_eq!(e.to_text(), "Invalid malloc size: -3 (must be positive) at line 6");
    let e = RuntimeError::DivisionError { operation: "Division by zero".to_string(), location: loc(8) };
    assert_eq!(e.to_text(), "Division by zero at line 8");
    let e = RuntimeError::TypeError { expected: "int".to_string(), got: "char".to_string(), location: loc(2) };
    assert_eq!(e.to_text(), "Type error at line 2: expected int, got char");
    let e = RuntimeError::SnapshotLimitExceeded { current: 100, limit: 50 };
    assert_eq!(e.to_text(), "Snapshot memory limit exceeded: 100 bytes used, limit is 50");
}

#[test]
fn runtime_error_locations() {
    let e = RuntimeError::NullDereference { location: loc(12) };
    assert_eq!(e.location(), Some(&loc(12)));
    assert_eq!(RuntimeError::NoMainFunction.location(), None);
    assert_eq!(RuntimeError::OutOfMemory { requested: 1, limit: 0 }.location(), None);
    let e = RuntimeError::ScanfNeedsInput { location: loc(5) };
    assert_eq!(e.location().map(|l| l.line), Some(5));
}

#[test]
fn value_accessors() {
    assert_eq!(Value::Int(5).as_int(), Some(5));
    assert_eq!(Value::Char(5).as_int(), None);
    assert_eq!(Value::Char(-3).as_char(), Some(-3));
    assert_eq!(Value::Pointer(42).as_pointer(), Some(42));
    assert_eq!(Value::Null.as_pointer(), Some(0));
    assert_eq!(Value::Int(1).as_pointer(), None);
    assert!(Value::Null.is_null());
    assert!(Value::Null.is_pointer());
    assert!(Value::Pointer(1).is_pointer());
    assert!(!Value::Int(0).is_pointer());
    assert!(!Value::Uninitialized.is_initialized());
    assert!(Value::Int(0).is_initialized());
    assert!(matches!(Value::default(), Value::Uninitialized));
}

#[test]
fn value_expect_messages() {
    assert_eq!(Value::Int(7).expect_int(), Ok(7));
    assert_eq!(Value::Char(65).expect_int(), Err("Expected Int, got Char(65)".to_string()));
    assert_eq!(Value::Null.expect_pointer(), Ok(0));
    assert_eq!(Value::Int(-2).expect_pointer(), Err("Expected Pointer, got Int(-2)".to_string()));
    assert_eq!(Value::Uninitialized.expect_char(), Err("Expected Char, got Uninitialized".to_string()));
    let s = Value::Struct(vec![("x".to_string(), Value::Int(1)), ("p".to_string(), Value::Null)]);
    assert_eq!(s.to_text(), "Struct({\"x\": Int(1), \"p\": Null})");
    let a = Value::Array(vec![Value::Char(65), Value::Pointer(16)]);
    assert_eq!(a.to_text(), "Array([Char(65), Pointer(16)])");
    assert_eq!(Value::Array(vec![]).to_text(), "Array([])");
}

#[test]
fn init_state_struct_fields() {
    let fields = vec!["a".to_string(), "b".to_string(), "a".to_string()];
    let mut st = InitState::for_struct(&fields);
    assert!(!st.is_initialized());
    assert!(!st.is_field_initialized("a"));
    assert_eq!(st.mark_field_initialized("c"), Err("Unknown field: c".to_string()));
    assert_eq!(st.mark_field_initialized("a"), Ok(()));
    assert!(st.is_field_initialized("a"));
    assert!(!st.is_field_initialized("b"));
    assert!(!st.is_initialized());
    assert_eq!(st.mark_field_initialized("b"), Ok(()));
    assert!(st.is_initialized());
    assert!(st.is_field_initialized("anything"));
    let mut plain = InitState::Uninitialized;
    assert_eq!(plain.mark_field_initialized("a"), Err("Not a struct".to_string()));
    assert!(!plain.is_field_initialized("a"));
}

fn int_t() -> Type {
    Type::new(BaseType::Int)
}

#[test]
fn frame_scopes_restore_shadowed_variables() {
    let mut frame = StackFrame::new("main".to_string(), None);
    frame.declare_var("x".to_string(), int_t(), InitState::Initialized, 4);
    frame.push_scope();
    frame.declare_var("x".to_string(), Type::new(BaseType::Char), InitState::Uninitialized, 8);
    frame.declare_var("y".to_string(), int_t(), InitState::Uninitialized, 12);
    assert_eq!(frame.get_var("x").unwrap().address, 8);
    assert_eq!(frame.insertion_order, vec!["x".to_string(), "y".to_string()]);
    frame.pop_scope();
    assert_eq!(frame.get_var("x").unwrap().address, 4);
    assert!(frame.get_var("y").is_none());
    assert_eq!(frame.insertion_order, vec!["x".to_string()]);
    // popping with no scope open changes nothing
    frame.pop_scope();
    assert_eq!(frame.get_var("x").unwrap().address, 4);
}

#[test]
fn frame_get_var_mut_changes_value() {
    let mut frame = StackFrame::new("f".to_string(), Some(loc(3)));
    frame.declare_var("n".to_string(), int_t().with_const(), InitState::Uninitialized, 4);
    assert!(frame.get_var("n").unwrap().is_const);
    frame.get_var_mut("n").unwrap().value = Value::Int(9);
    assert_eq!(frame.get_var("n").unwrap().value.as_int(), Some(9));
    assert!(frame.get_var_mut("m").is_none());
    assert_eq!(frame.function_name, "f");
    assert_eq!(frame.return_location, Some(loc(3)));
}

#[test]
fn local_var_starts_uninitialized() {
    let v = LocalVar::new(int_t().with_const(), InitState::Uninitialized, 16);
    assert!(v.is_const);
    assert!(!v.value.is_initialized());
    assert_eq!(v.address, 16);
}

#[test]
fn stack_frames_push_and_pop() {
    let mut stack = Stack::new();
    assert!(stack.is_empty());
    assert!(stack.current_frame().is_none());
    stack.push_frame("main".to_string(), None);
    stack.push_frame("f".to_string(), Some(loc(4)));
    assert_eq!(stack.depth(), 2);
    assert_eq!(stack.current_frame().unwrap().function_name, "f");
    stack.current_frame_mut().unwrap().declare_var("a".to_string(), int_t(), InitState::Initialized, 4);
    assert!(stack.frames()[1].get_var("a").is_some());
    stack.frame_mut(0).unwrap().declare_var("b".to_string(), int_t(), InitState::Initialized, 8);
    assert!(stack.frames()[0].get_var("b").is_some());
    assert!(stack.frame_mut(5).is_none());
    let top = stack.pop_frame().unwrap();
    assert_eq!(top.function_name, "f");
    assert_eq!(stack.depth(), 1);
    stack.pop_frame();
    assert!(stack.pop_frame().is_none());
    assert!(Stack::default().is_empty());
}
