use crustty::interpreter::errors::RuntimeError;
use crustty::interpreter::heap_serial::map_heap_error;
use crustty::interpreter::ops::{
    bitnot_value, bitwise_op, checked_add_values, checked_div_values, checked_mod_values,
    checked_mul_values, checked_sub_values, coerce_to_int, coerce_value_to_type, compare_values,
    negate_value, not_value, value_to_bool,
};
use crustty::memory::value::Value;
use crustty::parser::ast::{BaseType, BinOp, SourceLocation, Type};
use crustty::ui::panes::stack::split_at_char_boundary;

fn loc() -> SourceLocation {
    SourceLocation::new(5, 2)
}

fn int_of(r: Result<Value, RuntimeError>) -> i32 {
    match r {
        Ok(Value::Int(n)) => n,
        other => panic!("expected an int, got {:?}", other),
    }
}

#[test]
fn integer_arithmetic() {
    assert_eq!(int_of(checked_add_values(&Value::Int(2), &Value::Char(3), 0, loc())), 5);
    assert_eq!(int_of(checked_sub_values(&Value::Int(2), &Value::Int(7), 0, loc())), -5);
    assert_eq!(int_of(checked_mul_values(&Value::Int(-4), &Value::Int(6), loc())), -24);
    assert_eq!(int_of(checked_div_values(&Value::Int(-7), &Value::Int(2), loc())), -3);
    assert_eq!(int_of(checked_mod_values(&Value::Int(-7), &Value::Int(2), loc())), -1);
    assert_eq!(coerce_to_int(&Value::Char(-1)), Some(-1));
    assert_eq!(coerce_to_int(&Value::Null), None);
}

#[test]
fn integer_overflow_and_division_errors() {
    match checked_add_values(&Value::Int(i32::MAX), &Value::Int(1), 0, loc()) {
        Err(RuntimeError::IntegerOverflow { operation, location }) => {
            assert_eq!(operation, "2147483647 + 1");
            assert_eq!(location, loc());
        }
        other => panic!("unexpected {:?}", other),
    }
    match checked_div_values(&Value::Int(i32::MIN), &Value::Int(-1), loc()) {
        Err(RuntimeError::IntegerOverflow { operation, .. }) => assert_eq!(operation, "-2147483648 / -1"),
        other => panic!("unexpected {:?}", other),
    }
    match checked_div_values(&Value::Int(1), &Value::Int(0), loc()) {
        Err(RuntimeError::DivisionError { operation, .. }) => assert_eq!(operation, "Division by zero"),
        other => panic!("unexpected {:?}", other),
    }
    match checked_mod_values(&Value::Int(1), &Value::Char(0), loc()) {
        Err(RuntimeError::DivisionError { operation, .. }) => assert_eq!(operation, "Modulo by zero"),
        other => panic!("unexpected {:?}", other),
    }
    match negate_value(&Value::Int(i32::MIN), loc()) {
        Err(RuntimeError::IntegerOverflow { operation, .. }) => assert_eq!(operation, "--2147483648"),
        other => panic!("unexpected {:?}", other),
    }
}

#[test]
fn pointer_arithmetic_and_type_errors() {
    assert!(matches!(checked_add_values(&Value::Pointer(100), &Value::Int(3), 4, loc()), Ok(Value::Pointer(112))));
    assert!(matches!(checked_add_values(&Value::Int(2), &Value::Pointer(100), 8, loc()), Ok(Value::Pointer(116))));
    assert!(matches!(checked_sub_values(&Value::Pointer(100), &Value::Int(3), 4, loc()), Ok(Value::Pointer(88))));
    assert_eq!(int_of(checked_sub_values(&Value::Pointer(112), &Value::Pointer(100), 4, loc())), 3);
    assert_eq!(int_of(checked_sub_values(&Value::Pointer(100), &Value::Pointer(112), 4, loc())), -3);
    assert_eq!(int_of(checked_sub_values(&Value::Pointer(112), &Value::Pointer(100), 0, loc())), 0);
    match checked_add_values(&Value::Pointer(1), &Value::Pointer(2), 4, loc()) {
        Err(RuntimeError::TypeError { expected, got, .. }) => {
            assert_eq!(expected, "int or pointer");
            assert_eq!(got, "Pointer(1) + Pointer(2)");
        }
        other => panic!("unexpected {:?}", other),
    }
    match checked_mul_values(&Value::Null, &Value::Int(2), loc()) {
        Err(RuntimeError::TypeError { expected, got, .. }) => {
            assert_eq!(expected, "int");
            assert_eq!(got, "Null * Int(2)");
        }
        other => panic!("unexpected {:?}", other),
    }
}

#[test]
fn comparisons_and_truth() {
    assert_eq!(int_of(compare_values(&Value::Int(1), &Value::Char(2), BinOp::Lt, loc())), 1);
    assert_eq!(int_of(compare_values(&Value::Int(1), &Value::Int(1), BinOp::Ne, loc())), 0);
    assert_eq!(int_of(compare_values(&Value::Pointer(8), &Value::Null, BinOp::Gt, loc())), 1);
    assert_eq!(int_of(compare_values(&Value::Null, &Value::Null, BinOp::Eq, loc())), 1);
    assert_eq!(int_of(compare_values(&Value::Pointer(u64::MAX), &Value::Pointer(1), BinOp::Lt, loc())), 1);
    match compare_values(&Value::Uninitialized, &Value::Int(1), BinOp::Eq, loc()) {
        Err(RuntimeError::TypeError { expected, got, .. }) => {
            assert_eq!(expected, "comparable types");
            assert_eq!(got, "Uninitialized vs Int(1)");
        }
        other => panic!("unexpected {:?}", other),
    }
    assert_eq!(value_to_bool(&Value::Char(0), loc()).unwrap(), false);
    assert_eq!(value_to_bool(&Value::Pointer(3), loc()).unwrap(), true);
    assert!(value_to_bool(&Value::Array(vec![]), loc()).is_err());
    assert_eq!(int_of(not_value(&Value::Null, loc())), 1);
    assert_eq!(int_of(not_value(&Value::Int(9), loc())), 0);
}

#[test]
fn bit_operations() {
    assert_eq!(int_of(bitwise_op(&Value::Int(12), &Value::Int(10), BinOp::BitAnd, loc())), 8);
    assert_eq!(int_of(bitwise_op(&Value::Int(12), &Value::Int(10), BinOp::BitOr, loc())), 14);
    assert_eq!(int_of(bitwise_op(&Value::Int(12), &Value::Int(10), BinOp::BitXor, loc())), 6);
    assert_eq!(int_of(bitwise_op(&Value::Int(1), &Value::Int(31), BinOp::BitShl, loc())), i32::MIN);
    assert_eq!(int_of(bitwise_op(&Value::Int(-8), &Value::Int(1), BinOp::BitShr, loc())), -4);
    assert_eq!(int_of(bitnot_value(&Value::Int(0), loc())), -1);
    assert!(bitnot_value(&Value::Char(1), loc()).is_err());
}

#[test]
fn coercion_to_declared_type() {
    let char_t = Type::new(BaseType::Char);
    let int_t = Type::new(BaseType::Int);
    assert!(matches!(coerce_value_to_type(Value::Int(0x141), &char_t, loc()), Ok(Value::Char(0x41))));
    assert!(matches!(coerce_value_to_type(Value::Int(255), &char_t, loc()), Ok(Value::Char(-1))));
    assert!(matches!(coerce_value_to_type(Value::Char(-2), &int_t, loc()), Ok(Value::Int(-2))));
    assert!(matches!(coerce_value_to_type(Value::Int(300), &char_t.clone().with_pointer(), loc()), Ok(Value::Int(300))));
}

#[test]
fn heap_errors_become_runtime_errors() {
    match map_heap_error("Use-after-free: address 0x7fff0004 has been freed".to_string(), loc()) {
        RuntimeError::UseAfterFree { address, location } => {
            assert_eq!(address, 0x7fff0004);
            assert_eq!(location, loc());
        }
        other => panic!("unexpected {:?}", other),
    }
    match map_heap_error("Invalid write: address 0x10 not in any allocated block".to_string(), loc()) {
        RuntimeError::InvalidMemoryOperation { message, .. } => {
            assert_eq!(message, "Invalid write: address 0x10 not in any allocated block")
        }
        other => panic!("unexpected {:?}", other),
    }
    // an address too large for 64 bits is not read as one
    let long = "Use-after-free: address 0x1ffffffffffffffff has been freed".to_string();
    assert!(matches!(map_heap_error(long, loc()), RuntimeError::InvalidMemoryOperation { .. }));
    let none = "Use-after-free: address 0xzz".to_string();
    assert!(matches!(map_heap_error(none, loc()), RuntimeError::InvalidMemoryOperation { .. }));
}

#[test]
fn long_lines_split_at_character_boundaries() {
    assert_eq!(split_at_char_boundary("hello", 10), ("hello", ""));
    assert_eq!(split_at_char_boundary("hello", 3), ("hel", "lo"));
    assert_eq!(split_at_char_boundary("h\u{e9}llo", 2), ("h", "\u{e9}llo"));
    assert_eq!(split_at_char_boundary("\u{20ac}uro", 2), ("\u{20ac}", "uro"));
    assert_eq!(split_at_char_boundary("", 0), ("", ""));
}

use crustty::interpreter::heap_serial::{deserialize_value_from_heap, serialize_value_to_heap};
use crustty::memory::heap::Heap;
use crustty::parser::ast::{Field, StructDef};

fn pair_defs() -> Vec<StructDef> {
    vec![StructDef {
        name: "Pair".to_string(),
        fields: vec![
            Field { name: "a".to_string(), field_type: Type::new(BaseType::Int) },
            Field { name: "c".to_string(), field_type: Type::new(BaseType::Char) },
            Field { name: "p".to_string(), field_type: Type::new(BaseType::Int).with_pointer() },
        ],
    }]
}

#[test]
fn values_round_trip_through_the_heap() {
    let defs = pair_defs();
    let mut heap = Heap::new(1024);
    let base = heap.allocate(32).unwrap();
    let int_t = Type::new(BaseType::Int);
    serialize_value_to_heap(&mut heap, &defs, &Value::Int(-5), &int_t, base, loc()).unwrap();
    assert_eq!(heap.read_bytes_at(base, 4), Ok(vec![0xfb, 0xff, 0xff, 0xff]));
    assert!(matches!(deserialize_value_from_heap(&heap, &defs, &int_t, base, loc()), Ok(Value::Int(-5))));
    let ptr_t = Type::new(BaseType::Char).with_pointer();
    serialize_value_to_heap(&mut heap, &defs, &Value::Null, &ptr_t, base + 8, loc()).unwrap();
    assert!(matches!(deserialize_value_from_heap(&heap, &defs, &ptr_t, base + 8, loc()), Ok(Value::Null)));
    serialize_value_to_heap(&mut heap, &defs, &Value::Pointer(0x1234), &ptr_t, base + 8, loc()).unwrap();
    assert!(matches!(deserialize_value_from_heap(&heap, &defs, &ptr_t, base + 8, loc()), Ok(Value::Pointer(0x1234))));
    let pair_t = Type::new(BaseType::Struct("Pair".to_string()));
    let v = Value::Struct(vec![
        ("a".to_string(), Value::Int(7)),
        ("c".to_string(), Value::Char(-1)),
        ("p".to_string(), Value::Pointer(base)),
    ]);
    serialize_value_to_heap(&mut heap, &defs, &v, &pair_t, base + 16, loc()).unwrap();
    let back = deserialize_value_from_heap(&heap, &defs, &pair_t, base + 16, loc()).unwrap();
    assert_eq!(back.to_text(), format!("Struct({{\"a\": Int(7), \"c\": Char(-1), \"p\": Pointer({})}})", base));
}

#[test]
fn storing_reports_heap_and_type_errors() {
    let defs = pair_defs();
    let mut heap = Heap::new(1024);
    let base = heap.allocate(2).unwrap();
    match serialize_value_to_heap(&mut heap, &defs, &Value::Int(1), &Type::new(BaseType::Int), base, loc()) {
        Err(RuntimeError::InvalidMemoryOperation { message, .. }) => {
            assert_eq!(message, format!("Invalid write: address 0x{:x} not in any allocated block", base + 2))
        }
        other => panic!("unexpected {:?}", other),
    }
    heap.free(base).unwrap();
    match serialize_value_to_heap(&mut heap, &defs, &Value::Char(1), &Type::new(BaseType::Char), base + 1, loc()) {
        Err(RuntimeError::UseAfterFree { address, .. }) => assert_eq!(address, base),
        other => panic!("unexpected {:?}", other),
    }
    match serialize_value_to_heap(&mut heap, &defs, &Value::Struct(vec![]), &Type::new(BaseType::Int), base, loc()) {
        Err(RuntimeError::TypeError { expected, got, .. }) => {
            assert_eq!(expected, "struct type");
            assert_eq!(got, "Int");
        }
        other => panic!("unexpected {:?}", other),
    }
    match serialize_value_to_heap(&mut heap, &defs, &Value::Struct(vec![]), &Type::new(BaseType::Struct("Nope".to_string())), base, loc()) {
        Err(RuntimeError::StructNotDefined { name, .. }) => assert_eq!(name, "Nope"),
        other => panic!("unexpected {:?}", other),
    }
    match serialize_value_to_heap(&mut heap, &defs, &Value::Array(vec![]), &Type::new(BaseType::Void), base, loc()) {
        Err(RuntimeError::UnsupportedOperation { message, .. }) => {
            assert_eq!(message, "Unsupported array element type: Void")
        }
        other => panic!("unexpected {:?}", other),
    }
    assert!(serialize_value_to_heap(&mut heap, &defs, &Value::Uninitialized, &Type::new(BaseType::Int), 0, loc()).is_ok());
    match deserialize_value_from_heap(&heap, &defs, &Type::new(BaseType::Void).with_array(Some(2)), base, loc()) {
        Err(RuntimeError::UnsupportedOperation { message, .. }) => assert_eq!(
            message,
            "Deserialization not yet implemented for type: Type { base: Void, is_const: false, pointer_depth: 0, array_dims: [Some(2)] }"
        ),
        other => panic!("unexpected {:?}", other),
    }
}

#[test]
fn arrays_are_stored_element_by_element() {
    let defs = pair_defs();
    let mut heap = Heap::new(1024);
    let base = heap.allocate(8).unwrap();
    let arr = Value::Array(vec![Value::Int(1), Value::Int(256)]);
    serialize_value_to_heap(&mut heap, &defs, &arr, &Type::new(BaseType::Int).with_array(Some(2)), base, loc()).unwrap();
    assert_eq!(heap.read_bytes_at(base, 8), Ok(vec![1, 0, 0, 0, 0, 1, 0, 0]));
}

#[test]
fn shift_out_of_range_is_an_overflow() {
    let loc = || crustty::parser::ast::SourceLocation::new(3, 4);
    match bitwise_op(&Value::Int(1), &Value::Int(32), BinOp::BitShl, loc()) {
        Err(crustty::interpreter::errors::RuntimeError::IntegerOverflow { operation, location }) => {
            assert_eq!(operation, "1 << 32");
            assert_eq!(location, loc());
        }
        _ => panic!("expected an overflow"),
    }
    match bitwise_op(&Value::Int(8), &Value::Int(-1), BinOp::BitShr, loc()) {
        Err(crustty::interpreter::errors::RuntimeError::IntegerOverflow { operation, .. }) => {
            assert_eq!(operation, "8 >> -1");
        }
        _ => panic!("expected an overflow"),
    }
}
