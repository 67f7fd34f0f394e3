//! The arithmetic of runtime values: C's integer operators with overflow
//! and division by zero reported as errors, pointer arithmetic scaled by the
//! size of what a pointer points to, comparisons and truth values.
//!
//! Where a pointer takes part, the caller supplies `scale`, the size in
//! bytes of the pointee, which it looks up from the pointer's type.
use vstd::prelude::*;
use crate::interpreter::errors::RuntimeError;
use crate::memory::value::{value_text, Value};
use crate::parser::ast::{BaseType, BinOp, SourceLocation, Type};
use crate::text::{int_text, push_int};

verus! {

/// The integer a numeric value stands for: an `Int`, or a `Char` widened
/// with its sign.
pub open spec fn int_of(v: Value) -> Option<i32> {
    match v {
        Value::Int(n) => Some(n),
        Value::Char(c) => Some(c as i32),
        _ => None,
    }
}

/// Helper to coerce numeric types (Char, Int) to i32
pub fn coerce_to_int(value: &Value) -> (r: Option<i32>)
    ensures
        r == int_of(*value),
{
    match value {
        Value::Int(n) => Some(*n),
        // Explicit cast to i32 handles sign extension for i8 (Char)
        Value::Char(c) => Some(*c as i32),
        _ => None,
    }
}

/// `a op b` as the overflow message writes it.
pub open spec fn op_text(a: i32, op: Seq<char>, b: i32) -> Seq<char> {
    int_text(a as int) + op + int_text(b as int)
}

fn op_string(a: i32, op: &str, b: i32) -> (r: String)
    ensures
        r@ == op_text(a, op@, b),
{
    let mut s = String::new();
    push_int(&mut s, a as i64);
    s.append(op);
    push_int(&mut s, b as i64);
    assert(s@ =~= op_text(a, op@, b));
    s
}

/// `left op right` as a type error writes the operands.
pub open spec fn operands_text(left: Value, op: Seq<char>, right: Value) -> Seq<char> {
    value_text(left) + op + value_text(right)
}

fn operands_string(left: &Value, op: &str, right: &Value) -> (r: String)
    ensures
        r@ == operands_text(*left, op@, *right),
{
    let mut s = left.to_text();
    s.append(op);
    let t = right.to_text();
    s.append(t.as_str());
    s
}

fn type_error(expected: &str, got: String, location: SourceLocation) -> (e: RuntimeError)
    ensures
        e matches RuntimeError::TypeError { expected: x, got: g, location: l } && x@ == expected@
            && g@ == got@ && l == location,
{
    RuntimeError::TypeError { expected: String::from_str(expected), got, location }
}

/// Whether moving the pointer of a sum by its integer operand, `scale`
/// bytes a unit, stays within signed 64-bit arithmetic.
pub open spec fn pointer_step_fits(addr: u64, offset: i32, scale: u64) -> bool {
    &&& i64::MIN <= offset * (scale as i64) <= i64::MAX
    &&& i64::MIN <= (addr as i64) + offset * (scale as i64) <= i64::MAX
}

/// What an operation on values comes to: a value, or an error with the
/// text it reports.
pub enum Outcome {
    Done(Value),
    /// Integer overflow, with the operation written out
    Overflow(Seq<char>),
    /// Operands of the wrong kind, written out
    Mismatch(Seq<char>),
    /// Division or remainder by zero, with its description
    ByZero(Seq<char>),
}

/// Whether a result is the outcome `o`, a mismatch reported as expecting
/// `expected`.
pub open spec fn is_outcome(
    r: Result<Value, RuntimeError>,
    o: Outcome,
    expected: Seq<char>,
    location: SourceLocation,
) -> bool {
    match o {
        Outcome::Done(v) => r == Ok::<Value, RuntimeError>(v),
        Outcome::Overflow(text) => r matches Err(
            RuntimeError::IntegerOverflow { operation, location: l },
        ) && operation@ == text && l == location,
        Outcome::Mismatch(text) => r matches Err(
            RuntimeError::TypeError { expected: x, got, location: l },
        ) && x@ == expected && got@ == text && l == location,
        Outcome::ByZero(text) => r matches Err(
            RuntimeError::DivisionError { operation, location: l },
        ) && operation@ == text && l == location,
    }
}

/// The pointer `offset` units of `scale` bytes past `addr`.
pub open spec fn moved_pointer(addr: u64, offset: i32, scale: u64) -> u64 {
    ((addr as i64) + offset * (scale as i64)) as u64
}

/// What `left + right` comes to.
pub open spec fn add_outcome(left: Value, right: Value, scale: u64) -> Outcome {
    match (int_of(left), int_of(right)) {
        (Some(a), Some(b)) => if i32::MIN <= a + b <= i32::MAX {
            Outcome::Done(Value::Int((a + b) as i32))
        } else {
            Outcome::Overflow(op_text(a, " + "@, b))
        },
        _ => match (left, right) {
            (Value::Pointer(addr), r) => match int_of(r) {
                Some(off) => Outcome::Done(Value::Pointer(moved_pointer(addr, off, scale))),
                None => Outcome::Mismatch(operands_text(left, " + "@, right)),
            },
            (l, Value::Pointer(addr)) => match int_of(l) {
                Some(off) => Outcome::Done(Value::Pointer(moved_pointer(addr, off, scale))),
                None => Outcome::Mismatch(operands_text(left, " + "@, right)),
            },
            _ => Outcome::Mismatch(operands_text(left, " + "@, right)),
        },
    }
}

/// `left + right`: integers (and chars) add with overflow checked; a pointer
/// plus an integer, either way round, moves the pointer by `scale` bytes a
/// unit.
pub fn checked_add_values(left: &Value, right: &Value, scale: u64, location: SourceLocation) -> (r:
    Result<Value, RuntimeError>)
    requires
        *left matches Value::Pointer(a) ==> (int_of(*right) is Some ==> pointer_step_fits(
            a,
            int_of(*right)->Some_0,
            scale,
        )),
        *right matches Value::Pointer(a) ==> (int_of(*left) is Some ==> pointer_step_fits(
            a,
            int_of(*left)->Some_0,
            scale,
        )),
    ensures
        is_outcome(r, add_outcome(*left, *right, scale), "int or pointer"@, location),
{
    // 1. Numeric addition (Int/Char + Int/Char)
    match (coerce_to_int(left), coerce_to_int(right)) {
        (Some(a), Some(b)) => {
            return match a.checked_add(b) {
                Some(n) => Ok(Value::Int(n)),
                None => Err(
                    RuntimeError::IntegerOverflow { operation: op_string(a, " + ", b), location },
                ),
            };
        },
        _ => {},
    }
    // 2. Pointer arithmetic
    match (left, right) {
        (Value::Pointer(addr), right_val) => {
            if let Some(offset) = coerce_to_int(right_val) {
                let scaled_offset = offset as i64 * scale as i64;
                Ok(Value::Pointer((*addr as i64 + scaled_offset) as u64))
            } else {
                Err(type_error("int or pointer", operands_string(left, " + ", right), location))
            }
        },
        (left_val, Value::Pointer(addr)) => {
            if let Some(offset) = coerce_to_int(left_val) {
                let scaled_offset = offset as i64 * scale as i64;
                Ok(Value::Pointer((*addr as i64 + scaled_offset) as u64))
            } else {
                Err(type_error("int or pointer", operands_string(left, " + ", right), location))
            }
        },
        _ => Err(type_error("int or pointer", operands_string(left, " + ", right), location)),
    }
}

/// What `left - right` comes to.
pub open spec fn sub_outcome(left: Value, right: Value, scale: u64) -> Outcome {
    match (int_of(left), int_of(right)) {
        (Some(a), Some(b)) => match a.checked_sub(b) {
            Some(n) => Outcome::Done(Value::Int(n)),
            None => Outcome::Overflow(op_text(a, " - "@, b)),
        },
        _ => match (left, right) {
            (Value::Pointer(addr), r) => match int_of(r) {
                Some(off) => Outcome::Done(
                    Value::Pointer(((addr as i64) - off * (scale as i64)) as u64),
                ),
                None => match r {
                    Value::Pointer(addr2) => Outcome::Done(
                        Value::Int(
                            (if scale > 0 {
                                crate::memory::div_toward_zero(
                                    (addr as i64) - (addr2 as i64),
                                    scale as int,
                                )
                            } else {
                                0
                            }) as i32,
                        ),
                    ),
                    _ => Outcome::Mismatch(operands_text(left, " - "@, right)),
                },
            },
            _ => Outcome::Mismatch(operands_text(left, " - "@, right)),
        },
    }
}

/// `left - right`: integers subtract with overflow checked; a pointer minus
/// an integer moves back by `scale` bytes a unit; a pointer minus a pointer
/// is their distance in units of `scale` bytes.
pub fn checked_sub_values(left: &Value, right: &Value, scale: u64, location: SourceLocation) -> (r:
    Result<Value, RuntimeError>)
    requires
        *left matches Value::Pointer(a) ==> (int_of(*right) is Some ==> {
            &&& i64::MIN <= int_of(*right)->Some_0 * (scale as i64) <= i64::MAX
            &&& i64::MIN <= (a as i64) - int_of(*right)->Some_0 * (scale as i64) <= i64::MAX
        }),
        *left matches Value::Pointer(a) ==> (*right matches Value::Pointer(b) ==> {
            &&& i64::MIN <= (a as i64) - (b as i64) <= i64::MAX
            &&& scale <= i64::MAX
        }),
    ensures
        is_outcome(r, sub_outcome(*left, *right, scale), "int or pointer"@, location),
{
    // 1. Numeric subtraction
    match (coerce_to_int(left), coerce_to_int(right)) {
        (Some(a), Some(b)) => {
            return match a.checked_sub(b) {
                Some(n) => Ok(Value::Int(n)),
                None => Err(
                    RuntimeError::IntegerOverflow { operation: op_string(a, " - ", b), location },
                ),
            };
        },
        _ => {},
    }
    match (left, right) {
        (Value::Pointer(addr), right_val) => {
            if let Some(offset) = coerce_to_int(right_val) {
                let scaled_offset = offset as i64 * scale as i64;
                Ok(Value::Pointer((*addr as i64 - scaled_offset) as u64))
            } else if let Value::Pointer(addr2) = right_val {
                let diff_bytes = (*addr as i64) - (*addr2 as i64);
                let diff_elems = if scale > 0 {
                    diff_bytes / scale as i64
                } else {
                    0
                };
                Ok(Value::Int(diff_elems as i32))
            } else {
                Err(type_error("int or pointer", operands_string(left, " - ", right), location))
            }
        },
        _ => Err(type_error("int or pointer", operands_string(left, " - ", right), location)),
    }
}

/// What `left * right` comes to.
pub open spec fn mul_outcome(left: Value, right: Value) -> Outcome {
    match (int_of(left), int_of(right)) {
        (Some(a), Some(b)) => match a.checked_mul(b) {
            Some(n) => Outcome::Done(Value::Int(n)),
            None => Outcome::Overflow(op_text(a, " * "@, b)),
        },
        _ => Outcome::Mismatch(operands_text(left, " * "@, right)),
    }
}

/// `left * right` on integers, with overflow checked.
pub fn checked_mul_values(left: &Value, right: &Value, location: SourceLocation) -> (r: Result<
    Value,
    RuntimeError,
>)
    ensures
        is_outcome(r, mul_outcome(*left, *right), "int"@, location),
{
    match (coerce_to_int(left), coerce_to_int(right)) {
        (Some(a), Some(b)) => {
            return match a.checked_mul(b) {
                Some(n) => Ok(Value::Int(n)),
                None => Err(
                    RuntimeError::IntegerOverflow { operation: op_string(a, " * ", b), location },
                ),
            };
        },
        _ => {},
    }
    Err(type_error("int", operands_string(left, " * ", right), location))
}

/// What `left / right` comes to: Rust's (and C's) division toward zero.
pub open spec fn div_outcome(left: Value, right: Value) -> Outcome {
    match (int_of(left), int_of(right)) {
        (Some(a), Some(b)) => if b == 0 {
            Outcome::ByZero("Division by zero"@)
        } else {
            match a.checked_div(b) {
                Some(n) => Outcome::Done(Value::Int(n)),
                None => Outcome::Overflow(op_text(a, " / "@, b)),
            }
        },
        _ => Outcome::Mismatch(operands_text(left, " / "@, right)),
    }
}

/// `left / right` on integers: division by zero and overflow are errors.
pub fn checked_div_values(left: &Value, right: &Value, location: SourceLocation) -> (r: Result<
    Value,
    RuntimeError,
>)
    ensures
        is_outcome(r, div_outcome(*left, *right), "int"@, location),
{
    match (coerce_to_int(left), coerce_to_int(right)) {
        (Some(a), Some(b)) => {
            if b == 0 {
                return Err(
                    RuntimeError::DivisionError {
                        operation: String::from_str("Division by zero"),
                        location,
                    },
                );
            }
            return match a.checked_div(b) {
                Some(n) => Ok(Value::Int(n)),
                None => Err(
                    RuntimeError::IntegerOverflow { operation: op_string(a, " / ", b), location },
                ),
            };
        },
        _ => {},
    }
    Err(type_error("int", operands_string(left, " / ", right), location))
}

/// What `left % right` comes to: the remainder with the sign of `left`.
pub open spec fn mod_outcome(left: Value, right: Value) -> Outcome {
    match (int_of(left), int_of(right)) {
        (Some(a), Some(b)) => if b == 0 {
            Outcome::ByZero("Modulo by zero"@)
        } else {
            match a.checked_rem(b) {
                Some(n) => Outcome::Done(Value::Int(n)),
                None => Outcome::Overflow(op_text(a, " % "@, b)),
            }
        },
        _ => Outcome::Mismatch(operands_text(left, " % "@, right)),
    }
}

/// `left % right` on integers: remainder by zero and overflow are errors.
pub fn checked_mod_values(left: &Value, right: &Value, location: SourceLocation) -> (r: Result<
    Value,
    RuntimeError,
>)
    ensures
        is_outcome(r, mod_outcome(*left, *right), "int"@, location),
{
    match (coerce_to_int(left), coerce_to_int(right)) {
        (Some(a), Some(b)) => {
            if b == 0 {
                return Err(
                    RuntimeError::DivisionError {
                        operation: String::from_str("Modulo by zero"),
                        location,
                    },
                );
            }
            return match a.checked_rem(b) {
                Some(n) => Ok(Value::Int(n)),
                None => Err(
                    RuntimeError::IntegerOverflow { operation: op_string(a, " % ", b), location },
                ),
            };
        },
        _ => {},
    }
    Err(type_error("int", operands_string(left, " % ", right), location))
}

/// Whether `op` compares.
pub open spec fn is_comparison(op: BinOp) -> bool {
    op is Eq || op is Ne || op is Lt || op is Le || op is Gt || op is Ge
}

/// The comparison `op` of two numbers.
pub open spec fn compares(op: BinOp, a: int, b: int) -> bool {
    match op {
        BinOp::Eq => a == b,
        BinOp::Ne => a != b,
        BinOp::Lt => a < b,
        BinOp::Le => a <= b,
        BinOp::Gt => a > b,
        _ => a >= b,
    }
}

fn compare(op: BinOp, a: i64, b: i64) -> (r: bool)
    requires
        is_comparison(op),
    ensures
        r == compares(op, a as int, b as int),
{
    match op {
        BinOp::Eq => a == b,
        BinOp::Ne => a != b,
        BinOp::Lt => a < b,
        BinOp::Le => a <= b,
        BinOp::Gt => a > b,
        _ => a >= b,
    }
}

/// What comparing two values comes to: `Int(1)` when it holds, `Int(0)`
/// when not; pointers compare as signed 64-bit numbers, null as zero.
pub open spec fn compare_outcome(op: BinOp, left: Value, right: Value) -> Outcome {
    let flag = |b: bool| Outcome::Done(Value::Int(if b { 1 } else { 0 }));
    match (int_of(left), int_of(right)) {
        (Some(a), Some(b)) => flag(compares(op, a as int, b as int)),
        _ => match (left, right) {
            (Value::Pointer(a), Value::Pointer(b)) => flag(
                compares(op, (a as i64) as int, (b as i64) as int),
            ),
            (Value::Pointer(a), Value::Null) => flag(compares(op, (a as i64) as int, 0)),
            (Value::Null, Value::Pointer(a)) => flag(compares(op, (a as i64) as int, 0)),
            (Value::Null, Value::Null) => flag(compares(op, 0, 0)),
            _ => Outcome::Mismatch(operands_text(left, " vs "@, right)),
        },
    }
}

/// Compare two values with `op`, one of `==`, `!=`, `<`, `<=`, `>`, `>=`.
pub fn compare_values(left: &Value, right: &Value, op: BinOp, location: SourceLocation) -> (r:
    Result<Value, RuntimeError>)
    requires
        is_comparison(op),
    ensures
        is_outcome(r, compare_outcome(op, *left, *right), "comparable types"@, location),
{
    let flag = |b: bool| -> (v: Value)
        ensures
            v == Value::Int(if b { 1 } else { 0 }),
        {
            Value::Int(
                if b {
                    1
                } else {
                    0
                },
            )
        };
    match (coerce_to_int(left), coerce_to_int(right)) {
        (Some(a), Some(b)) => {
            return Ok(flag(compare(op, a as i64, b as i64)));
        },
        _ => {},
    }
    match (left, right) {
        (Value::Pointer(a), Value::Pointer(b)) => Ok(flag(compare(op, *a as i64, *b as i64))),
        (Value::Pointer(a), Value::Null) => Ok(flag(compare(op, *a as i64, 0))),
        (Value::Null, Value::Pointer(a)) => Ok(flag(compare(op, *a as i64, 0))),
        (Value::Null, Value::Null) => Ok(flag(compare(op, 0, 0))),
        _ => Err(
            type_error("comparable types", operands_string(left, " vs ", right), location),
        ),
    }
}

/// Whether `op` works on bits.
pub open spec fn is_bitwise(op: BinOp) -> bool {
    op is BitAnd || op is BitOr || op is BitXor || op is BitShl || op is BitShr
}

/// The bitwise operation `op` on two integers.
pub open spec fn bits(op: BinOp, a: i32, b: i32) -> i32 {
    match op {
        BinOp::BitAnd => a & b,
        BinOp::BitOr => a | b,
        BinOp::BitXor => a ^ b,
        BinOp::BitShl => a << b,
        _ => a >> b,
    }
}

/// The operator text of a shift.
pub open spec fn shift_text(op: BinOp) -> Seq<char> {
    if op is BitShl {
        " << "@
    } else {
        " >> "@
    }
}

/// What a bitwise operation on two values comes to: a shift by a negative
/// amount or by 32 or more is an overflow, not a panic.
pub open spec fn bitwise_outcome(op: BinOp, left: Value, right: Value) -> Outcome {
    match (int_of(left), int_of(right)) {
        (Some(a), Some(b)) => if (op is BitShl || op is BitShr) && !(0 <= b < 32) {
            Outcome::Overflow(op_text(a, shift_text(op), b))
        } else {
            Outcome::Done(Value::Int(bits(op, a, b)))
        },
        _ => Outcome::Mismatch(operands_text(left, " op "@, right)),
    }
}

/// A bitwise operation on integer values; shifting by less than 0 or by 32
/// or more bits is reported as an overflow.
pub fn bitwise_op(left: &Value, right: &Value, op: BinOp, location: SourceLocation) -> (r: Result<
    Value,
    RuntimeError,
>)
    requires
        is_bitwise(op),
    ensures
        is_outcome(r, bitwise_outcome(op, *left, *right), "int"@, location),
{
    match (coerce_to_int(left), coerce_to_int(right)) {
        (Some(a), Some(b)) => {
            let is_shift = match op {
                BinOp::BitShl | BinOp::BitShr => true,
                _ => false,
            };
            if is_shift && (b < 0 || b >= 32) {
                let text = match op {
                    BinOp::BitShl => op_string(a, " << ", b),
                    _ => op_string(a, " >> ", b),
                };
                return Err(RuntimeError::IntegerOverflow { operation: text, location });
            }
            let result = match op {
                BinOp::BitAnd => a & b,
                BinOp::BitOr => a | b,
                BinOp::BitXor => a ^ b,
                BinOp::BitShl => a << b,
                _ => a >> b,
            };
            return Ok(Value::Int(result));
        },
        _ => {},
    }
    Err(type_error("int", operands_string(left, " op ", right), location))
}

/// The truth of a value in a condition: nonzero numbers and pointers are
/// true, zero and null false.
pub open spec fn truth(v: Value) -> Option<bool> {
    match v {
        Value::Int(n) => Some(n != 0),
        Value::Char(c) => Some(c != 0),
        Value::Pointer(_) => Some(true),
        Value::Null => Some(false),
        _ => None,
    }
}

/// Convert a value to a boolean (for conditionals)
pub fn value_to_bool(val: &Value, location: SourceLocation) -> (r: Result<bool, RuntimeError>)
    ensures
        match truth(*val) {
            Some(b) => r == Ok::<bool, RuntimeError>(b),
            None => r matches Err(RuntimeError::TypeError { expected, got, location: l })
                && expected@ == "int or pointer"@ && got@ == value_text(*val) && l == location,
        },
{
    match val {
        Value::Int(n) => Ok(*n != 0),
        Value::Char(c) => Ok(*c != 0),
        Value::Pointer(_) => Ok(true),
        Value::Null => Ok(false),
        _ => Err(type_error("int or pointer", val.to_text(), location)),
    }
}

/// `-v` on an integer, with overflow checked.
pub fn negate_value(val: &Value, location: SourceLocation) -> (r: Result<Value, RuntimeError>)
    ensures
        is_outcome(
            r,
            match *val {
                Value::Int(n) => if n == i32::MIN {
                    Outcome::Overflow("-"@ + int_text(n as int))
                } else {
                    Outcome::Done(Value::Int(-n as i32))
                },
                _ => Outcome::Mismatch(value_text(*val)),
            },
            "int"@,
            location,
        ),
{
    match val {
        Value::Int(n) => {
            if *n == i32::MIN {
                let mut s = String::from_str("-");
                push_int(&mut s, *n as i64);
                Err(RuntimeError::IntegerOverflow { operation: s, location })
            } else {
                Ok(Value::Int(-*n))
            }
        },
        _ => Err(type_error("int", val.to_text(), location)),
    }
}

/// `!v`: `Int(1)` for a false value, `Int(0)` for a true one.
pub fn not_value(val: &Value, location: SourceLocation) -> (r: Result<Value, RuntimeError>)
    ensures
        match truth(*val) {
            Some(b) => r == Ok::<Value, RuntimeError>(Value::Int(if b { 0 } else { 1 })),
            None => r matches Err(RuntimeError::TypeError { expected, got, location: l })
                && expected@ == "int or pointer"@ && got@ == value_text(*val) && l == location,
        },
{
    let b = value_to_bool(val, location)?;
    Ok(
        Value::Int(
            if b {
                0
            } else {
                1
            },
        ),
    )
}

/// `~v` on an integer.
pub fn bitnot_value(val: &Value, location: SourceLocation) -> (r: Result<Value, RuntimeError>)
    ensures
        is_outcome(
            r,
            match *val {
                Value::Int(n) => Outcome::Done(Value::Int(!n)),
                _ => Outcome::Mismatch(value_text(*val)),
            },
            "int"@,
            location,
        ),
{
    match val {
        Value::Int(n) => Ok(Value::Int(!*n)),
        _ => Err(type_error("int", val.to_text(), location)),
    }
}

/// A value converted for storage in a variable of type `t`: an `int` stored
/// in a `char` keeps its low byte, a `char` stored in an `int` widens with
/// its sign; anything else is kept.
pub open spec fn coerced(v: Value, t: Type) -> Value {
    if t.pointer_depth > 0 || t.array_dims@.len() > 0 {
        v
    } else {
        match (t.base, v) {
            (BaseType::Char, Value::Int(n)) => Value::Char((n & 0xFF) as i8),
            (BaseType::Int, Value::Char(c)) => Value::Int(c as i32),
            _ => v,
        }
    }
}

/// Coerce a value to match a target type
pub fn coerce_value_to_type(value: Value, target_type: &Type, _location: SourceLocation) -> (r:
    Result<Value, RuntimeError>)
    ensures
        r == Ok::<Value, RuntimeError>(coerced(value, *target_type)),
{
    if target_type.pointer_depth > 0 || target_type.array_dims.len() > 0 {
        return Ok(value);
    }
    match (&target_type.base, &value) {
        (BaseType::Char, Value::Int(n)) => {
            return Ok(Value::Char((*n & 0xFF) as i8));
        },
        (BaseType::Int, Value::Char(c)) => {
            return Ok(Value::Int(*c as i32));
        },
        _ => {},
    }
    Ok(value)
}

} // verus!
