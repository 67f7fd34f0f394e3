//! Laws of the operators on values: how the six comparisons relate to each
//! other and to the order of the integers, and the algebra of the
//! arithmetic and bitwise operators on integers.
use vstd::prelude::*;
use crate::interpreter::ops::{
    add_outcome, bitwise_outcome, compare_outcome, div_outcome, mod_outcome, mul_outcome, sub_outcome, Outcome,
};
use crate::memory::value::Value;
use vstd::arithmetic::div_mod::{lemma_div_pos_is_pos, lemma_fundamental_div_mod, lemma_mod_pos_bound};
use crate::parser::ast::BinOp;

verus! {

/// The outcome with its truth value flipped: `Int(1)` for `Int(0)` and the
/// other way round; anything else as it is.
pub open spec fn flipped(o: Outcome) -> Outcome {
    match o {
        Outcome::Done(Value::Int(x)) => Outcome::Done(Value::Int(if x == 0 { 1 } else { 0 })),
        _ => o,
    }
}

/// On two integers, `<` yields 1 exactly when the first is smaller, and 0
/// otherwise.
pub proof fn law_less_is_integer_order(a: i32, b: i32)
    ensures
        compare_outcome(BinOp::Lt, Value::Int(a), Value::Int(b)) == Outcome::Done(
            Value::Int(if a < b { 1 } else { 0 }),
        ),
{
}

/// On two integers, `==` yields 1 exactly when they are equal.
pub proof fn law_equal_is_integer_equality(a: i32, b: i32)
    ensures
        compare_outcome(BinOp::Eq, Value::Int(a), Value::Int(b)) == Outcome::Done(
            Value::Int(if a == b { 1 } else { 0 }),
        ),
{
}

/// `a > b` is `b < a`, on any two values that compare, neither of them
/// null (a null compared with a pointer stands for zero on either side, so
/// it is compared as the pointer against zero both ways).
pub proof fn law_greater_is_converse_of_less(l: Value, r: Value)
    requires
        compare_outcome(BinOp::Lt, r, l) is Done,
        !(l is Null),
        !(r is Null),
    ensures
        compare_outcome(BinOp::Gt, l, r) == compare_outcome(BinOp::Lt, r, l),
{
}

/// `>=` is the negation of `<`, `<=` that of `>`, and `!=` that of `==`,
/// on any two values; on values that do not compare, all report the same
/// mismatch.
pub proof fn law_negations(l: Value, r: Value)
    ensures
        compare_outcome(BinOp::Ge, l, r) == flipped(compare_outcome(BinOp::Lt, l, r)),
        compare_outcome(BinOp::Le, l, r) == flipped(compare_outcome(BinOp::Gt, l, r)),
        compare_outcome(BinOp::Ne, l, r) == flipped(compare_outcome(BinOp::Eq, l, r)),
{
}

/// `<=` and `>=` hold of a value and itself, `<`, `>` and `!=` do not.
pub proof fn law_reflexive(v: Value)
    requires
        compare_outcome(BinOp::Eq, v, v) is Done,
    ensures
        compare_outcome(BinOp::Le, v, v) == Outcome::Done(Value::Int(1)),
        compare_outcome(BinOp::Ge, v, v) == Outcome::Done(Value::Int(1)),
        compare_outcome(BinOp::Eq, v, v) == Outcome::Done(Value::Int(1)),
        compare_outcome(BinOp::Lt, v, v) == Outcome::Done(Value::Int(0)),
        compare_outcome(BinOp::Gt, v, v) == Outcome::Done(Value::Int(0)),
        compare_outcome(BinOp::Ne, v, v) == Outcome::Done(Value::Int(0)),
{
}


/// A character compares as its code.
pub proof fn law_char_compares_as_its_code(op: BinOp, c: i8, r: Value)
    ensures
        compare_outcome(op, Value::Char(c), r) is Done ==> compare_outcome(op, Value::Char(c), r)
            == compare_outcome(op, Value::Int(c as i32), r),
{
}

/// Integer addition does not depend on the order of its operands, adding
/// zero changes nothing, and subtracting what was added gives back the
/// first operand.
pub proof fn law_addition(a: i32, b: i32, scale: u64)
    ensures
        add_outcome(Value::Int(a), Value::Int(b), scale) is Done ==> add_outcome(
            Value::Int(a),
            Value::Int(b),
            scale,
        ) == add_outcome(Value::Int(b), Value::Int(a), scale),
        add_outcome(Value::Int(a), Value::Int(0), scale) == Outcome::Done(Value::Int(a)),
        add_outcome(Value::Int(a), Value::Int(b), scale) matches Outcome::Done(Value::Int(c)) ==> sub_outcome(
            Value::Int(c),
            Value::Int(b),
            scale,
        ) == Outcome::Done(Value::Int(a)),
{
}

/// Integer multiplication does not depend on the order of its operands,
/// one is its unit and zero absorbs.
pub proof fn law_multiplication(a: i32, b: i32)
    ensures
        mul_outcome(Value::Int(a), Value::Int(b)) is Done ==> mul_outcome(Value::Int(a), Value::Int(b))
            == mul_outcome(Value::Int(b), Value::Int(a)),
        mul_outcome(Value::Int(a), Value::Int(1)) == Outcome::Done(Value::Int(a)),
        mul_outcome(Value::Int(a), Value::Int(0)) == Outcome::Done(Value::Int(0)),
{
}

/// Division and remainder fit together as C has them: `(a / b) * b + a % b`
/// is `a`, the remainder is smaller than the divisor in size and has the
/// sign of `a` (or is zero); and neither is taken by zero.
pub proof fn law_division_and_remainder(a: i32, b: i32)
    ensures
        b == 0 ==> div_outcome(Value::Int(a), Value::Int(b)) is ByZero && mod_outcome(
            Value::Int(a),
            Value::Int(b),
        ) is ByZero,
        div_outcome(Value::Int(a), Value::Int(b)) matches Outcome::Done(Value::Int(q)) ==> mod_outcome(
            Value::Int(a),
            Value::Int(b),
        ) matches Outcome::Done(Value::Int(m)) && q * b + m == a && (if b > 0 { m < b } else { m < -b })
            && (if b > 0 { -b < m } else { b < m }) && (a >= 0 ==> m >= 0) && (a <= 0 ==> m <= 0),
{
    if b != 0 && !(a == i32::MIN && b == -1) {
        let x = a as int;
        let d = b as int;
        let xa: int = if x < 0 { -x } else { x };
        let da: int = if d < 0 { -d } else { d };
        lemma_fundamental_div_mod(xa, da);
        lemma_mod_pos_bound(xa, da);
        lemma_div_pos_is_pos(xa, da);
        let qa = xa / da;
        let ma = xa % da;
        assert(xa == da * qa + ma);
        assert(x >= 0 && d > 0 ==> qa * d + ma == x) by (nonlinear_arith)
            requires
                xa == da * qa + ma,
                x >= 0 ==> xa == x,
                d > 0 ==> da == d,
        ;
        assert(x < 0 && d < 0 ==> qa * d + (-ma) == x) by (nonlinear_arith)
            requires
                xa == da * qa + ma,
                x < 0 ==> xa == -x,
                d < 0 ==> da == -d,
        ;
        assert(x < 0 && d > 0 ==> (-qa) * d + (-ma) == x) by (nonlinear_arith)
            requires
                xa == da * qa + ma,
                x < 0 ==> xa == -x,
                d > 0 ==> da == d,
        ;
        assert(x >= 0 && d < 0 ==> (-qa) * d + ma == x) by (nonlinear_arith)
            requires
                xa == da * qa + ma,
                x >= 0 ==> xa == x,
                d < 0 ==> da == -d,
        ;
        assert(x == 0 ==> qa == 0 && ma == 0) by (nonlinear_arith)
            requires
                xa == da * qa + ma,
                0 <= ma < da,
                qa >= 0,
                x == 0 ==> xa == 0,
        ;
    }
}

/// `&`, `|` and `^` do not depend on the order of their operands; a value
/// `^` itself is zero and `&` or `|` itself is the value.
pub proof fn law_bitwise(a: i32, b: i32)
    ensures
        bitwise_outcome(BinOp::BitAnd, Value::Int(a), Value::Int(b)) == bitwise_outcome(
            BinOp::BitAnd,
            Value::Int(b),
            Value::Int(a),
        ),
        bitwise_outcome(BinOp::BitOr, Value::Int(a), Value::Int(b)) == bitwise_outcome(
            BinOp::BitOr,
            Value::Int(b),
            Value::Int(a),
        ),
        bitwise_outcome(BinOp::BitXor, Value::Int(a), Value::Int(b)) == bitwise_outcome(
            BinOp::BitXor,
            Value::Int(b),
            Value::Int(a),
        ),
        bitwise_outcome(BinOp::BitXor, Value::Int(a), Value::Int(a)) == Outcome::Done(Value::Int(0)),
        bitwise_outcome(BinOp::BitAnd, Value::Int(a), Value::Int(a)) == Outcome::Done(Value::Int(a)),
        bitwise_outcome(BinOp::BitOr, Value::Int(a), Value::Int(a)) == Outcome::Done(Value::Int(a)),
{
    assert(a & b == b & a) by (bit_vector);
    assert(a | b == b | a) by (bit_vector);
    assert(a ^ b == b ^ a) by (bit_vector);
    assert(a ^ a == 0) by (bit_vector);
    assert(a & a == a) by (bit_vector);
    assert(a | a == a) by (bit_vector);
}

/// Shifting left by one doubles, and shifting right by one halves rounding
/// down, where nothing is lost.
pub proof fn law_shifts(a: i32)
    ensures
        -0x4000_0000 <= a < 0x4000_0000 ==> bitwise_outcome(BinOp::BitShl, Value::Int(a), Value::Int(1))
            == Outcome::Done(Value::Int((2 * a) as i32)),
        a >= 0 ==> bitwise_outcome(BinOp::BitShr, Value::Int(a), Value::Int(1)) == Outcome::Done(
            Value::Int((a / 2) as i32),
        ),
{
    if -0x4000_0000 <= a < 0x4000_0000 {
        assert(a << 1i32 == 2 * a) by (bit_vector)
            requires
                -0x4000_0000 <= a < 0x4000_0000;
    }
    if a >= 0 {
        assert(a >> 1i32 == a / 2) by (bit_vector)
            requires
                a >= 0;
    }
}

} // verus!
