//! Type annotations as the panes show them.
use vstd::prelude::*;
use crate::parser::ast::{BaseType, StructDef, Type};
use crate::memory::value::Value;
use crate::text::{
    char_from_scalar, decimal_digits, hex_byte_text, hex_digits, int_text, is_printable_byte,
    printable_byte, push_char, push_decimal, push_hex_byte, push_hex_padded8, push_int, zero_pad,
};

verus! {

/// The name of a base type.
pub open spec fn base_type_text(b: BaseType) -> Seq<char> {
    match b {
        BaseType::Int => "int"@,
        BaseType::Char => "char"@,
        BaseType::Void => "void"@,
        BaseType::Struct(name) => "struct "@ + name@,
    }
}

/// Array dimensions as `[n]`, or `[]` where unsized, in order.
pub open spec fn dims_text(dims: Seq<Option<usize>>) -> Seq<char>
    decreases dims.len(),
{
    if dims.len() == 0 {
        Seq::empty()
    } else {
        dims_text(dims.drop_last()) + match dims.last() {
            Some(n) => "["@ + decimal_digits(n as nat) + "]"@,
            None => "[]"@,
        }
    }
}

/// A type written as C declares it, pointer stars and dimensions after the
/// base: `const int*[3]`.
pub open spec fn type_text(t: Type) -> Seq<char> {
    (if t.is_const {
        "const "@
    } else {
        Seq::empty()
    }) + base_type_text(t.base) + Seq::new(t.pointer_depth as nat, |i: int| '*') + dims_text(
        t.array_dims@,
    )
}

pub fn format_type_annotation(type_: &Type, _struct_defs: &[StructDef]) -> (r: String)
    ensures
        r@ == type_text(*type_),
{
    let mut s = String::new();
    if type_.is_const {
        s.append("const ");
    }
    match &type_.base {
        BaseType::Int => s.append("int"),
        BaseType::Char => s.append("char"),
        BaseType::Void => s.append("void"),
        BaseType::Struct(name) => {
            s.append("struct ");
            s.append(name.as_str());
        },
    }
    let ghost head = s@;
    let mut k: usize = 0;
    while k < type_.pointer_depth
        invariant
            0 <= k <= type_.pointer_depth,
            s@ == head + Seq::new(k as nat, |i: int| '*'),
        decreases type_.pointer_depth - k,
    {
        push_char(&mut s, '*');
        assert(s@ =~= head + Seq::new((k + 1) as nat, |i: int| '*'));
        k = k + 1;
    }
    let ghost mid = s@;
    let mut d: usize = 0;
    proof {
        assert(type_.array_dims@.take(0) =~= Seq::<Option<usize>>::empty());
        assert(s@ =~= mid + dims_text(type_.array_dims@.take(0)));
    }
    while d < type_.array_dims.len()
        invariant
            0 <= d <= type_.array_dims@.len(),
            s@ == mid + dims_text(type_.array_dims@.take(d as int)),
        decreases type_.array_dims@.len() - d,
    {
        proof {
            assert(type_.array_dims@.take(d + 1).drop_last() =~= type_.array_dims@.take(d as int));
            assert(type_.array_dims@.take(d + 1).last() == type_.array_dims@[d as int]);
        }
        match type_.array_dims[d] {
            Some(size) => {
                s.append("[");
                push_decimal(&mut s, size as u64);
                s.append("]");
            },
            None => {
                s.append("[]");
            },
        }
        assert(s@ =~= mid + dims_text(type_.array_dims@.take(d + 1)));
        d = d + 1;
    }
    proof {
        assert(type_.array_dims@.take(d as int) =~= type_.array_dims@);
        assert(s@ =~= type_text(*type_));
    }
    s
}

/// How many elements of an array its summary shows.
pub const SHOWN_ELEMENTS: usize = 3;

/// A value as the panes summarize it: an int in decimal, a char quoted
/// (or as a `\\x` escape where it does not print as itself), a pointer as
/// eight hexadecimal digits or `NULL`, an array by its first elements.
pub open spec fn value_summary(v: Value) -> Seq<char>
    decreases v, 1nat, 0nat,
{
    match v {
        Value::Int(n) => int_text(n as int),
        Value::Char(c) => {
            let b = c as u8;
            if printable_byte(b) {
                seq!['\'', (b as u32) as char, '\'']
            } else {
                "'\\x"@ + hex_byte_text(b) + "'"@
            }
        },
        Value::Pointer(a) => if a == 0 {
            "NULL"@
        } else {
            "0x"@ + zero_pad(hex_digits(a as nat), 8)
        },
        Value::Struct(_) => "{ struct }"@,
        Value::Array(vs) => "["@ + elements_summary(vs@, shown_count(vs@.len())) + (if vs@.len()
            > SHOWN_ELEMENTS {
            ", ..."@
        } else {
            Seq::empty()
        }) + "]"@,
        Value::Uninitialized => "[uninit]"@,
        Value::Null => "Unknown"@,
    }
}

/// How many of `n` elements a summary shows.
pub open spec fn shown_count(n: nat) -> nat {
    if n > SHOWN_ELEMENTS {
        SHOWN_ELEMENTS as nat
    } else {
        n
    }
}

/// The summaries of the first `n` elements, separated by `, `.
pub open spec fn elements_summary(vs: Seq<Value>, n: nat) -> Seq<char>
    decreases vs, 0nat, n,
{
    if n == 0 || n > vs.len() {
        Seq::empty()
    } else if n == 1 {
        value_summary(vs[0])
    } else {
        elements_summary(vs, (n - 1) as nat) + ", "@ + value_summary(vs[n - 1])
    }
}

/// The text a value is summarized by in the stack and heap panes.
pub fn format_value_string(value: &Value, _struct_defs: &[StructDef], _indent: usize) -> (r: String)
    ensures
        r@ == value_summary(*value),
    decreases *value,
{
    match value {
        Value::Int(n) => {
            let mut s = String::new();
            push_int(&mut s, *n as i64);
            s
        },
        Value::Char(c) => {
            let byte = *c as u8;
            let mut s = String::new();
            if is_printable_byte(byte) {
                push_char(&mut s, '\'');
                push_char(&mut s, char_from_scalar(byte as u32));
                push_char(&mut s, '\'');
            } else {
                s.append("'\\x");
                push_hex_byte(&mut s, byte);
                s.append("'");
            }
            assert(s@ =~= value_summary(*value));
            s
        },
        Value::Pointer(addr) => {
            if *addr == 0 {
                String::from_str("NULL")
            } else {
                let mut s = String::from_str("0x");
                push_hex_padded8(&mut s, *addr);
                s
            }
        },
        Value::Struct(_) => String::from_str("{ struct }"),
        Value::Array(elements) => {
            let mut s = String::from_str("[");
            let ghost head = s@;
            let ghost n = shown_count(elements@.len());
            let mut i: usize = 0;
            while i < elements.len()
                invariant_except_break
                    0 <= i <= n,
                    s@ == head + elements_summary(elements@, i as nat),
                    *value == Value::Array(*elements),
                    n == shown_count(elements@.len()),
                ensures
                    s@ == head + elements_summary(elements@, n) + (if elements@.len()
                        > SHOWN_ELEMENTS {
                        ", ..."@
                    } else {
                        Seq::empty()
                    }),
                decreases elements@.len() - i,
            {
                if i > 0 {
                    s.append(", ");
                }
                if i >= SHOWN_ELEMENTS {
                    s.append("...");
                    proof {
                        reveal_strlit(", ");
                        reveal_strlit("...");
                        reveal_strlit(", ...");
                    }
                    assert(s@ =~= head + elements_summary(elements@, n) + ", ..."@);
                    break ;
                }
                proof {
                    assert(decreases_to!(*value => (*value)->Array_0));
                    assert(decreases_to!(*elements => elements@));
                    assert(decreases_to!(elements@ => elements@[i as int]));
                    assert(decreases_to!(*value => elements@[i as int]));
                }
                let t = format_value_string(&elements[i], _struct_defs, _indent.wrapping_add(1));
                s.append(t.as_str());
                assert(s@ =~= head + elements_summary(elements@, (i + 1) as nat));
                i = i + 1;
            }
            s.append("]");
            assert(s@ =~= value_summary(*value));
            s
        },
        Value::Uninitialized => String::from_str("[uninit]"),
        Value::Null => String::from_str("Unknown"),
    }
}

/// The color role of a piece of a formatted value.
#[derive(Debug, Clone, Copy, PartialEq, Eq, Structural)]
pub enum Tone {
    Number,
    Text,
    Address,
    Muted,
    /// Dimmed error color, for uninitialized values
    Missing,
    Error,
    /// No styling
    Plain,
}

/// A value as styled pieces: the summary of [`value_summary`], colored by
/// kind; arrays nested deeper than two levels are elided.
pub open spec fn styled_value(v: Value, indent: usize) -> Seq<(Seq<char>, Tone)> {
    match v {
        Value::Int(_) => seq![(value_summary(v), Tone::Number)],
        Value::Char(_) => seq![(value_summary(v), Tone::Text)],
        Value::Pointer(a) => seq![(value_summary(v), if a == 0 {
            Tone::Number
        } else {
            Tone::Address
        })],
        Value::Struct(_) => seq![(value_summary(v), Tone::Muted)],
        Value::Array(_) => if indent > 2 {
            seq![("[...]"@, Tone::Muted)]
        } else {
            seq![(value_summary(v), Tone::Plain)]
        },
        Value::Uninitialized => seq![(value_summary(v), Tone::Missing)],
        Value::Null => seq![(value_summary(v), Tone::Error)],
    }
}

/// Format a value as styled pieces.
pub fn format_value_styled(value: &Value, struct_defs: &[StructDef], indent: usize) -> (r: Vec<
    (String, Tone),
>)
    ensures
        r@.len() == styled_value(*value, indent).len(),
        forall|i: int|
            0 <= i < r@.len() ==> (#[trigger] r@[i]).0@ == styled_value(*value, indent)[i].0 && r@[i].1
                == styled_value(*value, indent)[i].1,
{
    let tone = match value {
        Value::Int(_) => Tone::Number,
        Value::Char(_) => Tone::Text,
        Value::Pointer(a) => if *a == 0 {
            Tone::Number
        } else {
            Tone::Address
        },
        Value::Struct(_) => Tone::Muted,
        Value::Array(_) => {
            if indent > 2 {
                return vec![(String::from_str("[...]"), Tone::Muted)];
            }
            Tone::Plain
        },
        Value::Uninitialized => Tone::Missing,
        Value::Null => Tone::Error,
    };
    let text = format_value_string(value, struct_defs, indent);
    vec![(text, tone)]
}

} // verus!
