//! Reading typed values out of raw memory for display.
use vstd::prelude::*;
use crate::memory::{lemma_offset_monotone, offset_of, size_known, sizeof_spec, sizeof_type};
use crate::memory::heap::HeapBlock;
use crate::parser::ast::{same_type, BaseType, Field, StructDef, Type};
use crate::text::{
    hex_byte_text, hex_digits, int_text, is_printable_byte, printable_byte, push_char,
    push_hex_byte, push_hex_padded8, push_int, zero_pad,
};

verus! {

/// Calculate field offsets and types for a struct: each field's name,
/// offset, size and type, fields laid out one after the other.
pub fn calculate_field_offsets(fields: &[Field], struct_defs: &[StructDef]) -> (r: Vec<
    (String, usize, usize, Type),
>)
    requires
        forall|i: int| 0 <= i < fields@.len() ==> size_known(#[trigger] fields@[i].field_type, struct_defs@),
        offset_of(fields@, struct_defs@, fields@.len() as int) <= usize::MAX,
    ensures
        r@.len() == fields@.len(),
        forall|i: int|
            0 <= i < fields@.len() ==> {
                &&& (#[trigger] r@[i]).0@ == fields@[i].name@
                &&& r@[i].1 == offset_of(fields@, struct_defs@, i)
                &&& r@[i].2 == sizeof_spec(fields@[i].field_type, struct_defs@)
                &&& same_type(r@[i].3, fields@[i].field_type)
            },
{
    let mut current_offset: usize = 0;
    let mut result: Vec<(String, usize, usize, Type)> = Vec::new();
    let mut i: usize = 0;
    while i < fields.len()
        invariant
            0 <= i <= fields@.len(),
            forall|j: int| 0 <= j < fields@.len() ==> size_known(#[trigger] fields@[j].field_type, struct_defs@),
            offset_of(fields@, struct_defs@, fields@.len() as int) <= usize::MAX,
            current_offset == offset_of(fields@, struct_defs@, i as int),
            result@.len() == i,
            forall|j: int|
                0 <= j < i ==> {
                    &&& (#[trigger] result@[j]).0@ == fields@[j].name@
                    &&& result@[j].1 == offset_of(fields@, struct_defs@, j)
                    &&& result@[j].2 == sizeof_spec(fields@[j].field_type, struct_defs@)
                    &&& same_type(result@[j].3, fields@[j].field_type)
                },
        decreases fields@.len() - i,
    {
        let field = &fields[i];
        let size = sizeof_type(&field.field_type, struct_defs);
        proof {
            lemma_offset_monotone(fields@, struct_defs@, i + 1, fields@.len() as int);
        }
        result.push((field.name.clone(), current_offset, size, field.field_type.duplicate()));
        current_offset = current_offset + size;
        i = i + 1;
    }
    result
}


/// The unsigned 32-bit number in the first four bytes, least significant
/// first.
pub open spec fn le_u32(d: Seq<u8>) -> nat {
    (d[0] + 256 * d[1] + 65536 * d[2] + 16777216 * d[3]) as nat
}

fn read_le_u32(d: &[u8]) -> (r: u32)
    requires
        d@.len() >= 4,
    ensures
        r == le_u32(d@),
{
    d[0] as u32 + 256 * (d[1] as u32) + 65536 * (d[2] as u32) + 16777216 * (d[3] as u32)
}

/// A char shown as a C character literal: `'c'` when printable, else
/// `'\xhh'`.
pub open spec fn char_literal_text(b: u8) -> Seq<char> {
    if printable_byte(b) {
        "'"@ + seq![b as char] + "'"@
    } else {
        "'\\x"@ + hex_byte_text(b) + "'"@
    }
}

fn push_char_literal(s: &mut String, b: u8)
    ensures
        final(s)@ == old(s)@ + char_literal_text(b),
{
    if is_printable_byte(b) {
        s.append("'");
        push_char(s, b as char);
        s.append("'");
    } else {
        s.append("'\\x");
        push_hex_byte(s, b);
        s.append("'");
    }
    assert(final(s)@ =~= old(s)@ + char_literal_text(b));
}

/// The index of the first zero byte, or the length when there is none.
pub open spec fn nul_index(d: Seq<u8>) -> nat
    decreases d.len(),
{
    if d.len() == 0 || d[0] == 0 {
        0
    } else {
        1 + nul_index(d.drop_first())
    }
}

proof fn lemma_nul_index(d: Seq<u8>, i: int)
    requires
        0 <= i <= d.len(),
        forall|j: int| 0 <= j < i ==> d[j] != 0,
    ensures
        nul_index(d) >= i,
        (i == d.len() || d[i] == 0) ==> nul_index(d) == i,
    decreases i,
{
    if i > 0 {
        lemma_nul_index(d.drop_first(), i - 1);
    }
}

/// The bytes before the first zero as text, if all of them are printable.
pub open spec fn c_string_text(d: Seq<u8>) -> Option<Seq<char>> {
    if forall|j: int| 0 <= j < nul_index(d) ==> printable_byte(#[trigger] d[j]) {
        Some(Seq::new(nul_index(d), |j: int| d[j] as char))
    } else {
        None
    }
}

/// A non-empty string shown in double quotes.
pub open spec fn quoted(t: Option<Seq<char>>) -> Option<Seq<char>> {
    match t {
        Some(s) => if s.len() > 0 {
            Some("\""@ + s + "\""@)
        } else {
            None
        },
        None => None,
    }
}

/// Reads the text of a C string from the first `n` bytes of `d`, as
/// `quoted(c_string_text(..))` describes it.
fn quoted_c_string(d: &[u8], n: usize) -> (r: Option<String>)
    requires
        n <= d@.len(),
    ensures
        match quoted(c_string_text(d@.take(n as int))) {
            Some(t) => r matches Some(s) && s@ == t,
            None => r is None,
        },
{
    let ghost e = d@.take(n as int);
    let mut chars = String::new();
    let mut i: usize = 0;
    while i < n && d[i] != 0
        invariant
            0 <= i <= n <= d@.len(),
            e == d@.take(n as int),
            forall|j: int| 0 <= j < i ==> e[j] != 0 && printable_byte(#[trigger] e[j]),
            chars@ == Seq::new(i as nat, |j: int| e[j] as char),
        decreases n - i,
    {
        if !is_printable_byte(d[i]) {
            proof {
                lemma_nul_index(e, i as int);
                lemma_nul_index(e, i + 1);
                assert(!printable_byte(e[i as int]));
            }
            return None;
        }
        push_char(&mut chars, d[i] as char);
        assert(chars@ =~= Seq::new((i + 1) as nat, |j: int| e[j] as char));
        i = i + 1;
    }
    proof {
        lemma_nul_index(e, i as int);
    }
    if chars.as_str().is_empty() {
        None
    } else {
        let mut s = String::from_str("\"");
        s.append(chars.as_str());
        s.append("\"");
        Some(s)
    }
}

/// How a value of type `t` occupying `size` bytes is shown from its bytes
/// and their initialization.
pub open spec fn typed_value_text(data: Seq<u8>, init: Seq<bool>, t: Type, size: nat) -> Option<
    Seq<char>,
> {
    if data.len() < size || init.len() < size {
        None
    } else if !(forall|i: int| 0 <= i < size ==> #[trigger] init[i]) {
        if exists|i: int| 0 <= i < size && #[trigger] init[i] {
            Some("[partial]"@)
        } else {
            Some("[uninit]"@)
        }
    } else if t.pointer_depth > 0 {
        if size >= 4 {
            pointer_text(le_u32(data))
        } else {
            None
        }
    } else {
        match t.base {
            BaseType::Int => if size >= 4 {
                Some(int_text((le_u32(data) as i32) as int))
            } else {
                None
            },
            BaseType::Char => if size == 1 {
                Some(char_literal_text(data[0]))
            } else {
                quoted(c_string_text(data.take(size as int)))
            },
            BaseType::Struct(name) => Some("struct "@ + name@),
            BaseType::Void => None,
        }
    }
}

/// A pointer value: `NULL`, or its address as eight hex digits.
pub open spec fn pointer_text(a: nat) -> Option<Seq<char>> {
    if a == 0 {
        Some("NULL"@)
    } else {
        Some("0x"@ + zero_pad(hex_digits(a), 8))
    }
}

fn pointer_string(a: u32) -> (r: String)
    ensures
        pointer_text(a as nat) == Some(r@),
{
    if a == 0 {
        String::from_str("NULL")
    } else {
        let mut s = String::from_str("0x");
        push_hex_padded8(&mut s, a as u64);
        s
    }
}

/// Whether the first `n` flags are all set, and whether any of them is.
fn scan_init(init: &[bool], n: usize) -> (r: (bool, bool))
    requires
        n <= init@.len(),
    ensures
        r.0 == forall|i: int| 0 <= i < n ==> #[trigger] init@[i],
        r.1 == exists|i: int| 0 <= i < n && #[trigger] init@[i],
{
    let mut all = true;
    let mut any = false;
    let mut i: usize = 0;
    while i < n
        invariant
            0 <= i <= n <= init@.len(),
            all == forall|j: int| 0 <= j < i ==> #[trigger] init@[j],
            any == exists|j: int| 0 <= j < i && #[trigger] init@[j],
        decreases n - i,
    {
        if init[i] {
            any = true;
        } else {
            all = false;
        }
        i = i + 1;
    }
    (all, any)
}

pub fn read_typed_value(
    data: &[u8],
    init_map: &[bool],
    typ: &Type,
    struct_defs: &[StructDef],
) -> (r: Option<String>)
    requires
        size_known(*typ, struct_defs@),
    ensures
        match typed_value_text(data@, init_map@, *typ, sizeof_spec(*typ, struct_defs@)) {
            Some(t) => r matches Some(s) && s@ == t,
            None => r is None,
        },
{
    let size = sizeof_type(typ, struct_defs);
    if data.len() < size || init_map.len() < size {
        return None;
    }
    let (all_initialized, any_initialized) = scan_init(init_map, size);
    if !all_initialized {
        if any_initialized {
            return Some(String::from_str("[partial]"));
        } else {
            return Some(String::from_str("[uninit]"));
        }
    }
    if typ.pointer_depth > 0 {
        if size >= 4 {
            let addr = read_le_u32(data);
            return Some(pointer_string(addr));
        } else {
            return None;
        }
    }
    match &typ.base {
        BaseType::Int => {
            if size >= 4 {
                let value = read_le_u32(data) as i32;
                let mut s = String::new();
                push_int(&mut s, value as i64);
                Some(s)
            } else {
                None
            }
        },
        BaseType::Char => {
            if size == 1 {
                let mut s = String::new();
                push_char_literal(&mut s, data[0]);
                Some(s)
            } else {
                quoted_c_string(data, size)
            }
        },
        BaseType::Struct(name) => {
            let mut s = String::from_str("struct ");
            s.append(name.as_str());
            Some(s)
        },
        BaseType::Void => None,
    }
}

/// How a heap block holding a value of type `t` is shown; `None` until every
/// byte is initialized, and for structs, which are shown field by field.
pub open spec fn heap_value_text(data: Seq<u8>, init: Seq<bool>, size: nat, t: Type) -> Option<
    Seq<char>,
> {
    if !(forall|i: int| 0 <= i < init.len() ==> #[trigger] init[i]) {
        None
    } else if t.pointer_depth > 0 {
        if size >= 4 {
            pointer_text(le_u32(data))
        } else {
            None
        }
    } else {
        match t.base {
            BaseType::Int => if size >= 4 {
                Some(int_text((le_u32(data) as i32) as int))
            } else {
                None
            },
            BaseType::Char => if size == 1 {
                Some(char_literal_text(data[0]))
            } else {
                quoted(c_string_text(data))
            },
            BaseType::Struct(_) => None,
            BaseType::Void => None,
        }
    }
}

/// Interpret heap data based on type information
/// Returns None to indicate struct fields will be shown separately
pub fn interpret_heap_data(block: &HeapBlock, typ: &Type, _struct_defs: &[StructDef]) -> (r:
    Option<String>)
    requires
        block.wf(),
    ensures
        match heap_value_text(block.data@, block.init_map@, block.size as nat, *typ) {
            Some(t) => r matches Some(s) && s@ == t,
            None => r is None,
        },
{
    let (all, _) = scan_init(block.init_map.as_slice(), block.init_map.len());
    if !all {
        return None;
    }
    if typ.pointer_depth > 0 {
        if block.size >= 4 {
            let addr = read_le_u32(block.data.as_slice());
            return Some(pointer_string(addr));
        }
        return None;
    }
    match &typ.base {
        BaseType::Int => {
            if block.size >= 4 {
                let value = read_le_u32(block.data.as_slice()) as i32;
                let mut s = String::new();
                push_int(&mut s, value as i64);
                Some(s)
            } else {
                None
            }
        },
        BaseType::Char => {
            if block.size == 1 {
                let mut s = String::new();
                push_char_literal(&mut s, block.data[0]);
                Some(s)
            } else {
                proof {
                    assert(block.data@.take(block.data@.len() as int) =~= block.data@);
                }
                quoted_c_string(block.data.as_slice(), block.data.len())
            }
        },
        BaseType::Struct(_) => None,
        BaseType::Void => None,
    }
}

} // verus!
