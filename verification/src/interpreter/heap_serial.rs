//! Heap errors as runtime errors, and values laid out in heap bytes.
use vstd::prelude::*;
use crate::interpreter::errors::RuntimeError;
use crate::memory::heap::{read_byte_result, read_bytes_result, write_bytes_result, BlockView, Heap};
use crate::memory::value::{fields_view, Value, ValueView};
use crate::memory::{
    def_index, fields_size, find_struct_def, plain_size, plain_size_known, size_known, sizeof_spec,
    sizeof_type, type_size,
};
use crate::parser::ast::{BaseType, Field, SourceLocation, StructDef, Type};
use crate::parser::lex_spec::hex_value;
use crate::parser::lexer::hex_digit_value;
use crate::text::{chars_of, decimal_digits, push_decimal};

verus! {

/// Whether `pat` occurs in `s` starting at `i`.
pub open spec fn occurs_at(s: Seq<char>, pat: Seq<char>, i: int) -> bool {
    0 <= i && i + pat.len() <= s.len() && s.subrange(i, i + pat.len()) == pat
}

/// Where `pat` first occurs in `s`.
pub open spec fn first_occurrence(s: Seq<char>, pat: Seq<char>) -> Option<int> {
    if exists|i: int| #[trigger] occurs_at(s, pat, i) && forall|j: int| 0 <= j < i ==> !occurs_at(s, pat, j) {
        Some(choose|i: int| #[trigger] occurs_at(s, pat, i) && forall|j: int| 0 <= j < i ==> !occurs_at(s, pat, j))
    } else {
        None
    }
}

/// How many hexadecimal digits `s` starts with.
pub open spec fn hex_run(s: Seq<char>) -> nat
    decreases s.len(),
{
    if s.len() > 0 && hex_value(s[0]) is Some {
        1 + hex_run(s.drop_first())
    } else {
        0
    }
}

/// The number that some hexadecimal digits stand for.
pub open spec fn hex_number(s: Seq<char>) -> nat
    decreases s.len(),
{
    if s.len() == 0 {
        0
    } else {
        hex_number(s.drop_last()) * 16 + hex_value(s.last())->Some_0
    }
}

/// The text before the address in a heap error about a freed block.
pub open spec fn freed_marker() -> Seq<char> {
    "Use-after-free: address 0x"@
}

/// The address a heap error reports freed: the hexadecimal number right
/// after the first `Use-after-free: address 0x`, when there is one that
/// fits in 64 bits.
pub open spec fn freed_address(e: Seq<char>) -> Option<u64> {
    match first_occurrence(e, freed_marker()) {
        None => None,
        Some(p) => {
            let rest = e.skip(p + freed_marker().len());
            let run = rest.take(hex_run(rest) as int);
            if run.len() > 0 && hex_number(run) <= u64::MAX {
                Some(hex_number(run) as u64)
            } else {
                None
            }
        },
    }
}

proof fn lemma_hex_run(s: Seq<char>, i: int)
    requires
        0 <= i <= s.len(),
        forall|j: int| 0 <= j < i ==> hex_value(#[trigger] s[j]) is Some,
    ensures
        hex_run(s) >= i,
        (i == s.len() || hex_value(s[i]) is None) ==> hex_run(s) == i,
    decreases i,
{
    if i > 0 {
        lemma_hex_run(s.drop_first(), i - 1);
    }
}

/// Whether `pat` occurs in `cs` at `i`, checked character by character.
fn occurs_here(cs: &Vec<char>, pat: &Vec<char>, i: usize) -> (r: bool)
    requires
        i + pat@.len() <= cs@.len(),
        cs@.len() <= isize::MAX,
    ensures
        r == occurs_at(cs@, pat@, i as int),
{
    let mut k: usize = 0;
    while k < pat.len()
        invariant
            0 <= k <= pat@.len(),
            i + pat@.len() <= cs@.len(),
            cs@.len() <= isize::MAX,
            forall|m: int| 0 <= m < k ==> cs@[i + m] == pat@[m],
        decreases pat@.len() - k,
    {
        if cs[i + k] != pat[k] {
            assert(cs@.subrange(i as int, i + pat@.len())[k as int] != pat@[k as int]);
            return false;
        }
        k = k + 1;
    }
    assert(cs@.subrange(i as int, i + pat@.len()) =~= pat@);
    true
}

/// The runtime error a heap error message stands for: a use after free of
/// the address it names, or else a failed memory operation with the
/// message.
pub fn map_heap_error(error: String, location: SourceLocation) -> (r: RuntimeError)
    ensures
        match freed_address(error@) {
            Some(a) => r == (RuntimeError::UseAfterFree { address: a, location }),
            None => r matches RuntimeError::InvalidMemoryOperation { message, location: l }
                && message@ == error@ && l == location,
        },
{
    let cs = chars_of(error.as_str());
    let pat = chars_of("Use-after-free: address 0x");
    let mut found: Option<usize> = None;
    if pat.len() <= cs.len() {
        let mut i: usize = 0;
        while i <= cs.len() - pat.len()
            invariant_except_break
                found is None,
            invariant
                pat@.len() <= cs@.len(),
                cs@.len() <= isize::MAX,
                0 <= i <= cs@.len() - pat@.len() + 1,
                forall|j: int| 0 <= j < i ==> !occurs_at(cs@, pat@, j),
            ensures
                found is None ==> i == cs@.len() - pat@.len() + 1,
                found matches Some(q) ==> q == i && occurs_at(cs@, pat@, i as int),
            decreases cs@.len() - pat@.len() + 1 - i,
        {
            if occurs_here(&cs, &pat, i) {
                found = Some(i);
                break;
            }
            i = i + 1;
        }
        proof {
            if found is None {
                assert forall|j: int| 0 <= j < cs@.len() implies !#[trigger] occurs_at(cs@, pat@, j) by {
                    if j >= i {
                        assert(j + pat@.len() > cs@.len());
                    }
                }
            }
        }
    }
    proof {
        if found is None {
            assert(first_occurrence(error@, freed_marker()) is None) by {
                if exists|i: int| #[trigger] occurs_at(error@, freed_marker(), i) && forall|j: int| 0 <= j < i ==> !occurs_at(error@, freed_marker(), j) {
                    let i = choose|i: int| #[trigger] occurs_at(error@, freed_marker(), i) && forall|j: int| 0 <= j < i ==> !occurs_at(error@, freed_marker(), j);
                    assert(occurs_at(cs@, pat@, i));
                }
            }
        }
    }
    match found {
        None => RuntimeError::InvalidMemoryOperation { message: error, location },
        Some(p) => {
            proof {
                let q = choose|i: int| #[trigger] occurs_at(error@, freed_marker(), i) && forall|j: int| 0 <= j < i ==> !occurs_at(error@, freed_marker(), j);
                assert(occurs_at(error@, freed_marker(), p as int));
                if q < p {
                    assert(!occurs_at(cs@, pat@, q));
                } else if q > p {
                    assert(!occurs_at(error@, freed_marker(), p as int));
                }
            }
            let start = p + pat.len();
            let ghost rest = cs@.skip(start as int);
            let mut j: usize = start;
            let mut acc: u64 = 0;
            let mut too_big = false;
            proof {
                assert(rest.take(0) =~= Seq::<char>::empty());
            }
            while j < cs.len()
                invariant
                    start <= j <= cs@.len(),
                    rest == cs@.skip(start as int),
                    forall|m: int| 0 <= m < j - start ==> hex_value(#[trigger] rest[m]) is Some,
                    too_big == (hex_number(rest.take(j - start)) > u64::MAX),
                    !too_big ==> acc == hex_number(rest.take(j - start)),
                ensures
                    j < cs@.len() ==> hex_value(rest[j - start]) is None,
                decreases cs@.len() - j,
            {
                let d = match hex_digit_value(cs[j]) {
                    Some(d) => d,
                    None => {
                        assert(rest[j - start] == cs@[j as int]);
                        break;
                    },
                };
                proof {
                    assert(rest.take(j - start + 1).drop_last() =~= rest.take(j - start));
                    assert(rest.take(j - start + 1).last() == rest[j - start]);
                    assert(rest[j - start] == cs@[j as int]);
                }
                if !too_big {
                    if acc > (u64::MAX - d as u64) / 16 {
                        too_big = true;
                    } else {
                        acc = acc * 16 + d as u64;
                    }
                }
                j = j + 1;
            }
            proof {
                lemma_hex_run(rest, j - start);
                assert(rest.take(hex_run(rest) as int) == rest.take(j - start));
            }
            if j > start && !too_big {
                RuntimeError::UseAfterFree { address: acc, location }
            } else {
                RuntimeError::InvalidMemoryOperation { message: error, location }
            }
        },
    }
}

/// The `k` bytes of a number, least significant first.
pub open spec fn le_bytes(n: nat, k: nat) -> Seq<u8>
    decreases k,
{
    if k == 0 {
        Seq::empty()
    } else {
        seq![(n % 256) as u8] + le_bytes(n / 256, (k - 1) as nat)
    }
}

/// The number some bytes stand for, least significant first.
pub open spec fn le_value(bs: Seq<u8>) -> nat
    decreases bs.len(),
{
    if bs.len() == 0 {
        0
    } else {
        (bs[0] + 256 * le_value(bs.drop_first())) as nat
    }
}

/// The first `k` bytes of `n`, least significant first.
fn le_bytes_of(n: u64, k: usize) -> (v: Vec<u8>)
    ensures
        v@ == le_bytes(n as nat, k as nat),
{
    let mut v: Vec<u8> = Vec::new();
    let mut cur: u64 = n;
    let mut i: usize = 0;
    while i < k
        invariant
            0 <= i <= k,
            v@ + le_bytes(cur as nat, (k - i) as nat) == le_bytes(n as nat, k as nat),
        decreases k - i,
    {
        let ghost before = v@;
        v.push((cur % 256) as u8);
        proof {
            assert(le_bytes(cur as nat, (k - i) as nat) == seq![(cur % 256) as u8] + le_bytes(
                (cur / 256) as nat,
                (k - i - 1) as nat,
            ));
            assert(v@ + le_bytes((cur / 256) as nat, (k - i - 1) as nat) =~= before + le_bytes(
                cur as nat,
                (k - i) as nat,
            ));
        }
        cur = cur / 256;
        i = i + 1;
    }
    assert(v@ =~= v@ + le_bytes(cur as nat, 0));
    v
}

/// Why storing a value failed.
pub enum StoreError {
    /// A heap write failed with this message
    Heap(Seq<char>),
    /// A struct value for a type that is no struct, written out
    NotStruct(Seq<char>),
    /// A struct type with no definition
    UnknownStruct(Seq<char>),
    /// An array of an element type that cannot be stored, written out
    BadElement(Seq<char>),
}

/// How a base type is written in messages.
pub open spec fn base_type_debug(b: BaseType) -> Seq<char> {
    match b {
        BaseType::Int => "Int"@,
        BaseType::Char => "Char"@,
        BaseType::Void => "Void"@,
        BaseType::Struct(name) => "Struct(\""@ + name@ + "\")"@,
    }
}

fn base_type_string(b: &BaseType) -> (r: String)
    ensures
        r@ == base_type_debug(*b),
{
    match b {
        BaseType::Int => String::from_str("Int"),
        BaseType::Char => String::from_str("Char"),
        BaseType::Void => String::from_str("Void"),
        BaseType::Struct(name) => {
            let mut s = String::from_str("Struct(\"");
            s.append(name.as_str());
            s.append("\")");
            s
        },
    }
}

/// Whether a runtime error stands for a storing failure.
pub open spec fn is_store_error(r: RuntimeError, e: StoreError, location: SourceLocation) -> bool {
    match e {
        StoreError::Heap(msg) => match freed_address(msg) {
            Some(a) => r == (RuntimeError::UseAfterFree { address: a, location }),
            None => r matches RuntimeError::InvalidMemoryOperation { message, location: l }
                && message@ == msg && l == location,
        },
        StoreError::NotStruct(b) => r matches RuntimeError::TypeError { expected, got, location: l }
            && expected@ == "struct type"@ && got@ == b && l == location,
        StoreError::UnknownStruct(n) => r matches RuntimeError::StructNotDefined { name, location: l }
            && name@ == n && l == location,
        StoreError::BadElement(b) => r matches RuntimeError::UnsupportedOperation { message, location: l }
            && message@ == "Unsupported array element type: "@ + b && l == location,
    }
}

/// The heap after a run of byte writes, and its failure as a storing
/// failure.
pub open spec fn store_bytes(m: Map<u64, BlockView>, base: int, bytes: Seq<u8>) -> (
    Map<u64, BlockView>,
    Option<StoreError>,
) {
    let r = write_bytes_result(m, base, bytes);
    (
        r.0,
        match r.1 {
            Some(e) => Some(StoreError::Heap(e)),
            None => None,
        },
    )
}

/// The first entry of a struct value with the field's name.
pub open spec fn field_index(vals: Seq<(String, Value)>, name: Seq<char>) -> Option<int> {
    if exists|i: int| 0 <= i < vals.len() && (#[trigger] vals[i]).0@ == name && forall|j: int| 0 <= j < i ==> (#[trigger] vals[j]).0@ != name {
        Some(choose|i: int| 0 <= i < vals.len() && (#[trigger] vals[i]).0@ == name && forall|j: int| 0 <= j < i ==> (#[trigger] vals[j]).0@ != name)
    } else {
        None
    }
}

/// Storing a value at `base` in the heap `m`, as a value of base type `tb`:
/// numbers and pointers as their little-endian bytes, structs field by field
/// in their definition's order and layout, arrays element by element; an
/// uninitialized value writes nothing. Stops at the first failure.
pub open spec fn store(m: Map<u64, BlockView>, v: Value, tb: BaseType, defs: Seq<StructDef>, base: int) -> (
    Map<u64, BlockView>,
    Option<StoreError>,
)
    decreases v, 0nat,
{
    match v {
        Value::Int(n) => store_bytes(m, base, le_bytes((n as u32) as nat, 4)),
        Value::Char(c) => store_bytes(m, base, seq![c as u8]),
        Value::Uninitialized => (m, None),
        Value::Pointer(a) => store_bytes(m, base, le_bytes(a as nat, 8)),
        Value::Null => store_bytes(m, base, le_bytes(0, 8)),
        Value::Struct(fs) => match tb {
            BaseType::Struct(name) => match def_index(defs, name@) {
                None => (m, Some(StoreError::UnknownStruct(name@))),
                Some(k) => store_fields(m, fs@, defs[k].fields@, defs, base, 0),
            },
            _ => (m, Some(StoreError::NotStruct(base_type_debug(tb)))),
        },
        Value::Array(es) => match tb {
            BaseType::Void => (m, Some(StoreError::BadElement(base_type_debug(tb)))),
            _ => store_elements(m, es@, tb, defs, base, 0, plain_size(tb, defs)),
        },
    }
}

/// Storing the fields of a struct value at `base + offset` on, one after
/// the other in the definition's order; a field the value lacks is skipped.
pub open spec fn store_fields(
    m: Map<u64, BlockView>,
    vals: Seq<(String, Value)>,
    fields: Seq<Field>,
    defs: Seq<StructDef>,
    base: int,
    offset: int,
) -> (Map<u64, BlockView>, Option<StoreError>)
    decreases vals, fields.len(),
{
    if fields.len() == 0 {
        (m, None)
    } else {
        let f = fields[0];
        let step = match field_index(vals, f.name@) {
            Some(i) => if 0 <= i < vals.len() {
                store(m, vals[i].1, f.field_type.base, defs, base + offset)
            } else {
                (m, None)
            },
            None => (m, None),
        };
        if step.1 is Some {
            step
        } else {
            store_fields(
                step.0,
                vals,
                fields.drop_first(),
                defs,
                base,
                offset + sizeof_spec(f.field_type, defs),
            )
        }
    }
}

/// Storing array elements of `size` bytes each, the `i`th at
/// `base + i * size`.
pub open spec fn store_elements(
    m: Map<u64, BlockView>,
    es: Seq<Value>,
    tb: BaseType,
    defs: Seq<StructDef>,
    base: int,
    i: int,
    size: nat,
) -> (Map<u64, BlockView>, Option<StoreError>)
    decreases es, 0nat,
{
    if es.len() == 0 {
        (m, None)
    } else {
        let step = store(m, es[0], tb, defs, base + i * size);
        if step.1 is Some {
            step
        } else {
            store_elements(step.0, es.drop_first(), tb, defs, base, i + 1, size)
        }
    }
}

/// Whether every address and offset that storing a value computes fits in
/// 64 bits, and every size it needs can be computed.
pub open spec fn store_fits(v: Value, tb: BaseType, defs: Seq<StructDef>, base: int) -> bool
    decreases v, 0nat,
{
    match v {
        Value::Struct(fs) => match tb {
            BaseType::Struct(name) => match def_index(defs, name@) {
                Some(k) => fields_fit(fs@, defs[k].fields@, defs, base, 0),
                None => true,
            },
            _ => true,
        },
        Value::Array(es) => match tb {
            BaseType::Void => true,
            _ => plain_size_known(tb, defs) && elements_fit(es@, tb, defs, base, 0, plain_size(tb, defs)),
        },
        _ => true,
    }
}

pub open spec fn fields_fit(
    vals: Seq<(String, Value)>,
    fields: Seq<Field>,
    defs: Seq<StructDef>,
    base: int,
    offset: int,
) -> bool
    decreases vals, fields.len(),
{
    if fields.len() == 0 {
        true
    } else {
        let f = fields[0];
        &&& size_known(f.field_type, defs)
        &&& offset + sizeof_spec(f.field_type, defs) <= usize::MAX
        &&& match field_index(vals, f.name@) {
            Some(i) => 0 <= i < vals.len() ==> base + offset <= u64::MAX && store_fits(
                vals[i].1,
                f.field_type.base,
                defs,
                base + offset,
            ),
            None => true,
        }
        &&& fields_fit(vals, fields.drop_first(), defs, base, offset + sizeof_spec(f.field_type, defs))
    }
}

pub open spec fn elements_fit(
    es: Seq<Value>,
    tb: BaseType,
    defs: Seq<StructDef>,
    base: int,
    i: int,
    size: nat,
) -> bool
    decreases es, 0nat,
{
    if es.len() == 0 {
        true
    } else {
        &&& i * size <= usize::MAX
        &&& base + i * size <= u64::MAX
        &&& store_fits(es[0], tb, defs, base + i * size)
        &&& elements_fit(es.drop_first(), tb, defs, base, i + 1, size)
    }
}

/// Writes some bytes from `base`, reporting a failure as a runtime error.
fn store_bytes_exec(heap: &mut Heap, base: u64, bytes: &Vec<u8>, location: SourceLocation) -> (r:
    Result<(), RuntimeError>)
    requires
        old(heap).wf(),
    ensures
        final(heap).wf(),
        final(heap).total() == old(heap).total(),
        final(heap).next() == old(heap).next(),
        final(heap).limit() == old(heap).limit(),
        final(heap)@ == store_bytes(old(heap)@, base as int, bytes@).0,
        match store_bytes(old(heap)@, base as int, bytes@).1 {
            None => r is Ok,
            Some(e) => r matches Err(x) && is_store_error(x, e, location),
        },
{
    match heap.write_bytes_at(base, bytes.as_slice()) {
        Ok(()) => Ok(()),
        Err(e) => Err(map_heap_error(e, location)),
    }
}

/// The position of the first entry of a struct value with a given name.
fn find_field(vals: &Vec<(String, Value)>, name: &String) -> (r: Option<usize>)
    ensures
        match r {
            Some(i) => i < vals@.len() && field_index(vals@, name@) == Some(i as int),
            None => field_index(vals@, name@) is None,
        },
{
    let mut i: usize = 0;
    while i < vals.len()
        invariant
            0 <= i <= vals@.len(),
            forall|j: int| 0 <= j < i ==> (#[trigger] vals@[j]).0@ != name@,
        decreases vals@.len() - i,
    {
        if vals[i].0 == *name {
            proof {
                let k = choose|k: int| 0 <= k < vals@.len() && (#[trigger] vals@[k]).0@ == name@ && forall|j: int| 0 <= j < k ==> (#[trigger] vals@[j]).0@ != name@;
                assert(vals@[i as int].0@ == name@);
                if k < i {
                    assert(vals@[k].0@ != name@);
                } else if k > i {
                    assert(vals@[i as int].0@ != name@);
                }
            }
            return Some(i);
        }
        i = i + 1;
    }
    None
}

/// Serialize a value to heap bytes (sequential packing, no padding)
pub fn serialize_value_to_heap(
    heap: &mut Heap,
    struct_defs: &[StructDef],
    value: &Value,
    value_type: &Type,
    base_addr: u64,
    location: SourceLocation,
) -> (r: Result<(), RuntimeError>)
    requires
        old(heap).wf(),
        store_fits(*value, value_type.base, struct_defs@, base_addr as int),
    ensures
        final(heap).wf(),
        final(heap).total() == old(heap).total(),
        final(heap).next() == old(heap).next(),
        final(heap).limit() == old(heap).limit(),
        final(heap)@ == store(old(heap)@, *value, value_type.base, struct_defs@, base_addr as int).0,
        match store(old(heap)@, *value, value_type.base, struct_defs@, base_addr as int).1 {
            None => r is Ok,
            Some(e) => r matches Err(x) && is_store_error(x, e, location),
        },
    decreases *value,
{
    match value {
        Value::Int(n) => {
            // Write 4 bytes (little-endian)
            let bytes = le_bytes_of((*n as u32) as u64, 4);
            store_bytes_exec(heap, base_addr, &bytes, location)
        },
        Value::Char(c) => {
            // Write 1 byte (c is already i8)
            let bytes = vec![*c as u8];
            proof {
                assert(bytes@ =~= seq![*c as u8]);
            }
            store_bytes_exec(heap, base_addr, &bytes, location)
        },
        Value::Uninitialized => {
            // Don't write anything for uninitialized values
            Ok(())
        },
        Value::Pointer(addr) => {
            // Write 8 bytes (little-endian)
            let bytes = le_bytes_of(*addr, 8);
            store_bytes_exec(heap, base_addr, &bytes, location)
        },
        Value::Null => {
            // Write 8 bytes of zeros
            let bytes = le_bytes_of(0, 8);
            store_bytes_exec(heap, base_addr, &bytes, location)
        },
        Value::Struct(fields) => {
            let struct_name = match &value_type.base {
                BaseType::Struct(name) => name,
                _ => {
                    return Err(
                        RuntimeError::TypeError {
                            expected: String::from_str("struct type"),
                            got: base_type_string(&value_type.base),
                            location,
                        },
                    );
                },
            };
            let struct_def = match find_struct_def(struct_defs, struct_name) {
                Some(d) => d,
                None => {
                    return Err(RuntimeError::StructNotDefined { name: struct_name.clone(), location });
                },
            };
            let ghost k = def_index(struct_defs@, struct_name@)->Some_0;
            let ghost vals = fields@;
            let ghost fs = struct_def.fields@;
            // Write each field sequentially
            let mut offset: usize = 0;
            let mut j: usize = 0;
            proof {
                assert(fs.skip(0) =~= fs);
                assert(store(old(heap)@, *value, value_type.base, struct_defs@, base_addr as int)
                    == store_fields(old(heap)@, vals, fs, struct_defs@, base_addr as int, 0));
            }
            while j < struct_def.fields.len()
                invariant
                    0 <= j <= fs.len(),
                    fs == struct_def.fields@,
                    vals == fields@,
                    *value == Value::Struct(*fields),
                    heap.wf(),
                    heap.total() == old(heap).total(),
                    heap.next() == old(heap).next(),
                    heap.limit() == old(heap).limit(),
                    offset <= usize::MAX,
                    store(old(heap)@, *value, value_type.base, struct_defs@, base_addr as int)
                        == store_fields(old(heap)@, vals, fs, struct_defs@, base_addr as int, 0),
                    store_fields(old(heap)@, vals, fs, struct_defs@, base_addr as int, 0)
                        == store_fields(heap@, vals, fs.skip(j as int), struct_defs@, base_addr as int, offset as int),
                    fields_fit(vals, fs.skip(j as int), struct_defs@, base_addr as int, offset as int),
                decreases fs.len() - j,
            {
                let field = &struct_def.fields[j];
                proof {
                    assert(fs.skip(j as int)[0] == fs[j as int]);
                    assert(fs.skip(j as int).drop_first() =~= fs.skip(j + 1));
                }
                let ghost before = heap@;
                let ghost rest = fs.skip(j as int);
                match find_field(fields, &field.name) {
                    Some(i) => {
                        proof {
                            assert(rest[0] == *field);
                            assert(field_index(vals, rest[0].name@) == Some(i as int));
                            assert(store_fits(vals[i as int].1, field.field_type.base, struct_defs@, base_addr + offset));
                            assert(decreases_to!(*value => (*value)->Struct_0));
                            assert(decreases_to!((*value)->Struct_0 => vals));
                            assert(decreases_to!(vals => vals[i as int]));
                            assert(decreases_to!(vals[i as int] => vals[i as int].1));
                        }
                        let at = base_addr + offset as u64;
                        match serialize_value_to_heap(
                            heap,
                            struct_defs,
                            &fields[i].1,
                            &field.field_type,
                            at,
                            location,
                        ) {
                            Ok(()) => {},
                            Err(e) => {
                                proof {
                                    let step = store(before, vals[i as int].1, rest[0].field_type.base, struct_defs@, base_addr + offset);
                                    assert(step.1 is Some);
                                    assert(store_fields(before, vals, rest, struct_defs@, base_addr as int, offset as int) == step);
                                    assert(heap@ == step.0);
                                    assert(store(old(heap)@, *value, value_type.base, struct_defs@, base_addr as int) == step);
                                }
                                return Err(e);
                            },
                        }
                    },
                    None => {},
                }
                proof {
                    assert(store_fields(before, vals, rest, struct_defs@, base_addr as int, offset as int)
                        == store_fields(heap@, vals, fs.skip(j + 1), struct_defs@, base_addr as int, offset + sizeof_spec(field.field_type, struct_defs@)));
                }
                offset = offset + sizeof_type(&field.field_type, struct_defs);
                j = j + 1;
            }
            Ok(())
        },
        Value::Array(elements) => {
            let elem_type = match &value_type.base {
                BaseType::Int => Type {
                    base: BaseType::Int,
                    pointer_depth: 0,
                    is_const: false,
                    array_dims: Vec::new(),
                },
                BaseType::Char => Type {
                    base: BaseType::Char,
                    pointer_depth: 0,
                    is_const: false,
                    array_dims: Vec::new(),
                },
                BaseType::Struct(name) => Type {
                    base: BaseType::Struct(name.clone()),
                    pointer_depth: 0,
                    is_const: false,
                    array_dims: Vec::new(),
                },
                _ => {
                    let mut message = String::from_str("Unsupported array element type: ");
                    let b = base_type_string(&value_type.base);
                    message.append(b.as_str());
                    return Err(RuntimeError::UnsupportedOperation { message, location });
                },
            };
            proof {
                crate::memory::lemma_plain_type_size(elem_type, struct_defs@);
            }
            let elem_size = sizeof_type(&elem_type, struct_defs);
            let ghost es = elements@;
            let mut i: usize = 0;
            proof {
                assert(es.skip(0) =~= es);
                assert(store(old(heap)@, *value, value_type.base, struct_defs@, base_addr as int)
                    == store_elements(old(heap)@, es, value_type.base, struct_defs@, base_addr as int, 0, elem_size as nat));
            }
            while i < elements.len()
                invariant
                    0 <= i <= es.len(),
                    es == elements@,
                    *value == Value::Array(*elements),
                    elem_type.base == value_type.base,
                    elem_size == plain_size(value_type.base, struct_defs@),
                    heap.wf(),
                    heap.total() == old(heap).total(),
                    heap.next() == old(heap).next(),
                    heap.limit() == old(heap).limit(),
                    store(old(heap)@, *value, value_type.base, struct_defs@, base_addr as int)
                        == store_elements(old(heap)@, es, value_type.base, struct_defs@, base_addr as int, 0, elem_size as nat),
                    store_elements(old(heap)@, es, value_type.base, struct_defs@, base_addr as int, 0, elem_size as nat)
                        == store_elements(heap@, es.skip(i as int), value_type.base, struct_defs@, base_addr as int, i as int, elem_size as nat),
                    elements_fit(es.skip(i as int), value_type.base, struct_defs@, base_addr as int, i as int, elem_size as nat),
                decreases es.len() - i,
            {
                proof {
                    assert(es.skip(i as int)[0] == es[i as int]);
                    assert(es.skip(i as int).drop_first() =~= es.skip(i + 1));
                    assert(decreases_to!(*value => (*value)->Array_0));
                    assert(decreases_to!((*value)->Array_0 => es));
                    assert(decreases_to!(es => es[i as int]));
                }
                let ghost before = heap@;
                let at = base_addr + (i * elem_size) as u64;
                match serialize_value_to_heap(heap, struct_defs, &elements[i], &elem_type, at, location) {
                    Ok(()) => {},
                    Err(e) => {
                        proof {
                            let step = store(before, es[i as int], value_type.base, struct_defs@, base_addr + i * elem_size);
                            assert(step.1 is Some);
                            assert(store_elements(before, es.skip(i as int), value_type.base, struct_defs@, base_addr as int, i as int, elem_size as nat) == step);
                        }
                        return Err(e);
                    },
                }
                i = i + 1;
            }
            Ok(())
        },
    }
}

/// Why reading a value back failed.
pub enum LoadError {
    /// A heap read failed with this message
    Heap(Seq<char>),
    /// A struct type with no definition
    UnknownStruct(Seq<char>),
    /// A type that cannot be read, written out
    Unsupported(Seq<char>),
}

/// Array dimensions as a list of options is written: `[Some(3), None]`.
pub open spec fn dims_debug(dims: Seq<Option<usize>>) -> Seq<char>
    decreases dims.len(),
{
    let one = |d: Option<usize>| match d {
        Some(n) => "Some("@ + decimal_digits(n as nat) + ")"@,
        None => "None"@,
    };
    if dims.len() == 0 {
        Seq::empty()
    } else if dims.len() == 1 {
        one(dims[0])
    } else {
        dims_debug(dims.drop_last()) + ", "@ + one(dims.last())
    }
}

/// How a type is written in messages, field by field.
pub open spec fn type_debug(t: Type) -> Seq<char> {
    "Type { base: "@ + base_type_debug(t.base) + ", is_const: "@ + (if t.is_const {
        "true"@
    } else {
        "false"@
    }) + ", pointer_depth: "@ + decimal_digits(t.pointer_depth as nat) + ", array_dims: ["@
        + dims_debug(t.array_dims@) + "] }"@
}

pub(crate) fn type_string(t: &Type) -> (r: String)
    ensures
        r@ == type_debug(*t),
{
    let mut s = String::from_str("Type { base: ");
    let b = base_type_string(&t.base);
    s.append(b.as_str());
    s.append(", is_const: ");
    if t.is_const {
        s.append("true");
    } else {
        s.append("false");
    }
    s.append(", pointer_depth: ");
    push_decimal(&mut s, t.pointer_depth as u64);
    s.append(", array_dims: [");
    let ghost head = s@;
    let mut i: usize = 0;
    proof {
        assert(t.array_dims@.take(0) =~= Seq::<Option<usize>>::empty());
    }
    while i < t.array_dims.len()
        invariant
            0 <= i <= t.array_dims@.len(),
            s@ == head + dims_debug(t.array_dims@.take(i as int)),
        decreases t.array_dims@.len() - i,
    {
        proof {
            assert(t.array_dims@.take(i + 1).drop_last() =~= t.array_dims@.take(i as int));
            assert(t.array_dims@.take(i + 1).last() == t.array_dims@[i as int]);
        }
        if i > 0 {
            s.append(", ");
        }
        match t.array_dims[i] {
            Some(n) => {
                s.append("Some(");
                push_decimal(&mut s, n as u64);
                s.append(")");
            },
            None => {
                s.append("None");
            },
        }
        assert(s@ =~= head + dims_debug(t.array_dims@.take(i + 1)));
        i = i + 1;
    }
    proof {
        assert(t.array_dims@.take(i as int) =~= t.array_dims@);
    }
    s.append("] }");
    assert(s@ =~= type_debug(*t));
    s
}

/// Whether a runtime error stands for a reading failure.
pub open spec fn is_load_error(r: RuntimeError, e: LoadError, location: SourceLocation) -> bool {
    match e {
        LoadError::Heap(msg) => match freed_address(msg) {
            Some(a) => r == (RuntimeError::UseAfterFree { address: a, location }),
            None => r matches RuntimeError::InvalidMemoryOperation { message, location: l }
                && message@ == msg && l == location,
        },
        LoadError::UnknownStruct(n) => r matches RuntimeError::StructNotDefined { name, location: l }
            && name@ == n && l == location,
        LoadError::Unsupported(t) => r matches RuntimeError::UnsupportedOperation { message, location: l }
            && message@ == "Deserialization not yet implemented for type: "@ + t && l == location,
    }
}

/// Reading a value of type `t` back from `base`: an `int` from four
/// little-endian bytes, a `char` from one, a pointer from eight (zero being
/// null), a struct field by field in its definition's order and layout,
/// looking at most `depth` levels into nested structs.
pub open spec fn load(m: Map<u64, BlockView>, t: Type, defs: Seq<StructDef>, base: int, depth: nat) -> Result<
    ValueView,
    LoadError,
>
    decreases depth, 0nat,
{
    if t.pointer_depth == 0 && t.base is Int {
        match read_bytes_result(m, base, 4) {
            Ok(bs) => Ok(ValueView::Int((le_value(bs) as u32) as i32)),
            Err(e) => Err(LoadError::Heap(e)),
        }
    } else if t.pointer_depth == 0 && t.base is Char {
        match read_byte_result(m, base as u64) {
            Ok(b) => Ok(ValueView::Char(b as i8)),
            Err(e) => Err(LoadError::Heap(e)),
        }
    } else if t.pointer_depth > 0 {
        match read_bytes_result(m, base, 8) {
            Ok(bs) => if le_value(bs) == 0 {
                Ok(ValueView::Null)
            } else {
                Ok(ValueView::Pointer(le_value(bs) as u64))
            },
            Err(e) => Err(LoadError::Heap(e)),
        }
    } else {
        match t.base {
            BaseType::Struct(name) => match def_index(defs, name@) {
                None => Err(LoadError::UnknownStruct(name@)),
                Some(k) => if depth == 0 {
                    Err(LoadError::Unsupported(type_debug(t)))
                } else {
                    match load_fields(m, defs[k].fields@, defs, base, 0, (depth - 1) as nat) {
                        Ok(fs) => Ok(ValueView::Struct(fs)),
                        Err(e) => Err(e),
                    }
                },
            },
            _ => Err(LoadError::Unsupported(type_debug(t))),
        }
    }
}

/// Reading struct fields one after the other from `base + offset`.
pub open spec fn load_fields(
    m: Map<u64, BlockView>,
    fields: Seq<Field>,
    defs: Seq<StructDef>,
    base: int,
    offset: int,
    depth: nat,
) -> Result<Seq<(Seq<char>, ValueView)>, LoadError>
    decreases depth, fields.len() + 1,
{
    if fields.len() == 0 {
        Ok(Seq::empty())
    } else {
        let f = fields[0];
        match load(m, f.field_type, defs, base + offset, depth) {
            Err(e) => Err(e),
            Ok(v) => match load_fields(
                m,
                fields.drop_first(),
                defs,
                base,
                offset + sizeof_spec(f.field_type, defs),
                depth,
            ) {
                Ok(vs) => Ok(seq![(f.name@, v)] + vs),
                Err(e) => Err(e),
            },
        }
    }
}

/// Whether every address and offset that reading a value computes fits in
/// 64 bits.
pub open spec fn load_fits(t: Type, defs: Seq<StructDef>, base: int, depth: nat) -> bool
    decreases depth, 0nat,
{
    if t.pointer_depth == 0 {
        match t.base {
            BaseType::Struct(name) => match def_index(defs, name@) {
                Some(k) => depth > 0 ==> fields_load_fit(defs[k].fields@, defs, base, 0, (depth - 1) as nat),
                None => true,
            },
            _ => true,
        }
    } else {
        true
    }
}

pub open spec fn fields_load_fit(
    fields: Seq<Field>,
    defs: Seq<StructDef>,
    base: int,
    offset: int,
    depth: nat,
) -> bool
    decreases depth, fields.len() + 1,
{
    if fields.len() == 0 {
        true
    } else {
        let f = fields[0];
        &&& offset + sizeof_spec(f.field_type, defs) <= usize::MAX
        &&& base + offset <= u64::MAX
        &&& load_fits(f.field_type, defs, base + offset, depth)
        &&& fields_load_fit(fields.drop_first(), defs, base, offset + sizeof_spec(f.field_type, defs), depth)
    }
}

/// The nesting depth at which a type's size is found.
pub open spec fn size_depth(t: Type, defs: Seq<StructDef>) -> nat {
    choose|depth: nat| #[trigger] type_size(t, defs, depth) is Some
}

pub(crate) proof fn lemma_fields_sizes_known(fields: Seq<Field>, defs: Seq<StructDef>, d: nat)
    requires
        fields_size(fields, defs, d) is Some,
    ensures
        forall|j: int| 0 <= j < fields.len() ==> type_size(#[trigger] fields[j].field_type, defs, d) is Some,
    decreases fields.len(),
{
    if fields.len() > 0 {
        lemma_fields_sizes_known(fields.drop_first(), defs, d);
        assert forall|j: int| 0 <= j < fields.len() implies type_size(#[trigger] fields[j].field_type, defs, d) is Some by {
            if j > 0 {
                assert(fields[j] == fields.drop_first()[j - 1]);
            }
        }
    }
}

proof fn lemma_read_bytes_len(m: Map<u64, BlockView>, addr: int, size: nat)
    ensures
        read_bytes_result(m, addr, size) matches Ok(bs) ==> bs.len() == size,
    decreases size,
{
    if size > 0 {
        lemma_read_bytes_len(m, addr + 1, (size - 1) as nat);
    }
}

/// Reads a little-endian number of `k` bytes.
fn le_value_of(bs: &Vec<u8>) -> (r: u64)
    requires
        bs@.len() <= 8,
    ensures
        r == le_value(bs@),
{
    let mut r: u64 = 0;
    let mut i: usize = bs.len();
    proof {
        assert(bs@.skip(bs@.len() as int) =~= Seq::<u8>::empty());
        lemma_le_value_bound(bs@);
    }
    while i > 0
        invariant
            0 <= i <= bs@.len() <= 8,
            r == le_value(bs@.skip(i as int)),
            le_value(bs@.skip(i as int)) < pow256((bs@.len() - i) as nat),
        decreases i,
    {
        proof {
            assert(bs@.skip(i - 1).drop_first() =~= bs@.skip(i as int));
            assert(bs@.skip(i - 1)[0] == bs@[i - 1]);
            lemma_le_value_bound(bs@.skip(i - 1));
            lemma_pow256_bound((bs@.len() - i) as nat);
        }
        r = bs[i - 1] as u64 + 256 * r;
        i = i - 1;
    }
    assert(bs@.skip(0) =~= bs@);
    r
}

/// 256 to the power `k`.
pub open spec fn pow256(k: nat) -> nat
    decreases k,
{
    if k == 0 {
        1
    } else {
        256 * pow256((k - 1) as nat)
    }
}

proof fn lemma_pow256_bound(k: nat)
    requires
        k < 8,
    ensures
        256 * pow256(k) <= 0x1_0000_0000_0000_0000,
    decreases k,
{
    reveal_with_fuel(pow256, 9);
    if k > 0 {
        lemma_pow256_bound((k - 1) as nat);
    }
}

proof fn lemma_le_value_bound(bs: Seq<u8>)
    ensures
        le_value(bs) < pow256(bs.len()),
    decreases bs.len(),
{
    if bs.len() > 0 {
        lemma_le_value_bound(bs.drop_first());
    }
}

fn deserialize_at(
    heap: &Heap,
    struct_defs: &[StructDef],
    value_type: &Type,
    base_addr: u64,
    location: SourceLocation,
    Ghost(depth): Ghost<nat>,
) -> (r: Result<Value, RuntimeError>)
    requires
        heap.wf(),
        type_size(*value_type, struct_defs@, depth) is Some,
        load_fits(*value_type, struct_defs@, base_addr as int, depth),
    ensures
        match load(heap@, *value_type, struct_defs@, base_addr as int, depth) {
            Ok(v) => r matches Ok(x) && x@ == v,
            Err(e) => r matches Err(x) && is_load_error(x, e, location),
        },
    decreases depth, 0nat,
{
    if value_type.pointer_depth == 0 {
        match &value_type.base {
            BaseType::Int => {
                // Read 4 bytes (little-endian)
                proof {
                    lemma_read_bytes_len(heap@, base_addr as int, 4);
                }
                let bytes = match heap.read_bytes_at(base_addr, 4) {
                    Ok(b) => b,
                    Err(e) => {
                        return Err(map_heap_error(e, location));
                    },
                };
                let n = le_value_of(&bytes);
                return Ok(Value::Int((n as u32) as i32));
            },
            BaseType::Char => {
                // Read 1 byte
                let byte = match heap.read_byte(base_addr) {
                    Ok(b) => b,
                    Err(e) => {
                        return Err(map_heap_error(e, location));
                    },
                };
                return Ok(Value::Char(byte as i8));
            },
            _ => {},
        }
    }
    if value_type.pointer_depth > 0 {
        // Read 8 bytes (pointer)
        proof {
            lemma_read_bytes_len(heap@, base_addr as int, 8);
        }
        let bytes = match heap.read_bytes_at(base_addr, 8) {
            Ok(b) => b,
            Err(e) => {
                return Err(map_heap_error(e, location));
            },
        };
        let addr = le_value_of(&bytes);
        if addr == 0 {
            return Ok(Value::Null);
        } else {
            return Ok(Value::Pointer(addr));
        }
    }
    match &value_type.base {
        BaseType::Struct(struct_name) => {
            let struct_def = match find_struct_def(struct_defs, struct_name) {
                Some(d) => d,
                None => {
                    return Err(RuntimeError::StructNotDefined { name: struct_name.clone(), location });
                },
            };
            let ghost fs = struct_def.fields@;
            let ghost d = (depth - 1) as nat;
            proof {
                lemma_fields_sizes_known(fs, struct_defs@, d);
                assert(fs.skip(0) =~= fs);
                assert(fields_view(Seq::<(String, Value)>::empty()) =~= Seq::<(Seq<char>, ValueView)>::empty());
            }
            let mut fields: Vec<(String, Value)> = Vec::new();
            let mut offset: usize = 0;
            let mut j: usize = 0;
            while j < struct_def.fields.len()
                invariant
                    0 <= j <= fs.len(),
                    fs == struct_def.fields@,
                    heap.wf(),
                    d + 1 == depth,
                    forall|q: int| 0 <= q < fs.len() ==> type_size(#[trigger] fs[q].field_type, struct_defs@, d) is Some,
                    fields_load_fit(fs.skip(j as int), struct_defs@, base_addr as int, offset as int, d),
                    load(heap@, *value_type, struct_defs@, base_addr as int, depth) == match load_fields(
                        heap@,
                        fs,
                        struct_defs@,
                        base_addr as int,
                        0,
                        d,
                    ) {
                        Ok(vs) => Ok(ValueView::Struct(vs)),
                        Err(e) => Err(e),
                    },
                    load_fields(heap@, fs, struct_defs@, base_addr as int, 0, d) == match load_fields(
                        heap@,
                        fs.skip(j as int),
                        struct_defs@,
                        base_addr as int,
                        offset as int,
                        d,
                    ) {
                        Ok(rest) => Ok(fields_view(fields@) + rest),
                        Err(e) => Err(e),
                    },
                decreases fs.len() - j,
            {
                let field = &struct_def.fields[j];
                let ghost rest = fs.skip(j as int);
                proof {
                    assert(rest[0] == fs[j as int]);
                    assert(rest.drop_first() =~= fs.skip(j + 1));
                    assert(type_size(field.field_type, struct_defs@, d) is Some);
                }
                let at = base_addr + offset as u64;
                let field_value = match deserialize_at(
                    heap,
                    struct_defs,
                    &field.field_type,
                    at,
                    location,
                    Ghost(d),
                ) {
                    Ok(v) => v,
                    Err(e) => {
                        return Err(e);
                    },
                };
                let ghost fv = field_value@;
                let ghost before = fields@;
                proof {
                    crate::memory::lemma_sizeof_spec(field.field_type, struct_defs@, d);
                }
                offset = offset + sizeof_type(&field.field_type, struct_defs);
                fields.push((field.name.clone(), field_value));
                proof {
                    assert(fields@.subrange(0, fields@.len() - 1) =~= before);
                    assert(fields_view(fields@) == fields_view(before).push((field.name@, fv)));
                    match load_fields(heap@, fs.skip(j + 1), struct_defs@, base_addr as int, offset as int, d) {
                        Ok(rs) => {
                            assert(fields_view(before) + (seq![(field.name@, fv)] + rs) =~= fields_view(fields@) + rs);
                        },
                        Err(e) => {},
                    }
                }
                j = j + 1;
            }
            proof {
                assert(fs.skip(j as int) =~= Seq::<Field>::empty());
                assert(fields_view(fields@) + Seq::<(Seq<char>, ValueView)>::empty() =~= fields_view(fields@));
            }
            Ok(Value::Struct(fields))
        },
        _ => {
            let mut message = String::from_str("Deserialization not yet implemented for type: ");
            let t = type_string(value_type);
            message.append(t.as_str());
            Err(RuntimeError::UnsupportedOperation { message, location })
        },
    }
}

/// Deserialize a value from heap bytes
pub fn deserialize_value_from_heap(
    heap: &Heap,
    struct_defs: &[StructDef],
    value_type: &Type,
    base_addr: u64,
    location: SourceLocation,
) -> (r: Result<Value, RuntimeError>)
    requires
        heap.wf(),
        size_known(*value_type, struct_defs@),
        load_fits(*value_type, struct_defs@, base_addr as int, size_depth(*value_type, struct_defs@)),
    ensures
        match load(heap@, *value_type, struct_defs@, base_addr as int, size_depth(*value_type, struct_defs@)) {
            Ok(v) => r matches Ok(x) && x@ == v,
            Err(e) => r matches Err(x) && is_load_error(x, e, location),
        },
{
    deserialize_at(heap, struct_defs, value_type, base_addr, location, Ghost(size_depth(*value_type, struct_defs@)))
}

} // verus!
