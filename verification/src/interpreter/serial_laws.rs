//! What storing a value to the heap and reading it back promises.
use vstd::prelude::*;
use super::heap_serial::{
    field_index, le_bytes, le_value, lemma_fields_sizes_known, load, load_fields, pow256, store,
    store_bytes, store_fields, LoadError,
};
use crate::memory::heap::{heap_view_ok, read_byte_result, read_bytes_result, write_bytes_result, BlockView};
use crate::memory::heap_laws::{
    law_read_after_write_bytes, lemma_write_bytes_bound, lemma_write_bytes_keeps_outside,
};
use crate::memory::names::distinct_names;
use crate::memory::value::{fields_view, value_view, Value, ValueView};
use crate::memory::{
    base_size, def_index, fields_size, lemma_sizeof_spec, size_known, sizeof_spec, type_size,
};
use crate::parser::ast::{BaseType, Field, StructDef, Type};

verus! {

/// A number below `256^k` reads back from its `k` little-endian bytes.
proof fn lemma_le_round_trip(n: nat, k: nat)
    requires
        n < pow256(k),
    ensures
        le_value(le_bytes(n, k)) == n,
        le_bytes(n, k).len() == k,
    decreases k,
{
    if k > 0 {
        assert(n / 256 < pow256((k - 1) as nat)) by (nonlinear_arith)
            requires
                n < 256 * pow256((k - 1) as nat),
        ;
        lemma_le_round_trip(n / 256, (k - 1) as nat);
        let bs = le_bytes(n, k);
        assert(bs.drop_first() =~= le_bytes(n / 256, (k - 1) as nat));
        assert(bs[0] == (n % 256) as u8);
        assert(n % 256 + 256 * (n / 256) == n) by (nonlinear_arith);
    }
}

/// A scalar value of a scalar type: an `int`, a `char`, or a pointer that
/// is null or not zero.
pub open spec fn scalar_fits_type(v: Value, t: Type) -> bool {
    match v {
        Value::Int(_) => t.pointer_depth == 0 && t.base is Int,
        Value::Char(_) => t.pointer_depth == 0 && t.base is Char,
        Value::Pointer(a) => t.pointer_depth > 0 && a != 0,
        Value::Null => t.pointer_depth > 0,
        _ => false,
    }
}

/// Storing an `int`, a `char` or a pointer of its type into the heap and
/// reading it back as that type gives the same value.
pub proof fn law_load_after_store_scalar(
    m: Map<u64, BlockView>,
    v: Value,
    t: Type,
    defs: Seq<StructDef>,
    base: u64,
    depth: nat,
)
    requires
        heap_view_ok(m),
        scalar_fits_type(v, t),
        store(m, v, t.base, defs, base as int).1 is None,
    ensures
        load(store(m, v, t.base, defs, base as int).0, t, defs, base as int, depth) == Ok::<
            ValueView,
            super::heap_serial::LoadError,
        >(v@),
{
    reveal_with_fuel(pow256, 9);
    match v {
        Value::Int(n) => {
            let u = (n as u32) as nat;
            lemma_le_round_trip(u, 4);
            law_read_after_write_bytes(m, base, le_bytes(u, 4));
            let x: i32 = n;
            assert(((x as u32) as i32) == x) by (bit_vector);
        },
        Value::Char(c) => {
            let bs = seq![c as u8];
            law_read_after_write_bytes(m, base, bs);
            let m2 = write_bytes_result(m, base as int, bs).0;
            assert(read_bytes_result(m2, base as int, 1) == Ok::<Seq<u8>, Seq<char>>(bs));
            assert(read_bytes_result(m2, base + 1, 0) == Ok::<Seq<u8>, Seq<char>>(Seq::empty()));
            let y: i8 = c;
            assert(((y as u8) as i8) == y) by (bit_vector);
        },
        Value::Pointer(a) => {
            lemma_le_round_trip(a as nat, 8);
            law_read_after_write_bytes(m, base, le_bytes(a as nat, 8));
        },
        Value::Null => {
            lemma_le_round_trip(0, 8);
            law_read_after_write_bytes(m, base, le_bytes(0, 8));
        },
        _ => {},
    }
}

/// A value that reads back as itself once stored as type `t`: a scalar of
/// its scalar type, or a struct value holding, in the definition's order
/// and once each, the fields of its struct type; every type without array
/// dimensions and of known size.
pub open spec fn conforms(v: Value, t: Type, defs: Seq<StructDef>) -> bool
    decreases v, 0nat,
{
    &&& t.array_dims@.len() == 0
    &&& size_known(t, defs)
    &&& match v {
        Value::Int(_) => t.pointer_depth == 0 && t.base is Int,
        Value::Char(_) => t.pointer_depth == 0 && t.base is Char,
        Value::Pointer(a) => t.pointer_depth > 0 && a != 0,
        Value::Null => t.pointer_depth > 0,
        Value::Struct(vs) => t.pointer_depth == 0 && match t.base {
            BaseType::Struct(name) => match def_index(defs, name@) {
                Some(k) => fields_conform(vs@, defs[k].fields@, defs, 0),
                None => false,
            },
            _ => false,
        },
        _ => false,
    }
}

/// The fields from the `j`th on conform, and the value has exactly the
/// definition's fields, each named once.
pub open spec fn fields_conform(vs: Seq<(String, Value)>, fields: Seq<Field>, defs: Seq<StructDef>, j: int) -> bool
    decreases vs, fields.len() - j,
{
    if j < 0 {
        false
    } else if j >= fields.len() {
        vs.len() == fields.len() && distinct_names(vs)
    } else {
        &&& j < vs.len()
        &&& vs[j].0@ == fields[j].name@
        &&& conforms(vs[j].1, fields[j].field_type, defs)
        &&& fields_conform(vs, fields, defs, j + 1)
    }
}

/// The sizes of some fields added up.
pub open spec fn fields_total(fields: Seq<Field>, defs: Seq<StructDef>) -> nat
    decreases fields.len(),
{
    if fields.len() == 0 {
        0
    } else {
        sizeof_spec(fields[0].field_type, defs) + fields_total(fields.drop_first(), defs)
    }
}

proof fn lemma_fields_total(fields: Seq<Field>, defs: Seq<StructDef>, d: nat)
    requires
        fields_size(fields, defs, d) is Some,
    ensures
        fields_size(fields, defs, d) == Some(fields_total(fields, defs)),
    decreases fields.len(),
{
    if fields.len() > 0 {
        lemma_sizeof_spec(fields[0].field_type, defs, d);
        lemma_fields_total(fields.drop_first(), defs, d);
    }
}

proof fn lemma_fields_conform_distinct(vs: Seq<(String, Value)>, fields: Seq<Field>, defs: Seq<StructDef>, j: int)
    requires
        fields_conform(vs, fields, defs, j),
    ensures
        vs.len() == fields.len(),
        distinct_names(vs),
        0 <= j,
    decreases fields.len() - j,
{
    if j < fields.len() {
        lemma_fields_conform_distinct(vs, fields, defs, j + 1);
    }
}

/// Where the `j`th field's name is first found among distinct names.
proof fn lemma_field_index_at(vs: Seq<(String, Value)>, j: int, name: Seq<char>)
    requires
        distinct_names(vs),
        0 <= j < vs.len(),
        vs[j].0@ == name,
    ensures
        field_index(vs, name) == Some(j),
{
    assert(vs[j].0@ == name && forall|q: int| 0 <= q < j ==> (#[trigger] vs[q]).0@ != name) by {
        assert forall|q: int| 0 <= q < j implies (#[trigger] vs[q]).0@ != name by {
            assert(vs[q].0@ != vs[j].0@);
        }
    }
    let c = choose|i: int| 0 <= i < vs.len() && (#[trigger] vs[i]).0@ == name && forall|q: int| 0 <= q < i ==> (#[trigger] vs[q]).0@ != name;
    if c < j {
        assert(vs[c].0@ != vs[j].0@);
    } else if c > j {
        assert(vs[j].0@ != name);
    }
}

/// The size of a struct type is the sum of its fields' sizes, and every
/// field's size is found one level down.
proof fn lemma_struct_size(t: Type, defs: Seq<StructDef>, k: int, d: nat)
    requires
        t.pointer_depth == 0,
        t.array_dims@.len() == 0,
        t.base matches BaseType::Struct(name) && def_index(defs, name@) == Some(k),
        type_size(t, defs, d) is Some,
    ensures
        d >= 1,
        fields_size(defs[k].fields@, defs, (d - 1) as nat) is Some,
        sizeof_spec(t, defs) == fields_total(defs[k].fields@, defs),
        forall|q: int| 0 <= q < defs[k].fields@.len() ==> type_size(#[trigger] defs[k].fields@[q].field_type, defs, (d - 1) as nat) is Some,
{
    crate::memory::lemma_plain_type_size(t, defs);
    lemma_sizeof_spec(t, defs, d);
    assert(base_size(t.base, defs, d) is Some);
    lemma_fields_total(defs[k].fields@, defs, (d - 1) as nat);
    lemma_fields_sizes_known(defs[k].fields@, defs, (d - 1) as nat);
}

/// The size of a scalar type.
proof fn lemma_scalar_size(v: Value, t: Type, defs: Seq<StructDef>)
    requires
        conforms(v, t, defs),
        !(v is Struct),
    ensures
        sizeof_spec(t, defs) == match v {
            Value::Int(_) => 4nat,
            Value::Char(_) => 1nat,
            _ => 8nat,
        },
{
    let d = choose|d: nat| #[trigger] type_size(t, defs, d) is Some;
    lemma_sizeof_spec(t, defs, d);
    assert(t.array_dims@ =~= Seq::<Option<usize>>::empty());
}

/// The bytes a scalar is stored as.
proof fn lemma_scalar_bytes(v: Value)
    requires
        v is Int || v is Char || v is Pointer || v is Null,
    ensures
        v is Int ==> le_bytes(((v->Int_0) as u32) as nat, 4).len() == 4,
        v is Pointer ==> le_bytes((v->Pointer_0) as nat, 8).len() == 8,
        v is Null ==> le_bytes(0, 8).len() == 8,
{
    reveal_with_fuel(pow256, 9);
    match v {
        Value::Int(n) => {
            lemma_le_round_trip((n as u32) as nat, 4);
        },
        Value::Pointer(a) => {
            lemma_le_round_trip(a as nat, 8);
        },
        _ => {
            lemma_le_round_trip(0, 8);
        },
    }
}

/// Storing a conforming value writes nothing outside its bytes, keeps the
/// heap view valid, and every byte it covers lies below the end of the
/// address space.
proof fn lemma_store_footprint(
    m: Map<u64, BlockView>,
    v: Value,
    t: Type,
    defs: Seq<StructDef>,
    base: int,
    check: bool,
    other: u64,
)
    requires
        heap_view_ok(m),
        conforms(v, t, defs),
        0 <= base <= u64::MAX,
        store(m, v, t.base, defs, base).1 is None,
        check ==> (other < base || other >= base + sizeof_spec(t, defs)),
    ensures
        heap_view_ok(store(m, v, t.base, defs, base).0),
        check ==> read_byte_result(store(m, v, t.base, defs, base).0, other) == read_byte_result(m, other),
        sizeof_spec(t, defs) == 0 || base + sizeof_spec(t, defs) <= u64::MAX,
    decreases v, 0nat,
{
    match v {
        Value::Struct(vs) => {
            let name = t.base->Struct_0;
            let k = def_index(defs, name@)->Some_0;
            let d = choose|d: nat| #[trigger] type_size(t, defs, d) is Some;
            lemma_struct_size(t, defs, k, d);
            let fields = defs[k].fields@;
            assert(fields.skip(0) =~= fields);
            lemma_store_fields_footprint(m, vs@, fields, defs, base, 0, 0, check, other);
        },
        _ => {
            lemma_scalar_size(v, t, defs);
            lemma_scalar_bytes(v);
            let bytes = match v {
                Value::Int(n) => le_bytes((n as u32) as nat, 4),
                Value::Char(c) => seq![c as u8],
                Value::Pointer(a) => le_bytes(a as nat, 8),
                _ => le_bytes(0, 8),
            };
            assert(store(m, v, t.base, defs, base) == store_bytes(m, base, bytes));
            if check {
                lemma_write_bytes_keeps_outside(m, base, bytes, other);
            } else {
                if base + bytes.len() <= u64::MAX {
                    lemma_write_bytes_keeps_outside(m, base, bytes, (base + bytes.len()) as u64);
                } else {
                    lemma_write_bytes_keeps_outside(m, base, bytes, 0);
                }
            }
            lemma_write_bytes_bound(m, base, bytes);
        },
    }
}

/// Storing the fields from the `j`th on writes nothing outside their bytes.
proof fn lemma_store_fields_footprint(
    m: Map<u64, BlockView>,
    vs: Seq<(String, Value)>,
    fields: Seq<Field>,
    defs: Seq<StructDef>,
    base: int,
    j: int,
    offset: int,
    check: bool,
    other: u64,
)
    requires
        heap_view_ok(m),
        fields_conform(vs, fields, defs, j),
        j <= fields.len(),
        0 <= base,
        0 <= offset,
        base + offset <= u64::MAX,
        store_fields(m, vs, fields.skip(j), defs, base, offset).1 is None,
        check ==> (other < base + offset || other >= base + offset + fields_total(fields.skip(j), defs)),
    ensures
        heap_view_ok(store_fields(m, vs, fields.skip(j), defs, base, offset).0),
        check ==> read_byte_result(store_fields(m, vs, fields.skip(j), defs, base, offset).0, other)
            == read_byte_result(m, other),
        fields_total(fields.skip(j), defs) == 0 || base + offset + fields_total(fields.skip(j), defs)
            <= u64::MAX,
    decreases vs, fields.len() - j,
{
    lemma_fields_conform_distinct(vs, fields, defs, j);
    if j < fields.len() {
        let rest = fields.skip(j);
        let f = fields[j];
        assert(rest[0] == f);
        assert(rest.drop_first() =~= fields.skip(j + 1));
        lemma_field_index_at(vs, j, f.name@);
        let step = store(m, vs[j].1, f.field_type.base, defs, base + offset);
        let size = sizeof_spec(f.field_type, defs);
        assert(step.1 is None);
        assert(fields_total(rest, defs) == size + fields_total(fields.skip(j + 1), defs));
        lemma_store_footprint(m, vs[j].1, f.field_type, defs, base + offset, check, other);
        lemma_store_fields_footprint(step.0, vs, fields, defs, base, j + 1, offset + size, check, other);
    } else {
        assert(fields.skip(j) =~= Seq::<Field>::empty());
    }
}

/// Reads of `k` bytes from `base` agree where the two views agree on those
/// bytes.
proof fn lemma_read_bytes_same(m1: Map<u64, BlockView>, m2: Map<u64, BlockView>, base: int, k: nat)
    requires
        0 <= base,
        base + k <= u64::MAX + 1,
        forall|a: u64| base <= a < base + k ==> read_byte_result(m1, a) == read_byte_result(m2, a),
    ensures
        read_bytes_result(m1, base, k) == read_bytes_result(m2, base, k),
    decreases k,
{
    if k > 0 {
        assert(read_byte_result(m1, base as u64) == read_byte_result(m2, base as u64));
        lemma_read_bytes_same(m1, m2, base + 1, (k - 1) as nat);
    }
}

/// Reading a conforming type back depends only on its bytes.
proof fn lemma_load_same(
    m1: Map<u64, BlockView>,
    m2: Map<u64, BlockView>,
    v: Value,
    t: Type,
    defs: Seq<StructDef>,
    base: int,
    d: nat,
)
    requires
        conforms(v, t, defs),
        type_size(t, defs, d) is Some,
        0 <= base,
        base + sizeof_spec(t, defs) <= u64::MAX + 1,
        forall|a: u64| base <= a < base + sizeof_spec(t, defs) ==> read_byte_result(m1, a)
            == read_byte_result(m2, a),
    ensures
        load(m1, t, defs, base, d) == load(m2, t, defs, base, d),
    decreases v, 0nat,
{
    match v {
        Value::Struct(vs) => {
            let name = t.base->Struct_0;
            let k = def_index(defs, name@)->Some_0;
            lemma_struct_size(t, defs, k, d);
            let fields = defs[k].fields@;
            assert(fields.skip(0) =~= fields);
            lemma_load_fields_same(m1, m2, vs@, fields, defs, base, 0, 0, (d - 1) as nat);
        },
        _ => {
            lemma_scalar_size(v, t, defs);
            match v {
                Value::Int(_) => {
                    lemma_read_bytes_same(m1, m2, base, 4);
                },
                Value::Char(_) => {
                    assert(read_byte_result(m1, base as u64) == read_byte_result(m2, base as u64));
                },
                _ => {
                    lemma_read_bytes_same(m1, m2, base, 8);
                },
            }
        },
    }
}

proof fn lemma_load_fields_same(
    m1: Map<u64, BlockView>,
    m2: Map<u64, BlockView>,
    vs: Seq<(String, Value)>,
    fields: Seq<Field>,
    defs: Seq<StructDef>,
    base: int,
    j: int,
    offset: int,
    d: nat,
)
    requires
        fields_conform(vs, fields, defs, j),
        j <= fields.len(),
        forall|q: int| 0 <= q < fields.len() ==> type_size(#[trigger] fields[q].field_type, defs, d) is Some,
        0 <= base,
        0 <= offset,
        base + offset + fields_total(fields.skip(j), defs) <= u64::MAX + 1,
        forall|a: u64| base + offset <= a < base + offset + fields_total(fields.skip(j), defs) ==> read_byte_result(m1, a)
            == read_byte_result(m2, a),
    ensures
        load_fields(m1, fields.skip(j), defs, base, offset, d) == load_fields(m2, fields.skip(j), defs, base, offset, d),
    decreases vs, fields.len() - j,
{
    lemma_fields_conform_distinct(vs, fields, defs, j);
    if j < fields.len() {
        let rest = fields.skip(j);
        let f = fields[j];
        assert(rest[0] == f);
        assert(rest.drop_first() =~= fields.skip(j + 1));
        let size = sizeof_spec(f.field_type, defs);
        assert(fields_total(rest, defs) == size + fields_total(fields.skip(j + 1), defs));
        lemma_load_same(m1, m2, vs[j].1, f.field_type, defs, base + offset, d);
        lemma_load_fields_same(m1, m2, vs, fields, defs, base, j + 1, offset + size, d);
    } else {
        assert(fields.skip(j) =~= Seq::<Field>::empty());
    }
}

/// `fields_view` gives each entry's name text and value.
proof fn lemma_fields_view(vs: Seq<(String, Value)>)
    ensures
        fields_view(vs).len() == vs.len(),
        forall|i: int| 0 <= i < vs.len() ==> #[trigger] fields_view(vs)[i] == (vs[i].0@, value_view(vs[i].1)),
    decreases vs.len(),
{
    if vs.len() > 0 {
        let init = vs.subrange(0, vs.len() - 1);
        lemma_fields_view(init);
        assert forall|i: int| 0 <= i < vs.len() implies #[trigger] fields_view(vs)[i] == (vs[i].0@, value_view(vs[i].1)) by {
            if i < vs.len() - 1 {
                assert(init[i] == vs[i]);
            }
        }
    }
}

/// Storing a conforming value and reading it back as its type gives the
/// value.
proof fn lemma_round_trip(m: Map<u64, BlockView>, v: Value, t: Type, defs: Seq<StructDef>, base: int, d: nat)
    requires
        heap_view_ok(m),
        conforms(v, t, defs),
        type_size(t, defs, d) is Some,
        0 <= base <= u64::MAX,
        store(m, v, t.base, defs, base).1 is None,
    ensures
        load(store(m, v, t.base, defs, base).0, t, defs, base, d) == Ok::<ValueView, LoadError>(v@),
    decreases v, 0nat,
{
    match v {
        Value::Struct(vs) => {
            let name = t.base->Struct_0;
            let k = def_index(defs, name@)->Some_0;
            lemma_struct_size(t, defs, k, d);
            let fields = defs[k].fields@;
            assert(fields.skip(0) =~= fields);
            lemma_round_trip_fields(m, vs@, fields, defs, base, 0, 0, (d - 1) as nat);
            lemma_fields_conform_distinct(vs@, fields, defs, 0);
            lemma_fields_view(vs@);
            assert(fields_view(vs@).skip(0) =~= fields_view(vs@));
        },
        _ => {
            law_load_after_store_scalar(m, v, t, defs, base as u64, d);
        },
    }
}

proof fn lemma_round_trip_fields(
    m: Map<u64, BlockView>,
    vs: Seq<(String, Value)>,
    fields: Seq<Field>,
    defs: Seq<StructDef>,
    base: int,
    j: int,
    offset: int,
    d: nat,
)
    requires
        heap_view_ok(m),
        fields_conform(vs, fields, defs, j),
        j <= fields.len(),
        forall|q: int| 0 <= q < fields.len() ==> type_size(#[trigger] fields[q].field_type, defs, d) is Some,
        0 <= base,
        0 <= offset,
        base + offset <= u64::MAX,
        store_fields(m, vs, fields.skip(j), defs, base, offset).1 is None,
    ensures
        load_fields(store_fields(m, vs, fields.skip(j), defs, base, offset).0, fields.skip(j), defs, base, offset, d)
            == Ok::<Seq<(Seq<char>, ValueView)>, LoadError>(fields_view(vs).skip(j)),
    decreases vs, fields.len() - j,
{
    lemma_fields_conform_distinct(vs, fields, defs, j);
    lemma_fields_view(vs);
    if j >= fields.len() {
        assert(fields.skip(j) =~= Seq::<Field>::empty());
        assert(fields_view(vs).skip(j) =~= Seq::<(Seq<char>, ValueView)>::empty());
    } else {
        let rest = fields.skip(j);
        let f = fields[j];
        assert(rest[0] == f);
        assert(rest.drop_first() =~= fields.skip(j + 1));
        lemma_field_index_at(vs, j, f.name@);
        let step = store(m, vs[j].1, f.field_type.base, defs, base + offset);
        let size = sizeof_spec(f.field_type, defs);
        assert(step.1 is None);
        let m1 = step.0;
        let mf = store_fields(m, vs, rest, defs, base, offset).0;
        assert(mf == store_fields(m1, vs, fields.skip(j + 1), defs, base, offset + size).0);
        // the field itself reads back right after it is stored
        lemma_round_trip(m, vs[j].1, f.field_type, defs, base + offset, d);
        lemma_store_footprint(m, vs[j].1, f.field_type, defs, base + offset, false, 0);
        // the later fields leave its bytes alone
        assert forall|a: u64| base + offset <= a < base + offset + size implies read_byte_result(mf, a)
            == read_byte_result(m1, a) by {
            lemma_store_fields_footprint(m1, vs, fields, defs, base, j + 1, offset + size, true, a);
        }
        lemma_load_same(mf, m1, vs[j].1, f.field_type, defs, base + offset, d);
        // and the later fields read back too
        lemma_round_trip_fields(m1, vs, fields, defs, base, j + 1, offset + size, d);
        assert(seq![(f.name@, value_view(vs[j].1))] + fields_view(vs).skip(j + 1) =~= fields_view(vs).skip(j));
    }
}

/// Storing a value into the heap and reading it back as the type it was
/// stored as gives the same value: an `int`, a `char`, a pointer (null or
/// not zero), or a struct value holding exactly its definition's fields in
/// order, each conforming in turn.
pub proof fn law_load_after_store(m: Map<u64, BlockView>, v: Value, t: Type, defs: Seq<StructDef>, base: u64)
    requires
        heap_view_ok(m),
        conforms(v, t, defs),
        store(m, v, t.base, defs, base as int).1 is None,
    ensures
        load(
            store(m, v, t.base, defs, base as int).0,
            t,
            defs,
            base as int,
            super::heap_serial::size_depth(t, defs),
        ) == Ok::<ValueView, LoadError>(v@),
{
    lemma_round_trip(m, v, t, defs, base as int, super::heap_serial::size_depth(t, defs));
}

} // verus!
