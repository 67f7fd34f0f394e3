//! Memory model for the C interpreter
//!
//! This module provides the core memory abstractions:
//! - [`value`]: Runtime value representation
//! - [`stack`]: Per-variable initialization tracking
//! - [`heap`]: Heap allocation with malloc/free and tombstone tracking
//!
//! # Type Sizes
//!
//! Unlike real C, this interpreter uses fixed, platform-independent sizes:
//! - `int`: 4 bytes
//! - `char`: 1 byte
//! - `pointer`: 8 bytes (regardless of pointee type)
//! - `struct`: sum of field sizes (no padding or alignment)
//!
//! # Pointer Arithmetic
//!
//! Pointer arithmetic is scaled by pointee size:
//! ```text
//! ptr + n  →  ptr + (n * sizeof(*ptr))
//! ```
//!
//! Helper functions [`pointer_add`], [`pointer_sub`], and [`pointer_diff`] handle
//! this scaling automatically.
//!
//! Struct definitions are looked up by name in a slice; a name that occurs
//! more than once stands for its last definition, as in a map filled in
//! order.
pub mod heap;
pub mod heap_laws;
pub mod names;
pub mod stack;
pub mod stack_laws;
pub mod value;

use vstd::prelude::*;
use crate::parser::ast::{BaseType, Field, StructDef, Type, TypeView};
use value::Address;

verus! {

/// The index of the last definition named `name`, if any: definitions are
/// collected into a map by name, where a later one replaces an earlier.
pub open spec fn def_index(defs: Seq<StructDef>, name: Seq<char>) -> Option<int> {
    if exists|i: int|
        0 <= i < defs.len() && (#[trigger] defs[i]).name@ == name && forall|j: int|
            i < j < defs.len() ==> (#[trigger] defs[j]).name@ != name {
        Some(
            choose|i: int|
                0 <= i < defs.len() && (#[trigger] defs[i]).name@ == name && forall|j: int|
                    i < j < defs.len() ==> (#[trigger] defs[j]).name@ != name,
        )
    } else {
        None
    }
}

/// The size of a type, looking into at most `depth` levels of nested
/// structs; `None` where a struct is unknown, an array dimension is unsized,
/// the nesting is deeper than `depth`, or a size passes `usize::MAX` on the
/// way.
pub open spec fn type_size(t: Type, defs: Seq<StructDef>, depth: nat) -> Option<nat>
    decreases depth, 0nat,
{
    if t.pointer_depth > 0 {
        Some(8)
    } else {
        let base: Option<nat> = match t.base {
            BaseType::Int => Some(4),
            BaseType::Char => Some(1),
            BaseType::Void => Some(0),
            BaseType::Struct(name) => if depth == 0 {
                None
            } else {
                match def_index(defs, name@) {
                    None => None,
                    Some(i) => match fields_size(defs[i].fields@, defs, (depth - 1) as nat) {
                        Some(s) => if s <= usize::MAX {
                            Some(s)
                        } else {
                            None
                        },
                        None => None,
                    },
                }
            },
        };
        match base {
            None => None,
            Some(b) => dims_product(b, t.array_dims@),
        }
    }
}

/// The size of a base type itself, without pointers or dimensions.
pub open spec fn base_size(b: BaseType, defs: Seq<StructDef>, depth: nat) -> Option<nat> {
    match b {
        BaseType::Int => Some(4),
        BaseType::Char => Some(1),
        BaseType::Void => Some(0),
        BaseType::Struct(name) => if depth == 0 {
            None
        } else {
            match def_index(defs, name@) {
                None => None,
                Some(i) => match fields_size(defs[i].fields@, defs, (depth - 1) as nat) {
                    Some(s) => if s <= usize::MAX {
                        Some(s)
                    } else {
                        None
                    },
                    None => None,
                },
            }
        },
    }
}

/// Whether the size of a base type itself can be computed.
pub open spec fn plain_size_known(b: BaseType, defs: Seq<StructDef>) -> bool {
    exists|depth: nat| #[trigger] base_size(b, defs, depth) is Some
}

/// The size of a base type itself.
pub open spec fn plain_size(b: BaseType, defs: Seq<StructDef>) -> nat {
    base_size(b, defs, choose|depth: nat| #[trigger] base_size(b, defs, depth) is Some)->Some_0
}

/// A type with no pointers or dimensions has the size of its base.
pub proof fn lemma_plain_type_size(t: Type, defs: Seq<StructDef>)
    requires
        t.pointer_depth == 0,
        t.array_dims@.len() == 0,
    ensures
        forall|d: nat| #[trigger] type_size(t, defs, d) == base_size(t.base, defs, d),
        size_known(t, defs) == plain_size_known(t.base, defs),
        size_known(t, defs) ==> sizeof_spec(t, defs) == plain_size(t.base, defs),
{
    assert forall|d: nat| #[trigger] type_size(t, defs, d) == base_size(t.base, defs, d) by {
        assert(t.array_dims@ =~= Seq::<Option<usize>>::empty());
        match base_size(t.base, defs, d) {
            Some(b) => {
                assert(dims_product(b, t.array_dims@) == Some(b));
            },
            None => {},
        }
    }
    if size_known(t, defs) {
        let d1 = choose|d: nat| #[trigger] type_size(t, defs, d) is Some;
        assert(base_size(t.base, defs, d1) is Some);
        let d2 = choose|d: nat| #[trigger] base_size(t.base, defs, d) is Some;
        assert(type_size(t, defs, d2) is Some);
        lemma_sizeof_spec(t, defs, d2);
    }
    if plain_size_known(t.base, defs) {
        let d2 = choose|d: nat| #[trigger] base_size(t.base, defs, d) is Some;
        assert(type_size(t, defs, d2) is Some);
    }
}

/// The sum of the sizes of some fields.
pub open spec fn fields_size(fields: Seq<Field>, defs: Seq<StructDef>, depth: nat) -> Option<nat>
    decreases depth, fields.len() + 1,
{
    if fields.len() == 0 {
        Some(0)
    } else {
        match type_size(fields[0].field_type, defs, depth) {
            None => None,
            Some(a) => match fields_size(fields.drop_first(), defs, depth) {
                None => None,
                Some(b) => Some(a + b),
            },
        }
    }
}

/// `size` multiplied by each dimension in turn; `None` at an unsized
/// dimension or once a product passes `usize::MAX`.
pub open spec fn dims_product(size: nat, dims: Seq<Option<usize>>) -> Option<nat>
    decreases dims.len(),
{
    if dims.len() == 0 {
        Some(size)
    } else {
        match dims[0] {
            None => None,
            Some(d) => if size * (d as nat) <= usize::MAX {
                dims_product(size * (d as nat), dims.drop_first())
            } else {
                None
            },
        }
    }
}

/// Whether `sizeof` of a type can be computed: some nesting depth suffices.
pub open spec fn size_known(t: Type, defs: Seq<StructDef>) -> bool {
    exists|depth: nat| #[trigger] type_size(t, defs, depth) is Some
}

/// The size of a type whose size is known.
pub open spec fn sizeof_spec(t: Type, defs: Seq<StructDef>) -> nat {
    type_size(t, defs, choose|depth: nat| #[trigger] type_size(t, defs, depth) is Some)->Some_0
}

/// A size found at some depth is found at every greater depth too.
proof fn lemma_type_size_deeper(t: Type, defs: Seq<StructDef>, d1: nat, d2: nat)
    requires
        d1 <= d2,
        type_size(t, defs, d1) is Some,
    ensures
        type_size(t, defs, d2) == type_size(t, defs, d1),
    decreases d1, 0nat,
{
    if t.pointer_depth == 0 {
        match t.base {
            BaseType::Struct(name) => {
                match def_index(defs, name@) {
                    Some(i) => {
                        lemma_fields_size_deeper(
                            defs[i].fields@,
                            defs,
                            (d1 - 1) as nat,
                            (d2 - 1) as nat,
                        );
                    },
                    None => {},
                }
            },
            _ => {},
        }
    }
}

proof fn lemma_fields_size_deeper(fields: Seq<Field>, defs: Seq<StructDef>, d1: nat, d2: nat)
    requires
        d1 <= d2,
        fields_size(fields, defs, d1) is Some,
    ensures
        fields_size(fields, defs, d2) == fields_size(fields, defs, d1),
    decreases d1, fields.len() + 1,
{
    if fields.len() > 0 {
        lemma_type_size_deeper(fields[0].field_type, defs, d1, d2);
        lemma_fields_size_deeper(fields.drop_first(), defs, d1, d2);
    }
}

/// Every depth at which the size is found gives the same size.
pub proof fn lemma_sizeof_spec(t: Type, defs: Seq<StructDef>, depth: nat)
    requires
        type_size(t, defs, depth) is Some,
    ensures
        size_known(t, defs),
        type_size(t, defs, depth) == Some(sizeof_spec(t, defs)),
{
    let d = choose|d: nat| #[trigger] type_size(t, defs, d) is Some;
    if d <= depth {
        lemma_type_size_deeper(t, defs, d, depth);
    } else {
        lemma_type_size_deeper(t, defs, depth, d);
    }
}

/// The last definition named `name`.
pub(crate) fn find_struct_def<'a>(defs: &'a [StructDef], name: &String) -> (r: Option<&'a StructDef>)
    ensures
        match def_index(defs@, name@) {
            None => r is None,
            Some(i) => r == Some(&defs@[i]),
        },
{
    let mut i: usize = defs.len();
    while i > 0
        invariant
            0 <= i <= defs@.len(),
            forall|j: int| i <= j < defs@.len() ==> (#[trigger] defs@[j]).name@ != name@,
        decreases i,
    {
        i = i - 1;
        if defs[i].name == *name {
            proof {
                let k = choose|k: int|
                    0 <= k < defs@.len() && (#[trigger] defs@[k]).name@ == name@ && forall|j: int|
                        k < j < defs@.len() ==> (#[trigger] defs@[j]).name@ != name@;
                assert(defs@[i as int].name@ == name@);
                if k < i {
                    assert(defs@[i as int].name@ != name@);
                } else if k > i {
                    assert(defs@[k].name@ != name@);
                }
            }
            return Some(&defs[i]);
        }
    }
    None
}

fn type_size_at(t: &Type, defs: &[StructDef], Ghost(depth): Ghost<nat>) -> (r: usize)
    requires
        type_size(*t, defs@, depth) is Some,
    ensures
        r == type_size(*t, defs@, depth)->Some_0,
    decreases depth, 0nat,
{
    if t.pointer_depth > 0 {
        return 8;
    }
    let base_size: usize = match &t.base {
        BaseType::Int => 4,
        BaseType::Char => 1,
        BaseType::Void => 0,
        BaseType::Struct(name) => {
            let def = match find_struct_def(defs, name) {
                Some(d) => d,
                None => {
                    return 0;
                },
            };
            fields_size_at(&def.fields, defs, Ghost((depth - 1) as nat))
        },
    };
    let mut size: usize = base_size;
    let mut i: usize = 0;
    let n = t.array_dims.len();
    proof {
        assert(t.array_dims@.skip(0) =~= t.array_dims@);
    }
    while i < n
        invariant
            n == t.array_dims@.len(),
            0 <= i <= n,
            dims_product(size as nat, t.array_dims@.skip(i as int)) == type_size(
                *t,
                defs@,
                depth,
            ),
            type_size(*t, defs@, depth) is Some,
        decreases n - i,
    {
        proof {
            assert(t.array_dims@.skip(i as int).drop_first() =~= t.array_dims@.skip(i + 1));
        }
        let dim = match t.array_dims[i] {
            Some(d) => d,
            None => {
                return 0;
            },
        };
        size = size * dim;
        i = i + 1;
    }
    size
}

fn fields_size_at(fields: &Vec<Field>, defs: &[StructDef], Ghost(depth): Ghost<nat>) -> (r: usize)
    requires
        fields_size(fields@, defs@, depth) is Some,
        fields_size(fields@, defs@, depth)->Some_0 <= usize::MAX,
    ensures
        r == fields_size(fields@, defs@, depth)->Some_0,
    decreases depth, 1nat,
{
    let mut total: usize = 0;
    let mut i: usize = 0;
    let n = fields.len();
    proof {
        assert(fields@.skip(0) =~= fields@);
    }
    while i < n
        invariant
            n == fields@.len(),
            0 <= i <= n,
            fields_size(fields@.skip(i as int), defs@, depth) is Some,
            total + fields_size(fields@.skip(i as int), defs@, depth)->Some_0 == fields_size(
                fields@,
                defs@,
                depth,
            )->Some_0,
            fields_size(fields@, defs@, depth)->Some_0 <= usize::MAX,
        decreases n - i,
    {
        proof {
            assert(fields@.skip(i as int).drop_first() =~= fields@.skip(i + 1));
            assert(fields@.skip(i as int)[0] == fields@[i as int]);
        }
        let s = type_size_at(&fields[i].field_type, defs, Ghost(depth));
        total = total + s;
        i = i + 1;
    }
    total
}

/// Calculate the size of a type in bytes
pub fn sizeof_type(t: &Type, struct_defs: &[StructDef]) -> (r: usize)
    requires
        size_known(*t, struct_defs@),
    ensures
        r == sizeof_spec(*t, struct_defs@),
{
    let ghost depth = choose|depth: nat| #[trigger] type_size(*t, struct_defs@, depth) is Some;
    type_size_at(t, struct_defs, Ghost(depth))
}

/// The address `offset` elements of `size` bytes away from `addr`, computed
/// in signed 64-bit arithmetic and read back as an address.
pub open spec fn offset_address(addr: u64, offset: int, size: nat) -> u64 {
    ((addr as i64) + offset * (size as i64)) as u64
}

/// Perform pointer arithmetic: addr + offset (scaled by pointee size)
pub fn pointer_add(
    addr: Address,
    offset: i32,
    pointee_type: &Type,
    struct_defs: &[StructDef],
) -> (r: Address)
    requires
        size_known(*pointee_type, struct_defs@),
        i64::MIN <= offset * (sizeof_spec(*pointee_type, struct_defs@) as i64) <= i64::MAX,
        i64::MIN <= (addr as i64) + offset * (sizeof_spec(*pointee_type, struct_defs@) as i64)
            <= i64::MAX,
    ensures
        r == offset_address(addr, offset as int, sizeof_spec(*pointee_type, struct_defs@)),
{
    let pointee_size = sizeof_type(pointee_type, struct_defs);
    let byte_offset = offset as i64 * pointee_size as i64;
    (addr as i64 + byte_offset) as Address
}

/// Perform pointer subtraction: addr - offset (scaled by pointee size)
pub fn pointer_sub(
    addr: Address,
    offset: i32,
    pointee_type: &Type,
    struct_defs: &[StructDef],
) -> (r: Address)
    requires
        offset != i32::MIN,
        size_known(*pointee_type, struct_defs@),
        i64::MIN <= -offset * (sizeof_spec(*pointee_type, struct_defs@) as i64) <= i64::MAX,
        i64::MIN <= (addr as i64) - offset * (sizeof_spec(*pointee_type, struct_defs@) as i64)
            <= i64::MAX,
    ensures
        r == offset_address(addr, -offset, sizeof_spec(*pointee_type, struct_defs@)),
{
    proof {
        let s = sizeof_spec(*pointee_type, struct_defs@) as i64;
        assert((-offset) * s == -(offset * s)) by (nonlinear_arith);
    }
    pointer_add(addr, -offset, pointee_type, struct_defs)
}

/// Rust's `/` on integers: the quotient rounded toward zero.
pub open spec fn div_toward_zero(a: int, b: int) -> int {
    if a >= 0 {
        a / b
    } else {
        -((-a) / b)
    }
}

/// Calculate the difference between two pointers (in elements, not bytes)
pub fn pointer_diff(
    addr1: Address,
    addr2: Address,
    pointee_type: &Type,
    struct_defs: &[StructDef],
) -> (r: i32)
    requires
        size_known(*pointee_type, struct_defs@),
        0 < sizeof_spec(*pointee_type, struct_defs@) <= i64::MAX,
        i64::MIN <= (addr1 as i64) - (addr2 as i64) <= i64::MAX,
    ensures
        r == div_toward_zero(
            (addr1 as i64) - (addr2 as i64),
            sizeof_spec(*pointee_type, struct_defs@) as int,
        ) as i32,
{
    let pointee_size = sizeof_type(pointee_type, struct_defs);
    ((addr1 as i64 - addr2 as i64) / pointee_size as i64) as i32
}

/// An address in signed 64-bit range reads back unchanged through `u64`.
proof fn lemma_i64_round_trip(x: int)
    requires
        i64::MIN <= x <= i64::MAX,
    ensures
        ((x as u64) as i64) == x,
{
    let xi: i64 = x as i64;
    assert(((xi as u64) as i64) == xi) by (bit_vector);
}

/// Moving a pointer `offset` elements forward and taking its difference from
/// where it started gives back `offset`.
pub proof fn law_diff_after_add(addr: u64, offset: int, size: nat)
    requires
        0 < size <= i64::MAX,
        i64::MIN <= offset * size <= i64::MAX,
        i64::MIN <= (addr as i64) + offset * size <= i64::MAX,
    ensures
        div_toward_zero((offset_address(addr, offset, size) as i64) - (addr as i64), size as int)
            == offset,
{
    assert((size as i64) as int == size);
    let x = (addr as i64) + offset * size;
    lemma_i64_round_trip(x);
    let p = offset * size;
    assert(offset_address(addr, offset, size) == x as u64);
    assert((offset_address(addr, offset, size) as i64) - (addr as i64) == p);
    if offset >= 0 {
        vstd::arithmetic::mul::lemma_mul_nonnegative(offset, size as int);
        vstd::arithmetic::div_mod::lemma_div_by_multiple(offset, size as int);
    } else {
        vstd::arithmetic::mul::lemma_mul_strictly_positive(-offset, size as int);
        vstd::arithmetic::mul::lemma_mul_unary_negation(offset, size as int);
        vstd::arithmetic::div_mod::lemma_div_by_multiple(-offset, size as int);
    }
}

/// Moving a pointer `offset` elements forward and then `offset` elements
/// back returns it to where it was.
pub proof fn law_sub_undoes_add(addr: u64, offset: int, size: nat)
    requires
        size <= i64::MAX,
        i64::MIN <= offset * size <= i64::MAX,
        i64::MIN <= (addr as i64) + offset * size <= i64::MAX,
    ensures
        offset_address(offset_address(addr, offset, size), -offset, size) == addr,
{
    assert((size as i64) as int == size);
    let x = (addr as i64) + offset * size;
    lemma_i64_round_trip(x);
    assert((-offset) * size == -(offset * size)) by (nonlinear_arith);
    let a: u64 = addr;
    assert((((a as i64) as int) as u64) == a) by (bit_vector);
}

/// The sum of the sizes of the first `k` fields.
pub open spec fn offset_of(fields: Seq<Field>, defs: Seq<StructDef>, k: int) -> int
    decreases k,
{
    if k <= 0 {
        0
    } else {
        offset_of(fields, defs, k - 1) + sizeof_spec(fields[k - 1].field_type, defs)
    }
}

/// Offsets grow with the number of fields passed.
pub(crate) proof fn lemma_offset_monotone(fields: Seq<Field>, defs: Seq<StructDef>, a: int, b: int)
    requires
        0 <= a <= b,
    ensures
        offset_of(fields, defs, a) <= offset_of(fields, defs, b),
    decreases b - a,
{
    if a < b {
        lemma_offset_monotone(fields, defs, a, b - 1);
    }
}

/// The size of a type depends only on the type as a value.
pub proof fn lemma_size_by_view(a: Type, b: Type, defs: Seq<StructDef>)
    requires
        a@ == b@,
    ensures
        forall|d: nat| #[trigger] type_size(a, defs, d) == type_size(b, defs, d),
        size_known(a, defs) == size_known(b, defs),
        size_known(a, defs) ==> sizeof_spec(a, defs) == sizeof_spec(b, defs),
{
    assert forall|d: nat| #[trigger] type_size(a, defs, d) == type_size(b, defs, d) by {
        assert(a.array_dims@ == b.array_dims@);
        match (a.base, b.base) {
            (BaseType::Struct(x), BaseType::Struct(y)) => {
                assert(crate::parser::ast::base_view(a.base) == crate::parser::ast::base_view(b.base));
                assert(x@ == y@);
            },
            _ => {
                assert(crate::parser::ast::base_view(a.base) == crate::parser::ast::base_view(b.base));
            },
        }
    }
    if size_known(a, defs) {
        let d = choose|d: nat| #[trigger] type_size(a, defs, d) is Some;
        assert(type_size(b, defs, d) is Some);
        lemma_sizeof_spec(a, defs, d);
        lemma_sizeof_spec(b, defs, d);
    }
    if size_known(b, defs) {
        let d = choose|d: nat| #[trigger] type_size(b, defs, d) is Some;
        assert(type_size(a, defs, d) is Some);
    }
}

/// Whether some type with this value has a known size.
pub open spec fn size_known_view(tv: TypeView, defs: Seq<StructDef>) -> bool {
    exists|t: Type| t@ == tv && size_known(t, defs)
}

/// The size of the types with this value.
pub open spec fn sizeof_view(tv: TypeView, defs: Seq<StructDef>) -> nat {
    sizeof_spec(choose|t: Type| t@ == tv && size_known(t, defs), defs)
}

/// Sizes of types are sizes of their values.
pub proof fn lemma_sizeof_view(t: Type, defs: Seq<StructDef>)
    ensures
        size_known_view(t@, defs) == size_known(t, defs),
        size_known(t, defs) ==> sizeof_view(t@, defs) == sizeof_spec(t, defs),
{
    if size_known_view(t@, defs) {
        let u = choose|u: Type| u@ == t@ && size_known(u, defs);
        lemma_size_by_view(u, t, defs);
    }
}

} // verus!
