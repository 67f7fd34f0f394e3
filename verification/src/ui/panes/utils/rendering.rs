//! The lines the stack pane shows for array elements and struct fields,
//! nested ones indented under their parent, each with its address and
//! type.
use vstd::prelude::*;
use vstd::utf8::encode_utf8;
use crate::memory::value::Value;
use crate::memory::{
    def_index, find_struct_def, lemma_offset_monotone, lemma_sizeof_view, offset_of, size_known,
    size_known_view, sizeof_spec, sizeof_type, sizeof_view,
};
use crate::parser::ast::{base_view, BaseType, BaseView, Field, StructDef, Type, TypeView};
use crate::text::{chars_of, decimal_digits, hex_digits, push_char, push_decimal, push_hex_padded8, zero_pad};
use crate::ui::panes::utils::formatting::{
    base_type_text, dims_text, format_type_annotation, format_value_styled, styled_value, type_text,
    Tone,
};
use crate::ui::panes::utils::memory::calculate_field_offsets;

verus! {

/// The color role of a piece of the stack pane.
#[derive(Debug, Clone, Copy, PartialEq, Eq, Structural)]
pub enum StackTone {
    /// Addresses, call sites and other secondary text
    Muted,
    /// No styling
    Plain,
    /// Names and punctuation
    Text,
    TypeName,
    /// A value, in the tone of its kind
    Value(Tone),
    /// The marker before a frame
    Marker,
    /// The function a frame runs
    FunctionName,
    /// A calling function
    Caller,
    /// The marker of a return value
    ReturnMark,
    /// The colon after the return marker
    Return,
    /// A returned value, in the return color, keeping its kind's emphasis
    Returned(Tone),
    /// Initialization notes
    Failure,
    /// The address of the variable an error is about
    Highlighted,
}

/// A line of the stack pane.
pub type StackLine = Vec<(String, StackTone)>;

pub open spec fn stack_pieces(s: Seq<(String, StackTone)>) -> Seq<(Seq<char>, StackTone)> {
    s.map_values(|p: (String, StackTone)| (p.0@, p.1))
}

pub open spec fn stack_line_view(l: StackLine) -> Seq<(Seq<char>, StackTone)> {
    stack_pieces(l@)
}

pub open spec fn stack_lines_view(v: Seq<StackLine>) -> Seq<Seq<(Seq<char>, StackTone)>> {
    v.map_values(|l: StackLine| stack_line_view(l))
}

/// The number of bytes the UTF-8 encoding of a text takes.
pub open spec fn byte_len(s: Seq<char>) -> nat {
    encode_utf8(s).len()
}

/// `n` spaces.
pub open spec fn blanks(n: nat) -> Seq<char> {
    Seq::new(n, |i: int| ' ')
}

/// Two spaces a level of nesting.
pub open spec fn indent_text(level: nat) -> Seq<char> {
    blanks(2 * level)
}

/// What is left of `total` after `used`, at least zero.
pub open spec fn room(total: nat, used: nat) -> nat {
    if total > used {
        (total - used) as nat
    } else {
        0
    }
}

/// An address as the pane starts a line with it.
pub open spec fn address_text(a: nat) -> Seq<char> {
    "0x"@ + zero_pad(hex_digits(a), 8) + " "@
}

/// A type written as C declares it, from its value.
pub open spec fn type_view_text(t: TypeView) -> Seq<char> {
    (if t.is_const {
        "const "@
    } else {
        Seq::empty()
    }) + match t.base {
        BaseView::Int => "int"@,
        BaseView::Char => "char"@,
        BaseView::Void => "void"@,
        BaseView::Struct(name) => "struct "@ + name,
    } + Seq::new(t.pointer_depth, |i: int| '*') + dims_text(t.array_dims)
}

pub(crate) proof fn lemma_type_text_view(t: Type)
    ensures
        type_text(t) == type_view_text(t@),
{
    assert(base_type_text(t.base) == match base_view(t.base) {
        BaseView::Int => "int"@,
        BaseView::Char => "char"@,
        BaseView::Void => "void"@,
        BaseView::Struct(name) => "struct "@ + name,
    });
}

/// The type of an array's elements: one dimension fewer (a type without
/// dimensions stays as it is).
pub open spec fn element_view(t: TypeView) -> TypeView {
    if t.array_dims.len() > 0 {
        TypeView { array_dims: t.array_dims.drop_first(), ..t }
    } else {
        t
    }
}

/// The pieces a value shows as, in the tones of its kind.
pub open spec fn value_pieces(v: Value, indent: usize) -> Seq<(Seq<char>, StackTone)> {
    styled_value(v, indent).map_values(|p: (Seq<char>, Tone)| (p.0, StackTone::Value(p.1)))
}

/// The width in bytes of some pieces.
pub open spec fn pieces_width(ps: Seq<(Seq<char>, StackTone)>) -> nat
    decreases ps.len(),
{
    if ps.len() == 0 {
        0
    } else {
        pieces_width(ps.drop_last()) + byte_len(ps.last().0)
    }
}

/// A type name pushed to the right edge after `used` columns, when there is
/// one.
pub open spec fn right_type(type_str: Seq<char>, used: nat, width: nat) -> Seq<(Seq<char>, StackTone)> {
    if type_str.len() > 0 {
        seq![
            (blanks(room(width, used + byte_len(type_str))), StackTone::Plain),
            (type_str, StackTone::TypeName),
        ]
    } else {
        Seq::empty()
    }
}

/// The position of the last field with this name.
pub open spec fn last_position(fs: Seq<Field>, name: Seq<char>) -> Option<int>
    decreases fs.len(),
{
    if fs.len() == 0 {
        None
    } else if fs.last().name@ == name {
        Some(fs.len() - 1)
    } else {
        last_position(fs.drop_last(), name)
    }
}

/// Where a field of a struct value lies, from its parent type's
/// definition: its offset and its declared type (the last field of that
/// name).
pub open spec fn field_slot(defs: Seq<StructDef>, parent: TypeView, name: Seq<char>) -> Option<
    (int, Type),
> {
    match parent.base {
        BaseView::Struct(n) => match def_index(defs, n) {
            Some(d) => match last_position(defs[d].fields@, name) {
                Some(q) => Some((offset_of(defs[d].fields@, defs, q), defs[d].fields@[q].field_type)),
                None => None,
            },
            None => None,
        },
        _ => None,
    }
}

/// Lexicographic order of texts by character, as strings compare.
pub open spec fn text_less(a: Seq<char>, b: Seq<char>) -> bool
    decreases a.len(),
{
    if a.len() == 0 {
        b.len() > 0
    } else if b.len() == 0 {
        false
    } else if a[0] != b[0] {
        a[0] < b[0]
    } else {
        text_less(a.drop_first(), b.drop_first())
    }
}

/// Where index `j` goes among indices already in name order: after every
/// one whose name is not greater.
pub open spec fn insert_place(order: Seq<int>, fs: Seq<(String, Value)>, j: int) -> int
    decreases order.len(),
{
    if order.len() == 0 {
        0
    } else if text_less(fs[j].0@, fs[order.last()].0@) {
        insert_place(order.drop_last(), fs, j)
    } else {
        order.len() as int
    }
}

/// The positions of the first `n` fields in name order, fields of equal
/// names in their given order.
pub open spec fn name_order(fs: Seq<(String, Value)>, n: nat) -> Seq<int>
    decreases n,
{
    if n == 0 {
        Seq::empty()
    } else {
        let o = name_order(fs, (n - 1) as nat);
        let q = insert_place(o, fs, n - 1);
        o.take(q) + seq![n - 1] + o.skip(q)
    }
}

/// The header of a nested array or struct: its address, its index or field
/// name, and its type at the right edge.
pub open spec fn nested_header(
    addr_piece: (Seq<char>, StackTone),
    level: nat,
    label: Seq<char>,
    type_str: Seq<char>,
    width: nat,
) -> Seq<(Seq<char>, StackTone)> {
    seq![addr_piece, (indent_text(level), StackTone::Plain), (label, StackTone::Text), (": "@, StackTone::Text)]
        + right_type(type_str, 11 + byte_len(indent_text(level)) + byte_len(label) + 2, width)
}

/// A line of a plain value: its address, index or field name, its value,
/// and its type at the right edge.
pub open spec fn value_line(
    addr_piece: (Seq<char>, StackTone),
    level: nat,
    label: Seq<char>,
    v: Value,
    type_str: Seq<char>,
    width: nat,
) -> Seq<(Seq<char>, StackTone)> {
    seq![addr_piece, (indent_text(level), StackTone::Plain), (label, StackTone::Text), (": "@, StackTone::Text)]
        + value_pieces(v, 1) + right_type(
        type_str,
        11 + byte_len(indent_text(level)) + byte_len(label) + 2 + pieces_width(value_pieces(v, 1)),
        width,
    )
}

/// The lines of the `idx`-th element of an array of type `t` at `base`: a
/// nested array or struct under a header line, another value on one line,
/// with its address and type.
pub open spec fn element_block(
    vs: Seq<Value>,
    t: TypeView,
    base: nat,
    level: nat,
    defs: Seq<StructDef>,
    width: nat,
    idx: nat,
) -> Seq<Seq<(Seq<char>, StackTone)>>
    decreases vs, 0nat,
{
    if idx >= vs.len() {
        Seq::empty()
    } else {
        let et = element_view(t);
        let addr = base + idx * sizeof_view(et, defs);
        let addr_piece = (address_text(addr), StackTone::Muted);
        let label = "["@ + decimal_digits(idx) + "] "@;
        let type_str = type_view_text(et);
        match vs[idx as int] {
            Value::Array(nested) => seq![nested_header(addr_piece, level, label, type_str, width)]
                + elements_lines(nested@, et, addr, level + 1, defs, width, 0),
            Value::Struct(fs) => seq![nested_header(addr_piece, level, label, type_str, width)]
                + fields_lines(fs@, et, addr, level + 1, defs, width, 0),
            v => seq![value_line(addr_piece, level, label, v, type_str, width)],
        }
    }
}

/// The lines of the elements of an array of type `t` at `base`, from the
/// `idx`-th on, each element at its offset.
pub open spec fn elements_lines(
    vs: Seq<Value>,
    t: TypeView,
    base: nat,
    level: nat,
    defs: Seq<StructDef>,
    width: nat,
    idx: nat,
) -> Seq<Seq<(Seq<char>, StackTone)>>
    decreases vs, vs.len() + 1 - idx,
{
    if idx >= vs.len() {
        Seq::empty()
    } else {
        element_block(vs, t, base, level, defs, width, idx) + elements_lines(vs, t, base, level, defs, width, idx + 1)
    }
}

/// The lines of field `j` of a struct value of type `t` at `base`: with its
/// address and type where the definition has the field, a nested struct
/// under a header line, another value on one line.
pub open spec fn field_block(
    fs: Seq<(String, Value)>,
    t: TypeView,
    base: nat,
    level: nat,
    defs: Seq<StructDef>,
    width: nat,
    j: int,
) -> Seq<Seq<(Seq<char>, StackTone)>>
    decreases fs, 0nat,
{
    if j < 0 || j >= fs.len() {
        Seq::empty()
    } else {
        let name = fs[j].0@;
        let slot = field_slot(defs, t, name);
        let addr_piece = match slot {
            Some((off, _)) => (address_text((base + off) as nat), StackTone::Muted),
            None => (blanks(14), StackTone::Plain),
        };
        let type_str = match slot {
            Some((_, ft)) => type_text(ft),
            None => Seq::empty(),
        };
        let label = "."@ + name + " "@;
        match fs[j].1 {
            Value::Struct(nested) => seq![nested_header(addr_piece, level, label, type_str, width)]
                + match slot {
                Some((off, ft)) => fields_lines(nested@, ft@, (base + off) as nat, level + 1, defs, width, 0),
                None => Seq::empty(),
            },
            v => seq![value_line(addr_piece, level, label, v, type_str, width)],
        }
    }
}

/// The lines of the fields of a struct value of type `t` at `base`, in name
/// order from the `k`-th on.
pub open spec fn fields_lines(
    fs: Seq<(String, Value)>,
    t: TypeView,
    base: nat,
    level: nat,
    defs: Seq<StructDef>,
    width: nat,
    k: nat,
) -> Seq<Seq<(Seq<char>, StackTone)>>
    decreases fs, fs.len() + 1 - k,
{
    if k >= fs.len() {
        Seq::empty()
    } else {
        field_block(fs, t, base, level, defs, width, name_order(fs, fs.len())[k as int])
            + fields_lines(fs, t, base, level, defs, width, k + 1)
    }
}

/// Whether one name comes before another.
fn name_less(a: &String, b: &String) -> (r: bool)
    ensures
        r == text_less(a@, b@),
{
    let x = chars_of(a.as_str());
    let y = chars_of(b.as_str());
    let mut i: usize = 0;
    assert(x@.skip(0) =~= x@);
    assert(y@.skip(0) =~= y@);
    while i < x.len() && i < y.len() && x[i] == y[i]
        invariant
            x@ == a@,
            y@ == b@,
            0 <= i <= x@.len(),
            i <= y@.len(),
            text_less(a@, b@) == text_less(x@.skip(i as int), y@.skip(i as int)),
        decreases x@.len() - i,
    {
        proof {
            assert(x@.skip(i as int).drop_first() =~= x@.skip(i + 1));
            assert(y@.skip(i as int).drop_first() =~= y@.skip(i + 1));
        }
        i = i + 1;
    }
    if i == x.len() {
        i < y.len()
    } else if i == y.len() {
        false
    } else {
        x[i] < y[i]
    }
}

/// The position of the last field with this name.
fn find_last_field(fields: &Vec<Field>, name: &String) -> (r: Option<usize>)
    ensures
        match last_position(fields@, name@) {
            Some(q) => r matches Some(i) && i == q && q < fields@.len(),
            None => r is None,
        },
{
    let mut i: usize = fields.len();
    assert(fields@.take(i as int) =~= fields@);
    while i > 0
        invariant
            0 <= i <= fields@.len(),
            last_position(fields@, name@) == last_position(fields@.take(i as int), name@),
        decreases i,
    {
        proof {
            assert(fields@.take(i as int).drop_last() =~= fields@.take(i - 1));
            assert(fields@.take(i as int).last() == fields@[i - 1]);
        }
        if fields[i - 1].name == *name {
            return Some(i - 1);
        }
        i = i - 1;
    }
    proof {
        assert(fields@.take(0) =~= Seq::<Field>::empty());
    }
    None
}

/// The name order has each position once, every one of them in range.
proof fn lemma_name_order(fs: Seq<(String, Value)>, n: nat)
    requires
        n <= fs.len(),
    ensures
        name_order(fs, n).len() == n,
        forall|k: int| 0 <= k < n ==> 0 <= #[trigger] name_order(fs, n)[k] < n,
    decreases n,
{
    if n > 0 {
        lemma_name_order(fs, (n - 1) as nat);
        let o = name_order(fs, (n - 1) as nat);
        lemma_insert_place(o, fs, n - 1);
        let q = insert_place(o, fs, n - 1);
        let r = o.take(q) + seq![n - 1] + o.skip(q);
        assert forall|k: int| 0 <= k < n implies 0 <= #[trigger] r[k] < n by {
            if k < q {
                assert(r[k] == o[k]);
            } else if k > q {
                assert(r[k] == o[k - 1]);
            }
        }
    }
}

proof fn lemma_insert_place(order: Seq<int>, fs: Seq<(String, Value)>, j: int)
    ensures
        0 <= insert_place(order, fs, j) <= order.len(),
    decreases order.len(),
{
    if order.len() > 0 {
        lemma_insert_place(order.drop_last(), fs, j);
    }
}

/// The positions of the fields of a struct value in name order.
fn field_order(fields: &Vec<(String, Value)>) -> (r: Vec<usize>)
    ensures
        r@.len() == fields@.len(),
        forall|k: int| 0 <= k < r@.len() ==> r@[k] == name_order(fields@, fields@.len())[k],
        forall|k: int| 0 <= k < r@.len() ==> #[trigger] r@[k] < fields@.len(),
{
    let mut order: Vec<usize> = Vec::new();
    let mut j: usize = 0;
    while j < fields.len()
        invariant
            0 <= j <= fields@.len(),
            order@.len() == j,
            forall|k: int| 0 <= k < j ==> order@[k] == name_order(fields@, j as nat)[k],
            forall|k: int| 0 <= k < j ==> #[trigger] order@[k] < j,
        decreases fields@.len() - j,
    {
        let ghost o = name_order(fields@, j as nat);
        proof {
            lemma_name_order(fields@, j as nat);
            assert(order@.map_values(|x: usize| x as int) =~= o);
        }
        let mut q: usize = order.len();
        assert(o.take(q as int) =~= o);
        while q > 0 && name_less(&fields[j].0, &fields[order[q - 1]].0)
            invariant
                0 <= q <= order@.len(),
                order@.len() == j,
                j < fields@.len(),
                forall|k: int| 0 <= k < j ==> #[trigger] order@[k] < j,
                order@.map_values(|x: usize| x as int) == o,
                insert_place(o, fields@, j as int) == insert_place(o.take(q as int), fields@, j as int),
            decreases q,
        {
            proof {
                assert(o.take(q as int).drop_last() =~= o.take(q - 1));
                assert(o.take(q as int).last() == o[q - 1]);
            }
            q = q - 1;
        }
        proof {
            if q > 0 {
                assert(o.take(q as int).last() == o[q - 1]);
            }
            lemma_insert_place(o.take(q as int), fields@, j as int);
        }
        assert(insert_place(o, fields@, j as int) == q);
        let ghost before = order@;
        order.insert(q, j);
        proof {
            lemma_name_order(fields@, (j + 1) as nat);
            let r = name_order(fields@, (j + 1) as nat);
            assert(r == o.take(q as int) + seq![j as int] + o.skip(q as int));
            assert forall|k: int| 0 <= k < j + 1 implies order@[k] == r[k] by {
                if k < q {
                    assert(order@[k] == o[k]);
                } else if k == q {
                } else {
                    assert(order@[k] == o[k - 1]);
                }
            }
            assert forall|k: int| 0 <= k < j + 1 implies #[trigger] order@[k] < j + 1 by {
                if k < q {
                } else if k == q {
                } else {
                    assert(order@[k] == before[k - 1]);
                }
            }
        }
        j = j + 1;
    }
    order
}

/// What listing a struct's fields needs of its definition: field sizes
/// that are known and add up within a `usize`.
pub open spec fn layout_known(defs: Seq<StructDef>, t: TypeView) -> bool {
    match t.base {
        BaseView::Struct(n) => match def_index(defs, n) {
            Some(d) => {
                &&& forall|i: int|
                    0 <= i < defs[d].fields@.len() ==> size_known(
                        #[trigger] defs[d].fields@[i].field_type,
                        defs,
                    )
                &&& offset_of(defs[d].fields@, defs, defs[d].fields@.len() as int) <= usize::MAX
            },
            None => true,
        },
        _ => true,
    }
}

/// What listing the elements of an array needs: an element size that is
/// known, addresses within 64 bits, nesting within a `usize`, and the same
/// of every nested array and struct.
pub open spec fn elements_fit(vs: Seq<Value>, t: TypeView, base: nat, level: nat, defs: Seq<StructDef>) -> bool
    decreases vs, 0nat,
{
    let et = element_view(t);
    &&& size_known_view(et, defs)
    &&& 2 * level + 2 <= usize::MAX
    &&& forall|idx: int|
        0 <= idx < vs.len() ==> {
            let addr = base + idx * sizeof_view(et, defs);
            &&& addr <= u64::MAX
            &&& match #[trigger] vs[idx] {
                Value::Array(nested) => elements_fit(nested@, et, addr as nat, level + 1, defs),
                Value::Struct(fs) => fields_fit(fs@, et, addr as nat, level + 1, defs),
                _ => true,
            }
        }
}

/// What listing the fields of a struct value needs: a known layout,
/// addresses within 64 bits, nesting within a `usize`, and the same of
/// every nested struct.
pub open spec fn fields_fit(
    fs: Seq<(String, Value)>,
    t: TypeView,
    base: nat,
    level: nat,
    defs: Seq<StructDef>,
) -> bool
    decreases fs, 0nat,
{
    &&& layout_known(defs, t)
    &&& 2 * level + 2 <= usize::MAX
    &&& base <= u64::MAX
    &&& forall|j: int|
        0 <= j < fs.len() ==> match field_slot(defs, t, (#[trigger] fs[j]).0@) {
            Some((off, ft)) => {
                &&& base + off <= u64::MAX
                &&& match fs[j].1 {
                    Value::Struct(nested) => fields_fit(nested@, ft@, (base + off) as nat, level + 1, defs),
                    _ => true,
                }
            },
            None => true,
        }
}

pub(crate) proof fn lemma_stack_lines_push(v: Seq<StackLine>, l: StackLine)
    ensures
        stack_lines_view(v.push(l)) == stack_lines_view(v).push(stack_line_view(l)),
{
    assert(stack_lines_view(v.push(l)) =~= stack_lines_view(v).push(stack_line_view(l)));
}

pub(crate) fn push_piece(line: &mut StackLine, text: String, tone: StackTone)
    ensures
        stack_line_view(*final(line)) == stack_line_view(*old(line)).push((text@, tone)),
{
    let ghost t = text@;
    line.push((text, tone));
    assert(stack_line_view(*line) =~= stack_line_view(*old(line)).push((t, tone)));
}

/// The length in bytes of a string's UTF-8 encoding.
pub(crate) fn text_bytes(s: &String) -> (r: usize)
    ensures
        r == byte_len(s@),
{
    s.as_str().as_bytes().len()
}

pub(crate) fn address_string(a: u64) -> (r: String)
    ensures
        r@ == address_text(a as nat),
{
    let mut s = String::from_str("0x");
    push_hex_padded8(&mut s, a);
    s.append(" ");
    s
}

pub(crate) fn blank_string(n: usize) -> (r: String)
    ensures
        r@ == blanks(n as nat),
{
    let mut s = String::new();
    let mut i: usize = 0;
    while i < n
        invariant
            0 <= i <= n,
            s@ == blanks(i as nat),
        decreases n - i,
    {
        push_char(&mut s, ' ');
        i = i + 1;
        assert(s@ =~= blanks(i as nat));
    }
    s
}

/// Append a value's pieces; returns their width in bytes.
pub(crate) fn push_value_pieces(line: &mut StackLine, v: &Value, struct_defs: &[StructDef], indent: usize) -> (r:
    usize)
    ensures
        stack_line_view(*final(line)) == stack_line_view(*old(line)) + value_pieces(*v, indent),
        r == pieces_width(value_pieces(*v, indent)),
{
    let pieces = format_value_styled(v, struct_defs, indent);
    let ghost vp = value_pieces(*v, indent);
    assert(vp.len() == 1);
    let text = pieces[0].0.clone();
    let tone = pieces[0].1;
    let w = text_bytes(&text);
    let ghost t = text@;
    push_piece(line, text, StackTone::Value(tone));
    proof {
        assert(vp[0] == (pieces@[0].0@, StackTone::Value(pieces@[0].1)));
        assert(stack_line_view(*line) =~= stack_line_view(*old(line)) + vp);
        assert(vp.drop_last() =~= Seq::<(Seq<char>, StackTone)>::empty());
        assert(pieces_width(vp.drop_last()) == 0);
        assert(vp[0].0 == t);
        assert(vp.last() == vp[0]);
    }
    w
}

/// Append a type name pushed to the right edge after `used` columns.
fn push_right_type(line: &mut StackLine, type_str: String, used: u128, width: usize)
    requires
        used <= 0xffff_ffff_ffff_ffff_ffff,
    ensures
        stack_line_view(*final(line)) == stack_line_view(*old(line)) + right_type(
            type_str@,
            used as nat,
            width as nat,
        ),
{
    if !type_str.as_str().is_empty() {
        let total = used + text_bytes(&type_str) as u128;
        let pad: usize = if (width as u128) > total {
            (width as u128 - total) as usize
        } else {
            0
        };
        push_piece(line, blank_string(pad), StackTone::Plain);
        push_piece(line, type_str, StackTone::TypeName);
    }
    assert(stack_line_view(*line) =~= stack_line_view(*old(line)) + right_type(
        type_str@,
        used as nat,
        width as nat,
    ));
}

/// The start of a line under a parent: address, indentation, label and
/// colon.
fn line_start(addr_piece: (String, StackTone), level: usize, label: String) -> (r: StackLine)
    requires
        2 * level <= usize::MAX,
    ensures
        stack_line_view(r) == seq![
            (addr_piece.0@, addr_piece.1),
            (indent_text(level as nat), StackTone::Plain),
            (label@, StackTone::Text),
            (": "@, StackTone::Text),
        ],
{
    let mut line: StackLine = Vec::new();
    push_piece(&mut line, addr_piece.0, addr_piece.1);
    push_piece(&mut line, blank_string(2 * level), StackTone::Plain);
    push_piece(&mut line, label, StackTone::Text);
    push_piece(&mut line, String::from_str(": "), StackTone::Text);
    assert(stack_line_view(line) =~= seq![
        (addr_piece.0@, addr_piece.1),
        (indent_text(level as nat), StackTone::Plain),
        (label@, StackTone::Text),
        (": "@, StackTone::Text),
    ]);
    line
}

/// Append the lines of the `idx`-th element of an array of elements of type
/// `elem_type`.
fn render_element(
    all_items: &mut Vec<StackLine>,
    elements: &[Value],
    idx: usize,
    array_type: &Type,
    elem_type: &Type,
    elem_size: u64,
    base_address: u64,
    indent_level: usize,
    struct_defs: &[StructDef],
    content_width: usize,
)
    requires
        elements_fit(elements@, array_type@, base_address as nat, indent_level as nat, struct_defs@),
        elem_type@ == element_view(array_type@),
        size_known(*elem_type, struct_defs@),
        elem_size == sizeof_view(elem_type@, struct_defs@),
        type_text(*elem_type) == type_view_text(elem_type@),
        idx < elements@.len(),
    ensures
        stack_lines_view(final(all_items)@) == stack_lines_view(old(all_items)@) + element_block(
            elements@,
            array_type@,
            base_address as nat,
            indent_level as nat,
            struct_defs@,
            content_width as nat,
            idx as nat,
        ),
    decreases elements@, 0nat,
{
    let ghost et = elem_type@;
    let ghost addr_i = base_address + idx * sizeof_view(et, struct_defs@);
    assert(addr_i <= u64::MAX);
    proof {
        assert(idx * elem_size <= addr_i) by (nonlinear_arith)
            requires
                addr_i == base_address + idx * elem_size,
                base_address >= 0,
        ;
    }
    let elem_address = base_address + (idx as u64) * elem_size;
    let mut label = String::from_str("[");
    push_decimal(&mut label, idx as u64);
    label.append("] ");
    let label_len = text_bytes(&label);
    let type_str = format_type_annotation(elem_type, struct_defs);
    let addr_piece = (address_string(elem_address), StackTone::Muted);
    let indent_len = 2 * indent_level;
    proof {
        vstd::utf8::is_ascii_chars_encode_utf8(indent_text(indent_level as nat));
    }
    match &elements[idx] {
        Value::Array(nested) => {
            let mut header = line_start(addr_piece, indent_level, label);
            push_right_type(&mut header, type_str, 11 + indent_len as u128 + label_len as u128 + 2, content_width);
            proof {
                lemma_stack_lines_push(all_items@, header);
            }
            all_items.push(header);
            proof {
                assert(decreases_to!(elements@ => elements@[idx as int]));
                assert(decreases_to!(elements@[idx as int] => (elements@[idx as int])->Array_0));
                assert(decreases_to!(*nested => nested@));
            }
            render_array_elements(
                all_items,
                nested.as_slice(),
                elem_type,
                elem_address,
                indent_level + 1,
                struct_defs,
                content_width,
            );
        },
        Value::Struct(fields) => {
            let mut header = line_start(addr_piece, indent_level, label);
            push_right_type(&mut header, type_str, 11 + indent_len as u128 + label_len as u128 + 2, content_width);
            proof {
                lemma_stack_lines_push(all_items@, header);
            }
            all_items.push(header);
            proof {
                assert(decreases_to!(elements@ => elements@[idx as int]));
                assert(decreases_to!(elements@[idx as int] => (elements@[idx as int])->Struct_0));
                assert(decreases_to!(*fields => fields@));
            }
            render_struct_fields(
                all_items,
                fields,
                elem_type,
                elem_address,
                indent_level + 1,
                struct_defs,
                content_width,
            );
        },
        v => {
            let mut line = line_start(addr_piece, indent_level, label);
            let val_width = push_value_pieces(&mut line, v, struct_defs, 1);
            push_right_type(
                &mut line,
                type_str,
                11 + indent_len as u128 + label_len as u128 + 2 + val_width as u128,
                content_width,
            );
            proof {
                lemma_stack_lines_push(all_items@, line);
            }
            all_items.push(line);
        },
    }
}

/// Append the lines of the elements of an array of type `array_type` at
/// `base_address`: nested arrays and structs under a header line, other
/// values on one line, each element with its address and type.
pub fn render_array_elements(
    all_items: &mut Vec<StackLine>,
    elements: &[Value],
    array_type: &Type,
    base_address: u64,
    indent_level: usize,
    struct_defs: &[StructDef],
    content_width: usize,
)
    requires
        elements_fit(elements@, array_type@, base_address as nat, indent_level as nat, struct_defs@),
    ensures
        stack_lines_view(final(all_items)@) == stack_lines_view(old(all_items)@) + elements_lines(
            elements@,
            array_type@,
            base_address as nat,
            indent_level as nat,
            struct_defs@,
            content_width as nat,
            0,
        ),
    decreases elements@, 1nat,
{
    let mut elem_type = array_type.duplicate();
    if elem_type.array_dims.len() > 0 {
        elem_type.array_dims.remove(0);
    }
    assert(elem_type@ == element_view(array_type@));
    proof {
        lemma_sizeof_view(elem_type, struct_defs@);
        lemma_type_text_view(elem_type);
    }
    let elem_size = sizeof_type(&elem_type, struct_defs) as u64;
    let ghost head = stack_lines_view(all_items@);
    let mut idx: usize = 0;
    while idx < elements.len()
        invariant
            elements_fit(elements@, array_type@, base_address as nat, indent_level as nat, struct_defs@),
            elem_type@ == element_view(array_type@),
            size_known(elem_type, struct_defs@),
            elem_size == sizeof_view(elem_type@, struct_defs@),
            type_text(elem_type) == type_view_text(elem_type@),
            0 <= idx <= elements@.len(),
            head + elements_lines(
                elements@,
                array_type@,
                base_address as nat,
                indent_level as nat,
                struct_defs@,
                content_width as nat,
                0,
            ) == stack_lines_view(all_items@) + elements_lines(
                elements@,
                array_type@,
                base_address as nat,
                indent_level as nat,
                struct_defs@,
                content_width as nat,
                idx as nat,
            ),
        decreases elements@.len() - idx,
    {
        let ghost before = stack_lines_view(all_items@);
        render_element(
            all_items,
            elements,
            idx,
            array_type,
            &elem_type,
            elem_size,
            base_address,
            indent_level,
            struct_defs,
            content_width,
        );
        proof {
            let this = element_block(
                elements@,
                array_type@,
                base_address as nat,
                indent_level as nat,
                struct_defs@,
                content_width as nat,
                idx as nat,
            );
            let rest = elements_lines(
                elements@,
                array_type@,
                base_address as nat,
                indent_level as nat,
                struct_defs@,
                content_width as nat,
                (idx + 1) as nat,
            );
            assert(before + (this + rest) =~= (before + this) + rest);
        }
        idx = idx + 1;
    }
    proof {
        assert(stack_lines_view(all_items@) + Seq::<Seq<(Seq<char>, StackTone)>>::empty()
            =~= stack_lines_view(all_items@));
    }
}

/// The definition's fields of a struct type, when it has one.
fn defined_fields<'a>(parent_type: &Type, struct_defs: &'a [StructDef]) -> (r: Option<&'a Vec<Field>>)
    ensures
        match r {
            Some(fs) => parent_type@.base matches BaseView::Struct(n) && def_index(struct_defs@, n)
                matches Some(d) && *fs == struct_defs@[d].fields,
            None => forall|nm: Seq<char>| #[trigger] field_slot(struct_defs@, parent_type@, nm) is None,
        },
{
    match &parent_type.base {
        BaseType::Struct(name) => match find_struct_def(struct_defs, name) {
            Some(def) => Some(&def.fields),
            None => None,
        },
        _ => None,
    }
}

/// Append the lines of field `j` of a struct value.
fn render_field(
    all_items: &mut Vec<StackLine>,
    fields: &Vec<(String, Value)>,
    j: usize,
    parent_type: &Type,
    def_fields: Option<&Vec<Field>>,
    info: &Vec<(String, usize, usize, Type)>,
    base_address: u64,
    indent_level: usize,
    struct_defs: &[StructDef],
    content_width: usize,
)
    requires
        fields_fit(fields@, parent_type@, base_address as nat, indent_level as nat, struct_defs@),
        j < fields@.len(),
        match def_fields {
            Some(fs) => {
                &&& parent_type@.base matches BaseView::Struct(n) && def_index(struct_defs@, n) matches Some(d)
                    && *fs == struct_defs@[d].fields
                &&& info@.len() == fs@.len()
                &&& forall|i: int| 0 <= i < fs@.len() ==> (#[trigger] info@[i]).1 == offset_of(fs@, struct_defs@, i)
            },
            None => forall|nm: Seq<char>| #[trigger] field_slot(struct_defs@, parent_type@, nm) is None,
        },
    ensures
        stack_lines_view(final(all_items)@) == stack_lines_view(old(all_items)@) + field_block(
            fields@,
            parent_type@,
            base_address as nat,
            indent_level as nat,
            struct_defs@,
            content_width as nat,
            j as int,
        ),
    decreases fields@, 0nat,
{
    let field_name = &fields[j].0;
    let field_value = &fields[j].1;
    let ghost slot = field_slot(struct_defs@, parent_type@, field_name@);
    let found: Option<(usize, &Type)> = match def_fields {
        Some(fs) => match find_last_field(fs, field_name) {
            Some(q) => Some((info[q].1, &fs[q].field_type)),
            None => None,
        },
        None => None,
    };
    proof {
        match found {
            Some((off, ft)) => {
                assert(slot == Some((off as int, *ft)));
            },
            None => {
                assert(slot is None);
            },
        }
    }
    let ghost ap = match slot {
        Some((off, _)) => (address_text((base_address + off) as nat), StackTone::Muted),
        None => (blanks(14), StackTone::Plain),
    };
    let (addr_piece, type_str) = match found {
        Some((off, ft)) => {
            (
                (address_string(base_address + off as u64), StackTone::Muted),
                format_type_annotation(ft, struct_defs),
            )
        },
        None => ((blank_string(14), StackTone::Plain), String::new()),
    };
    let mut label = String::from_str(".");
    label.append(field_name.as_str());
    label.append(" ");
    let label_len = text_bytes(&label);
    let indent_len = 2 * indent_level;
    proof {
        vstd::utf8::is_ascii_chars_encode_utf8(indent_text(indent_level as nat));
    }
    match field_value {
        Value::Struct(nested) => {
            let mut header = line_start(addr_piece, indent_level, label);
            push_right_type(&mut header, type_str, 11 + indent_len as u128 + label_len as u128 + 2, content_width);
            proof {
                lemma_stack_lines_push(all_items@, header);
            }
            all_items.push(header);
            match found {
                Some((off, ft)) => {
                    proof {
                        assert(decreases_to!(fields@ => fields@[j as int]));
                        assert(decreases_to!(fields@[j as int] => fields@[j as int].1));
                        assert(decreases_to!(fields@[j as int].1 => (fields@[j as int].1)->Struct_0));
                        assert(decreases_to!(*nested => nested@));
                    }
                    render_struct_fields(
                        all_items,
                        nested,
                        ft,
                        base_address + off as u64,
                        indent_level + 1,
                        struct_defs,
                        content_width,
                    );
                },
                None => {
                    assert(stack_lines_view(all_items@) + Seq::<Seq<(Seq<char>, StackTone)>>::empty()
                        =~= stack_lines_view(all_items@));
                },
            }
        },
        v => {
            let mut line = line_start(addr_piece, indent_level, label);
            let val_width = push_value_pieces(&mut line, v, struct_defs, 1);
            push_right_type(
                &mut line,
                type_str,
                11 + indent_len as u128 + label_len as u128 + 2 + val_width as u128,
                content_width,
            );
            proof {
                lemma_stack_lines_push(all_items@, line);
            }
            all_items.push(line);
        },
    }
}

/// Append the lines of the fields of a struct value of type `parent_type`
/// at `base_address`, in name order: each with its address and type where
/// the definition has it, nested structs under a header line.
pub fn render_struct_fields(
    all_items: &mut Vec<StackLine>,
    fields: &Vec<(String, Value)>,
    parent_type: &Type,
    base_address: u64,
    indent_level: usize,
    struct_defs: &[StructDef],
    content_width: usize,
)
    requires
        fields_fit(fields@, parent_type@, base_address as nat, indent_level as nat, struct_defs@),
    ensures
        stack_lines_view(final(all_items)@) == stack_lines_view(old(all_items)@) + fields_lines(
            fields@,
            parent_type@,
            base_address as nat,
            indent_level as nat,
            struct_defs@,
            content_width as nat,
            0,
        ),
    decreases fields@, 1nat,
{
    let order = field_order(fields);
    let ghost ord = name_order(fields@, fields@.len());
    let def_fields = defined_fields(parent_type, struct_defs);
    let info: Vec<(String, usize, usize, Type)> = match def_fields {
        Some(fs) => calculate_field_offsets(fs.as_slice(), struct_defs),
        None => Vec::new(),
    };
    let ghost head = stack_lines_view(all_items@);
    let mut k: usize = 0;
    while k < order.len()
        invariant
            fields_fit(fields@, parent_type@, base_address as nat, indent_level as nat, struct_defs@),
            order@.len() == fields@.len(),
            ord == name_order(fields@, fields@.len()),
            forall|i: int| 0 <= i < order@.len() ==> order@[i] == ord[i],
            forall|i: int| 0 <= i < order@.len() ==> #[trigger] order@[i] < fields@.len(),
            match def_fields {
                Some(fs) => {
                    &&& parent_type@.base matches BaseView::Struct(n) && def_index(struct_defs@, n) matches Some(d)
                        && *fs == struct_defs@[d].fields
                    &&& info@.len() == fs@.len()
                    &&& forall|i: int| 0 <= i < fs@.len() ==> (#[trigger] info@[i]).1 == offset_of(fs@, struct_defs@, i)
                },
                None => forall|nm: Seq<char>| #[trigger] field_slot(struct_defs@, parent_type@, nm) is None,
            },
            0 <= k <= order@.len(),
            head + fields_lines(fields@, parent_type@, base_address as nat, indent_level as nat, struct_defs@, content_width as nat, 0)
                == stack_lines_view(all_items@) + fields_lines(fields@, parent_type@, base_address as nat, indent_level as nat, struct_defs@, content_width as nat, k as nat),
        decreases order@.len() - k,
    {
        let ghost before = stack_lines_view(all_items@);
        let j = order[k];
        render_field(
            all_items,
            fields,
            j,
            parent_type,
            def_fields,
            &info,
            base_address,
            indent_level,
            struct_defs,
            content_width,
        );
        proof {
            let this = field_block(fields@, parent_type@, base_address as nat, indent_level as nat, struct_defs@, content_width as nat, j as int);
            let rest = fields_lines(fields@, parent_type@, base_address as nat, indent_level as nat, struct_defs@, content_width as nat, (k + 1) as nat);
            assert(before + (this + rest) =~= (before + this) + rest);
        }
        k = k + 1;
    }
    proof {
        assert(stack_lines_view(all_items@) + Seq::<Seq<(Seq<char>, StackTone)>>::empty()
            =~= stack_lines_view(all_items@));
    }
}

} // verus!
