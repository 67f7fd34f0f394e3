//! The heap pane: what it shows of the heap's blocks, and its scrolling.
use vstd::prelude::*;
use vstd::std_specs::hash::spec_hash_map_iter;
use vstd::std_specs::iter::IteratorSpec;
use vstd::utf8::encode_utf8;
use crate::memory::heap::{BlockState, BlockView, Heap, HeapBlock};
use crate::memory::{
    def_index, find_struct_def, lemma_offset_monotone, offset_of, size_known, sizeof_spec,
    sizeof_type,
};
use crate::parser::ast::{BaseType, Field, StructDef, Type};
use crate::ui::panes::utils::formatting::{format_type_annotation, type_text};
use std::collections::HashMap;
use crate::text::{
    decimal_digits, hex_byte_text, hex_digits, push_char, push_decimal, push_hex_byte,
    push_hex_padded8, zero_pad,
};
use crate::ui::panes::utils::memory::{calculate_field_offsets, read_typed_value, typed_value_text};

verus! {

/// Scroll state for the heap pane
#[derive(Debug, Clone, Copy, Default)]
pub struct HeapScrollState {
    pub offset: usize,
    pub prev_item_count: usize,
}

/// The largest offset that still fills a window of `height` rows.
pub open spec fn max_scroll(total: usize, height: usize) -> usize {
    if total > height {
        (total - height) as usize
    } else {
        0
    }
}

/// Where a list that follows its new entries is scrolled: to the bottom when
/// it has grown, else where it was, kept within range.
pub open spec fn follow_growth(offset: usize, prev: usize, total: usize, height: usize) -> usize {
    if total > prev {
        max_scroll(total, height)
    } else if offset < max_scroll(total, height) {
        offset
    } else {
        max_scroll(total, height)
    }
}

impl HeapScrollState {
    /// Scroll for a list of `total_items` rows shown `visible_height` at a
    /// time: to the bottom when content grew (a new allocation), else keep
    /// the user's position, clamped.
    pub fn update(&mut self, total_items: usize, visible_height: usize)
        ensures
            final(self).offset == follow_growth(
                old(self).offset,
                old(self).prev_item_count,
                total_items,
                visible_height,
            ),
            final(self).prev_item_count == total_items,
    {
        if total_items > self.prev_item_count {
            if total_items > visible_height {
                self.offset = total_items - visible_height;
            } else {
                self.offset = 0;
            }
        } else {
            if total_items > visible_height {
                let max_scroll = total_items - visible_height;
                if self.offset > max_scroll {
                    self.offset = max_scroll;
                }
            } else {
                self.offset = 0;
            }
        }
        self.prev_item_count = total_items;
    }
}

/// After an update the window never starts past the last full window, and
/// when content has grown it ends on the last row.
pub proof fn law_follow_growth_in_range(offset: usize, prev: usize, total: usize, height: usize)
    ensures
        follow_growth(offset, prev, total, height) <= max_scroll(total, height),
        total > prev && total > height ==> follow_growth(offset, prev, total, height) + height
            == total,
{
}

/// The addresses of the blocks still allocated.
pub open spec fn active_set(m: Map<u64, BlockView>) -> Set<u64> {
    Set::new(|a: u64| m.contains_key(a) && m[a].state == BlockState::Allocated)
}

/// A strictly increasing sequence.
pub open spec fn increasing(q: Seq<u64>) -> bool {
    forall|i: int, j: int| 0 <= i < j < q.len() ==> q[i] < q[j]
}

/// The elements of a set in increasing order.
pub open spec fn in_order(s: Set<u64>) -> Seq<u64> {
    choose|q: Seq<u64>| increasing(q) && q.to_set() == s
}

/// The first element of an increasing sequence is the smallest of its set.
proof fn lemma_first_is_least(q: Seq<u64>, x: u64)
    requires
        increasing(q),
        q.len() > 0,
        q.to_set().contains(x),
    ensures
        q[0] <= x,
{
    let k = choose|k: int| 0 <= k < q.len() && q[k] == x;
    assert(q.contains(x));
}

/// Two increasing sequences with the same elements are the same.
proof fn lemma_increasing_unique(a: Seq<u64>, b: Seq<u64>)
    requires
        increasing(a),
        increasing(b),
        a.to_set() == b.to_set(),
    ensures
        a == b,
    decreases a.len(),
{
    if a.len() == 0 {
        if b.len() > 0 {
            assert(b.to_set().contains(b[0]));
            assert(!a.to_set().contains(b[0]));
        }
        assert(a =~= b);
    } else {
        assert(a.to_set().contains(a[0]));
        if b.len() == 0 {
            assert(!b.to_set().contains(a[0]));
        }
        assert(b.to_set().contains(b[0]));
        lemma_first_is_least(a, b[0]);
        lemma_first_is_least(b, a[0]);
        let x = a[0];
        let a1 = a.drop_first();
        let b1 = b.drop_first();
        assert forall|y: u64| a1.to_set().contains(y) <==> b1.to_set().contains(y) by {
            if a1.to_set().contains(y) {
                let k = choose|k: int| 0 <= k < a1.len() && a1[k] == y;
                assert(a[k + 1] == y);
                assert(a.to_set().contains(y));
                assert(b.to_set().contains(y));
                let m = choose|m: int| 0 <= m < b.len() && b[m] == y;
                assert(m != 0);
                assert(b1[m - 1] == y);
            }
            if b1.to_set().contains(y) {
                let k = choose|k: int| 0 <= k < b1.len() && b1[k] == y;
                assert(b[k + 1] == y);
                assert(b.to_set().contains(y));
                assert(a.to_set().contains(y));
                let m = choose|m: int| 0 <= m < a.len() && a[m] == y;
                assert(m != 0);
                assert(a1[m - 1] == y);
            }
        }
        assert(a1.to_set() =~= b1.to_set());
        lemma_increasing_unique(a1, b1);
        assert(a =~= seq![x] + a1);
        assert(b =~= seq![x] + b1);
    }
}

/// Inserting a new address into an increasing sequence at its place.
fn insert_sorted(v: &mut Vec<u64>, x: u64)
    requires
        increasing(old(v)@),
        !old(v)@.contains(x),
    ensures
        increasing(final(v)@),
        final(v)@.to_set() == old(v)@.to_set().insert(x),
        final(v)@.len() == old(v)@.len() + 1,
{
    let mut i: usize = 0;
    while i < v.len() && v[i] < x
        invariant
            0 <= i <= v@.len(),
            v@ == old(v)@,
            forall|j: int| 0 <= j < i ==> v@[j] < x,
        decreases v@.len() - i,
    {
        i = i + 1;
    }
    proof {
        if i < v@.len() {
            assert(v@[i as int] != x);
        }
    }
    v.insert(i, x);
    proof {
        let o = old(v)@;
        assert forall|p: int, q: int| 0 <= p < q < v@.len() implies v@[p] < v@[q] by {
            if q < i {
            } else if q == i {
            } else if p < i {
                assert(v@[q] == o[q - 1]);
                assert(o[q - 1] >= x || q - 1 < i) by {
                    if q - 1 >= i && i < o.len() {
                        assert(o[i as int] > x);
                        if q - 1 > i {
                            assert(o[i as int] < o[q - 1]);
                        }
                    }
                }
            } else if p == i {
                assert(o[i as int] > x);
                if q - 1 > i {
                    assert(o[i as int] < o[q - 1]);
                }
            } else {
                assert(o[p - 1] < o[q - 1]);
            }
        }
        assert forall|y: u64| #[trigger] v@.to_set().contains(y) <==> o.to_set().insert(x).contains(y) by {
            if v@.to_set().contains(y) {
                let k = choose|k: int| 0 <= k < v@.len() && v@[k] == y;
                if k < i {
                    assert(o[k] == y);
                } else if k > i {
                    assert(o[k - 1] == y);
                }
            }
            if o.to_set().contains(y) {
                let k = choose|k: int| 0 <= k < o.len() && o[k] == y;
                if k < i {
                    assert(v@[k] == y);
                } else {
                    assert(v@[k + 1] == y);
                }
            }
            if y == x {
                assert(v@[i as int] == x);
            }
        }
        assert(v@.to_set() =~= o.to_set().insert(x));
    }
}

/// The addresses of the blocks still allocated, in increasing order.
pub fn active_addresses(heap: &Heap) -> (r: Vec<u64>)
    requires
        heap.wf(),
    ensures
        r@ == in_order(active_set(heap@)),
        increasing(r@),
        r@.to_set() == active_set(heap@),
{
    let allocations = heap.allocations();
    let mut out: Vec<u64> = Vec::new();
    let ghost v = spec_hash_map_iter(allocations).remaining();
    let ghost mut seen: int = 0;
    proof {
        assert(out@.to_set() =~= Set::<u64>::empty());
    }
    for entry in it: allocations.iter()
        invariant
            v == spec_hash_map_iter(allocations).remaining(),
            it.seq() == v,
            seen == it.index(),
            v.no_duplicates(),
            increasing(out@),
            out@.to_set() == Set::new(
                |a: u64| exists|j: int| 0 <= j < seen && *(#[trigger] v[j]).0 == a && (*v[j].1).state
                    == BlockState::Allocated,
            ),
    {
        let (k, b) = entry;
        let ghost j = seen;
        if b.state == BlockState::Allocated {
            proof {
                if out@.contains(*k) {
                    assert(out@.to_set().contains(*k));
                    let q = choose|q: int| 0 <= q < seen && *v[q].0 == *k && (*v[q].1).state
                        == BlockState::Allocated;
                    assert(allocations@.contains_key(*v[q].0));
                    assert(allocations@.contains_key(*v[j].0));
                    assert(*v[j].0 == *k);
                    assert(v[q] == v[j]);
                    assert(false);
                }
            }
            insert_sorted(&mut out, *k);
        }
        proof {
            seen = seen + 1;
            assert(out@.to_set() =~= Set::new(
                |a: u64| exists|q: int| 0 <= q < seen && *(#[trigger] v[q]).0 == a && (*v[q].1).state
                    == BlockState::Allocated,
            ));
        }
    }
    proof {
        assert(out@.to_set() =~= active_set(heap@));
        lemma_increasing_unique(out@, in_order(active_set(heap@)));
    }
    out
}

/// The color role of a piece of the heap pane.
#[derive(Debug, Clone, Copy, PartialEq, Eq, Structural)]
pub enum HeapTone {
    /// Addresses, dumps and other secondary text
    Muted,
    /// The address of the block an error is about
    Highlighted,
    /// Block sizes
    Size,
    TypeName,
    /// Field names and punctuation
    Text,
    /// `NULL` and uninitialized values
    Failure,
    /// Other values
    Value,
    /// No styling
    Plain,
}

/// A line of the pane as pieces of text with their tones.
pub type PaneLine = Vec<(String, HeapTone)>;

pub open spec fn pieces_view(s: Seq<(String, HeapTone)>) -> Seq<(Seq<char>, HeapTone)> {
    s.map_values(|p: (String, HeapTone)| (p.0@, p.1))
}

pub open spec fn line_view(l: PaneLine) -> Seq<(Seq<char>, HeapTone)> {
    pieces_view(l@)
}

pub open spec fn lines_view(v: Seq<PaneLine>) -> Seq<Seq<(Seq<char>, HeapTone)>> {
    v.map_values(|l: PaneLine| line_view(l))
}

/// The number of bytes the UTF-8 encoding of a text takes.
pub open spec fn utf8_len(s: Seq<char>) -> nat {
    encode_utf8(s).len()
}

/// `n` spaces.
pub open spec fn spaces(n: nat) -> Seq<char> {
    Seq::new(n, |i: int| ' ')
}

/// A text padded with spaces to `n` bytes.
pub open spec fn pad_bytes(s: Seq<char>, n: nat) -> Seq<char> {
    if utf8_len(s) < n {
        s + spaces((n - utf8_len(s)) as nat)
    } else {
        s
    }
}

/// An address as `0x` and at least eight hexadecimal digits.
pub open spec fn hex8(a: nat) -> Seq<char> {
    "0x"@ + zero_pad(hex_digits(a), 8)
}

/// A byte in a dump: two hexadecimal digits and a space when it is
/// initialized, `?? ` when it is not.
pub open spec fn byte_cell(b: u8, init: bool) -> Seq<char> {
    if init {
        hex_byte_text(b) + " "@
    } else {
        "?? "@
    }
}

/// The bytes of a block from `from` up to `to`, in a dump.
pub open spec fn byte_cells(b: BlockView, from: int, to: int) -> Seq<char>
    decreases to - from,
{
    if from >= to {
        Seq::empty()
    } else {
        byte_cells(b, from, to - 1) + byte_cell(b.data[to - 1], b.init_map[to - 1])
    }
}

/// A dump line: the address of its first byte, then the bytes.
pub open spec fn dump_text(addr: nat, b: BlockView, from: int, to: int) -> Seq<char> {
    "  "@ + hex8(addr) + ": "@ + byte_cells(b, from, to)
}

/// The length in bytes of a string's UTF-8 encoding.
pub(crate) fn text_len(s: &String) -> (r: usize)
    ensures
        r == utf8_len(s@),
{
    s.as_str().as_bytes().len()
}

pub(crate) fn push_spaces(s: &mut String, n: usize)
    ensures
        final(s)@ == old(s)@ + spaces(n as nat),
{
    let mut i: usize = 0;
    while i < n
        invariant
            0 <= i <= n,
            s@ == old(s)@ + spaces(i as nat),
        decreases n - i,
    {
        push_char(s, ' ');
        i = i + 1;
        assert(s@ =~= old(s)@ + spaces(i as nat));
    }
}

/// Pad a string with spaces to `n` bytes.
fn pad_to(s: &mut String, n: usize)
    ensures
        final(s)@ == pad_bytes(old(s)@, n as nat),
{
    let len = text_len(s);
    if len < n {
        push_spaces(s, n - len);
    }
}

/// A dump line of the bytes `from` up to `to` of a block starting at
/// `base`.
fn dump_line(base: u64, block: &HeapBlock, from: usize, to: usize) -> (r: String)
    requires
        block.wf(),
        from <= to <= block.size,
        base + block.size <= u64::MAX,
    ensures
        r@ == dump_text((base + from) as nat, block@, from as int, to as int),
{
    let mut s = String::from_str("  0x");
    push_hex_padded8(&mut s, base + from as u64);
    s.append(": ");
    let ghost head = s@;
    let mut i: usize = from;
    while i < to
        invariant
            block.wf(),
            from <= i <= to <= block.size,
            s@ == head + byte_cells(block@, from as int, i as int),
        decreases to - i,
    {
        if block.init_map[i] {
            push_hex_byte(&mut s, block.data[i]);
            s.append(" ");
        } else {
            s.append("?? ");
        }
        i = i + 1;
        assert(s@ =~= head + byte_cells(block@, from as int, i as int));
    }
    proof {
        reveal_strlit("  0x");
        reveal_strlit("  ");
        reveal_strlit("0x");
    }
    assert(s@ =~= dump_text((base + from) as nat, block@, from as int, to as int));
    s
}

/// How many bytes a raw dump shows a line, for a pane of this width: a
/// third of what is left of 40 columns, between 1 and 16.
pub open spec fn bytes_per_line(width: u16) -> nat {
    let avail: nat = if width > 40 {
        (width - 40) as nat
    } else {
        0
    };
    let fit: nat = if avail / 3 < 1 {
        1
    } else {
        avail / 3
    };
    if fit < 16 {
        fit
    } else {
        16
    }
}

/// The smaller of two numbers.
pub open spec fn min_nat(a: nat, b: nat) -> nat {
    if a < b {
        a
    } else {
        b
    }
}

/// A raw dump of a block from byte `start` on, `per_line` bytes a line.
pub open spec fn raw_dump(base: u64, b: BlockView, per_line: nat, start: nat) -> Seq<
    Seq<(Seq<char>, HeapTone)>,
>
    decreases b.size + per_line - start,
{
    if per_line == 0 || start >= b.size {
        Seq::empty()
    } else {
        seq![
            seq![
                (
                    dump_text(
                        (base + start) as nat,
                        b,
                        start as int,
                        min_nat(start + per_line, b.size) as int,
                    ),
                    HeapTone::Muted,
                ),
            ],
        ] + raw_dump(base, b, per_line, start + per_line)
    }
}

fn one_piece_line(text: String, tone: HeapTone) -> (r: PaneLine)
    ensures
        line_view(r) == seq![(text@, tone)],
{
    let v = vec![(text, tone)];
    assert(line_view(v) =~= seq![(text@, tone)]);
    v
}

proof fn lemma_lines_push(v: Seq<PaneLine>, l: PaneLine)
    ensures
        lines_view(v.push(l)) == lines_view(v).push(line_view(l)),
{
    assert(lines_view(v.push(l)) =~= lines_view(v).push(line_view(l)));
}

/// Append a raw dump of a block to the pane's lines.
fn push_raw_dump(lines: &mut Vec<PaneLine>, base: u64, block: &HeapBlock, width: u16)
    requires
        block.wf(),
        base + block.size <= u64::MAX,
    ensures
        lines_view(final(lines)@) == lines_view(old(lines)@) + raw_dump(
            base,
            block@,
            bytes_per_line(width),
            0,
        ),
{
    let available_width = width.saturating_sub(40) as usize;
    let fit = available_width / 3;
    let max_bytes_per_line = if fit < 1 {
        1
    } else {
        fit
    };
    let per_line: usize = if max_bytes_per_line < 16 {
        max_bytes_per_line
    } else {
        16
    };
    assert(per_line == bytes_per_line(width));
    let ghost head = lines_view(lines@);
    let mut start: usize = 0;
    proof {
        assert(head + Seq::<Seq<(Seq<char>, HeapTone)>>::empty() =~= head);
    }
    while start < block.size
        invariant
            block.wf(),
            base + block.size <= u64::MAX,
            per_line == bytes_per_line(width),
            1 <= per_line <= 16,
            head + raw_dump(base, block@, per_line as nat, 0) == lines_view(lines@) + raw_dump(
                base,
                block@,
                per_line as nat,
                start as nat,
            ),
        decreases block.size - start,
    {
        let end = if block.size - start > per_line {
            start + per_line
        } else {
            block.size
        };
        let text = dump_line(base, block, start, end);
        let line = one_piece_line(text, HeapTone::Muted);
        proof {
            let rest = raw_dump(base, block@, per_line as nat, (start + per_line) as nat);
            lemma_lines_push(lines@, line);
            assert(raw_dump(base, block@, per_line as nat, start as nat) == seq![line_view(line)]
                + rest);
            assert(lines_view(lines@) + (seq![line_view(line)] + rest) =~= lines_view(lines@).push(
                line_view(line),
            ) + rest);
        }
        lines.push(line);
        proof {
            if end == block.size {
                assert(raw_dump(base, block@, per_line as nat, (start + per_line) as nat) =~= Seq::<
                    Seq<(Seq<char>, HeapTone)>,
                >::empty());
                assert(raw_dump(base, block@, per_line as nat, end as nat) =~= Seq::<
                    Seq<(Seq<char>, HeapTone)>,
                >::empty());
            }
        }
        start = end;
    }
    proof {
        assert(raw_dump(base, block@, per_line as nat, start as nat) =~= Seq::<
            Seq<(Seq<char>, HeapTone)>,
        >::empty());
        assert(lines_view(lines@) + Seq::<Seq<(Seq<char>, HeapTone)>>::empty() =~= lines_view(
            lines@,
        ));
    }
}

/// The tone a value is shown in: `NULL` and bracketed texts (values not
/// or partly initialized) as failures, other values as values.
pub open spec fn value_tone(t: Seq<char>) -> HeapTone {
    if t == "NULL"@ || (t.len() > 0 && t[0] == '[') {
        HeapTone::Failure
    } else {
        HeapTone::Value
    }
}

fn tone_of_value(t: &String) -> (r: HeapTone)
    ensures
        r == value_tone(t@),
{
    let cs = crate::text::chars_of(t.as_str());
    if crate::parser::lexer::text_is(t, "NULL") || (cs.len() > 0 && cs[0] == '[') {
        HeapTone::Failure
    } else {
        HeapTone::Value
    }
}

/// The line of the `k`-th element of a block read as an array of `t`, each
/// `size` bytes: its bytes, padded to line up, and the value they hold
/// when it can be read.
pub open spec fn element_line(base: u64, b: BlockView, t: Type, size: nat, k: nat) -> Seq<
    (Seq<char>, HeapTone),
> {
    let offset = k * size;
    let hex = pad_bytes(
        dump_text((base + offset) as nat, b, offset as int, (offset + size) as int),
        14 + size * 3,
    );
    seq![(hex, HeapTone::Muted)] + match typed_value_text(
        b.data.skip(offset as int),
        b.init_map.skip(offset as int),
        t,
        size,
    ) {
        Some(v) => seq![("  => "@, HeapTone::Muted), (v, value_tone(v))],
        None => Seq::empty(),
    }
}

/// The lines of the elements from the `k`-th up to the `n`-th.
pub open spec fn element_lines(base: u64, b: BlockView, t: Type, size: nat, k: nat, n: nat) -> Seq<
    Seq<(Seq<char>, HeapTone)>,
>
    decreases n - k,
{
    if k >= n {
        Seq::empty()
    } else {
        seq![element_line(base, b, t, size, k)] + element_lines(base, b, t, size, k + 1, n)
    }
}

/// The body of a block known to hold values of the non-struct type `t`:
/// one line an element while at least one fits, then any bytes left over;
/// a raw dump where no element fits.
pub open spec fn typed_body(base: u64, b: BlockView, t: Type, defs: Seq<StructDef>, width: u16) -> Seq<
    Seq<(Seq<char>, HeapTone)>,
> {
    let size = sizeof_spec(t, defs);
    if size > 0 && b.size >= size {
        let n = b.size / size;
        element_lines(base, b, t, size, 0, n) + if n * size < b.size {
            seq![
                seq![
                    (
                        dump_text((base + n * size) as nat, b, (n * size) as int, b.size as int),
                        HeapTone::Muted,
                    ),
                ],
            ]
        } else {
            Seq::empty()
        }
    } else {
        raw_dump(base, b, bytes_per_line(width), 0)
    }
}

proof fn lemma_mul_le(k: nat, n: nat, size: nat)
    requires
        k <= n,
    ensures
        k * size <= n * size,
{
    assert(k * size <= n * size) by (nonlinear_arith)
        requires
            k <= n,
    ;
}

/// Append the body of a block holding values of a non-struct type.
fn push_typed_body(
    lines: &mut Vec<PaneLine>,
    base: u64,
    block: &HeapBlock,
    t: &Type,
    struct_defs: &[StructDef],
    width: u16,
)
    requires
        block.wf(),
        base + block.size <= u64::MAX,
        size_known(*t, struct_defs@),
        block.size * 3 + 14 <= usize::MAX,
    ensures
        lines_view(final(lines)@) == lines_view(old(lines)@) + typed_body(
            base,
            block@,
            *t,
            struct_defs@,
            width,
        ),
{
    let elem_size = sizeof_type(t, struct_defs);
    if elem_size > 0 && block.size >= elem_size {
        let n = block.size / elem_size;
        let ghost head = lines_view(lines@);
        let mut k: usize = 0;
        proof {
            assert(head + Seq::<Seq<(Seq<char>, HeapTone)>>::empty() =~= head);
            assert(n * elem_size <= block.size) by (nonlinear_arith)
                requires
                    n == block.size / elem_size,
                    elem_size > 0,
            ;
        }
        while k < n
            invariant
                block.wf(),
                base + block.size <= u64::MAX,
                size_known(*t, struct_defs@),
                block.size * 3 + 14 <= usize::MAX,
                elem_size == sizeof_spec(*t, struct_defs@),
                0 < elem_size <= block.size,
                n == block.size / elem_size,
                n * elem_size <= block.size,
                k <= n,
                head + element_lines(base, block@, *t, elem_size as nat, 0, n as nat) == lines_view(
                    lines@,
                ) + element_lines(base, block@, *t, elem_size as nat, k as nat, n as nat),
            decreases n - k,
        {
            proof {
                lemma_mul_le((k + 1) as nat, n as nat, elem_size as nat);
                assert((k + 1) * elem_size == k * elem_size + elem_size) by (nonlinear_arith);
            }
            let offset = k * elem_size;
            let mut hex = dump_line(base, block, offset, offset + elem_size);
            pad_to(&mut hex, 14 + elem_size * 3);
            let data = vstd::slice::slice_subrange(block.data.as_slice(), offset, block.data.len());
            let init = vstd::slice::slice_subrange(
                block.init_map.as_slice(),
                offset,
                block.init_map.len(),
            );
            let value = read_typed_value(data, init, t, struct_defs);
            let ghost hex_text = hex@;
            let mut line: PaneLine = Vec::new();
            line.push((hex, HeapTone::Muted));
            match value {
                Some(v) => {
                    let tone = tone_of_value(&v);
                    line.push((String::from_str("  => "), HeapTone::Muted));
                    line.push((v, tone));
                },
                None => {},
            }
            proof {
                assert(data@ =~= block@.data.skip(offset as int));
                assert(init@ =~= block@.init_map.skip(offset as int));
                assert(line_view(line) =~= element_line(base, block@, *t, elem_size as nat, k as nat));
                lemma_lines_push(lines@, line);
                let rest = element_lines(base, block@, *t, elem_size as nat, (k + 1) as nat, n as nat);
                assert(lines_view(lines@) + (seq![line_view(line)] + rest) =~= lines_view(lines@).push(
                    line_view(line),
                ) + rest);
            }
            lines.push(line);
            k = k + 1;
        }
        let rem = n * elem_size;
        if rem < block.size {
            let text = dump_line(base, block, rem, block.size);
            let line = one_piece_line(text, HeapTone::Muted);
            proof {
                lemma_lines_push(lines@, line);
            }
            lines.push(line);
        }
        proof {
            let empty = Seq::<Seq<(Seq<char>, HeapTone)>>::empty();
            assert(element_lines(base, block@, *t, elem_size as nat, n as nat, n as nat) =~= empty);
        }
        assert(lines_view(lines@) =~= head + typed_body(base, block@, *t, struct_defs@, width));
    } else {
        push_raw_dump(lines, base, block, width);
    }
}

/// The larger of two numbers.
pub open spec fn max_nat(a: nat, b: nat) -> nat {
    if a < b {
        b
    } else {
        a
    }
}

/// The length in bytes of the longest field name.
pub open spec fn max_name_len(fs: Seq<Field>) -> nat
    decreases fs.len(),
{
    if fs.len() == 0 {
        0
    } else {
        max_nat(max_name_len(fs.drop_last()), utf8_len(fs.last().name@))
    }
}

/// The size of the largest field, zero where there is none.
pub open spec fn max_size(fs: Seq<Field>, defs: Seq<StructDef>) -> nat
    decreases fs.len(),
{
    if fs.len() == 0 {
        0
    } else {
        max_nat(max_size(fs.drop_last(), defs), sizeof_spec(fs.last().field_type, defs))
    }
}

/// The size the dumps of a struct's fields are lined up for: that of its
/// largest field, four bytes for a struct without fields.
pub open spec fn dump_width(fs: Seq<Field>, defs: Seq<StructDef>) -> nat {
    if fs.len() == 0 {
        4
    } else {
        max_size(fs, defs)
    }
}

/// A text padded with spaces to `n` characters.
pub open spec fn pad_chars(s: Seq<char>, n: nat) -> Seq<char> {
    if s.len() < n {
        s + spaces((n - s.len()) as nat)
    } else {
        s
    }
}

/// The annotation of a field: its name, padded to line up with the others,
/// and its value, or `?` where it cannot be read.
pub open spec fn annotation(name: Seq<char>, width: nat, value: Option<Seq<char>>) -> Seq<
    (Seq<char>, HeapTone),
> {
    seq![("=> "@, HeapTone::Muted), ("."@, HeapTone::Text), (pad_chars(name, width) + " : "@, HeapTone::Text)]
        + match value {
        Some(v) => seq![(v, value_tone(v))],
        None => seq![("?"@, HeapTone::Muted)],
    }
}

/// The lines of field `j` of a struct in a block: its bytes, padded to line
/// up, then its annotation on the same line where the pane is wide enough,
/// else on an indented line of its own.
pub open spec fn field_lines(
    base: u64,
    b: BlockView,
    fs: Seq<Field>,
    defs: Seq<StructDef>,
    width: u16,
    j: int,
) -> Seq<Seq<(Seq<char>, HeapTone)>> {
    let offset = offset_of(fs, defs, j);
    let size = sizeof_spec(fs[j].field_type, defs);
    let end = min_nat((offset + size) as nat, b.size);
    let hex = pad_bytes(
        dump_text((base + offset) as nat, b, offset, end as int),
        14 + dump_width(fs, defs) * 3,
    );
    let value = typed_value_text(b.data.skip(offset), b.init_map.skip(offset), fs[j].field_type, size);
    let note = annotation(fs[j].name@, max_name_len(fs), value);
    let note_len = 7 + max_name_len(fs) + match value {
        Some(v) => utf8_len(v),
        None => 1,
    };
    let max_width: int = if width > 4 {
        width - 4
    } else {
        0
    };
    if utf8_len(hex) + 2 + note_len <= max_width {
        seq![seq![(hex, HeapTone::Muted), ("  "@, HeapTone::Plain)] + note]
    } else {
        seq![seq![(hex, HeapTone::Muted)], seq![("          "@, HeapTone::Plain)] + note]
    }
}

/// The lines of the fields from the `j`-th on.
pub open spec fn fields_lines(
    base: u64,
    b: BlockView,
    fs: Seq<Field>,
    defs: Seq<StructDef>,
    width: u16,
    j: int,
) -> Seq<Seq<(Seq<char>, HeapTone)>>
    decreases fs.len() - j,
{
    if j < 0 || j >= fs.len() {
        Seq::empty()
    } else {
        field_lines(base, b, fs, defs, width, j) + fields_lines(base, b, fs, defs, width, j + 1)
    }
}

/// What showing a struct's fields in a block needs: sizes that are known
/// and add up within a `usize`, no field starting past the block, and room
/// for the lined-up dumps.
pub open spec fn struct_fits(b: BlockView, fs: Seq<Field>, defs: Seq<StructDef>) -> bool {
    &&& forall|i: int| 0 <= i < fs.len() ==> size_known(#[trigger] fs[i].field_type, defs)
    &&& offset_of(fs, defs, fs.len() as int) <= usize::MAX
    &&& forall|i: int| 0 <= i < fs.len() ==> offset_of(fs, defs, i) <= b.size
    &&& dump_width(fs, defs) * 3 + 14 <= usize::MAX
}

fn pad_name(name: &String, width: usize) -> (r: String)
    ensures
        r@ == pad_chars(name@, width as nat) + " : "@,
{
    let cs = crate::text::chars_of(name.as_str());
    let mut s = name.clone();
    if cs.len() < width {
        push_spaces(&mut s, width - cs.len());
    }
    s.append(" : ");
    s
}

/// The longest name and the largest size among the fields.
fn field_maxima(fields: &Vec<Field>, struct_defs: &[StructDef]) -> (r: (usize, usize))
    requires
        forall|i: int| 0 <= i < fields@.len() ==> size_known(#[trigger] fields@[i].field_type, struct_defs@),
    ensures
        r.0 == max_name_len(fields@),
        r.1 == max_size(fields@, struct_defs@),
{
    let mut longest: usize = 0;
    let mut largest: usize = 0;
    let mut i: usize = 0;
    while i < fields.len()
        invariant
            0 <= i <= fields@.len(),
            forall|k: int| 0 <= k < fields@.len() ==> size_known(#[trigger] fields@[k].field_type, struct_defs@),
            longest == max_name_len(fields@.take(i as int)),
            largest == max_size(fields@.take(i as int), struct_defs@),
        decreases fields@.len() - i,
    {
        proof {
            assert(fields@.take(i + 1).drop_last() =~= fields@.take(i as int));
            assert(fields@.take(i + 1).last() == fields@[i as int]);
        }
        let n = text_len(&fields[i].name);
        if n > longest {
            longest = n;
        }
        let z = sizeof_type(&fields[i].field_type, struct_defs);
        if z > largest {
            largest = z;
        }
        i = i + 1;
    }
    proof {
        assert(fields@.take(i as int) =~= fields@);
    }
    (longest, largest)
}

/// Append the lines of a struct's fields held in a block.
fn push_struct_fields(
    lines: &mut Vec<PaneLine>,
    base: u64,
    block: &HeapBlock,
    fields: &Vec<Field>,
    struct_defs: &[StructDef],
    width: u16,
)
    requires
        block.wf(),
        base + block.size <= u64::MAX,
        struct_fits(block@, fields@, struct_defs@),
    ensures
        lines_view(final(lines)@) == lines_view(old(lines)@) + fields_lines(
            base,
            block@,
            fields@,
            struct_defs@,
            width,
            0,
        ),
{
    let info = calculate_field_offsets(fields.as_slice(), struct_defs);
    let (max_field_len, largest) = field_maxima(fields, struct_defs);
    let max_field_size = if fields.len() == 0 {
        4
    } else {
        largest
    };
    let target_hex_width = max_field_size * 3;
    let max_width = width.saturating_sub(4) as usize;
    let ghost head = lines_view(lines@);
    let mut j: usize = 0;
    proof {
        assert(head + Seq::<Seq<(Seq<char>, HeapTone)>>::empty() =~= head);
    }
    while j < fields.len()
        invariant
            block.wf(),
            base + block.size <= u64::MAX,
            struct_fits(block@, fields@, struct_defs@),
            info@.len() == fields@.len(),
            forall|i: int|
                0 <= i < fields@.len() ==> {
                    &&& (#[trigger] info@[i]).0@ == fields@[i].name@
                    &&& info@[i].1 == offset_of(fields@, struct_defs@, i)
                    &&& info@[i].2 == sizeof_spec(fields@[i].field_type, struct_defs@)
                },
            max_field_len == max_name_len(fields@),
            max_field_size == dump_width(fields@, struct_defs@),
            target_hex_width == max_field_size * 3,
            max_width == (if width > 4 { width - 4 } else { 0 }),
            0 <= j <= fields@.len(),
            head + fields_lines(base, block@, fields@, struct_defs@, width, 0) == lines_view(lines@)
                + fields_lines(base, block@, fields@, struct_defs@, width, j as int),
        decreases fields@.len() - j,
    {
        let offset = info[j].1;
        let size = info[j].2;
        proof {
            lemma_offset_monotone(fields@, struct_defs@, j + 1, fields@.len() as int);
            assert(offset_of(fields@, struct_defs@, j + 1) == offset + size);
        }
        let field_end = if offset + size < block.size {
            offset + size
        } else {
            block.size
        };
        let mut hex = dump_line(base, block, offset, field_end);
        pad_to(&mut hex, 14 + target_hex_width);
        let data = vstd::slice::slice_subrange(block.data.as_slice(), offset, block.data.len());
        let init = vstd::slice::slice_subrange(block.init_map.as_slice(), offset, block.init_map.len());
        let value = read_typed_value(data, init, &fields[j].field_type, struct_defs);
        proof {
            assert(data@ =~= block@.data.skip(offset as int));
            assert(init@ =~= block@.init_map.skip(offset as int));
        }
        let name_piece = pad_name(&fields[j].name, max_field_len);
        let mut note: PaneLine = Vec::new();
        note.push((String::from_str("=> "), HeapTone::Muted));
        note.push((String::from_str("."), HeapTone::Text));
        note.push((name_piece, HeapTone::Text));
        let value_len: usize = match value {
            Some(v) => {
                let n = text_len(&v);
                let tone = tone_of_value(&v);
                note.push((v, tone));
                n
            },
            None => {
                note.push((String::from_str("?"), HeapTone::Muted));
                1
            },
        };
        let ghost note_view = line_view(note);
        let hex_len = text_len(&hex);
        let fits = (hex_len as u128) + 2 + 7 + (max_field_len as u128) + (value_len as u128) <= (
        max_width as u128);
        let ghost hex_text = hex@;
        let ghost expected = field_lines(base, block@, fields@, struct_defs@, width, j as int);
        if fits {
            let mut line: PaneLine = Vec::new();
            line.push((hex, HeapTone::Muted));
            line.push((String::from_str("  "), HeapTone::Plain));
            let ghost before_note = line@;
            let ghost note_vec = note@;
            line.append(&mut note);
            assert(line@ =~= before_note + note_vec);
            assert(line_view(line) =~= pieces_view(before_note) + note_view);
            proof {
                assert(line_view(line) =~= seq![(hex_text, HeapTone::Muted), ("  "@, HeapTone::Plain)]
                    + note_view);
                assert(note_view =~= annotation(
                    fields@[j as int].name@,
                    max_name_len(fields@),
                    typed_value_text(
                        block@.data.skip(offset as int),
                        block@.init_map.skip(offset as int),
                        fields@[j as int].field_type,
                        size as nat,
                    ),
                ));
                assert(expected =~= seq![line_view(line)]);
                lemma_lines_push(lines@, line);
            }
            lines.push(line);
        } else {
            let first = one_piece_line(hex, HeapTone::Muted);
            let mut second: PaneLine = Vec::new();
            second.push((String::from_str("          "), HeapTone::Plain));
            let ghost before_note = second@;
            let ghost note_vec = note@;
            second.append(&mut note);
            assert(second@ =~= before_note + note_vec);
            assert(pieces_view(before_note) =~= seq![("          "@, HeapTone::Plain)]);
            assert(line_view(second) =~= seq![("          "@, HeapTone::Plain)] + note_view);
            proof {
                assert(note_view =~= annotation(
                    fields@[j as int].name@,
                    max_name_len(fields@),
                    typed_value_text(
                        block@.data.skip(offset as int),
                        block@.init_map.skip(offset as int),
                        fields@[j as int].field_type,
                        size as nat,
                    ),
                ));
                assert(expected =~= seq![line_view(first), line_view(second)]);
                lemma_lines_push(lines@, first);
                lemma_lines_push(lines@.push(first), second);
            }
            lines.push(first);
            lines.push(second);
        }
        proof {
            let rest = fields_lines(base, block@, fields@, struct_defs@, width, j + 1);
            assert(fields_lines(base, block@, fields@, struct_defs@, width, j as int) == expected + rest);
        }
        j = j + 1;
    }
    proof {
        assert(fields_lines(base, block@, fields@, struct_defs@, width, j as int) =~= Seq::<
            Seq<(Seq<char>, HeapTone)>,
        >::empty());
        assert(lines_view(lines@) + Seq::<Seq<(Seq<char>, HeapTone)>>::empty() =~= lines_view(
            lines@,
        ));
    }
}

/// The header line of a block: its address (marked when an error is about
/// it), its size, and its type where known, set to the right edge of the
/// pane.
pub open spec fn block_header(
    addr: u64,
    b: BlockView,
    ptype: Option<Type>,
    error_address: Option<u64>,
    width: u16,
) -> Seq<(Seq<char>, HeapTone)> {
    let type_str = match ptype {
        Some(t) => type_text(t),
        None => Seq::empty(),
    };
    let addr_tone = if error_address == Some(addr) {
        HeapTone::Highlighted
    } else {
        HeapTone::Muted
    };
    let size_text = decimal_digits(b.size) + " bytes"@;
    let start = seq![(hex8(addr as nat), addr_tone), (" | "@, HeapTone::Plain), (size_text, HeapTone::Size)];
    if type_str.len() == 0 {
        start
    } else {
        let used = 10 + 3 + utf8_len(size_text) + utf8_len(type_str);
        let content_width: nat = if width > 2 {
            (width - 2) as nat
        } else {
            0
        };
        let padding: nat = if content_width > used {
            (content_width - used) as nat
        } else {
            0
        };
        start + seq![(spaces(padding), HeapTone::Plain), (type_str, HeapTone::TypeName)]
    }
}

/// The lines under a block's header: its struct's fields, its elements, or a
/// raw dump where its type is unknown. A struct with no definition shows
/// nothing.
pub open spec fn block_body(
    addr: u64,
    b: BlockView,
    ptype: Option<Type>,
    defs: Seq<StructDef>,
    width: u16,
) -> Seq<Seq<(Seq<char>, HeapTone)>> {
    match ptype {
        Some(t) => match t.base {
            BaseType::Struct(name) => match def_index(defs, name@) {
                Some(d) => fields_lines(addr, b, defs[d].fields@, defs, width, 0),
                None => Seq::empty(),
            },
            _ => typed_body(addr, b, t, defs, width),
        },
        None => raw_dump(addr, b, bytes_per_line(width), 0),
    }
}

/// The type recorded for the block at an address.
pub open spec fn type_at(ptypes: Map<u64, Type>, a: u64) -> Option<Type> {
    if ptypes.contains_key(a) {
        Some(ptypes[a])
    } else {
        None
    }
}

/// The lines of the blocks from the `i`-th of `addrs` on, an empty line
/// between two blocks.
pub open spec fn blocks_lines(
    m: Map<u64, BlockView>,
    ptypes: Map<u64, Type>,
    defs: Seq<StructDef>,
    error_address: Option<u64>,
    width: u16,
    addrs: Seq<u64>,
    i: int,
) -> Seq<Seq<(Seq<char>, HeapTone)>>
    decreases addrs.len() - i,
{
    if i < 0 || i >= addrs.len() {
        Seq::empty()
    } else {
        let a = addrs[i];
        seq![block_header(a, m[a], type_at(ptypes, a), error_address, width)] + block_body(
            a,
            m[a],
            type_at(ptypes, a),
            defs,
            width,
        ) + (if i < addrs.len() - 1 {
            seq![seq![(Seq::<char>::empty(), HeapTone::Muted)]]
        } else {
            Seq::empty()
        }) + blocks_lines(m, ptypes, defs, error_address, width, addrs, i + 1)
    }
}

/// The lines of the heap pane: a note when there is no block, or none still
/// allocated; else each allocated block in address order, its header and
/// its body.
pub open spec fn heap_pane(
    m: Map<u64, BlockView>,
    ptypes: Map<u64, Type>,
    defs: Seq<StructDef>,
    error_address: Option<u64>,
    width: u16,
) -> Seq<Seq<(Seq<char>, HeapTone)>> {
    if m.dom().len() == 0 {
        seq![seq![("(no allocations)"@, HeapTone::Muted)]]
    } else {
        let addrs = in_order(active_set(m));
        (if addrs.len() == 0 {
            seq![seq![("(no active allocations)"@, HeapTone::Muted)]]
        } else {
            Seq::empty()
        }) + blocks_lines(m, ptypes, defs, error_address, width, addrs, 0)
    }
}

/// What showing the blocks needs of their recorded types: a struct's fields
/// laid out within the block as [`struct_fits`] says, an element type of
/// known size in a block small enough for the lined-up dumps.
pub open spec fn pane_fits(m: Map<u64, BlockView>, ptypes: Map<u64, Type>, defs: Seq<StructDef>) -> bool {
    forall|a: u64|
        #![trigger active_set(m).contains(a), ptypes.contains_key(a)]
        active_set(m).contains(a) && ptypes.contains_key(a) ==> match ptypes[a].base {
            BaseType::Struct(name) => match def_index(defs, name@) {
                Some(d) => struct_fits(m[a], defs[d].fields@, defs),
                None => true,
            },
            _ => size_known(ptypes[a], defs) && m[a].size * 3 + 14 <= usize::MAX,
        }
}

/// Append a block's header line.
fn push_header(
    lines: &mut Vec<PaneLine>,
    addr: u64,
    block: &HeapBlock,
    ptype: Option<&Type>,
    struct_defs: &[StructDef],
    error_address: Option<u64>,
    width: u16,
)
    ensures
        lines_view(final(lines)@) == lines_view(old(lines)@).push(
            block_header(
                addr,
                block@,
                match ptype {
                    Some(t) => Some(*t),
                    None => None,
                },
                error_address,
                width,
            ),
        ),
{
    let type_str = match ptype {
        Some(t) => format_type_annotation(t, struct_defs),
        None => String::new(),
    };
    let addr_tone = if error_address == Some(addr) {
        HeapTone::Highlighted
    } else {
        HeapTone::Muted
    };
    let mut addr_text = String::from_str("0x");
    push_hex_padded8(&mut addr_text, addr);
    let mut size_text = String::new();
    push_decimal(&mut size_text, block.size as u64);
    size_text.append(" bytes");
    let mut line: PaneLine = Vec::new();
    line.push((addr_text, addr_tone));
    line.push((String::from_str(" | "), HeapTone::Plain));
    let size_len = text_len(&size_text);
    line.push((size_text, HeapTone::Size));
    let type_len = text_len(&type_str);
    if !type_str.as_str().is_empty() {
        let used: u128 = 13 + (size_len as u128) + (type_len as u128);
        let content_width = width.saturating_sub(2) as u128;
        let padding: usize = if content_width > used {
            (content_width - used) as usize
        } else {
            0
        };
        let mut pad = String::new();
        push_spaces(&mut pad, padding);
        line.push((pad, HeapTone::Plain));
        line.push((type_str, HeapTone::TypeName));
    }
    proof {
        reveal_strlit("0x");
        lemma_lines_push(lines@, line);
        assert(line_view(line) =~= block_header(
            addr,
            block@,
            match ptype {
                Some(t) => Some(*t),
                None => None,
            },
            error_address,
            width,
        ));
    }
    lines.push(line);
}

/// What showing a block's body needs of its recorded type.
pub open spec fn body_fits(b: BlockView, ptype: Option<Type>, defs: Seq<StructDef>) -> bool {
    match ptype {
        Some(t) => match t.base {
            BaseType::Struct(name) => match def_index(defs, name@) {
                Some(d) => struct_fits(b, defs[d].fields@, defs),
                None => true,
            },
            _ => size_known(t, defs) && b.size * 3 + 14 <= usize::MAX,
        },
        None => true,
    }
}

/// Append the lines under a block's header.
fn push_body(
    lines: &mut Vec<PaneLine>,
    addr: u64,
    block: &HeapBlock,
    ptype: Option<&Type>,
    struct_defs: &[StructDef],
    width: u16,
)
    requires
        block.wf(),
        addr + block.size <= u64::MAX,
        body_fits(
            block@,
            match ptype {
                Some(t) => Some(*t),
                None => None,
            },
            struct_defs@,
        ),
    ensures
        lines_view(final(lines)@) == lines_view(old(lines)@) + block_body(
            addr,
            block@,
            match ptype {
                Some(t) => Some(*t),
                None => None,
            },
            struct_defs@,
            width,
        ),
{
    match ptype {
        Some(t) => match &t.base {
            BaseType::Struct(name) => match find_struct_def(struct_defs, name) {
                Some(def) => push_struct_fields(lines, addr, block, &def.fields, struct_defs, width),
                None => {
                    assert(lines_view(lines@) + Seq::<Seq<(Seq<char>, HeapTone)>>::empty()
                        =~= lines_view(lines@));
                },
            },
            _ => push_typed_body(lines, addr, block, t, struct_defs, width),
        },
        None => push_raw_dump(lines, addr, block, width),
    }
}

/// What the heap pane shows: the heap, the type recorded for each pointer
/// it handed out, the struct definitions, and the address an error is
/// about.
pub struct HeapRenderData<'a> {
    pub heap: &'a Heap,
    pub pointer_types: &'a HashMap<u64, Type>,
    pub struct_defs: &'a [StructDef],
    pub error_address: Option<u64>,
}

/// The lines of the heap pane for a pane `width` columns wide: every block
/// still allocated, in address order, with its header and its contents as
/// the type recorded for its address shows them.
pub fn render_heap_pane(data: HeapRenderData, width: u16) -> (r: Vec<PaneLine>)
    requires
        data.heap.wf(),
        pane_fits(data.heap@, data.pointer_types@, data.struct_defs@),
    ensures
        lines_view(r@) == heap_pane(
            data.heap@,
            data.pointer_types@,
            data.struct_defs@,
            data.error_address,
            width,
        ),
{
    let heap = data.heap;
    let pointer_types = data.pointer_types;
    let struct_defs = data.struct_defs;
    let error_address = data.error_address;
    let allocations = heap.allocations();
    let mut lines: Vec<PaneLine> = Vec::new();
    proof {
        assert(allocations@.dom() =~= heap@.dom());
    }
    if allocations.len() == 0 {
        let line = one_piece_line(String::from_str("(no allocations)"), HeapTone::Muted);
        lines.push(line);
        assert(lines_view(lines@) =~= heap_pane(
            heap@,
            pointer_types@,
            struct_defs@,
            error_address,
            width,
        ));
        return lines;
    }
    let addrs = active_addresses(heap);
    if addrs.len() == 0 {
        let line = one_piece_line(String::from_str("(no active allocations)"), HeapTone::Muted);
        lines.push(line);
    }
    let ghost head = lines_view(lines@);
    let ghost m = heap@;
    let ghost ps = pointer_types@;
    proof {
        heap.lemma_view_ok();
        assert(head == (if addrs@.len() == 0 {
            seq![seq![("(no active allocations)"@, HeapTone::Muted)]]
        } else {
            Seq::<Seq<(Seq<char>, HeapTone)>>::empty()
        })) by {
            if addrs@.len() == 0 {
                assert(lines_view(lines@) =~= seq![seq![("(no active allocations)"@, HeapTone::Muted)]]);
            } else {
                assert(lines_view(lines@) =~= Seq::<Seq<(Seq<char>, HeapTone)>>::empty());
            }
        }
        assert(head + blocks_lines(m, ps, struct_defs@, error_address, width, addrs@, 0) == lines_view(
            lines@,
        ) + blocks_lines(m, ps, struct_defs@, error_address, width, addrs@, 0));
    }
    let mut i: usize = 0;
    while i < addrs.len()
        invariant
            heap.wf(),
            heap@ == m,
            pointer_types@ == ps,
            heap_view_ok_for(m),
            pane_fits(m, ps, struct_defs@),
            addrs@ == in_order(active_set(m)),
            increasing(addrs@),
            addrs@.to_set() == active_set(m),
            0 <= i <= addrs@.len(),
            head + blocks_lines(m, ps, struct_defs@, error_address, width, addrs@, 0) == lines_view(
                lines@,
            ) + blocks_lines(m, ps, struct_defs@, error_address, width, addrs@, i as int),
        decreases addrs@.len() - i,
    {
        let addr = addrs[i];
        proof {
            assert(addrs@.to_set().contains(addr));
            assert(active_set(m).contains(addr));
        }
        let block = match heap.get_block(addr) {
            Ok(b) => b,
            Err(_) => {
                proof {
                    assert(false);
                }
                return lines;
            },
        };
        let ptype = pointer_types.get(&addr);
        let ghost t = type_at(ps, addr);
        proof {
            assert(match ptype {
                Some(x) => Some(*x),
                None => None::<Type>,
            } == t);
        }
        let ghost before = lines_view(lines@);
        push_header(&mut lines, addr, block, ptype, struct_defs, error_address, width);
        push_body(&mut lines, addr, block, ptype, struct_defs, width);
        if i < addrs.len() - 1 {
            let sep = one_piece_line(String::new(), HeapTone::Muted);
            proof {
                lemma_lines_push(lines@, sep);
            }
            lines.push(sep);
        }
        proof {
            let rest = blocks_lines(m, ps, struct_defs@, error_address, width, addrs@, i + 1);
            let this = seq![block_header(addr, m[addr], t, error_address, width)] + block_body(
                addr,
                m[addr],
                t,
                struct_defs@,
                width,
            ) + (if i < addrs@.len() - 1 {
                seq![seq![(Seq::<char>::empty(), HeapTone::Muted)]]
            } else {
                Seq::<Seq<(Seq<char>, HeapTone)>>::empty()
            });
            assert(lines_view(lines@) =~= before + this);
            assert(blocks_lines(m, ps, struct_defs@, error_address, width, addrs@, i as int) == this
                + rest);
            assert(before + (this + rest) =~= (before + this) + rest);
        }
        i = i + 1;
    }
    proof {
        assert(blocks_lines(m, ps, struct_defs@, error_address, width, addrs@, i as int) =~= Seq::<
            Seq<(Seq<char>, HeapTone)>,
        >::empty());
        assert(lines_view(lines@) + Seq::<Seq<(Seq<char>, HeapTone)>>::empty() =~= lines_view(
            lines@,
        ));
    }
    lines
}

/// Every block ends before the end of the address space.
pub open spec fn heap_view_ok_for(m: Map<u64, BlockView>) -> bool {
    forall|a: u64| #[trigger] m.contains_key(a) ==> a + m[a].size <= u64::MAX
}

} // verus!
