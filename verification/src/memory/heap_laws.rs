//! What the heap promises across operations: a read gives back what a write
//! wrote, a write leaves every other byte alone, a freed block can be neither
//! used nor freed again, and a fresh block lies past every older one.
use vstd::prelude::*;
use super::heap::{
    block_holds, free_result, freed, fresh_block, heap_view_ok, holder, hex_addr, read_byte_result,
    read_bytes_result, use_after_free_message, write_byte_result, write_bytes_result, BlockView,
    Heap,
};

verus! {

/// In a valid heap view the block that holds an address is the one
/// `holder` finds.
proof fn lemma_holder_unique(m: Map<u64, BlockView>, a: u64, addr: u64)
    requires
        heap_view_ok(m),
        m.contains_key(a),
        block_holds(a, m[a], addr),
    ensures
        holder(m, addr) == Some(a),
{
    let c = choose|c: u64| #[trigger] m.contains_key(c) && block_holds(c, m[c], addr);
    assert(m.contains_key(c) && m.contains_key(a));
}

/// Two views with the same blocks at the same places and sizes agree on
/// which block holds an address.
proof fn lemma_holder_same_layout(m: Map<u64, BlockView>, m2: Map<u64, BlockView>, addr: u64)
    requires
        heap_view_ok(m),
        heap_view_ok(m2),
        m.dom() == m2.dom(),
        forall|a: u64| #[trigger] m.contains_key(a) ==> m2[a].size == m[a].size,
    ensures
        holder(m2, addr) == holder(m, addr),
{
    match holder(m, addr) {
        Some(a) => {
            let c = choose|c: u64| #[trigger] m.contains_key(c) && block_holds(c, m[c], addr);
            assert(m.contains_key(c));
            assert(m2.contains_key(a));
            lemma_holder_unique(m2, a, addr);
        },
        None => {
            if exists|a: u64| #[trigger] m2.contains_key(a) && block_holds(a, m2[a], addr) {
                let c = choose|c: u64| #[trigger] m2.contains_key(c) && block_holds(c, m2[c], addr);
                assert(m.contains_key(c) && block_holds(c, m[c], addr));
            }
        },
    }
}

/// A successful write keeps the view valid, its blocks where they were, of
/// the same sizes and states.
proof fn lemma_write_byte_layout(m: Map<u64, BlockView>, addr: u64, byte: u8)
    requires
        heap_view_ok(m),
        write_byte_result(m, addr, byte) is Ok,
    ensures
        ({
            let m2 = write_byte_result(m, addr, byte)->Ok_0;
            &&& heap_view_ok(m2)
            &&& m2.dom() == m.dom()
            &&& forall|a: u64| #[trigger]
                m.contains_key(a) ==> m2[a].size == m[a].size && m2[a].state == m[a].state
        }),
{
    let a = holder(m, addr)->Some_0;
    let c = choose|c: u64| #[trigger] m.contains_key(c) && block_holds(c, m[c], addr);
    assert(m.contains_key(a));
    let m2 = write_byte_result(m, addr, byte)->Ok_0;
    assert(m2.dom() =~= m.dom());
    assert forall|x: u64, y: u64|
        #![trigger m2.contains_key(x), m2.contains_key(y)]
        m2.contains_key(x) && m2.contains_key(y) && x != y implies x + m2[x].size <= y || y
            + m2[y].size <= x by {
        assert(m.contains_key(x) && m.contains_key(y));
    }
}

/// Reading a byte right after writing it gives back the byte written.
pub proof fn law_read_after_write_byte(m: Map<u64, BlockView>, addr: u64, byte: u8)
    requires
        heap_view_ok(m),
        write_byte_result(m, addr, byte) is Ok,
    ensures
        read_byte_result(write_byte_result(m, addr, byte)->Ok_0, addr) == Ok::<u8, Seq<char>>(
            byte,
        ),
{
    let a = holder(m, addr)->Some_0;
    let c = choose|c: u64| #[trigger] m.contains_key(c) && block_holds(c, m[c], addr);
    assert(m.contains_key(a));
    let m2 = write_byte_result(m, addr, byte)->Ok_0;
    lemma_write_byte_layout(m, addr, byte);
    lemma_holder_same_layout(m, m2, addr);
}

/// Writing a byte leaves what every other address reads unchanged.
pub proof fn law_write_byte_keeps_others(
    m: Map<u64, BlockView>,
    addr: u64,
    byte: u8,
    other: u64,
)
    requires
        heap_view_ok(m),
        write_byte_result(m, addr, byte) is Ok,
        other != addr,
    ensures
        read_byte_result(write_byte_result(m, addr, byte)->Ok_0, other) == read_byte_result(
            m,
            other,
        ),
{
    let a = holder(m, addr)->Some_0;
    let c = choose|c: u64| #[trigger] m.contains_key(c) && block_holds(c, m[c], addr);
    assert(m.contains_key(a));
    let m2 = write_byte_result(m, addr, byte)->Ok_0;
    lemma_write_byte_layout(m, addr, byte);
    lemma_holder_same_layout(m, m2, other);
    match holder(m, other) {
        Some(h) => {
            let d = choose|d: u64| #[trigger] m.contains_key(d) && block_holds(d, m[d], other);
            assert(m.contains_key(h));
            if h == a {
                assert(m2[h].init_map[other - h] == m[h].init_map[other - h]);
                assert(m2[h].data[other - h] == m[h].data[other - h]);
            }
        },
        None => {},
    }
}

/// A run of successful writes from `addr` covers addresses that are all
/// inside blocks, so none of them passes the end of the address space.
pub(crate) proof fn lemma_write_bytes_bound(m: Map<u64, BlockView>, addr: int, bytes: Seq<u8>)
    requires
        heap_view_ok(m),
        0 <= addr <= u64::MAX,
        bytes.len() > 0,
        write_bytes_result(m, addr, bytes).1 is None,
    ensures
        addr + bytes.len() <= u64::MAX,
    decreases bytes.len(),
{
    let a = holder(m, addr as u64)->Some_0;
    let c = choose|c: u64| #[trigger] m.contains_key(c) && block_holds(c, m[c], addr as u64);
    assert(m.contains_key(a));
    lemma_write_byte_layout(m, addr as u64, bytes[0]);
    let m1 = write_byte_result(m, addr as u64, bytes[0])->Ok_0;
    if bytes.len() > 1 {
        lemma_write_bytes_bound(m1, addr + 1, bytes.drop_first());
    }
}

/// A run of successful writes from `start` keeps the view valid and leaves
/// what an address below `start` reads unchanged.
proof fn lemma_write_bytes_keeps_below(
    m: Map<u64, BlockView>,
    start: int,
    bytes: Seq<u8>,
    other: u64,
)
    requires
        heap_view_ok(m),
        other < start,
        bytes.len() > 0 ==> start <= u64::MAX,
        write_bytes_result(m, start, bytes).1 is None,
    ensures
        heap_view_ok(write_bytes_result(m, start, bytes).0),
        read_byte_result(write_bytes_result(m, start, bytes).0, other) == read_byte_result(
            m,
            other,
        ),
    decreases bytes.len(),
{
    if bytes.len() > 0 {
        lemma_write_byte_layout(m, start as u64, bytes[0]);
        law_write_byte_keeps_others(m, start as u64, bytes[0], other);
        let m1 = write_byte_result(m, start as u64, bytes[0])->Ok_0;
        if bytes.len() > 1 {
            lemma_write_bytes_bound(m, start, bytes);
        }
        lemma_write_bytes_keeps_below(m1, start + 1, bytes.drop_first(), other);
    }
}

/// A run of successful writes from `start` keeps the view valid and leaves
/// what every address outside the run reads unchanged.
pub(crate) proof fn lemma_write_bytes_keeps_outside(
    m: Map<u64, BlockView>,
    start: int,
    bytes: Seq<u8>,
    other: u64,
)
    requires
        heap_view_ok(m),
        0 <= start,
        bytes.len() > 0 ==> start <= u64::MAX,
        write_bytes_result(m, start, bytes).1 is None,
        other < start || other >= start + bytes.len(),
    ensures
        heap_view_ok(write_bytes_result(m, start, bytes).0),
        read_byte_result(write_bytes_result(m, start, bytes).0, other) == read_byte_result(
            m,
            other,
        ),
    decreases bytes.len(),
{
    if bytes.len() > 0 {
        lemma_write_byte_layout(m, start as u64, bytes[0]);
        law_write_byte_keeps_others(m, start as u64, bytes[0], other);
        let m1 = write_byte_result(m, start as u64, bytes[0])->Ok_0;
        if bytes.len() > 1 {
            lemma_write_bytes_bound(m, start, bytes);
        }
        lemma_write_bytes_keeps_outside(m1, start + 1, bytes.drop_first(), other);
    }
}

/// Reading back a run of bytes that was written without error gives the
/// bytes written.
pub proof fn law_read_after_write_bytes(m: Map<u64, BlockView>, addr: u64, bytes: Seq<u8>)
    requires
        heap_view_ok(m),
        write_bytes_result(m, addr as int, bytes).1 is None,
    ensures
        read_bytes_result(write_bytes_result(m, addr as int, bytes).0, addr as int, bytes.len())
            == Ok::<Seq<u8>, Seq<char>>(bytes),
    decreases bytes.len(),
{
    if bytes.len() == 0 {
        assert(bytes =~= Seq::<u8>::empty());
    } else {
        let m1 = write_byte_result(m, addr, bytes[0])->Ok_0;
        let rest = bytes.drop_first();
        let m2 = write_bytes_result(m, addr as int, bytes).0;
        lemma_write_byte_layout(m, addr, bytes[0]);
        law_read_after_write_byte(m, addr, bytes[0]);
        lemma_write_bytes_bound(m, addr as int, bytes);
        lemma_write_bytes_keeps_below(m1, addr + 1, rest, addr);
        if rest.len() > 0 {
            law_read_after_write_bytes(m1, (addr + 1) as u64, rest);
            assert(read_bytes_result(m2, addr + 1, rest.len()) == Ok::<Seq<u8>, Seq<char>>(rest));
        } else {
            assert(read_bytes_result(m2, addr + 1, rest.len()) == Ok::<Seq<u8>, Seq<char>>(
                Seq::empty(),
            ));
        }
        assert(seq![bytes[0]] + rest =~= bytes);
    }
}

/// Once a block is freed, freeing it again is refused as a double free, and
/// every read or write of an address in it is refused as a use after free.
pub proof fn law_freed_block_is_unusable(m: Map<u64, BlockView>, a: u64, addr: u64, byte: u8)
    requires
        heap_view_ok(m),
        free_result(m, a) is Ok,
        block_holds(a, m[a], addr),
    ensures
        free_result(free_result(m, a)->Ok_0, a) == Err::<Map<u64, BlockView>, Seq<char>>(
            "Double free detected at address "@ + hex_addr(a),
        ),
        read_byte_result(free_result(m, a)->Ok_0, addr) == Err::<u8, Seq<char>>(
            use_after_free_message(a),
        ),
        write_byte_result(free_result(m, a)->Ok_0, addr, byte) == Err::<
            Map<u64, BlockView>,
            Seq<char>,
        >(use_after_free_message(a)),
{
    let m2 = free_result(m, a)->Ok_0;
    assert(m2 == m.insert(a, freed(m[a])));
    assert(m2.dom() =~= m.dom());
    assert forall|x: u64, y: u64|
        #![trigger m2.contains_key(x), m2.contains_key(y)]
        m2.contains_key(x) && m2.contains_key(y) && x != y implies x + m2[x].size <= y || y
            + m2[y].size <= x by {
        assert(m.contains_key(x) && m.contains_key(y));
    }
    assert forall|x: u64| #[trigger] m2.contains_key(x) implies {
        &&& x + m2[x].size <= u64::MAX
        &&& m2[x].data.len() == m2[x].size
        &&& m2[x].init_map.len() == m2[x].size
    } by {
        assert(m.contains_key(x));
    }
    lemma_holder_unique(m2, a, addr);
}

/// A fresh allocation lies past every block the heap held before, so no
/// address is handed out twice.
pub proof fn law_allocation_is_fresh(h: Heap)
    requires
        h.wf(),
    ensures
        forall|a: u64| #[trigger] h@.contains_key(a) ==> a + h@[a].size <= h.next(),
{
    h.lemma_view_ok();
}

/// Every byte of a freshly allocated block reads as uninitialized.
pub proof fn law_fresh_block_reads_uninitialized(h: Heap, h2: Heap, size: nat, addr: u64)
    requires
        h.wf(),
        h2.wf(),
        h2@ == h@.insert(h.next(), fresh_block(size)),
        h.next() <= addr < h.next() + size,
    ensures
        read_byte_result(h2@, addr) == Err::<u8, Seq<char>>(
            "Uninitialized read at address "@ + hex_addr(addr),
        ),
{
    h2.lemma_view_ok();
    assert(h2@.contains_key(h.next()));
    lemma_holder_unique(h2@, h.next(), addr);
}

} // verus!
