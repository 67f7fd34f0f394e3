//! Heap implementation for the interpreter
//!
//! This module provides heap memory management with:
//! - Explicit allocation/deallocation (malloc/free)
//! - Tombstone tracking for freed blocks (enables reverse execution)
//! - Per-byte initialization tracking
//! - Use-after-free and double-free detection
//!
//! Blocks are laid out one after the other from [`HEAP_ADDRESS_START`]; an
//! address is never handed out twice, and no two blocks overlap, so every
//! address lies in at most one block.
//!
//! Methods return `Result<_, String>` for errors; the strings are converted to
//! runtime errors at the interpreter boundary.
use vstd::prelude::*;
use std::collections::HashMap;
use std::collections::hash_map::Entry;
use vstd::std_specs::hash::spec_hash_map_iter;
use vstd::std_specs::iter::IteratorSpec;
use super::value::Address;
use crate::interpreter::constants::HEAP_ADDRESS_START;
use crate::text::{hex_digits, int_text, push_decimal, push_hex};

verus! {

/// State of a heap block
#[derive(Debug, Clone, Copy, PartialEq, Eq, Structural)]
pub enum BlockState {
    Allocated,
    Tombstone,  // Freed but kept for reverse execution
}

/// A block of heap memory
#[derive(Debug, Clone)]
pub struct HeapBlock {
    pub data: Vec<u8>,  // Raw bytes
    pub size: usize,
    pub state: BlockState,
    pub init_map: Vec<bool>,  // Per-byte initialization tracking
}

impl HeapBlock {
    /// The block's data and initialization map both have its size.
    pub open spec fn wf(&self) -> bool {
        &&& self.data@.len() == self.size
        &&& self.init_map@.len() == self.size
    }

    /// Whether a byte range lies in the block and is initialized.
    pub open spec fn range_initialized(&self, offset: int, size: int) -> bool {
        &&& offset + size <= self.size
        &&& forall|i: int| offset <= i < offset + size ==> #[trigger] self.init_map@[i]
    }

    pub fn new(size: usize) -> (r: Self)
        ensures
            r.wf(),
            r.size == size,
            r.state == BlockState::Allocated,
            forall|i: int| 0 <= i < size ==> #[trigger] r.data@[i] == 0,
            forall|i: int| 0 <= i < size ==> !#[trigger] r.init_map@[i],
    {
        let data: Vec<u8> = vec![0; size];
        let init_map: Vec<bool> = vec![false; size];
        HeapBlock { data, size, state: BlockState::Allocated, init_map }
    }

    /// Check if a byte range is initialized
    pub fn is_initialized(&self, offset: usize, size: usize) -> (r: bool)
        requires
            self.wf(),
            offset + size <= usize::MAX,
        ensures
            r == self.range_initialized(offset as int, size as int),
    {
        if offset + size > self.size {
            return false;
        }
        let mut i = offset;
        while i < offset + size
            invariant
                self.wf(),
                offset <= i <= offset + size <= self.size,
                forall|k: int| offset <= k < i ==> #[trigger] self.init_map@[k],
            decreases offset + size - i,
        {
            if !self.init_map[i] {
                return false;
            }
            i = i + 1;
        }
        true
    }

    /// Mark a byte range as initialized
    pub fn mark_initialized(&mut self, offset: usize, size: usize)
        requires
            old(self).wf(),
            offset + size <= usize::MAX,
        ensures
            final(self).wf(),
            final(self).size == old(self).size,
            final(self).state == old(self).state,
            final(self).data@ == old(self).data@,
            final(self).init_map@ == if offset + size <= old(self).size {
                Seq::new(
                    old(self).size as nat,
                    |i: int|
                        if offset <= i < offset + size {
                            true
                        } else {
                            old(self).init_map@[i]
                        },
                )
            } else {
                old(self).init_map@
            },
    {
        self.set_init_range(offset, size, true);
    }

    /// Mark a byte range as uninitialized
    pub fn mark_uninitialized(&mut self, offset: usize, size: usize)
        requires
            old(self).wf(),
            offset + size <= usize::MAX,
        ensures
            final(self).wf(),
            final(self).size == old(self).size,
            final(self).state == old(self).state,
            final(self).data@ == old(self).data@,
            final(self).init_map@ == if offset + size <= old(self).size {
                Seq::new(
                    old(self).size as nat,
                    |i: int|
                        if offset <= i < offset + size {
                            false
                        } else {
                            old(self).init_map@[i]
                        },
                )
            } else {
                old(self).init_map@
            },
    {
        self.set_init_range(offset, size, false);
    }

    fn set_init_range(&mut self, offset: usize, size: usize, value: bool)
        requires
            old(self).wf(),
            offset + size <= usize::MAX,
        ensures
            final(self).wf(),
            final(self).size == old(self).size,
            final(self).state == old(self).state,
            final(self).data@ == old(self).data@,
            final(self).init_map@ == if offset + size <= old(self).size {
                Seq::new(
                    old(self).size as nat,
                    |i: int|
                        if offset <= i < offset + size {
                            value
                        } else {
                            old(self).init_map@[i]
                        },
                )
            } else {
                old(self).init_map@
            },
    {
        if offset + size <= self.size {
            let mut i = offset;
            while i < offset + size
                invariant
                    self.wf(),
                    self.size == old(self).size,
                    self.state == old(self).state,
                    self.data@ == old(self).data@,
                    offset <= i <= offset + size <= self.size,
                    forall|k: int|
                        0 <= k < self.size ==> #[trigger] self.init_map@[k] == if offset <= k < i {
                            value
                        } else {
                            old(self).init_map@[k]
                        },
                decreases offset + size - i,
            {
                self.init_map.set(i, value);
                i = i + 1;
            }
            assert(self.init_map@ =~= Seq::new(
                old(self).size as nat,
                |k: int|
                    if offset <= k < offset + size {
                        value
                    } else {
                        old(self).init_map@[k]
                    },
            ));
        }
    }

    /// Read bytes from the block
    pub fn read_bytes(&self, offset: usize, size: usize) -> (r: Option<&[u8]>)
        requires
            self.wf(),
            offset + size <= usize::MAX,
        ensures
            match r {
                Some(s) => offset + size <= self.size && s@ == self.data@.subrange(
                    offset as int,
                    offset + size,
                ),
                None => offset + size > self.size,
            },
    {
        if offset + size <= self.size {
            Some(&self.data.as_slice()[offset..offset + size])
        } else {
            None
        }
    }

    /// Write bytes to the block
    pub fn write_bytes(&mut self, offset: usize, bytes: &[u8]) -> (r: Result<(), String>)
        requires
            old(self).wf(),
            offset + bytes@.len() <= usize::MAX,
        ensures
            final(self).wf(),
            final(self).size == old(self).size,
            final(self).state == old(self).state,
            offset + bytes@.len() > old(self).size ==> {
                &&& r matches Err(m) && m@ == overrun_message(
                    bytes@.len(),
                    offset as nat,
                    old(self).size as nat,
                )
                &&& final(self).data@ == old(self).data@
                &&& final(self).init_map@ == old(self).init_map@
            },
            offset + bytes@.len() <= old(self).size ==> {
                &&& r is Ok
                &&& final(self).data@ == old(self).data@.subrange(0, offset as int) + bytes@
                    + old(self).data@.subrange(offset + bytes@.len(), old(self).size as int)
                &&& forall|i: int|
                    0 <= i < old(self).size ==> #[trigger] final(self).init_map@[i] == (
                    old(self).init_map@[i] || (offset <= i < offset + bytes@.len()))
            },
    {
        let n = bytes.len();
        if offset + n > self.size {
            let mut m = String::from_str("Buffer overrun: attempted to write ");
            push_decimal(&mut m, n as u64);
            m.append(" bytes at offset ");
            push_decimal(&mut m, offset as u64);
            m.append(" in block of size ");
            push_decimal(&mut m, self.size as u64);
            return Err(m);
        }
        let mut i: usize = 0;
        while i < n
            invariant
                self.wf(),
                self.size == old(self).size,
                self.state == old(self).state,
                self.init_map@ == old(self).init_map@,
                old(self).wf(),
                n == bytes@.len(),
                offset + n <= self.size,
                0 <= i <= n,
                self.data@ == old(self).data@.subrange(0, offset as int) + bytes@.subrange(
                    0,
                    i as int,
                ) + old(self).data@.subrange(offset + i, old(self).size as int),
            decreases n - i,
        {
            let ghost prev = self.data@;
            self.data.set(offset + i, bytes[i]);
            i = i + 1;
            proof {
                let target = old(self).data@.subrange(0, offset as int) + bytes@.subrange(
                    0,
                    i as int,
                ) + old(self).data@.subrange(offset + i, old(self).size as int);
                assert(target.len() == self.data@.len());
                assert forall|k: int| 0 <= k < self.data@.len() implies self.data@[k]
                    == target[k] by {
                    if k < offset {
                    } else if k < offset + i - 1 {
                        assert(prev[k] == bytes@[k - offset]);
                    } else if k == offset + i - 1 {
                    } else {
                        assert(prev[k] == old(self).data@[k]);
                    }
                }
                assert(self.data@ =~= target);
            }
        }
        assert(bytes@.subrange(0, n as int) =~= bytes@);
        self.mark_initialized(offset, n);
        Ok(())
    }
}

/// The message for writing `n` bytes at `offset` into a block of `size`.
pub open spec fn overrun_message(n: nat, offset: nat, size: nat) -> Seq<char> {
    "Buffer overrun: attempted to write "@ + int_text(n as int) + " bytes at offset "@ + int_text(
        offset as int,
    ) + " in block of size "@ + int_text(size as int)
}

/// The mathematical value of a heap block.
#[verifier::ext_equal]
pub struct BlockView {
    pub data: Seq<u8>,
    pub size: nat,
    pub state: BlockState,
    pub init_map: Seq<bool>,
}

impl View for HeapBlock {
    type V = BlockView;

    open spec fn view(&self) -> BlockView {
        BlockView {
            data: self.data@,
            size: self.size as nat,
            state: self.state,
            init_map: self.init_map@,
        }
    }
}

/// `0x` followed by the lowercase hexadecimal digits of an address.
pub open spec fn hex_addr(a: u64) -> Seq<char> {
    "0x"@ + hex_digits(a as nat)
}

/// Whether the block at `start` holds the address `addr`.
pub open spec fn block_holds(start: u64, b: BlockView, addr: u64) -> bool {
    start <= addr < start + b.size
}

/// The start of the block that holds `addr`, if any.
pub open spec fn holder(m: Map<u64, BlockView>, addr: u64) -> Option<u64> {
    if exists|a: u64| #[trigger] m.contains_key(a) && block_holds(a, m[a], addr) {
        Some(choose|a: u64| #[trigger] m.contains_key(a) && block_holds(a, m[a], addr))
    } else {
        None
    }
}

/// The message for an access to a freed block.
pub open spec fn use_after_free_message(a: u64) -> Seq<char> {
    "Use-after-free: address "@ + hex_addr(a) + " has been freed"@
}

/// What reading the byte at `addr` gives.
pub open spec fn read_byte_result(m: Map<u64, BlockView>, addr: u64) -> Result<u8, Seq<char>> {
    match holder(m, addr) {
        None => Err("Invalid read: address "@ + hex_addr(addr) + " not in any allocated block"@),
        Some(a) => if m[a].state == BlockState::Tombstone {
            Err(use_after_free_message(a))
        } else if !m[a].init_map[addr - a] {
            Err("Uninitialized read at address "@ + hex_addr(addr))
        } else {
            Ok(m[a].data[addr - a])
        },
    }
}

/// The block with one byte written and marked initialized.
pub open spec fn with_byte(b: BlockView, offset: int, byte: u8) -> BlockView {
    BlockView {
        data: b.data.update(offset, byte),
        size: b.size,
        state: b.state,
        init_map: b.init_map.update(offset, true),
    }
}

/// What writing `byte` at `addr` does: the new blocks, or the error.
pub open spec fn write_byte_result(m: Map<u64, BlockView>, addr: u64, byte: u8) -> Result<
    Map<u64, BlockView>,
    Seq<char>,
> {
    match holder(m, addr) {
        None => Err("Invalid write: address "@ + hex_addr(addr) + " not in any allocated block"@),
        Some(a) => if m[a].state == BlockState::Tombstone {
            Err(use_after_free_message(a))
        } else {
            Ok(m.insert(a, with_byte(m[a], addr - a, byte)))
        },
    }
}

/// Writing bytes one after the other from `addr`, stopping at the first
/// failure: the blocks afterwards, and the error if one occurred.
pub open spec fn write_bytes_result(m: Map<u64, BlockView>, addr: int, bytes: Seq<u8>) -> (
    Map<u64, BlockView>,
    Option<Seq<char>>,
)
    decreases bytes.len(),
{
    if bytes.len() == 0 {
        (m, None)
    } else {
        match write_byte_result(m, addr as u64, bytes[0]) {
            Err(e) => (m, Some(e)),
            Ok(m2) => write_bytes_result(m2, addr + 1, bytes.drop_first()),
        }
    }
}

/// Reading `size` bytes one after the other from `addr`, stopping at the
/// first failure.
pub open spec fn read_bytes_result(m: Map<u64, BlockView>, addr: int, size: nat) -> Result<
    Seq<u8>,
    Seq<char>,
>
    decreases size,
{
    if size == 0 {
        Ok(Seq::empty())
    } else {
        match read_byte_result(m, addr as u64) {
            Err(e) => Err(e),
            Ok(b) => match read_bytes_result(m, addr + 1, (size - 1) as nat) {
                Err(e) => Err(e),
                Ok(rest) => Ok(seq![b] + rest),
            },
        }
    }
}

/// The message when an allocation would exceed the heap's limit.
pub open spec fn out_of_memory_message(size: nat, total: nat, limit: nat) -> Seq<char> {
    "Out of memory: requested "@ + int_text(size as int) + " bytes, "@ + int_text(total as int)
        + " already allocated, limit is "@ + int_text(limit as int)
}

/// The heap
#[derive(Debug, Clone)]
pub struct Heap {
    allocations: HashMap<Address, HeapBlock>,
    next_address: Address,
    total_allocated_bytes: usize,
    max_heap_size: usize,
}

impl View for Heap {
    type V = Map<u64, BlockView>;

    closed spec fn view(&self) -> Map<u64, BlockView> {
        self.allocations@.map_values(|b: HeapBlock| b@)
    }
}

impl Heap {
    /// The address the next allocation gets.
    pub closed spec fn next(&self) -> u64 {
        self.next_address
    }

    /// Bytes allocated so far (freed blocks included).
    pub closed spec fn total(&self) -> nat {
        self.total_allocated_bytes as nat
    }

    /// The limit on allocated bytes.
    pub closed spec fn limit(&self) -> nat {
        self.max_heap_size as nat
    }

    /// The heap's invariant: blocks lie one after the other from the heap's
    /// start, each well formed, none overlapping another.
    pub closed spec fn wf(&self) -> bool {
        &&& self.next_address == HEAP_ADDRESS_START + self.total_allocated_bytes
        &&& self.total_allocated_bytes <= self.max_heap_size
        &&& forall|a: u64| #[trigger]
            self.allocations@.contains_key(a) ==> {
                &&& HEAP_ADDRESS_START <= a
                &&& a + self.allocations@[a].size <= self.next_address
                &&& self.allocations@[a].wf()
            }
        &&& forall|a: u64, b: u64|
            #![trigger self.allocations@.contains_key(a), self.allocations@.contains_key(b)]
            self.allocations@.contains_key(a) && self.allocations@.contains_key(b) && a != b ==> a
                + self.allocations@[a].size <= b || b + self.allocations@[b].size <= a
    }
}

/// Appends `0x` and the hexadecimal digits of an address.
fn push_hex_addr(s: &mut String, a: u64)
    ensures
        final(s)@ == old(s)@ + hex_addr(a),
{
    s.append("0x");
    push_hex(s, a);
    assert(final(s)@ =~= old(s)@ + hex_addr(a));
}

fn use_after_free_text(a: u64) -> (m: String)
    ensures
        m@ == use_after_free_message(a),
{
    let mut m = String::from_str("Use-after-free: address ");
    push_hex_addr(&mut m, a);
    m.append(" has been freed");
    m
}

/// A freshly allocated block: zeroed, uninitialized.
pub open spec fn fresh_block(size: nat) -> BlockView {
    BlockView {
        data: Seq::new(size, |i: int| 0u8),
        size,
        state: BlockState::Allocated,
        init_map: Seq::new(size, |i: int| false),
    }
}

/// The block marked freed.
pub open spec fn freed(b: BlockView) -> BlockView {
    BlockView { data: b.data, size: b.size, state: BlockState::Tombstone, init_map: b.init_map }
}

/// What freeing the block at `addr` does: the new blocks, or the error.
pub open spec fn free_result(m: Map<u64, BlockView>, addr: u64) -> Result<
    Map<u64, BlockView>,
    Seq<char>,
> {
    match m.get(addr) {
        None => Err("Invalid free: address "@ + hex_addr(addr) + " was never allocated"@),
        Some(b) => if b.state == BlockState::Tombstone {
            Err("Double free detected at address "@ + hex_addr(addr))
        } else {
            Ok(m.insert(addr, freed(b)))
        },
    }
}

/// What a valid heap's blocks satisfy: each well formed and below the end
/// of the address space, no two overlapping.
pub open spec fn heap_view_ok(m: Map<u64, BlockView>) -> bool {
    &&& forall|a: u64| #[trigger]
        m.contains_key(a) ==> {
            &&& a + m[a].size <= u64::MAX
            &&& m[a].data.len() == m[a].size
            &&& m[a].init_map.len() == m[a].size
        }
    &&& forall|a: u64, b: u64|
        #![trigger m.contains_key(a), m.contains_key(b)]
        m.contains_key(a) && m.contains_key(b) && a != b ==> a + m[a].size <= b || b + m[b].size
            <= a
}

impl Heap {
    proof fn lemma_view(&self)
        ensures
            forall|a: u64| #[trigger] self@.contains_key(a) == self.allocations@.contains_key(a),
            forall|a: u64| self.allocations@.contains_key(a) ==> #[trigger] self@[a] == self.allocations@[a]@,
    {
    }

    /// A block that holds an address is the one `holder` finds.
    proof fn lemma_holder(&self, a: u64, addr: u64)
        requires
            self.wf(),
            self@.contains_key(a),
            block_holds(a, self@[a], addr),
        ensures
            holder(self@, addr) == Some(a),
            addr < self.next(),
    {
        self.lemma_view();
        let c = choose|c: u64| #[trigger] self@.contains_key(c) && block_holds(c, self@[c], addr);
        assert(self.allocations@.contains_key(c));
        assert(self.allocations@.contains_key(a));
        assert(c == a);
    }

    /// The blocks of a valid heap form a valid heap view, every one of them
    /// below the address the next allocation gets.
    pub proof fn lemma_view_ok(&self)
        requires
            self.wf(),
        ensures
            heap_view_ok(self@),
            forall|a: u64| #[trigger] self@.contains_key(a) ==> a + self@[a].size <= self.next(),
    {
        self.lemma_view();
        assert forall|a: u64, b: u64|
            #![trigger self@.contains_key(a), self@.contains_key(b)]
            self@.contains_key(a) && self@.contains_key(b) && a != b implies a + self@[a].size <= b
                || b + self@[b].size <= a by {
            assert(self.allocations@.contains_key(a));
            assert(self.allocations@.contains_key(b));
        }
        assert forall|a: u64| #[trigger] self@.contains_key(a) implies a + self@[a].size <= self.next() by {
            assert(self.allocations@.contains_key(a));
        }
    }

    /// Create a new heap with a maximum size limit
    pub fn new(max_heap_size: usize) -> (r: Self)
        ensures
            r.wf(),
            r@ == Map::<u64, BlockView>::empty(),
            r.next() == HEAP_ADDRESS_START,
            r.total() == 0,
            r.limit() == max_heap_size,
    {
        let r = Heap {
            allocations: HashMap::new(),
            next_address: HEAP_ADDRESS_START,  // Start heap at high address
            total_allocated_bytes: 0,
            max_heap_size,
        };
        assert(r@ =~= Map::<u64, BlockView>::empty());
        r
    }

    /// Allocate a block of memory
    pub fn allocate(&mut self, size: usize) -> (r: Result<Address, String>)
        requires
            old(self).wf(),
            old(self).total() + size <= usize::MAX,
            old(self).total() + size <= old(self).limit() ==> HEAP_ADDRESS_START + old(self).total()
                + size <= u64::MAX,
        ensures
            final(self).wf(),
            final(self).limit() == old(self).limit(),
            old(self).total() + size > old(self).limit() ==> {
                &&& r matches Err(m) && m@ == out_of_memory_message(
                    size as nat,
                    old(self).total(),
                    old(self).limit(),
                )
                &&& final(self)@ == old(self)@
                &&& final(self).total() == old(self).total()
                &&& final(self).next() == old(self).next()
            },
            old(self).total() + size <= old(self).limit() ==> {
                &&& r == Ok::<Address, String>(old(self).next())
                &&& HEAP_ADDRESS_START <= old(self).next()
                &&& forall|b: u64| #[trigger] old(self)@.contains_key(b) ==> b + old(self)@[b].size <= old(self).next()
                &&& final(self)@ == old(self)@.insert(old(self).next(), fresh_block(size as nat))
                &&& final(self).total() == old(self).total() + size
                &&& final(self).next() == old(self).next() + size
            },
    {
        if self.total_allocated_bytes + size > self.max_heap_size {
            let mut m = String::from_str("Out of memory: requested ");
            push_decimal(&mut m, size as u64);
            m.append(" bytes, ");
            push_decimal(&mut m, self.total_allocated_bytes as u64);
            m.append(" already allocated, limit is ");
            push_decimal(&mut m, self.max_heap_size as u64);
            return Err(m);
        }
        let addr = self.next_address;
        self.next_address = self.next_address + size as u64;
        let block = HeapBlock::new(size);
        self.allocations.insert(addr, block);
        self.total_allocated_bytes = self.total_allocated_bytes + size;
        proof {
            assert(block@.data =~= fresh_block(size as nat).data);
            assert(block@.init_map =~= fresh_block(size as nat).init_map);
            assert(block@ =~= fresh_block(size as nat));
            assert(self@ =~= old(self)@.insert(addr, fresh_block(size as nat)));
            assert forall|a: u64, b: u64|
                #![trigger self.allocations@.contains_key(a), self.allocations@.contains_key(b)]
                self.allocations@.contains_key(a) && self.allocations@.contains_key(b) && a != b
                    implies a + self.allocations@[a].size <= b || b + self.allocations@[b].size
                    <= a by {
                if a != addr && b != addr {
                    assert(old(self).allocations@.contains_key(a));
                    assert(old(self).allocations@.contains_key(b));
                } else if a == addr {
                    assert(old(self).allocations@.contains_key(b));
                } else {
                    assert(old(self).allocations@.contains_key(a));
                }
            }
            assert forall|a: u64| #[trigger] self.allocations@.contains_key(a) implies {
                &&& HEAP_ADDRESS_START <= a
                &&& a + self.allocations@[a].size <= self.next_address
                &&& self.allocations@[a].wf()
            } by {
                if a != addr {
                    assert(old(self).allocations@.contains_key(a));
                }
            }
        }
        Ok(addr)
    }

    /// Free a block of memory (mark as tombstone)
    pub fn free(&mut self, addr: Address) -> (r: Result<(), String>)
        requires
            old(self).wf(),
        ensures
            final(self).wf(),
            final(self).total() == old(self).total(),
            final(self).next() == old(self).next(),
            final(self).limit() == old(self).limit(),
            match free_result(old(self)@, addr) {
                Ok(m) => r is Ok && final(self)@ == m,
                Err(e) => r matches Err(msg) && msg@ == e && final(self)@ == old(self)@,
            },
    {
        proof {
            self.lemma_view();
        }
        match self.allocations.remove(&addr) {
            None => {
                let mut m = String::from_str("Invalid free: address ");
                push_hex_addr(&mut m, addr);
                m.append(" was never allocated");
                proof {
                    assert(self@ =~= old(self)@);
                }
                Err(m)
            },
            Some(mut block) => {
                let r = match block.state {
                    BlockState::Allocated => {
                        block.state = BlockState::Tombstone;
                        Ok(())
                    },
                    BlockState::Tombstone => {
                        let mut m = String::from_str("Double free detected at address ");
                        push_hex_addr(&mut m, addr);
                        Err(m)
                    },
                };
                self.allocations.insert(addr, block);
                proof {
                    assert(block@.data == old(self)@[addr].data);
                    if r is Ok {
                        assert(self@ =~= old(self)@.insert(addr, freed(old(self)@[addr])));
                    } else {
                        assert(self@ =~= old(self)@);
                    }
                    assert forall|a: u64, b: u64|
                        #![trigger self.allocations@.contains_key(a), self.allocations@.contains_key(b)]
                        self.allocations@.contains_key(a) && self.allocations@.contains_key(b)
                            && a != b implies a + self.allocations@[a].size <= b || b
                            + self.allocations@[b].size <= a by {
                        assert(old(self).allocations@.contains_key(a));
                        assert(old(self).allocations@.contains_key(b));
                    }
                    assert forall|a: u64| #[trigger] self.allocations@.contains_key(a) implies {
                        &&& HEAP_ADDRESS_START <= a
                        &&& a + self.allocations@[a].size <= self.next_address
                        &&& self.allocations@[a].wf()
                    } by {
                        assert(old(self).allocations@.contains_key(a));
                    }
                }
                r
            },
        }
    }

    /// Get a heap block (returns error if tombstone or doesn't exist)
    pub fn get_block(&self, addr: Address) -> (r: Result<&HeapBlock, String>)
        requires
            self.wf(),
        ensures
            match self@.get(addr) {
                None => r matches Err(m) && m@ == "Invalid pointer: address "@ + hex_addr(addr)
                    + " not allocated"@,
                Some(b) => if b.state == BlockState::Tombstone {
                    r matches Err(m) && m@ == use_after_free_message(addr)
                } else {
                    r matches Ok(blk) && blk@ == b && blk.wf()
                },
            },
    {
        proof {
            self.lemma_view();
        }
        match self.allocations.get(&addr) {
            Some(block) => match block.state {
                BlockState::Allocated => Ok(block),
                BlockState::Tombstone => {
                    Err(use_after_free_text(addr))
                },
            },
            None => {
                let mut m = String::from_str("Invalid pointer: address ");
                push_hex_addr(&mut m, addr);
                m.append(" not allocated");
                Err(m)
            },
        }
    }

    /// Get a mutable heap block
    pub fn get_block_mut(&mut self, addr: Address) -> (r: Result<&mut HeapBlock, String>)
        requires
            old(self).wf(),
        ensures
            final(self).total() == old(self).total(),
            final(self).next() == old(self).next(),
            final(self).limit() == old(self).limit(),
            match old(self)@.get(addr) {
                None => {
                    &&& r matches Err(m) && m@ == "Invalid pointer: address "@ + hex_addr(addr)
                        + " not allocated"@
                    &&& final(self)@ == old(self)@
                    &&& final(self).wf()
                },
                Some(b) => if b.state == BlockState::Tombstone {
                    &&& r matches Err(m) && m@ == use_after_free_message(addr)
                    &&& final(self)@ == old(self)@
                    &&& final(self).wf()
                } else {
                    r matches Ok(blk) && {
                        &&& blk@ == b
                        &&& blk.wf()
                        &&& final(self)@ == old(self)@.insert(addr, (*final(blk))@)
                        &&& (final(blk).wf() && final(blk).size == b.size) ==> final(self).wf()
                    }
                },
            },
    {
        proof {
            self.lemma_view();
        }
        match self.allocations.entry(addr) {
            Entry::Occupied(o) => {
                let allocated = match o.get().state {
                    BlockState::Allocated => true,
                    BlockState::Tombstone => false,
                };
                if allocated {
                    Ok(o.into_mut())
                } else {
                    Err(use_after_free_text(addr))
                }
            },
            Entry::Vacant(_) => {
                let mut m = String::from_str("Invalid pointer: address ");
                push_hex_addr(&mut m, addr);
                m.append(" not allocated");
                Err(m)
            },
        }
    }

    /// Get all allocations (for UI display, includes tombstones)
    pub fn allocations(&self) -> (r: &HashMap<Address, HeapBlock>)
        ensures
            r@.map_values(|b: HeapBlock| b@) == self@,
    {
        &self.allocations
    }

    /// Get total allocated bytes
    pub fn total_allocated(&self) -> (r: usize)
        ensures
            r == self.total(),
    {
        self.total_allocated_bytes
    }

    /// Get max heap size
    pub fn max_size(&self) -> (r: usize)
        ensures
            r == self.limit(),
    {
        self.max_heap_size
    }

    /// Write a single byte to an address
    pub fn write_byte(&mut self, addr: Address, byte: u8) -> (r: Result<(), String>)
        requires
            old(self).wf(),
        ensures
            final(self).wf(),
            final(self).total() == old(self).total(),
            final(self).next() == old(self).next(),
            final(self).limit() == old(self).limit(),
            match write_byte_result(old(self)@, addr, byte) {
                Ok(m) => r is Ok && final(self)@ == m,
                Err(e) => r matches Err(msg) && msg@ == e && final(self)@ == old(self)@,
            },
    {
        proof {
            self.lemma_view();
        }
        // Find the block containing this address
        let block_addr = match self.find_block(addr) {
            Some(a) => a,
            None => {
                let mut m = String::from_str("Invalid write: address ");
                push_hex_addr(&mut m, addr);
                m.append(" not in any allocated block");
                return Err(m);
            },
        };
        proof {
            let c = choose|a: u64| #[trigger] self@.contains_key(a) && block_holds(a, self@[a], addr);
            assert(c == block_addr);
        }
        let mut block = match self.allocations.remove(&block_addr) {
            Some(b) => b,
            None => {
                proof {
                    assert(false);
                }
                return Ok(());
            },
        };
        match block.state {
            BlockState::Tombstone => {
                self.allocations.insert(block_addr, block);
                proof {
                    assert(self@ =~= old(self)@);
                    assert(self.allocations@ =~= old(self).allocations@);
                }
                return Err(use_after_free_text(block_addr));
            },
            BlockState::Allocated => {},
        }
        let offset = (addr - block_addr) as usize;
        block.data.set(offset, byte);
        block.init_map.set(offset, true);
        self.allocations.insert(block_addr, block);
        proof {
            let nb = with_byte(old(self)@[block_addr], addr - block_addr, byte);
            assert(block@.data =~= nb.data);
            assert(block@.init_map =~= nb.init_map);
            assert(self@ =~= old(self)@.insert(block_addr, nb));
            assert forall|a: u64, b: u64|
                #![trigger self.allocations@.contains_key(a), self.allocations@.contains_key(b)]
                self.allocations@.contains_key(a) && self.allocations@.contains_key(b) && a != b
                    implies a + self.allocations@[a].size <= b || b + self.allocations@[b].size
                    <= a by {
                assert(old(self).allocations@.contains_key(a));
                assert(old(self).allocations@.contains_key(b));
            }
            assert forall|a: u64| #[trigger] self.allocations@.contains_key(a) implies {
                &&& HEAP_ADDRESS_START <= a
                &&& a + self.allocations@[a].size <= self.next_address
                &&& self.allocations@[a].wf()
            } by {
                assert(old(self).allocations@.contains_key(a));
            }
        }
        Ok(())
    }

    /// Read a single byte from an address
    pub fn read_byte(&self, addr: Address) -> (r: Result<u8, String>)
        requires
            self.wf(),
        ensures
            match read_byte_result(self@, addr) {
                Ok(b) => r == Ok::<u8, String>(b),
                Err(e) => r matches Err(msg) && msg@ == e,
            },
    {
        proof {
            self.lemma_view();
        }
        // Find the block containing this address
        let block_addr = match self.find_block(addr) {
            Some(a) => a,
            None => {
                let mut m = String::from_str("Invalid read: address ");
                push_hex_addr(&mut m, addr);
                m.append(" not in any allocated block");
                return Err(m);
            },
        };
        proof {
            let c = choose|a: u64| #[trigger] self@.contains_key(a) && block_holds(a, self@[a], addr);
            assert(c == block_addr);
        }
        let block = self.get_block(block_addr)?;
        let offset = (addr - block_addr) as usize;
        if !block.init_map[offset] {
            let mut m = String::from_str("Uninitialized read at address ");
            push_hex_addr(&mut m, addr);
            return Err(m);
        }
        Ok(block.data[offset])
    }

    /// Write multiple bytes starting at an address
    pub fn write_bytes_at(&mut self, addr: Address, bytes: &[u8]) -> (r: Result<(), String>)
        requires
            old(self).wf(),
        ensures
            final(self).wf(),
            final(self).total() == old(self).total(),
            final(self).next() == old(self).next(),
            final(self).limit() == old(self).limit(),
            final(self)@ == write_bytes_result(old(self)@, addr as int, bytes@).0,
            match write_bytes_result(old(self)@, addr as int, bytes@).1 {
                None => r is Ok,
                Some(e) => r matches Err(msg) && msg@ == e,
            },
    {
        let n = bytes.len();
        let mut i: usize = 0;
        assert(bytes@.skip(0) =~= bytes@);
        while i < n
            invariant
                self.wf(),
                self.total() == old(self).total(),
                self.next() == old(self).next(),
                self.limit() == old(self).limit(),
                n == bytes@.len(),
                0 <= i <= n,
                i > 0 ==> addr + i <= u64::MAX,
                write_bytes_result(old(self)@, addr as int, bytes@) == write_bytes_result(
                    self@,
                    addr + i,
                    bytes@.skip(i as int),
                ),
            decreases n - i,
        {
            let ghost before = self@;
            let target: u64 = addr + i as u64;
            proof {
                assert(bytes@.skip(i as int)[0] == bytes@[i as int]);
                assert(bytes@.skip(i as int).drop_first() =~= bytes@.skip(i + 1));
            }
            match self.write_byte(target, bytes[i]) {
                Ok(()) => {},
                Err(e) => {
                    return Err(e);
                },
            }
            proof {
                let a = holder(before, target).unwrap();
                assert(before.contains_key(a) && block_holds(a, before[a], target)) by {
                    let c = choose|c: u64| #[trigger] before.contains_key(c) && block_holds(c, before[c], target);
                }
                self.lemma_view();
                old(self).lemma_view();
                assert(self@.contains_key(a));
                assert(self.allocations@.contains_key(a));
                assert(target < self.next());
            }
            i = i + 1;
        }
        proof {
            assert(bytes@.skip(n as int) =~= Seq::<u8>::empty());
        }
        Ok(())
    }

    /// Read multiple bytes starting at an address
    pub fn read_bytes_at(&self, addr: Address, size: usize) -> (r: Result<Vec<u8>, String>)
        requires
            self.wf(),
        ensures
            match read_bytes_result(self@, addr as int, size as nat) {
                Ok(bs) => r matches Ok(v) && v@ == bs,
                Err(e) => r matches Err(msg) && msg@ == e,
            },
    {
        let mut bytes: Vec<u8> = Vec::with_capacity(size);
        let mut i: usize = 0;
        while i < size
            invariant
                self.wf(),
                0 <= i <= size,
                i > 0 ==> addr + i <= u64::MAX,
                read_bytes_result(self@, addr as int, size as nat) == match read_bytes_result(
                    self@,
                    addr + i,
                    (size - i) as nat,
                ) {
                    Ok(rest) => Ok(bytes@ + rest),
                    Err(e) => Err(e),
                },
            decreases size - i,
        {
            let target: u64 = addr + i as u64;
            let b = match self.read_byte(target) {
                Ok(b) => b,
                Err(e) => {
                    return Err(e);
                },
            };
            proof {
                let a = holder(self@, target).unwrap();
                assert(self@.contains_key(a) && block_holds(a, self@[a], target)) by {
                    let c = choose|c: u64| #[trigger] self@.contains_key(c) && block_holds(c, self@[c], target);
                }
                self.lemma_view();
                assert(self.allocations@.contains_key(a));
                assert(target < self.next());
                match read_bytes_result(self@, addr + i + 1, (size - i - 1) as nat) {
                    Ok(rest) => {
                        assert(bytes@.push(b) + rest =~= bytes@ + (seq![b] + rest));
                    },
                    Err(e) => {},
                }
            }
            bytes.push(b);
            i = i + 1;
        }
        proof {
            assert(bytes@ + Seq::<u8>::empty() =~= bytes@);
        }
        Ok(bytes)
    }

    /// The start of the block that holds `addr`, if any.
    fn find_block(&self, addr: Address) -> (r: Option<Address>)
        requires
            self.wf(),
        ensures
            r == holder(self@, addr),
    {
        proof {
            self.lemma_view();
        }
        let mut found: Option<Address> = None;
        let ghost v = spec_hash_map_iter(&self.allocations).remaining();
        let ghost mut seen: int = 0;
        for entry in it: self.allocations.iter()
            invariant
                self.wf(),
                v == spec_hash_map_iter(&self.allocations).remaining(),
                it.seq() == v,
                seen == it.index(),
                match found {
                    None => forall|j: int|
                        0 <= j < seen ==> !block_holds(
                            *(#[trigger] v[j]).0,
                            (*v[j].1)@,
                            addr,
                        ),
                    Some(a) => self@.contains_key(a) && block_holds(a, self@[a], addr),
                },
        {
            let (k, v) = entry;
            let start: u64 = *k;
            if found.is_none() && addr >= start && addr - start < v.size as u64 {
                found = Some(start);
            }
            proof {
                seen = seen + 1;
            }
        }
        proof {
            match found {
                Some(a) => {
                    self.lemma_holder(a, addr);
                },
                None => {
                    assert forall|a: u64| #[trigger] self@.contains_key(a) implies !block_holds(
                        a,
                        self@[a],
                        addr,
                    ) by {
                        assert(self.allocations@.contains_key(a));
                        assert(v.contains((&a, &self.allocations@[a])));
                        let j = choose|j: int| 0 <= j < v.len() && v[j] == (&a, &self.allocations@[a]);
                        assert(v[j] == (&a, &self.allocations@[a]));
                    }
                },
            }
        }
        found
    }
}

/// Default heap size: 10 MB
pub const DEFAULT_HEAP_SIZE: usize = 10 * 1024 * 1024;

impl Default for Heap {
    fn default() -> (r: Self)
        ensures
            r.wf(),
            r@ == Map::<u64, BlockView>::empty(),
            r.next() == HEAP_ADDRESS_START,
            r.total() == 0,
            r.limit() == DEFAULT_HEAP_SIZE,
    {
        Self::new(DEFAULT_HEAP_SIZE)
    }
}

} // verus!
