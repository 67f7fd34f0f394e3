//! Snapshot management for reverse execution, and the captured program
//! output for the terminal pane.
//!
//! Every piece of output remembers the source line that printed it, so that
//! output can be grouped by line and removed again when execution steps
//! backwards over that line.
use vstd::prelude::*;
use crate::memory::heap::Heap;
use crate::memory::stack::Stack;
use crate::memory::value::Value;
use crate::parser::ast::{SourceLocation, Type};
use crate::text::{chars_of, decimal_digits, push_char, push_decimal};
use rustc_hash::FxHashMap;

verus! {

/// A line of terminal output with source location tracking
#[derive(Debug, Clone)]
pub struct TerminalLine {
    pub text: String,
    pub location: SourceLocation,
}

/// Mock terminal for capturing printf output
#[derive(Debug, Clone)]
pub struct MockTerminal {
    pub lines: Vec<TerminalLine>,
}

/// The text and location of each output line.
pub open spec fn lines_view(ls: Seq<TerminalLine>) -> Seq<(Seq<char>, SourceLocation)> {
    ls.map_values(|l: TerminalLine| (l.text@, l.location))
}

/// Output after printing `text` from `loc`: appended to the last line when
/// that line came from the same source line, else a new line.
pub open spec fn print_result(
    ls: Seq<(Seq<char>, SourceLocation)>,
    text: Seq<char>,
    loc: SourceLocation,
) -> Seq<(Seq<char>, SourceLocation)> {
    if ls.len() > 0 && ls.last().1.line == loc.line {
        ls.drop_last().push((ls.last().0 + text, ls.last().1))
    } else {
        ls.push((text, loc))
    }
}

/// The lines not printed from source line `line`, in order.
pub open spec fn without_line(ls: Seq<(Seq<char>, SourceLocation)>, line: usize) -> Seq<
    (Seq<char>, SourceLocation),
>
    decreases ls.len(),
{
    if ls.len() == 0 {
        ls
    } else if ls.last().1.line == line {
        without_line(ls.drop_last(), line)
    } else {
        without_line(ls.drop_last(), line).push(ls.last())
    }
}

/// The pieces of a text between newlines (as `str::split('\n')` gives them).
pub open spec fn newline_pieces(s: Seq<char>) -> Seq<Seq<char>>
    decreases s.len(),
{
    if s.len() == 0 {
        seq![Seq::empty()]
    } else {
        let rest = newline_pieces(s.drop_last());
        if s.last() == '\n' {
            rest.push(Seq::empty())
        } else {
            rest.drop_last().push(rest.last().push(s.last()))
        }
    }
}

/// The display lines of one output entry: its newline pieces, without the
/// empty piece after a final newline.
pub open spec fn display_lines(s: Seq<char>) -> Seq<Seq<char>> {
    let p = newline_pieces(s);
    if p.last().len() == 0 {
        p.drop_last()
    } else {
        p
    }
}

/// All display lines of the output, entry after entry.
pub open spec fn output_lines(ls: Seq<(Seq<char>, SourceLocation)>) -> Seq<Seq<char>>
    decreases ls.len(),
{
    if ls.len() == 0 {
        Seq::empty()
    } else {
        output_lines(ls.drop_last()) + display_lines(ls.last().0)
    }
}

proof fn lemma_newline_pieces_nonempty(s: Seq<char>)
    ensures
        newline_pieces(s).len() >= 1,
    decreases s.len(),
{
    if s.len() > 0 {
        lemma_newline_pieces_nonempty(s.drop_last());
    }
}

/// Splits a text at newlines, dropping the empty piece after a final newline.
fn split_display_lines(text: &String) -> (r: Vec<String>)
    ensures
        r@.map_values(|x: String| x@) == display_lines(text@),
{
    let cs = chars_of(text.as_str());
    let mut pieces: Vec<String> = Vec::new();
    let mut cur = String::new();
    let mut i: usize = 0;
    proof {
        assert(cs@.take(0) =~= Seq::<char>::empty());
    }
    while i < cs.len()
        invariant
            0 <= i <= cs@.len(),
            cs@ == text@,
            ({
                let p = newline_pieces(cs@.take(i as int));
                &&& p.len() == pieces@.len() + 1
                &&& forall|k: int| 0 <= k < pieces@.len() ==> (#[trigger] pieces@[k])@ == p[k]
                &&& cur@ == p.last()
            }),
        decreases cs@.len() - i,
    {
        let c = cs[i];
        let ghost before = pieces@;
        proof {
            assert(cs@.take(i + 1).drop_last() =~= cs@.take(i as int));
            assert(cs@.take(i + 1).last() == c);
            lemma_newline_pieces_nonempty(cs@.take(i as int));
        }
        if c == '\n' {
            let done = cur;
            pieces.push(done);
            cur = String::new();
            proof {
                let p = newline_pieces(cs@.take(i as int));
                assert forall|k: int| 0 <= k < pieces@.len() implies (#[trigger] pieces@[k])@
                    == newline_pieces(cs@.take(i + 1))[k] by {
                    if k < before.len() {
                        assert(pieces@[k] == before[k]);
                    }
                }
            }
        } else {
            push_char(&mut cur, c);
        }
        i = i + 1;
    }
    proof {
        assert(cs@.take(cs@.len() as int) =~= cs@);
    }
    if !cur.as_str().is_empty() {
        pieces.push(cur);
    }
    proof {
        let p = newline_pieces(text@);
        assert(pieces@.map_values(|x: String| x@) =~= display_lines(text@));
    }
    pieces
}

impl MockTerminal {
    pub fn new() -> (r: Self)
        ensures
            r.lines@.len() == 0,
    {
        MockTerminal { lines: Vec::new() }
    }

    /// Add a line of output
    pub fn println(&mut self, text: String, location: SourceLocation)
        ensures
            lines_view(final(self).lines@) == lines_view(old(self).lines@).push((text@, location)),
    {
        self.lines.push(TerminalLine { text, location });
        assert(lines_view(self.lines@) =~= lines_view(old(self).lines@).push((text@, location)));
    }

    /// Print without newline
    pub fn print(&mut self, text: String, location: SourceLocation)
        ensures
            lines_view(final(self).lines@) == print_result(
                lines_view(old(self).lines@),
                text@,
                location,
            ),
    {
        let n = self.lines.len();
        if n > 0 && self.lines[n - 1].location.line == location.line {
            let mut last = match self.lines.pop() {
                Some(l) => l,
                None => {
                    return;
                },
            };
            last.text.append(text.as_str());
            self.lines.push(last);
            proof {
                let v = lines_view(old(self).lines@);
                assert(lines_view(self.lines@) =~= v.drop_last().push((v.last().0 + text@, v.last().1)));
            }
            return;
        }
        self.lines.push(TerminalLine { text, location });
        assert(lines_view(self.lines@) =~= lines_view(old(self).lines@).push((text@, location)));
    }

    /// Delete all output from a specific source line
    pub fn delete_output_from_line(&mut self, line: usize)
        ensures
            lines_view(final(self).lines@) == without_line(lines_view(old(self).lines@), line),
    {
        let mut kept: Vec<TerminalLine> = Vec::new();
        let mut rest: Vec<TerminalLine> = Vec::new();
        std::mem::swap(&mut rest, &mut self.lines);
        let ghost all = lines_view(rest@);
        let ghost n = all.len();
        proof {
            assert(all.take(0) =~= Seq::<(Seq<char>, SourceLocation)>::empty());
            assert(lines_view(rest@) =~= all.skip(0));
        }
        while rest.len() > 0
            invariant
                n == all.len(),
                rest@.len() <= n,
                lines_view(rest@) == all.skip(n - rest@.len()),
                lines_view(kept@) == without_line(all.take(n - rest@.len()), line),
            decreases rest@.len(),
        {
            let ghost i = n - rest@.len();
            let ghost rest_before = rest@;
            let tl = rest.remove(0);
            proof {
                assert(lines_view(rest_before)[0] == all.skip(i)[0]);
                assert(all.take(i + 1).drop_last() =~= all.take(i));
                assert(all.take(i + 1).last() == all[i]);
                assert((tl.text@, tl.location) == all[i]);
                assert forall|k: int| 0 <= k < rest@.len() implies lines_view(rest@)[k] == all.skip(
                    i + 1,
                )[k] by {
                    assert(rest@[k] == rest_before[k + 1]);
                    assert(lines_view(rest_before)[k + 1] == all.skip(i)[k + 1]);
                }
                assert(lines_view(rest@) =~= all.skip(i + 1));
            }
            if tl.location.line != line {
                let ghost before = kept@;
                kept.push(tl);
                assert(lines_view(kept@) =~= lines_view(before).push(all[i]));
            }
        }
        proof {
            assert(all.take(n as int) =~= all);
        }
        self.lines = kept;
    }

    /// Get all lines as a vector of strings
    pub fn get_output(&self) -> (r: Vec<String>)
        ensures
            r@.map_values(|x: String| x@) == output_lines(lines_view(self.lines@)),
    {
        let mut out: Vec<String> = Vec::new();
        let mut i: usize = 0;
        let ghost all = lines_view(self.lines@);
        proof {
            assert(all.take(0) =~= Seq::<(Seq<char>, SourceLocation)>::empty());
        }
        while i < self.lines.len()
            invariant
                0 <= i <= self.lines@.len(),
                all == lines_view(self.lines@),
                out@.map_values(|x: String| x@) == output_lines(all.take(i as int)),
            decreases self.lines@.len() - i,
        {
            let pieces = split_display_lines(&self.lines[i].text);
            let ghost before = out@;
            let mut j: usize = 0;
            while j < pieces.len()
                invariant
                    0 <= j <= pieces@.len(),
                    out@ == before + pieces@.take(j as int),
                decreases pieces@.len() - j,
            {
                out.push(pieces[j].clone());
                assert(out@ =~= before + pieces@.take(j + 1));
                j = j + 1;
            }
            proof {
                assert(pieces@.take(pieces@.len() as int) =~= pieces@);
                assert(all.take(i + 1).drop_last() =~= all.take(i as int));
                assert(all.take(i + 1).last() == all[i as int]);
                assert(out@.map_values(|x: String| x@) =~= before.map_values(|x: String| x@)
                    + pieces@.map_values(|x: String| x@));
            }
            i = i + 1;
        }
        proof {
            assert(all.take(i as int) =~= all);
        }
        out
    }

    /// Clear all output
    pub fn clear(&mut self)
        ensures
            final(self).lines@.len() == 0,
    {
        self.lines.clear();
    }
}

impl Default for MockTerminal {
    fn default() -> (r: Self)
        ensures
            r.lines@.len() == 0,
    {
        Self::new()
    }
}

/// Removing the output of a source line that had printed nothing before
/// undoes printing from it.
pub proof fn law_delete_undoes_print(
    ls: Seq<(Seq<char>, SourceLocation)>,
    text: Seq<char>,
    loc: SourceLocation,
)
    requires
        forall|k: int| 0 <= k < ls.len() ==> (#[trigger] ls[k]).1.line != loc.line,
    ensures
        without_line(print_result(ls, text, loc), loc.line) == ls,
{
    lemma_without_absent_line(ls, loc.line);
    assert(ls.push((text, loc)).drop_last() =~= ls);
}

proof fn lemma_without_absent_line(ls: Seq<(Seq<char>, SourceLocation)>, line: usize)
    requires
        forall|k: int| 0 <= k < ls.len() ==> (#[trigger] ls[k]).1.line != line,
    ensures
        without_line(ls, line) == ls,
    decreases ls.len(),
{
    if ls.len() > 0 {
        assert(ls.last() == ls[ls.len() - 1]);
        lemma_without_absent_line(ls.drop_last(), line);
        assert(ls.drop_last().push(ls.last()) =~= ls);
    }
}

/// The hasher builder of `rustc_hash`, which the maps of a snapshot use.
#[verifier::external_type_specification]
#[verifier::external_body]
pub struct ExFxBuildHasher(rustc_hash::FxBuildHasher);

/// Snapshot of execution state
#[derive(Debug)]
pub struct Snapshot {
    pub stack: Stack,
    pub heap: Heap,
    pub terminal: MockTerminal,
    pub current_statement_index: usize,  // Index into statement list
    pub source_location: SourceLocation,
    pub return_value: Option<Value>,
    pub pointer_types: FxHashMap<u64, Type>,
    pub stack_address_map: FxHashMap<u64, (usize, String)>,
    pub next_stack_address: u64,
    pub execution_depth: usize,
}

/// The rough memory use of a snapshot: 100 bytes a stack frame, the heap's
/// allocated bytes, and 50 bytes a line of output.
pub open spec fn snapshot_size(s: Snapshot) -> int {
    (s.stack@.len() * 100 + s.heap.total() + s.terminal.lines@.len() * 50) as int
}

impl Snapshot {
    /// Estimate the memory usage of this snapshot in bytes
    pub fn estimated_size(&self) -> (r: usize)
        requires
            snapshot_size(*self) <= usize::MAX,
        ensures
            r == snapshot_size(*self),
    {
        // Stack: assume 100 bytes per frame on average
        let stack_size = self.stack.depth() * 100;
        // Heap: sum of all allocations
        let heap_size = self.heap.total_allocated();
        // Terminal: assume 50 bytes per line on average
        let terminal_size = self.terminal.lines.len() * 50;
        stack_size + heap_size + terminal_size
    }
}

/// The sizes of some snapshots added up.
pub open spec fn sizes_sum(s: Seq<Snapshot>) -> int
    decreases s.len(),
{
    if s.len() == 0 {
        0
    } else {
        sizes_sum(s.drop_last()) + snapshot_size(s.last())
    }
}

/// Manages execution history for reverse execution
#[derive(Debug)]
pub struct SnapshotManager {
    snapshots: Vec<Snapshot>,
    max_memory: usize,
    current_memory: usize,
}

impl View for SnapshotManager {
    type V = Seq<Snapshot>;

    closed spec fn view(&self) -> Seq<Snapshot> {
        self.snapshots@
    }
}

impl SnapshotManager {
    /// The memory the snapshots are counted to use.
    pub closed spec fn usage(&self) -> int {
        self.current_memory as int
    }

    /// The limit on that memory.
    pub closed spec fn limit(&self) -> int {
        self.max_memory as int
    }

    /// The memory in use is what the snapshots add up to, within the limit.
    pub closed spec fn wf(&self) -> bool {
        &&& self.current_memory == sizes_sum(self.snapshots@)
        &&& self.current_memory <= self.max_memory
    }

    pub fn new(max_memory: usize) -> (r: Self)
        ensures
            r.wf(),
            r@ == Seq::<Snapshot>::empty(),
            r.usage() == 0,
            r.limit() == max_memory,
    {
        SnapshotManager { snapshots: Vec::new(), max_memory, current_memory: 0 }
    }

    /// Add a snapshot to history
    pub fn push(&mut self, snapshot: Snapshot) -> (r: Result<(), String>)
        requires
            old(self).wf(),
            snapshot_size(snapshot) <= usize::MAX,
            old(self).usage() + snapshot_size(snapshot) <= usize::MAX,
        ensures
            final(self).wf(),
            final(self).limit() == old(self).limit(),
            final(self).usage() <= final(self).limit(),
            old(self).usage() + snapshot_size(snapshot) > old(self).limit() ==> {
                &&& r matches Err(e) && e@ == "Snapshot memory limit exceeded: "@ + decimal_digits(
                    old(self).usage() as nat,
                ) + " + "@ + decimal_digits(snapshot_size(snapshot) as nat) + " > "@
                    + decimal_digits(old(self).limit() as nat)
                &&& final(self)@ == old(self)@
                &&& final(self).usage() == old(self).usage()
            },
            old(self).usage() + snapshot_size(snapshot) <= old(self).limit() ==> {
                &&& r is Ok
                &&& final(self)@ == old(self)@.push(snapshot)
                &&& final(self).usage() == old(self).usage() + snapshot_size(snapshot)
            },
    {
        let snapshot_size = snapshot.estimated_size();
        if self.current_memory + snapshot_size > self.max_memory {
            let mut e = String::from_str("Snapshot memory limit exceeded: ");
            push_decimal(&mut e, self.current_memory as u64);
            e.append(" + ");
            push_decimal(&mut e, snapshot_size as u64);
            e.append(" > ");
            push_decimal(&mut e, self.max_memory as u64);
            return Err(e);
        }
        self.current_memory = self.current_memory + snapshot_size;
        self.snapshots.push(snapshot);
        assert(self.snapshots@.drop_last() =~= old(self).snapshots@);
        Ok(())
    }

    /// Get the latest snapshot
    pub fn latest(&self) -> (r: Option<&Snapshot>)
        ensures
            self@.len() == 0 ==> r is None,
            self@.len() > 0 ==> r == Some(&self@.last()),
    {
        let n = self.snapshots.len();
        if n == 0 {
            None
        } else {
            Some(&self.snapshots[n - 1])
        }
    }

    /// Get a snapshot by index
    pub fn get(&self, index: usize) -> (r: Option<&Snapshot>)
        ensures
            index < self@.len() ==> r == Some(&self@[index as int]),
            index >= self@.len() ==> r is None,
    {
        if index < self.snapshots.len() {
            Some(&self.snapshots[index])
        } else {
            None
        }
    }

    /// Get the number of snapshots
    pub fn count(&self) -> (r: usize)
        ensures
            r == self@.len(),
    {
        self.snapshots.len()
    }

    /// Get the number of snapshots (alias for count, for consistency)
    pub fn len(&self) -> (r: usize)
        ensures
            r == self@.len(),
    {
        self.snapshots.len()
    }

    /// Check if empty
    pub fn is_empty(&self) -> (r: bool)
        ensures
            r == (self@.len() == 0),
    {
        self.snapshots.len() == 0
    }

    /// Get current memory usage
    pub fn memory_usage(&self) -> (r: usize)
        ensures
            r == self.usage(),
    {
        self.current_memory
    }

    /// Get max memory limit
    pub fn memory_limit(&self) -> (r: usize)
        ensures
            r == self.limit(),
    {
        self.max_memory
    }

    /// Clear all snapshots
    pub fn clear(&mut self)
        requires
            old(self).wf(),
        ensures
            final(self).wf(),
            final(self)@ == Seq::<Snapshot>::empty(),
            final(self).usage() == 0,
            final(self).limit() == old(self).limit(),
    {
        self.snapshots.clear();
        self.current_memory = 0;
    }
}

/// The memory the history is counted to use never passes its limit.
pub proof fn law_usage_within_limit(m: SnapshotManager)
    requires
        m.wf(),
    ensures
        0 <= m.usage() <= m.limit(),
{
}

} // verus!
