//! Definitions the execution engine looks functions up by, where a node
//! moves the current location to, and travel through the recorded history.
use vstd::prelude::*;
use crate::parser::ast::{AstNode, Param, Program, SourceLocation, StructDef, Type};
use crate::memory::names::NameMap;
use crate::interpreter::errors::RuntimeError;
use crate::snapshot::{snapshot_size, Snapshot, SnapshotManager};

verus! {

/// Helper struct for function definitions
#[derive(Debug)]
pub struct FunctionDef {
    pub params: Vec<Param>,
    pub body: Vec<AstNode>,
    pub return_type: Type,
    pub location: SourceLocation,
}

/// The location execution is at while running a node: that of any
/// statement or expression node, except character literals; definitions
/// have none.
pub open spec fn node_location(node: AstNode) -> Option<SourceLocation> {
    match node {
        AstNode::FunctionDef { .. } | AstNode::StructDef { .. } | AstNode::CharLiteral(..) => None,
        _ => Some(node.loc()),
    }
}

/// Get source location from an AST node
pub fn get_location(node: &AstNode) -> (r: Option<SourceLocation>)
    ensures
        r == node_location(*node),
{
    match node {
        AstNode::FunctionDef { .. } | AstNode::StructDef { .. } | AstNode::CharLiteral(..) => None,
        _ => Some(*node.location()),
    }
}

/// The time-travel side of the interpreter: the snapshots recorded while the
/// program ran, the position in that history, and the error that ended the
/// run. The state on display is that of the snapshot last restored, along
/// with its location and call depth.
pub struct Interpreter {
    struct_defs: NameMap<StructDef>,
    function_defs: NameMap<FunctionDef>,
    snapshot_manager: SnapshotManager,
    history_position: usize,
    last_runtime_error: Option<RuntimeError>,
    current_location: SourceLocation,
    execution_depth: usize,
}

/// The functions a program defines, by name: a later definition of a
/// name replaces an earlier one.
pub open spec fn program_functions(ns: Seq<AstNode>) -> Map<Seq<char>, FunctionDef>
    decreases ns.len(),
{
    if ns.len() == 0 {
        Map::empty()
    } else {
        let m = program_functions(ns.drop_last());
        match ns.last() {
            AstNode::FunctionDef { name, params, body, return_type, location } => m.insert(
                name@,
                FunctionDef { params, body, return_type, location },
            ),
            _ => m,
        }
    }
}

/// The structs a program defines, by name: a later definition of a name
/// replaces an earlier one.
pub open spec fn program_structs(ns: Seq<AstNode>) -> Map<Seq<char>, StructDef>
    decreases ns.len(),
{
    if ns.len() == 0 {
        Map::empty()
    } else {
        let m = program_structs(ns.drop_last());
        match ns.last() {
            AstNode::StructDef { name, fields, .. } => m.insert(name@, StructDef { name, fields }),
            _ => m,
        }
    }
}

impl Interpreter {
    /// The functions of the program, by name.
    pub closed spec fn functions(&self) -> Map<Seq<char>, FunctionDef> {
        self.function_defs@
    }

    /// The structs of the program, by name.
    pub closed spec fn structs(&self) -> Map<Seq<char>, StructDef> {
        self.struct_defs@
    }

    /// The recorded snapshots, oldest first.
    pub closed spec fn history(&self) -> Seq<Snapshot> {
        self.snapshot_manager@
    }

    /// The position in the history.
    pub closed spec fn position(&self) -> int {
        self.history_position as int
    }

    /// The error that ended the run, if one did.
    pub closed spec fn run_error(&self) -> Option<RuntimeError> {
        self.last_runtime_error
    }

    /// The location on display.
    pub closed spec fn location(&self) -> SourceLocation {
        self.current_location
    }

    /// The call depth on display.
    pub closed spec fn depth(&self) -> usize {
        self.execution_depth
    }

    /// The memory the snapshots are counted to use.
    pub closed spec fn usage(&self) -> int {
        self.snapshot_manager.usage()
    }

    /// The snapshot limit.
    pub closed spec fn limit(&self) -> int {
        self.snapshot_manager.limit()
    }

    /// Each snapshot records its own position, the position is at most the
    /// length of the history, and the history keeps within its limit.
    pub closed spec fn wf(&self) -> bool {
        &&& self.snapshot_manager.wf()
        &&& self.struct_defs.wf()
        &&& self.function_defs.wf()
        &&& self.history_position <= self.snapshot_manager@.len()
        &&& forall|i: int|
            0 <= i < self.snapshot_manager@.len() ==> (#[trigger] self.snapshot_manager@[i]).current_statement_index
                == i
    }

    /// Whether the interpreter shows snapshot `i` as restored: at its
    /// position, location and depth.
    pub open spec fn shows(&self, i: int) -> bool {
        &&& 0 <= i < self.history().len()
        &&& self.position() == i
        &&& self.location() == self.history()[i].source_location
        &&& self.depth() == self.history()[i].execution_depth
    }

    /// Whether `after` is `self` with snapshot `i` restored.
    pub open spec fn restored(&self, after: Interpreter, i: int) -> bool {
        &&& after.functions() == self.functions()
        &&& after.structs() == self.structs()
        &&& after.history() == self.history()
        &&& after.run_error() == self.run_error()
        &&& after.limit() == self.limit()
        &&& after.shows(i)
    }

    /// Whether `after` is `self` unchanged, as far as the specification sees.
    pub open spec fn same(&self, after: Interpreter) -> bool {
        &&& after.functions() == self.functions()
        &&& after.structs() == self.structs()
        &&& after.history() == self.history()
        &&& after.run_error() == self.run_error()
        &&& after.limit() == self.limit()
        &&& after.position() == self.position()
        &&& after.location() == self.location()
        &&& after.depth() == self.depth()
    }

    /// Create a new interpreter with the parsed program: its functions and
    /// structs are indexed by name, and the history is empty with room for
    /// `snapshot_memory_limit` bytes of snapshots.
    pub fn new(program: Program, snapshot_memory_limit: usize) -> (r: Self)
        ensures
            r.wf(),
            r.functions() == program_functions(program.nodes@),
            r.structs() == program_structs(program.nodes@),
            r.history() == Seq::<Snapshot>::empty(),
            r.position() == 0,
            r.run_error() is None,
            r.location() == (SourceLocation { line: 1, column: 1 }),
            r.depth() == 0,
            r.limit() == snapshot_memory_limit,
    {
        let mut struct_defs: NameMap<StructDef> = NameMap::new();
        let mut function_defs: NameMap<FunctionDef> = NameMap::new();
        let mut nodes = program.nodes;
        let ghost all = nodes@;
        let ghost mut k: int = 0;
        assert(all.take(0) =~= Seq::<AstNode>::empty());
        while nodes.len() > 0
            invariant
                struct_defs.wf(),
                function_defs.wf(),
                0 <= k <= all.len(),
                nodes@ == all.skip(k),
                function_defs@ == program_functions(all.take(k)),
                struct_defs@ == program_structs(all.take(k)),
            decreases nodes@.len(),
        {
            let node = nodes.remove(0);
            proof {
                assert(all.take(k + 1).drop_last() =~= all.take(k));
                assert(all.take(k + 1).last() == node);
                assert(nodes@ =~= all.skip(k + 1));
            }
            match node {
                AstNode::StructDef { name, fields, .. } => {
                    let key = name.clone();
                    struct_defs.insert(key, StructDef { name, fields });
                },
                AstNode::FunctionDef { name, params, body, return_type, location } => {
                    function_defs.insert(name, FunctionDef { params, body, return_type, location });
                },
                _ => {},
            }
            proof {
                k = k + 1;
            }
        }
        proof {
            assert(all.take(k) =~= all);
        }
        Interpreter {
            struct_defs,
            function_defs,
            snapshot_manager: SnapshotManager::new(snapshot_memory_limit),
            history_position: 0,
            last_runtime_error: None,
            current_location: SourceLocation::new(1, 1),
            execution_depth: 0,
        }
    }

    /// The structs of the program, by name.
    pub fn struct_defs(&self) -> (r: &NameMap<StructDef>)
        ensures
            r@ == self.structs(),
    {
        &self.struct_defs
    }

    /// The functions of the program, by name.
    pub fn function_defs(&self) -> (r: &NameMap<FunctionDef>)
        ensures
            r@ == self.functions(),
    {
        &self.function_defs
    }

    /// Record `snapshot` as the state reached at the end of the history: it
    /// is stamped with its position, which moves one further. A snapshot
    /// over the memory limit is refused, and nothing changes.
    pub fn take_snapshot(&mut self, snapshot: Snapshot) -> (r: Result<(), RuntimeError>)
        requires
            old(self).wf(),
            old(self).position() == old(self).history().len(),
            snapshot_size(snapshot) <= usize::MAX,
            old(self).usage() + snapshot_size(snapshot) <= usize::MAX,
        ensures
            final(self).wf(),
            final(self).run_error() == old(self).run_error(),
            final(self).limit() == old(self).limit(),
            old(self).usage() + snapshot_size(snapshot) > old(self).limit() ==> {
                &&& r == Err::<(), RuntimeError>(RuntimeError::SnapshotLimitExceeded {
                    current: old(self).usage() as usize,
                    limit: old(self).limit() as usize,
                })
                &&& old(self).same(*final(self))
            },
            old(self).usage() + snapshot_size(snapshot) <= old(self).limit() ==> {
                &&& r is Ok
                &&& final(self).history() == old(self).history().push(
                    (Snapshot { current_statement_index: old(self).position() as usize, ..snapshot }),
                )
                &&& final(self).position() == old(self).position() + 1
                &&& final(self).location() == snapshot.source_location
                &&& final(self).depth() == snapshot.execution_depth
            },
    {
        let mut snapshot = snapshot;
        snapshot.current_statement_index = self.history_position;
        let location = snapshot.source_location;
        let depth = snapshot.execution_depth;
        let ghost stamped = snapshot;
        assert(snapshot_size(stamped) == snapshot_size(snapshot));
        match self.snapshot_manager.push(snapshot) {
            Ok(()) => {
                self.history_position = self.snapshot_manager.len();
                self.current_location = location;
                self.execution_depth = depth;
                Ok(())
            },
            Err(_) => Err(
                RuntimeError::SnapshotLimitExceeded {
                    current: self.snapshot_manager.memory_usage(),
                    limit: self.snapshot_manager.memory_limit(),
                },
            ),
        }
    }

    /// Restore the state recorded in snapshot `index`.
    fn restore_snapshot(&mut self, index: usize)
        requires
            old(self).wf(),
            index < old(self).history().len(),
        ensures
            final(self).wf(),
            old(self).restored(*final(self), index as int),
    {
        let snapshot = self.snapshot_manager.get(index).unwrap();
        let position = snapshot.current_statement_index;
        let location = snapshot.source_location;
        let depth = snapshot.execution_depth;
        self.history_position = position;
        self.current_location = location;
        self.execution_depth = depth;
    }

    /// Step backward in execution (restore previous snapshot)
    pub fn step_backward(&mut self) -> (r: Result<(), RuntimeError>)
        requires
            old(self).wf(),
        ensures
            final(self).wf(),
            back_step(*old(self), *final(self), r),
    {
        if self.history_position == 0 {
            proof {
                reveal_strlit("Already at the beginning of execution");
            }
            return Err(
                RuntimeError::HistoryOperationFailed {
                    message: String::from_str("Already at the beginning of execution"),
                    location: self.current_location,
                },
            );
        }
        let index = self.history_position - 1;
        self.restore_snapshot(index);
        Ok(())
    }

    /// Step forward in execution (restore next snapshot if available)
    pub fn step_forward(&mut self) -> (r: Result<(), RuntimeError>)
        requires
            old(self).wf(),
        ensures
            final(self).wf(),
            forward_step(*old(self), *final(self), r),
    {
        let n = self.snapshot_manager.len();
        if n > 0 && self.history_position < n - 1 {
            let index = self.history_position + 1;
            self.restore_snapshot(index);
            Ok(())
        } else {
            match &self.last_runtime_error {
                Some(error) => Err(error.duplicate()),
                None => {
                    proof {
                        reveal_strlit("Reached end of execution");
                    }
                    Err(
                        RuntimeError::HistoryOperationFailed {
                            message: String::from_str("Reached end of execution"),
                            location: self.current_location,
                        },
                    )
                },
            }
        }
    }

    /// Step over: advance until execution depth returns to current level or lower
    pub fn step_over(&mut self) -> (r: Result<(), RuntimeError>)
        requires
            old(self).wf(),
        ensures
            final(self).wf(),
            over_step(*old(self), *final(self), r),
    {
        let starting_depth = self.execution_depth;
        loop
            invariant
                self.wf(),
                self.history() == old(self).history(),
                self.functions() == old(self).functions(),
                self.structs() == old(self).structs(),
                self.run_error() == old(self).run_error(),
                self.limit() == old(self).limit(),
                starting_depth == old(self).depth(),
                old(self).position() <= self.position(),
                self.position() == old(self).position() ==> old(self).same(*self),
                self.position() > old(self).position() ==> self.shows(self.position()),
                first_at_depth(self.history(), old(self).position() + 1, starting_depth)
                    == first_at_depth(self.history(), self.position() + 1, starting_depth),
            decreases self.history().len() - self.position(),
        {
            let n = self.snapshot_manager.len();
            if n > 0 && self.history_position < n - 1 {
                let index = self.history_position + 1;
                self.restore_snapshot(index);
                if self.execution_depth <= starting_depth {
                    return Ok(());
                }
            } else {
                proof {
                    reveal_strlit("Reached end of execution");
                }
                return Err(
                    RuntimeError::HistoryOperationFailed {
                        message: String::from_str("Reached end of execution"),
                        location: self.current_location,
                    },
                );
            }
        }
    }

    /// Step backward over: rewind until execution depth returns to current level or lower
    pub fn step_back_over(&mut self) -> (r: Result<(), RuntimeError>)
        requires
            old(self).wf(),
        ensures
            final(self).wf(),
            back_over_step(*old(self), *final(self), r),
    {
        let starting_depth = self.execution_depth;
        loop
            invariant
                self.wf(),
                self.history() == old(self).history(),
                self.functions() == old(self).functions(),
                self.structs() == old(self).structs(),
                self.run_error() == old(self).run_error(),
                self.limit() == old(self).limit(),
                starting_depth == old(self).depth(),
                self.position() <= old(self).position(),
                self.position() == old(self).position() ==> old(self).same(*self),
                self.position() < old(self).position() ==> self.shows(self.position()),
                old(self).position() > 0 ==> last_at_depth(
                    self.history(),
                    old(self).position() - 1,
                    starting_depth,
                ) == last_at_depth(self.history(), self.position() - 1, starting_depth),
            decreases self.position(),
        {
            match self.step_backward() {
                Err(e) => {
                    return Err(e);
                },
                Ok(()) => {},
            }
            if self.execution_depth <= starting_depth {
                return Ok(());
            }
        }
    }

    /// Rewind to the beginning of execution history
    pub fn rewind_to_start(&mut self) -> (r: Result<(), RuntimeError>)
        requires
            old(self).wf(),
        ensures
            final(self).wf(),
            old(self).history().len() == 0 ==> {
                &&& history_error(r, "No snapshots available"@, old(self).location())
                &&& old(self).same(*final(self))
            },
            old(self).history().len() > 0 ==> r is Ok && old(self).restored(*final(self), 0),
    {
        if self.snapshot_manager.is_empty() {
            proof {
                reveal_strlit("No snapshots available");
            }
            return Err(
                RuntimeError::HistoryOperationFailed {
                    message: String::from_str("No snapshots available"),
                    location: self.current_location,
                },
            );
        }
        self.restore_snapshot(0);
        Ok(())
    }

    /// The error that ended the run: stepping forward past the last
    /// snapshot reports it.
    pub fn set_last_error(&mut self, error: RuntimeError)
        requires
            old(self).wf(),
        ensures
            final(self).wf(),
            final(self).run_error() == Some(error),
            final(self).history() == old(self).history(),
            final(self).limit() == old(self).limit(),
            final(self).position() == old(self).position(),
            final(self).location() == old(self).location(),
            final(self).depth() == old(self).depth(),
    {
        self.last_runtime_error = Some(error);
    }

    pub fn current_location(&self) -> (r: SourceLocation)
        ensures
            r == self.location(),
    {
        self.current_location
    }

    pub fn history_position(&self) -> (r: usize)
        ensures
            r == self.position(),
    {
        self.history_position
    }

    pub fn total_snapshots(&self) -> (r: usize)
        ensures
            r == self.history().len(),
    {
        self.snapshot_manager.len()
    }

    /// The snapshot at `index` in the history.
    pub fn snapshot(&self, index: usize) -> (r: Option<&Snapshot>)
        ensures
            index < self.history().len() ==> r == Some(&self.history()[index as int]),
            index >= self.history().len() ==> r is None,
    {
        self.snapshot_manager.get(index)
    }
}

/// Whether `r` is a failed history operation with message `msg` at `loc`.
pub open spec fn history_error(r: Result<(), RuntimeError>, msg: Seq<char>, loc: SourceLocation) -> bool {
    r matches Err(RuntimeError::HistoryOperationFailed { message, location }) && message@ == msg
        && location == loc
}

/// One step backward from `a` to `b` answered `r`: refused at the start
/// of the history, else the previous snapshot restored.
pub open spec fn back_step(a: Interpreter, b: Interpreter, r: Result<(), RuntimeError>) -> bool {
    if a.position() == 0 {
        &&& history_error(r, "Already at the beginning of execution"@, a.location())
        &&& a.same(b)
    } else {
        r is Ok && a.restored(b, a.position() - 1)
    }
}

/// One step forward from `a` to `b` answered `r`: the next snapshot
/// restored, or, past the last one, the error that ended the run (or the
/// end of execution) with nothing changed.
pub open spec fn forward_step(a: Interpreter, b: Interpreter, r: Result<(), RuntimeError>) -> bool {
    if a.position() + 1 < a.history().len() {
        r is Ok && a.restored(b, a.position() + 1)
    } else {
        &&& a.same(b)
        &&& match a.run_error() {
            Some(e) => r == Err::<(), RuntimeError>(e),
            None => history_error(r, "Reached end of execution"@, a.location()),
        }
    }
}

/// The first position from `j` whose snapshot is at most `depth` calls deep.
pub open spec fn first_at_depth(h: Seq<Snapshot>, j: int, depth: usize) -> Option<int>
    decreases h.len() - j,
{
    if j < 0 || j >= h.len() {
        None
    } else if h[j].execution_depth <= depth {
        Some(j)
    } else {
        first_at_depth(h, j + 1, depth)
    }
}

/// The last position up to `j` whose snapshot is at most `depth` calls deep.
pub open spec fn last_at_depth(h: Seq<Snapshot>, j: int, depth: usize) -> Option<int>
    decreases j + 1,
{
    if j < 0 || j >= h.len() {
        None
    } else if h[j].execution_depth <= depth {
        Some(j)
    } else {
        last_at_depth(h, j - 1, depth)
    }
}

/// The position `first_at_depth` finds lies at or after `j`, in the
/// history, at most `depth` calls deep.
pub proof fn lemma_first_at_depth(h: Seq<Snapshot>, j: int, depth: usize)
    ensures
        first_at_depth(h, j, depth) matches Some(k) ==> j <= k < h.len() && h[k].execution_depth
            <= depth,
    decreases h.len() - j,
{
    if 0 <= j < h.len() && h[j].execution_depth > depth {
        lemma_first_at_depth(h, j + 1, depth);
    }
}

/// The position `last_at_depth` finds lies at or before `j`, in the
/// history, at most `depth` calls deep.
pub proof fn lemma_last_at_depth(h: Seq<Snapshot>, j: int, depth: usize)
    ensures
        last_at_depth(h, j, depth) matches Some(k) ==> 0 <= k <= j && k < h.len()
            && h[k].execution_depth <= depth,
    decreases j + 1,
{
    if 0 <= j < h.len() && h[j].execution_depth > depth {
        lemma_last_at_depth(h, j - 1, depth);
    }
}

/// Stepping over from `a` to `b` answered `r`: the next snapshot no deeper
/// than the one on display is restored; without one, the last snapshot is
/// (when there is a later one at all) and the end of execution is reported.
pub open spec fn over_step(a: Interpreter, b: Interpreter, r: Result<(), RuntimeError>) -> bool {
    match first_at_depth(a.history(), a.position() + 1, a.depth()) {
        Some(k) => r is Ok && a.restored(b, k),
        None => if a.position() + 1 < a.history().len() {
            &&& a.restored(b, a.history().len() - 1)
            &&& history_error(r, "Reached end of execution"@, a.history().last().source_location)
        } else {
            a.same(b) && history_error(r, "Reached end of execution"@, a.location())
        },
    }
}

/// Stepping back over from `a` to `b` answered `r`: the previous snapshot
/// no deeper than the one on display is restored; without one, the first
/// snapshot is, and the start of the history is reported.
pub open spec fn back_over_step(a: Interpreter, b: Interpreter, r: Result<(), RuntimeError>) -> bool {
    if a.position() == 0 {
        a.same(b) && history_error(r, "Already at the beginning of execution"@, a.location())
    } else {
        match last_at_depth(a.history(), a.position() - 1, a.depth()) {
            Some(k) => r is Ok && a.restored(b, k),
            None => {
                &&& a.restored(b, 0)
                &&& history_error(r, "Already at the beginning of execution"@, a.history()[0].source_location)
            },
        }
    }
}

/// Stepping over never moves back, and when it succeeds it moves forward
/// to a snapshot no deeper in calls.
pub proof fn lemma_over_moves_forward(a: Interpreter, b: Interpreter, r: Result<(), RuntimeError>)
    requires
        over_step(a, b, r),
    ensures
        b.position() >= a.position(),
        r is Ok ==> b.position() > a.position() && b.depth() <= a.depth(),
{
    lemma_first_at_depth(a.history(), a.position() + 1, a.depth());
}

/// Stepping back over never moves forward, and when it succeeds it moves
/// back to a snapshot no deeper in calls.
pub proof fn lemma_back_over_moves_back(a: Interpreter, b: Interpreter, r: Result<(), RuntimeError>)
    requires
        back_over_step(a, b, r),
    ensures
        b.position() <= a.position(),
        r is Ok ==> b.position() < a.position() && b.depth() <= a.depth(),
{
    lemma_last_at_depth(a.history(), a.position() - 1, a.depth());
}

/// Stepping back from a restored snapshot that is not the first, and then
/// forward again, succeeds both times and shows that snapshot once more.
pub proof fn law_step_back_then_forward(
    a: Interpreter,
    b: Interpreter,
    c: Interpreter,
    r1: Result<(), RuntimeError>,
    r2: Result<(), RuntimeError>,
)
    requires
        a.shows(a.position()),
        a.position() > 0,
        back_step(a, b, r1),
        forward_step(b, c, r2),
    ensures
        r1 is Ok,
        r2 is Ok,
        a.same(c),
{
}

/// Stepping forward from a restored snapshot that is not the last, and then
/// back again, succeeds both times and shows that snapshot once more.
pub proof fn law_step_forward_then_back(
    a: Interpreter,
    b: Interpreter,
    c: Interpreter,
    r1: Result<(), RuntimeError>,
    r2: Result<(), RuntimeError>,
)
    requires
        a.shows(a.position()),
        a.position() + 1 < a.history().len(),
        forward_step(a, b, r1),
        back_step(b, c, r2),
    ensures
        r1 is Ok,
        r2 is Ok,
        a.same(c),
{
}

} // verus!
