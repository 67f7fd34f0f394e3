use crustty::interpreter::engine::Interpreter;
use crustty::interpreter::errors::RuntimeError;
use crustty::memory::heap::Heap;
use crustty::memory::stack::Stack;
use crustty::parser::ast::{Program, SourceLocation};
use crustty::parser::parser::Parser;
use crustty::snapshot::{MockTerminal, Snapshot};

fn snap(line: usize, depth: usize) -> Snapshot {
    Snapshot {
        stack: Stack::new(),
        heap: Heap::new(1 << 20),
        terminal: MockTerminal::new(),
        current_statement_index: 99,
        source_location: SourceLocation::new(line, 1),
        return_value: None,
        pointer_types: rustc_hash::FxHashMap::default(),
        stack_address_map: rustc_hash::FxHashMap::default(),
        next_stack_address: 4,
        execution_depth: depth,
    }
}

/// A history of snapshots at lines 1, 2, ... with the given call depths.
fn recorded(depths: &[usize]) -> Interpreter {
    let mut it = Interpreter::new(Program::new(), 1 << 20);
    for (i, d) in depths.iter().enumerate() {
        it.take_snapshot(snap(i + 1, *d)).unwrap();
    }
    it
}

fn history_message(r: Result<(), RuntimeError>) -> (String, usize) {
    match r {
        Err(RuntimeError::HistoryOperationFailed { message, location }) => (message, location.line),
        other => panic!("unexpected {:?}", other),
    }
}

#[test]
fn snapshots_are_stamped_with_their_position() {
    let it = recorded(&[0, 1, 1]);
    assert_eq!(it.total_snapshots(), 3);
    assert_eq!(it.history_position(), 3);
    for i in 0..3 {
        assert_eq!(it.snapshot(i).unwrap().current_statement_index, i);
    }
    assert!(it.snapshot(3).is_none());
    assert_eq!(it.current_location().line, 3);
}

#[test]
fn snapshot_over_the_limit_is_refused() {
    let mut it = Interpreter::new(Program::new(), 150);
    let mut s = snap(1, 0);
    s.stack.push_frame("main".to_string(), None);
    it.take_snapshot(s).unwrap();
    let mut s = snap(2, 0);
    s.stack.push_frame("main".to_string(), None);
    match it.take_snapshot(s) {
        Err(RuntimeError::SnapshotLimitExceeded { current, limit }) => {
            assert_eq!(current, 100);
            assert_eq!(limit, 150);
        },
        other => panic!("unexpected {:?}", other),
    }
    assert_eq!(it.total_snapshots(), 1);
    assert_eq!(it.history_position(), 1);
    assert_eq!(it.current_location().line, 1);
}

#[test]
fn stepping_back_and_forward() {
    let mut it = recorded(&[0, 0, 0]);
    assert_eq!(history_message(it.step_forward()), ("Reached end of execution".to_string(), 3));
    it.step_backward().unwrap();
    assert_eq!(it.history_position(), 2);
    assert_eq!(it.current_location().line, 3);
    it.step_backward().unwrap();
    assert_eq!(it.history_position(), 1);
    assert_eq!(it.current_location().line, 2);
    it.step_forward().unwrap();
    assert_eq!(it.history_position(), 2);
    assert_eq!(it.current_location().line, 3);
    it.step_backward().unwrap();
    it.step_backward().unwrap();
    assert_eq!(it.history_position(), 0);
    assert_eq!(
        history_message(it.step_backward()),
        ("Already at the beginning of execution".to_string(), 1)
    );
    assert_eq!(it.history_position(), 0);
}

#[test]
fn stepping_past_the_end_reports_the_run_error() {
    let mut it = recorded(&[0, 0]);
    it.set_last_error(RuntimeError::NullDereference { location: SourceLocation::new(7, 3) });
    it.step_backward().unwrap();
    match it.step_forward() {
        Err(RuntimeError::NullDereference { location }) => assert_eq!(location, SourceLocation::new(7, 3)),
        other => panic!("unexpected {:?}", other),
    }
    assert_eq!(it.history_position(), 1);
}

#[test]
fn step_over_skips_deeper_snapshots() {
    // main at depth 0, a call at depth 1 for two snapshots, then back in main.
    let mut it = recorded(&[0, 0, 1, 1, 0, 2]);
    it.rewind_to_start().unwrap();
    it.step_forward().unwrap();
    assert_eq!(it.history_position(), 1);
    it.step_over().unwrap();
    assert_eq!(it.history_position(), 4);
    assert_eq!(it.current_location().line, 5);
    // Nothing later is as shallow: the last snapshot is shown.
    assert_eq!(history_message(it.step_over()), ("Reached end of execution".to_string(), 6));
    assert_eq!(it.history_position(), 5);
    assert_eq!(history_message(it.step_over()), ("Reached end of execution".to_string(), 6));
    assert_eq!(it.history_position(), 5);
}

#[test]
fn step_back_over_skips_deeper_snapshots() {
    let mut it = recorded(&[1, 0, 1, 1, 0]);
    it.step_backward().unwrap();
    assert_eq!(it.history_position(), 4);
    it.step_back_over().unwrap();
    assert_eq!(it.history_position(), 1);
    assert_eq!(it.current_location().line, 2);
    // No earlier snapshot is as shallow: the walk ends at the start.
    assert_eq!(
        history_message(it.step_back_over()),
        ("Already at the beginning of execution".to_string(), 1)
    );
    assert_eq!(it.history_position(), 0);
}

#[test]
fn rewind_needs_a_history() {
    let mut it = Interpreter::new(Program::new(), 1000);
    assert_eq!(history_message(it.rewind_to_start()), ("No snapshots available".to_string(), 1));
    let mut it = recorded(&[0, 1, 2]);
    it.rewind_to_start().unwrap();
    assert_eq!(it.history_position(), 0);
    assert_eq!(it.current_location().line, 1);
}

#[test]
fn new_indexes_functions_and_structs_by_name() {
    let src = "struct P { int x; }; struct P { int x; int y; }; int f() { return 1; } int main() { return f(); }";
    let program = Parser::new(src).unwrap().parse_program().unwrap();
    let it = Interpreter::new(program, 1000);
    assert!(it.function_defs().contains_key("main"));
    assert!(it.function_defs().contains_key("f"));
    assert!(!it.function_defs().contains_key("g"));
    assert_eq!(it.function_defs().get("f").unwrap().body.len(), 1);
    // The later definition of a struct replaces the earlier one.
    assert_eq!(it.struct_defs().get("P").unwrap().fields.len(), 2);
    assert_eq!(it.total_snapshots(), 0);
    assert_eq!(it.history_position(), 0);
}
