//! Application state shown by the interface: which pane has focus, the
//! error being displayed, and how keys change the state and which history
//! operations they ask of the interpreter.
//!
//! The application loop reads a key, lets [`AppState::handle_key_event`]
//! decide, performs the history operation the returned [`KeyAction`] names,
//! and reports its outcome back with the matching `finish_` method.
use vstd::prelude::*;
use crate::interpreter::engine::{
    back_over_step, back_step, forward_step, lemma_back_over_moves_back, lemma_over_moves_forward, over_step,
    Interpreter,
};
use crate::interpreter::errors::{error_text, RuntimeError};
use crate::parser::ast::SourceLocation;
use crate::parser::lexer::text_is;
use crate::text::{chars_of, decimal_digits, push_char, push_decimal};
use crate::ui::panes::heap::HeapScrollState;
use crate::ui::panes::source::SourceScrollState;
use crate::ui::panes::stack::StackScrollState;

verus! {

/// Which pane is currently focused
#[derive(Debug, Clone, Copy, PartialEq, Eq, Structural)]
pub enum FocusedPane {
    Source,
    Stack,
    Heap,
    Terminal,
}

/// The position of a pane in the clockwise focus order
/// (source, terminal, stack, heap).
pub open spec fn pane_index(p: FocusedPane) -> int {
    match p {
        FocusedPane::Source => 0,
        FocusedPane::Terminal => 1,
        FocusedPane::Stack => 2,
        FocusedPane::Heap => 3,
    }
}

impl FocusedPane {
    /// Move focus to the next pane (clockwise: source -> terminal -> stack -> heap)
    pub fn next(self) -> (r: Self)
        ensures
            pane_index(r) == (pane_index(self) + 1) % 4,
    {
        match self {
            FocusedPane::Source => FocusedPane::Terminal,
            FocusedPane::Terminal => FocusedPane::Stack,
            FocusedPane::Stack => FocusedPane::Heap,
            FocusedPane::Heap => FocusedPane::Source,
        }
    }

    /// Move focus to the previous pane (counter-clockwise)
    pub fn prev(self) -> (r: Self)
        ensures
            pane_index(r) == (pane_index(self) + 3) % 4,
    {
        match self {
            FocusedPane::Source => FocusedPane::Heap,
            FocusedPane::Terminal => FocusedPane::Source,
            FocusedPane::Stack => FocusedPane::Terminal,
            FocusedPane::Heap => FocusedPane::Stack,
        }
    }
}

/// A pane is determined by its place in the focus order.
pub proof fn lemma_pane_index_injective(a: FocusedPane, b: FocusedPane)
    ensures
        pane_index(a) == pane_index(b) ==> a == b,
        0 <= pane_index(a) < 4,
{
}

/// Moving focus back undoes moving it forward, and the other way round.
pub proof fn law_prev_undoes_next(p: FocusedPane, n: FocusedPane, q: FocusedPane)
    requires
        pane_index(n) == (pane_index(p) + 1) % 4,
        pane_index(q) == (pane_index(n) + 3) % 4,
    ensures
        q == p,
{
    lemma_pane_index_injective(q, p);
    lemma_pane_index_injective(n, p);
}

/// Moving focus forward undoes moving it back.
pub proof fn law_next_undoes_prev(p: FocusedPane, n: FocusedPane, q: FocusedPane)
    requires
        pane_index(n) == (pane_index(p) + 3) % 4,
        pane_index(q) == (pane_index(n) + 1) % 4,
    ensures
        q == p,
{
    lemma_pane_index_injective(q, p);
    lemma_pane_index_injective(n, p);
}

/// Moving focus forward four times comes back to the same pane.
pub proof fn law_four_steps_return(p: FocusedPane, a: FocusedPane, b: FocusedPane, c: FocusedPane, d: FocusedPane)
    requires
        pane_index(a) == (pane_index(p) + 1) % 4,
        pane_index(b) == (pane_index(a) + 1) % 4,
        pane_index(c) == (pane_index(b) + 1) % 4,
        pane_index(d) == (pane_index(c) + 1) % 4,
    ensures
        d == p,
{
    lemma_pane_index_injective(d, p);
    lemma_pane_index_injective(a, p);
    lemma_pane_index_injective(b, p);
    lemma_pane_index_injective(c, p);
}

/// Represents an error that occurred during parsing or execution
#[derive(Debug, Clone)]
pub enum ErrorState {
    /// Parsing error that occurred before execution
    ParseError { message: String, location: SourceLocation },
    /// Runtime error that occurred during execution
    RuntimeError(RuntimeError),
}

/// The address a memory-related error points at, if any.
pub open spec fn error_address(e: ErrorState) -> Option<u64> {
    match e {
        ErrorState::RuntimeError(RuntimeError::UninitializedRead { address, .. }) => address,
        ErrorState::RuntimeError(RuntimeError::UseAfterFree { address, .. }) => Some(address),
        ErrorState::RuntimeError(RuntimeError::DoubleFree { address, .. }) => Some(address),
        ErrorState::RuntimeError(RuntimeError::InvalidFree { address, .. }) => Some(address),
        _ => None,
    }
}

/// The message an error is shown with.
pub open spec fn error_message(e: ErrorState) -> Seq<char> {
    match e {
        ErrorState::ParseError { message, .. } => "Parse Error: "@ + message@,
        ErrorState::RuntimeError(err) => "Runtime Error: "@ + error_text(err),
    }
}

impl ErrorState {
    /// Get the line number where the error occurred
    pub fn line(&self) -> (r: usize)
        ensures
            r == match *self {
                ErrorState::ParseError { location, .. } => location.line,
                ErrorState::RuntimeError(err) => match err.loc() {
                    Some(l) => l.line,
                    None => 0,
                },
            },
    {
        match self {
            ErrorState::ParseError { location, .. } => location.line,
            ErrorState::RuntimeError(err) => match err.location() {
                Some(loc) => loc.line,
                None => 0,
            },
        }
    }

    /// Get the memory address if applicable (for memory-related errors)
    pub fn memory_address(&self) -> (r: Option<u64>)
        ensures
            r == error_address(*self),
    {
        match self {
            ErrorState::RuntimeError(RuntimeError::UninitializedRead { address, .. }) => *address,
            ErrorState::RuntimeError(RuntimeError::UseAfterFree { address, .. }) => Some(*address),
            ErrorState::RuntimeError(RuntimeError::DoubleFree { address, .. }) => Some(*address),
            ErrorState::RuntimeError(RuntimeError::InvalidFree { address, .. }) => Some(*address),
            _ => None,
        }
    }

    /// Get a human-readable error message
    pub fn message(&self) -> (r: String)
        ensures
            r@ == error_message(*self),
    {
        match self {
            ErrorState::ParseError { message, .. } => {
                let mut s = String::from_str("Parse Error: ");
                s.append(message.as_str());
                s
            },
            ErrorState::RuntimeError(err) => {
                let mut s = String::from_str("Runtime Error: ");
                let t = err.to_text();
                s.append(t.as_str());
                s
            },
        }
    }
}

/// A key as the application reads it.
#[derive(Debug, Clone, Copy, PartialEq, Eq, Structural)]
pub enum Key {
    Char(char),
    Enter,
    Backspace,
    Esc,
    Left,
    Right,
    Up,
    Down,
    Tab,
    BackTab,
    /// Any other key
    Other,
}

/// A move through the execution history.
#[derive(Debug, Clone, Copy, PartialEq, Eq, Structural)]
pub enum Step {
    Forward,
    Backward,
    /// Forward until back at the current call depth
    Over,
    /// Backward until back at the current call depth
    BackOver,
}

/// What the application loop has to do after a key.
#[derive(Debug)]
pub enum KeyAction {
    Nothing,
    /// Take one step, then report with `finish_step`
    Step(Step),
    /// Step forward up to this many times, stopping at the first failure,
    /// then report the count with `finish_multi_step`
    StepForwardTimes(usize),
    /// Step forward to the last snapshot, then `finish_jump_to_end`
    JumpToEnd,
    /// Rewind to the first snapshot, then `finish_jump_to_start`
    JumpToStart,
    /// Hand this line to the waiting `scanf`, then `finish_input`
    SubmitInput(String),
    /// Playing was switched on or off: note the time of the key, and when
    /// playing starts, let the first step come at once
    PlayToggled,
}

/// What an action is, with the input line by its text.
pub enum ActionView {
    Nothing,
    Step(Step),
    StepForwardTimes(nat),
    JumpToEnd,
    JumpToStart,
    SubmitInput(Seq<char>),
    PlayToggled,
}

pub open spec fn action_view(a: KeyAction) -> ActionView {
    match a {
        KeyAction::Nothing => ActionView::Nothing,
        KeyAction::Step(st) => ActionView::Step(st),
        KeyAction::StepForwardTimes(n) => ActionView::StepForwardTimes(n as nat),
        KeyAction::JumpToEnd => ActionView::JumpToEnd,
        KeyAction::JumpToStart => ActionView::JumpToStart,
        KeyAction::SubmitInput(s) => ActionView::SubmitInput(s@),
        KeyAction::PlayToggled => ActionView::PlayToggled,
    }
}

/// The state of the interface between keys: focus, scrolling, the status
/// line, the error shown, whether it plays, and the input being typed.
pub struct AppState {
    pub focused_pane: FocusedPane,
    pub source_scroll: SourceScrollState,
    pub stack_scroll: StackScrollState,
    pub heap_scroll: HeapScrollState,
    pub terminal_scroll: usize,
    pub should_quit: bool,
    pub status_message: String,
    pub error_state: Option<ErrorState>,
    pub is_playing: bool,
    pub scanf_input_buffer: String,
}

/// The state as a value.
pub struct AppView {
    pub focused_pane: FocusedPane,
    pub source_offset: usize,
    pub target_line_row: Option<usize>,
    pub stack_offset: usize,
    pub stack_items: usize,
    pub heap_offset: usize,
    pub heap_items: usize,
    pub terminal_scroll: usize,
    pub should_quit: bool,
    pub status: Seq<char>,
    pub error: Option<ErrorState>,
    pub is_playing: bool,
    pub input: Seq<char>,
}

impl View for AppState {
    type V = AppView;

    open spec fn view(&self) -> AppView {
        AppView {
            focused_pane: self.focused_pane,
            source_offset: self.source_scroll.offset,
            target_line_row: self.source_scroll.target_line_row,
            stack_offset: self.stack_scroll.offset,
            stack_items: self.stack_scroll.prev_item_count,
            heap_offset: self.heap_scroll.offset,
            heap_items: self.heap_scroll.prev_item_count,
            terminal_scroll: self.terminal_scroll,
            should_quit: self.should_quit,
            status: self.status_message@,
            error: self.error_state,
            is_playing: self.is_playing,
            input: self.scanf_input_buffer@,
        }
    }
}

/// The status shown while a `scanf` waits for input.
pub open spec fn waiting_text() -> Seq<char> {
    "Waiting for scanf input\u{2026}"@
}

/// Once the current snapshot is the one waiting for `scanf` input, playing
/// stops and the status says so.
pub open spec fn scanf_checked(v: AppView, in_scanf: bool) -> AppView {
    if in_scanf {
        AppView { is_playing: false, status: waiting_text(), ..v }
    } else {
        v
    }
}

/// A history step asked for: refused with the error's message while an
/// error is shown.
pub open spec fn step_request(v: AppView, st: Step) -> (AppView, ActionView) {
    match v.error {
        Some(e) => (AppView { status: error_message(e), ..v }, ActionView::Nothing),
        None => (v, ActionView::Step(st)),
    }
}

/// An action that is refused with the error's message while an error is
/// shown, and otherwise stops playing.
pub open spec fn guarded(v: AppView, a: ActionView) -> (AppView, ActionView) {
    match v.error {
        Some(e) => (AppView { status: error_message(e), ..v }, ActionView::Nothing),
        None => (AppView { is_playing: false, ..v }, a),
    }
}

/// The input line without its last character.
pub open spec fn without_last(s: Seq<char>) -> Seq<char> {
    if s.len() == 0 {
        s
    } else {
        s.drop_last()
    }
}

/// Scrolling up in the focused pane: the source's current line moves one
/// row down the window, the other panes show one line earlier.
pub open spec fn scrolled_up(v: AppView) -> AppView {
    match v.focused_pane {
        FocusedPane::Source => match v.target_line_row {
            Some(row) => AppView {
                target_line_row: Some(if row < usize::MAX {
                    (row + 1) as usize
                } else {
                    row
                }),
                ..v
            },
            None => v,
        },
        FocusedPane::Stack => AppView {
            stack_offset: if v.stack_offset > 0 {
                (v.stack_offset - 1) as usize
            } else {
                0
            },
            ..v
        },
        FocusedPane::Heap => AppView {
            heap_offset: if v.heap_offset > 0 {
                (v.heap_offset - 1) as usize
            } else {
                0
            },
            ..v
        },
        FocusedPane::Terminal => AppView {
            terminal_scroll: if v.terminal_scroll > 0 {
                (v.terminal_scroll - 1) as usize
            } else {
                0
            },
            ..v
        },
    }
}

/// One more, stopping at the largest `usize`.
pub open spec fn saturating_inc(n: usize) -> usize {
    if n < usize::MAX {
        (n + 1) as usize
    } else {
        n
    }
}

/// Scrolling down in the focused pane: the source's current line moves one
/// row up the window, the other panes show one line later.
pub open spec fn scrolled_down(v: AppView) -> AppView {
    match v.focused_pane {
        FocusedPane::Source => match v.target_line_row {
            Some(row) => AppView {
                target_line_row: Some(if row > 0 {
                    (row - 1) as usize
                } else {
                    0
                }),
                ..v
            },
            None => v,
        },
        FocusedPane::Stack => AppView { stack_offset: saturating_inc(v.stack_offset), ..v },
        FocusedPane::Heap => AppView { heap_offset: saturating_inc(v.heap_offset), ..v },
        FocusedPane::Terminal => AppView { terminal_scroll: saturating_inc(v.terminal_scroll), ..v },
    }
}

/// How a key changes the state, and what it asks the loop to do, given
/// whether a `scanf` is waiting for input at the current snapshot and
/// whether enough time has passed since space was last pressed.
///
/// While input is awaited, keys edit the input line: Enter submits it,
/// Backspace deletes its last character, Esc or Left stops and steps back,
/// characters are typed. Otherwise: `q` quits, `1`-`9` step forward that
/// many times, `s`/`a` step over forward/backward, Tab and BackTab move the
/// focus, Left/Right step, Up/Down scroll the focused pane, space starts or
/// pauses playing, Enter jumps to the end and Backspace to the start.
pub open spec fn key_result(v: AppView, key: Key, in_scanf: bool, space_ready: bool) -> (
    AppView,
    ActionView,
) {
    if in_scanf {
        match key {
            Key::Enter => (AppView { input: Seq::empty(), ..v }, ActionView::SubmitInput(v.input)),
            Key::Backspace => (AppView { input: without_last(v.input), ..v }, ActionView::Nothing),
            Key::Esc | Key::Left => step_request(AppView { is_playing: false, ..v }, Step::Backward),
            Key::Char(c) => (AppView { input: v.input.push(c), ..v }, ActionView::Nothing),
            _ => (v, ActionView::Nothing),
        }
    } else {
        match key {
            Key::Char(c) => if c == 'q' || c == 'Q' {
                (AppView { should_quit: true, ..v }, ActionView::Nothing)
            } else if '1' <= c <= '9' {
                guarded(v, ActionView::StepForwardTimes((c as u32 - '0' as u32) as nat))
            } else if c == 's' || c == 'S' {
                step_request(AppView { is_playing: false, ..v }, Step::Over)
            } else if c == 'a' || c == 'A' {
                step_request(AppView { is_playing: false, ..v }, Step::BackOver)
            } else if c == ' ' {
                if space_ready {
                    let playing = !v.is_playing;
                    (
                        AppView {
                            is_playing: playing,
                            status: if playing {
                                "Playing..."@
                            } else {
                                "Paused"@
                            },
                            ..v
                        },
                        ActionView::PlayToggled,
                    )
                } else {
                    (v, ActionView::Nothing)
                }
            } else {
                (v, ActionView::Nothing)
            },
            Key::Tab => (
                AppView { focused_pane: next_pane(v.focused_pane), ..v },
                ActionView::Nothing,
            ),
            Key::BackTab => (
                AppView { focused_pane: prev_pane(v.focused_pane), ..v },
                ActionView::Nothing,
            ),
            Key::Left => step_request(AppView { is_playing: false, ..v }, Step::Backward),
            Key::Right => step_request(AppView { is_playing: false, ..v }, Step::Forward),
            Key::Up => (scrolled_up(v), ActionView::Nothing),
            Key::Down => (scrolled_down(v), ActionView::Nothing),
            Key::Enter => guarded(v, ActionView::JumpToEnd),
            Key::Backspace => guarded(v, ActionView::JumpToStart),
            _ => (v, ActionView::Nothing),
        }
    }
}

/// The pane after `p` in the focus order.
pub open spec fn next_pane(p: FocusedPane) -> FocusedPane {
    match p {
        FocusedPane::Source => FocusedPane::Terminal,
        FocusedPane::Terminal => FocusedPane::Stack,
        FocusedPane::Stack => FocusedPane::Heap,
        FocusedPane::Heap => FocusedPane::Source,
    }
}

/// The pane before `p` in the focus order.
pub open spec fn prev_pane(p: FocusedPane) -> FocusedPane {
    match p {
        FocusedPane::Source => FocusedPane::Heap,
        FocusedPane::Terminal => FocusedPane::Source,
        FocusedPane::Stack => FocusedPane::Terminal,
        FocusedPane::Heap => FocusedPane::Stack,
    }
}

/// The message of the history failure that only says the end was reached.
pub open spec fn end_text() -> Seq<char> {
    "Reached end of execution"@
}

/// Whether an error is a history failure with this message.
pub open spec fn history_failure(e: RuntimeError, m: Seq<char>) -> bool {
    e matches RuntimeError::HistoryOperationFailed { message, .. } && message@ == m
}

/// The message of a failed history operation.
pub open spec fn failure_message(e: RuntimeError) -> Seq<char> {
    match e {
        RuntimeError::HistoryOperationFailed { message, .. } => message@,
        _ => Seq::empty(),
    }
}

/// An error now shown, with `Error: ` and its text in the status line.
pub open spec fn failed(v: AppView, e: RuntimeError) -> AppView {
    AppView {
        error: Some(ErrorState::RuntimeError(e)),
        status: "Error: "@ + error_text(e),
        ..v
    }
}

/// The state after a step was taken, given how it went and whether a
/// `scanf` now waits: success says which step and shows the newest output;
/// reaching either end of the history only says so; stepping back reports
/// any failure in the status line alone; other failures are shown as
/// errors.
pub open spec fn step_result(v: AppView, st: Step, outcome: Result<(), RuntimeError>, in_scanf: bool) -> AppView {
    match st {
        Step::Forward | Step::Over => match outcome {
            Ok(()) => scanf_checked(
                AppView {
                    status: if st == Step::Forward {
                        "Stepped forward"@
                    } else {
                        "Stepped over"@
                    },
                    terminal_scroll: usize::MAX,
                    ..v
                },
                in_scanf,
            ),
            Err(e) => if history_failure(e, end_text()) {
                scanf_checked(AppView { status: end_text(), ..v }, in_scanf)
            } else {
                failed(v, e)
            },
        },
        Step::Backward => match outcome {
            Ok(()) => AppView { status: "Stepped backward"@, terminal_scroll: usize::MAX, ..v },
            Err(e) => AppView { status: error_text(e), ..v },
        },
        Step::BackOver => match outcome {
            Ok(()) => AppView { status: "Stepped back over"@, terminal_scroll: usize::MAX, ..v },
            Err(e) => if history_failure(e, "Reached start of execution"@) || history_failure(
                e,
                "Already at the beginning of execution"@,
            ) {
                AppView { status: failure_message(e), ..v }
            } else {
                failed(v, e)
            },
        },
    }
}

impl AppState {
    /// The state the interface starts in.
    pub fn new() -> (r: Self)
        ensures
            r@ == (AppView {
                focused_pane: FocusedPane::Source,
                source_offset: 0,
                target_line_row: None,
                stack_offset: 0,
                stack_items: 0,
                heap_offset: 0,
                heap_items: 0,
                terminal_scroll: 0,
                should_quit: false,
                status: "Ready!"@,
                error: None,
                is_playing: false,
                input: Seq::empty(),
            }),
    {
        AppState {
            focused_pane: FocusedPane::Source,
            source_scroll: SourceScrollState { offset: 0, target_line_row: None },
            stack_scroll: StackScrollState { offset: 0, prev_item_count: 0 },
            heap_scroll: HeapScrollState { offset: 0, prev_item_count: 0 },
            terminal_scroll: 0,
            should_quit: false,
            status_message: String::from_str("Ready!"),
            error_state: None,
            is_playing: false,
            scanf_input_buffer: String::new(),
        }
    }

    /// The starting state with an error shown.
    pub fn new_with_error(error: ErrorState) -> (r: Self)
        ensures
            r@ == (AppView {
                focused_pane: FocusedPane::Source,
                source_offset: 0,
                target_line_row: None,
                stack_offset: 0,
                stack_items: 0,
                heap_offset: 0,
                heap_items: 0,
                terminal_scroll: 0,
                should_quit: false,
                status: error_message(error),
                error: Some(error),
                is_playing: false,
                input: Seq::empty(),
            }),
    {
        let mut app = Self::new();
        app.status_message = error.message();
        app.error_state = Some(error);
        app
    }

    fn set_status(&mut self, text: &str)
        ensures
            final(self)@ == (AppView { status: text@, ..old(self)@ }),
    {
        self.status_message = String::from_str(text);
    }

    /// Once the current snapshot is the one waiting for `scanf` input, stop
    /// playing and say so.
    pub fn check_and_activate_scanf_mode(&mut self, in_scanf: bool)
        ensures
            final(self)@ == scanf_checked(old(self)@, in_scanf),
    {
        if in_scanf {
            self.is_playing = false;
            self.set_status("Waiting for scanf input\u{2026}");
        }
    }

    /// Ask for a history step, unless an error is shown.
    fn request_step(&mut self, st: Step) -> (r: KeyAction)
        ensures
            (final(self)@, action_view(r)) == step_request(old(self)@, st),
    {
        match &self.error_state {
            Some(error) => {
                self.status_message = error.message();
                KeyAction::Nothing
            },
            None => KeyAction::Step(st),
        }
    }

    /// Ask for an action that stops playing, unless an error is shown.
    fn request_guarded(&mut self, a: KeyAction) -> (r: KeyAction)
        ensures
            (final(self)@, action_view(r)) == guarded(old(self)@, action_view(a)),
    {
        match &self.error_state {
            Some(error) => {
                self.status_message = error.message();
                KeyAction::Nothing
            },
            None => {
                self.is_playing = false;
                a
            },
        }
    }

    fn pop_input(&mut self)
        ensures
            final(self)@ == (AppView { input: without_last(old(self)@.input), ..old(self)@ }),
    {
        let chars = chars_of(self.scanf_input_buffer.as_str());
        if chars.len() > 0 {
            let mut shorter = String::new();
            let mut i: usize = 0;
            while i < chars.len() - 1
                invariant
                    chars@ == old(self).scanf_input_buffer@,
                    chars@.len() > 0,
                    i + 1 <= chars@.len(),
                    shorter@ == chars@.take(i as int),
                decreases chars@.len() - i,
            {
                push_char(&mut shorter, chars[i]);
                assert(shorter@ =~= chars@.take(i + 1));
                i = i + 1;
            }
            assert(chars@.take(i as int) =~= chars@.drop_last());
            self.scanf_input_buffer = shorter;
        }
    }

    fn scroll_up(&mut self)
        ensures
            final(self)@ == scrolled_up(old(self)@),
    {
        match self.focused_pane {
            FocusedPane::Source => {
                if let Some(row) = self.source_scroll.target_line_row {
                    self.source_scroll.target_line_row = Some(row.saturating_add(1));
                }
            },
            FocusedPane::Stack => {
                if self.stack_scroll.offset > 0 {
                    self.stack_scroll.offset = self.stack_scroll.offset.saturating_sub(1);
                }
            },
            FocusedPane::Heap => {
                if self.heap_scroll.offset > 0 {
                    self.heap_scroll.offset = self.heap_scroll.offset.saturating_sub(1);
                }
            },
            FocusedPane::Terminal => {
                if self.terminal_scroll > 0 {
                    self.terminal_scroll = self.terminal_scroll.saturating_sub(1);
                }
            },
        }
    }

    fn scroll_down(&mut self)
        ensures
            final(self)@ == scrolled_down(old(self)@),
    {
        match self.focused_pane {
            FocusedPane::Source => {
                if let Some(row) = self.source_scroll.target_line_row {
                    self.source_scroll.target_line_row = Some(row.saturating_sub(1));
                }
            },
            FocusedPane::Stack => {
                self.stack_scroll.offset = self.stack_scroll.offset.saturating_add(1);
            },
            FocusedPane::Heap => {
                self.heap_scroll.offset = self.heap_scroll.offset.saturating_add(1);
            },
            FocusedPane::Terminal => {
                self.terminal_scroll = self.terminal_scroll.saturating_add(1);
            },
        }
    }

    /// React to a key: change the state and say what the loop has to do.
    /// `in_scanf` tells whether a `scanf` waits for input at the current
    /// snapshot, `space_ready` whether enough time has passed since space
    /// was last pressed.
    pub fn handle_key_event(&mut self, key: Key, in_scanf: bool, space_ready: bool) -> (r: KeyAction)
        ensures
            (final(self)@, action_view(r)) == key_result(old(self)@, key, in_scanf, space_ready),
    {
        if in_scanf {
            return match key {
                Key::Enter => {
                    let mut input = String::new();
                    std::mem::swap(&mut input, &mut self.scanf_input_buffer);
                    KeyAction::SubmitInput(input)
                },
                Key::Backspace => {
                    self.pop_input();
                    KeyAction::Nothing
                },
                Key::Esc | Key::Left => {
                    self.is_playing = false;
                    self.request_step(Step::Backward)
                },
                Key::Char(c) => {
                    push_char(&mut self.scanf_input_buffer, c);
                    KeyAction::Nothing
                },
                _ => KeyAction::Nothing,
            };
        }
        match key {
            Key::Char(c) => {
                if c == 'q' || c == 'Q' {
                    self.should_quit = true;
                    KeyAction::Nothing
                } else if '1' <= c && c <= '9' {
                    let n = (c as u32 - 48) as usize;
                    self.request_guarded(KeyAction::StepForwardTimes(n))
                } else if c == 's' || c == 'S' {
                    self.is_playing = false;
                    self.request_step(Step::Over)
                } else if c == 'a' || c == 'A' {
                    self.is_playing = false;
                    self.request_step(Step::BackOver)
                } else if c == ' ' {
                    if space_ready {
                        self.is_playing = !self.is_playing;
                        if self.is_playing {
                            self.set_status("Playing...");
                        } else {
                            self.set_status("Paused");
                        }
                        KeyAction::PlayToggled
                    } else {
                        KeyAction::Nothing
                    }
                } else {
                    KeyAction::Nothing
                }
            },
            Key::Tab => {
                self.focused_pane = self.focused_pane.next();
                KeyAction::Nothing
            },
            Key::BackTab => {
                self.focused_pane = self.focused_pane.prev();
                KeyAction::Nothing
            },
            Key::Left => {
                self.is_playing = false;
                self.request_step(Step::Backward)
            },
            Key::Right => {
                self.is_playing = false;
                self.request_step(Step::Forward)
            },
            Key::Up => {
                self.scroll_up();
                KeyAction::Nothing
            },
            Key::Down => {
                self.scroll_down();
                KeyAction::Nothing
            },
            Key::Enter => self.request_guarded(KeyAction::JumpToEnd),
            Key::Backspace => self.request_guarded(KeyAction::JumpToStart),
            _ => KeyAction::Nothing,
        }
    }
}

/// The state after a multi-step: how many steps were taken.
pub open spec fn multi_step_result(v: AppView, stepped: usize, in_scanf: bool) -> AppView {
    scanf_checked(
        AppView {
            status: "Stepped forward "@ + decimal_digits(stepped as nat) + " step(s)"@,
            terminal_scroll: usize::MAX,
            ..v
        },
        in_scanf,
    )
}

/// The state after submitting input: on success the newest output shows
/// and, unless another `scanf` waits at once, the input is acknowledged; a
/// failure is shown as an error.
pub open spec fn input_result(v: AppView, outcome: Result<(), RuntimeError>, in_scanf: bool) -> AppView {
    match outcome {
        Ok(()) => {
            let w = scanf_checked(AppView { terminal_scroll: usize::MAX, ..v }, in_scanf);
            if in_scanf {
                w
            } else {
                AppView { status: "Input accepted"@, ..w }
            }
        },
        Err(e) => failed(v, e),
    }
}

/// While playing: whether playing goes on, or stops because an error is
/// shown or a `scanf` waits (saying so in the status line).
pub open spec fn play_check(v: AppView, in_scanf: bool) -> (AppView, bool) {
    if v.error is Some || in_scanf {
        let w = AppView { is_playing: false, ..v };
        if in_scanf {
            (scanf_checked(w, true), false)
        } else {
            (AppView { status: "Stopped: "@ + error_message(v.error->Some_0), ..w }, false)
        }
    } else {
        (v, true)
    }
}

/// The state after a step taken while playing, and whether the application
/// keeps running: reaching the end of the history stops playing and ends it.
pub open spec fn play_step_result(v: AppView, outcome: Result<(), RuntimeError>, in_scanf: bool) -> (
    AppView,
    bool,
) {
    match outcome {
        Ok(()) => (
            scanf_checked(
                AppView { status: "Playing..."@, terminal_scroll: usize::MAX, ..v },
                in_scanf,
            ),
            true,
        ),
        Err(e) => if history_failure(e, end_text()) {
            (AppView { is_playing: false, status: end_text(), ..v }, false)
        } else {
            (AppView { is_playing: false, ..failed(v, e) }, true)
        },
    }
}

/// The text `Error: ` and an error's message.
fn error_status(e: &RuntimeError) -> (r: String)
    ensures
        r@ == "Error: "@ + error_text(*e),
{
    let mut s = String::from_str("Error: ");
    let t = e.to_text();
    s.append(t.as_str());
    s
}

/// The message of a history failure, if it is one with this text.
fn failure_with(e: &RuntimeError, text: &str) -> (r: Option<String>)
    ensures
        match r {
            Some(m) => history_failure(*e, text@) && m@ == text@ && failure_message(*e) == text@,
            None => !history_failure(*e, text@),
        },
{
    match e {
        RuntimeError::HistoryOperationFailed { message, .. } => {
            if text_is(message, text) {
                Some(message.clone())
            } else {
                None
            }
        },
        _ => None,
    }
}

impl AppState {
    fn show_error(&mut self, e: RuntimeError)
        ensures
            final(self)@ == failed(old(self)@, e),
    {
        self.status_message = error_status(&e);
        self.error_state = Some(ErrorState::RuntimeError(e));
    }

    /// Report how a history step went; `in_scanf` tells whether a `scanf`
    /// now waits at the current snapshot.
    pub fn finish_step(&mut self, st: Step, outcome: Result<(), RuntimeError>, in_scanf: bool)
        ensures
            final(self)@ == step_result(old(self)@, st, outcome, in_scanf),
    {
        match st {
            Step::Forward | Step::Over => match outcome {
                Ok(()) => {
                    if st == Step::Forward {
                        self.set_status("Stepped forward");
                    } else {
                        self.set_status("Stepped over");
                    }
                    self.terminal_scroll = usize::MAX;
                    self.check_and_activate_scanf_mode(in_scanf);
                },
                Err(e) => {
                    match failure_with(&e, "Reached end of execution") {
                        Some(m) => {
                            self.status_message = m;
                            self.check_and_activate_scanf_mode(in_scanf);
                        },
                        None => self.show_error(e),
                    }
                },
            },
            Step::Backward => match outcome {
                Ok(()) => {
                    self.set_status("Stepped backward");
                    self.terminal_scroll = usize::MAX;
                },
                Err(e) => {
                    self.status_message = e.to_text();
                },
            },
            Step::BackOver => match outcome {
                Ok(()) => {
                    self.set_status("Stepped back over");
                    self.terminal_scroll = usize::MAX;
                },
                Err(e) => {
                    match failure_with(&e, "Reached start of execution") {
                        Some(m) => {
                            self.status_message = m;
                        },
                        None => match failure_with(&e, "Already at the beginning of execution") {
                            Some(m) => {
                                self.status_message = m;
                            },
                            None => self.show_error(e),
                        },
                    }
                },
            },
        }
    }

    /// Report how many forward steps a multi-step took.
    pub fn finish_multi_step(&mut self, stepped: usize, in_scanf: bool)
        ensures
            final(self)@ == multi_step_result(old(self)@, stepped, in_scanf),
    {
        let mut s = String::from_str("Stepped forward ");
        push_decimal(&mut s, stepped as u64);
        s.append(" step(s)");
        self.status_message = s;
        self.terminal_scroll = usize::MAX;
        self.check_and_activate_scanf_mode(in_scanf);
    }

    /// Report a jump to the end of the history.
    pub fn finish_jump_to_end(&mut self, in_scanf: bool)
        ensures
            final(self)@ == scanf_checked(
                AppView { status: "Jumped to end"@, terminal_scroll: usize::MAX, ..old(self)@ },
                in_scanf,
            ),
    {
        self.set_status("Jumped to end");
        self.terminal_scroll = usize::MAX;
        self.check_and_activate_scanf_mode(in_scanf);
    }

    /// Report a jump to the start of the history.
    pub fn finish_jump_to_start(&mut self)
        ensures
            final(self)@ == (AppView {
                status: "Jumped to start"@,
                terminal_scroll: usize::MAX,
                ..old(self)@
            }),
    {
        self.set_status("Jumped to start");
        self.terminal_scroll = usize::MAX;
    }

    /// Report how handing the input line to `scanf` went.
    pub fn finish_input(&mut self, outcome: Result<(), RuntimeError>, in_scanf: bool)
        ensures
            final(self)@ == input_result(old(self)@, outcome, in_scanf),
    {
        match outcome {
            Ok(()) => {
                self.terminal_scroll = usize::MAX;
                self.check_and_activate_scanf_mode(in_scanf);
                if !in_scanf {
                    self.set_status("Input accepted");
                }
            },
            Err(e) => self.show_error(e),
        }
    }

    /// While playing, stop when an error is shown or a `scanf` waits;
    /// returns whether playing goes on.
    pub fn check_playing(&mut self, in_scanf: bool) -> (r: bool)
        ensures
            (final(self)@, r) == play_check(old(self)@, in_scanf),
    {
        if self.error_state.is_some() || in_scanf {
            self.is_playing = false;
            if in_scanf {
                self.check_and_activate_scanf_mode(true);
            } else if let Some(error) = &self.error_state {
                let mut s = String::from_str("Stopped: ");
                let m = error.message();
                s.append(m.as_str());
                self.status_message = s;
            }
            false
        } else {
            true
        }
    }

    /// Report a step taken while playing; returns whether the application
    /// keeps running.
    pub fn finish_play_step(&mut self, outcome: Result<(), RuntimeError>, in_scanf: bool) -> (r: bool)
        ensures
            (final(self)@, r) == play_step_result(old(self)@, outcome, in_scanf),
    {
        match outcome {
            Ok(()) => {
                self.set_status("Playing...");
                self.terminal_scroll = usize::MAX;
                self.check_and_activate_scanf_mode(in_scanf);
                true
            },
            Err(e) => {
                match failure_with(&e, "Reached end of execution") {
                    Some(m) => {
                        self.is_playing = false;
                        self.status_message = m;
                        false
                    },
                    None => {
                        self.show_error(e);
                        self.is_playing = false;
                        true
                    },
                }
            },
        }
    }
}

/// Shift-Tab undoes Tab: the whole state comes back, and neither asks for
/// anything.
pub proof fn law_backtab_undoes_tab(v: AppView, space_ready: bool)
    ensures
        key_result(key_result(v, Key::Tab, false, space_ready).0, Key::BackTab, false, space_ready)
            == (v, ActionView::Nothing),
{
}

/// While input is awaited, Backspace undoes typing a character.
pub proof fn law_backspace_undoes_typing(v: AppView, c: char, space_ready: bool)
    ensures
        key_result(key_result(v, Key::Char(c), true, space_ready).0, Key::Backspace, true, space_ready)
            == (v, ActionView::Nothing),
{
    assert(v.input.push(c).drop_last() =~= v.input);
}

/// Scrolling up undoes scrolling down, away from the ends of the range: the
/// source's current line one row below the top, the other panes short of
/// the largest offset.
pub proof fn law_scroll_up_undoes_down(v: AppView, space_ready: bool)
    requires
        v.focused_pane == FocusedPane::Source ==> v.target_line_row != Some(0usize),
        v.focused_pane == FocusedPane::Stack ==> v.stack_offset < usize::MAX,
        v.focused_pane == FocusedPane::Heap ==> v.heap_offset < usize::MAX,
        v.focused_pane == FocusedPane::Terminal ==> v.terminal_scroll < usize::MAX,
    ensures
        key_result(key_result(v, Key::Down, false, space_ready).0, Key::Up, false, space_ready) == (
        v,
        ActionView::Nothing,
        ),
{
}

/// Submitting the input hands over exactly the line typed and leaves an
/// empty line.
pub proof fn law_submit_hands_over_input(v: AppView, space_ready: bool)
    ensures
        key_result(v, Key::Enter, true, space_ready) == (
        AppView { input: Seq::empty(), ..v },
        ActionView::SubmitInput(v.input),
        ),
{
}


/// What taking step `st` does to the interpreter: `Forward` and `Backward`
/// move one snapshot, `Over` and `BackOver` move to the nearest snapshot
/// on that side that is no deeper in calls.
pub open spec fn step_taken(st: Step, a: Interpreter, b: Interpreter, r: Result<(), RuntimeError>) -> bool {
    match st {
        Step::Forward => forward_step(a, b, r),
        Step::Backward => back_step(a, b, r),
        Step::Over => over_step(a, b, r),
        Step::BackOver => back_over_step(a, b, r),
    }
}

/// Outside input and with no error shown, `s` (or `S`) asks for a step that
/// never moves back in the history and, when it succeeds, moves forward to
/// a snapshot no deeper in calls; `a` (or `A`) asks for one that never moves
/// forward and, when it succeeds, moves back to a snapshot no deeper.
pub proof fn law_step_over_keys(
    v: AppView,
    space_ready: bool,
    a: Interpreter,
    b: Interpreter,
    r: Result<(), RuntimeError>,
)
    requires
        v.error is None,
    ensures
        key_result(v, Key::Char('S'), false, space_ready) == key_result(v, Key::Char('s'), false, space_ready),
        key_result(v, Key::Char('A'), false, space_ready) == key_result(v, Key::Char('a'), false, space_ready),
        key_result(v, Key::Char('s'), false, space_ready).1 matches ActionView::Step(st) && (step_taken(
            st,
            a,
            b,
            r,
        ) ==> {
            &&& b.position() >= a.position()
            &&& r is Ok ==> b.position() > a.position() && b.depth() <= a.depth()
        }),
        key_result(v, Key::Char('a'), false, space_ready).1 matches ActionView::Step(st) && (step_taken(
            st,
            a,
            b,
            r,
        ) ==> {
            &&& b.position() <= a.position()
            &&& r is Ok ==> b.position() < a.position() && b.depth() <= a.depth()
        }),
{
    if over_step(a, b, r) {
        lemma_over_moves_forward(a, b, r);
    }
    if back_over_step(a, b, r) {
        lemma_back_over_moves_back(a, b, r);
    }
}


/// Outside input and with no error shown, Right asks for a step that, when
/// it succeeds, moves exactly one snapshot forward, and Left for one that
/// moves exactly one back; neither moves the other way when it fails.
pub proof fn law_arrow_keys(
    v: AppView,
    space_ready: bool,
    a: Interpreter,
    b: Interpreter,
    r: Result<(), RuntimeError>,
)
    requires
        v.error is None,
    ensures
        key_result(v, Key::Right, false, space_ready).1 matches ActionView::Step(st) && (step_taken(
            st,
            a,
            b,
            r,
        ) ==> {
            &&& b.position() >= a.position()
            &&& r is Ok ==> b.position() == a.position() + 1
        }),
        key_result(v, Key::Left, false, space_ready).1 matches ActionView::Step(st) && (step_taken(
            st,
            a,
            b,
            r,
        ) ==> {
            &&& b.position() <= a.position()
            &&& r is Ok ==> b.position() == a.position() - 1
        }),
{
}

/// Outside input and with no error shown, a digit key asks to step forward
/// as many times as the digit says, and stops playing.
pub proof fn law_digit_keys(v: AppView, space_ready: bool, d: u32)
    requires
        v.error is None,
        1 <= d <= 9,
    ensures
        ({
            let c = char_from_digit(d);
            &&& key_result(v, Key::Char(c), false, space_ready).1 == ActionView::StepForwardTimes(d as nat)
            &&& !key_result(v, Key::Char(c), false, space_ready).0.is_playing
        }),
{
    let c = char_from_digit(d);
    assert(c as u32 == d + 48);
}

/// The character of a decimal digit.
pub open spec fn char_from_digit(d: u32) -> char {
    (d + 48) as char
}


/// Outside input, space (when allowed) switches playing on and off: twice
/// gives back the playing state, and each press says so in the status.
pub proof fn law_space_toggles_playing(v: AppView)
    ensures
        key_result(v, Key::Char(' '), false, true).0.is_playing == !v.is_playing,
        key_result(v, Key::Char(' '), false, true).1 == ActionView::PlayToggled,
        key_result(key_result(v, Key::Char(' '), false, true).0, Key::Char(' '), false, true).0.is_playing
            == v.is_playing,
        key_result(v, Key::Char(' '), false, false) == (v, ActionView::Nothing),
{
}

/// Outside input, `q` asks to quit and changes nothing else.
pub proof fn law_q_quits(v: AppView, space_ready: bool)
    ensures
        key_result(v, Key::Char('q'), false, space_ready) == (
        AppView { should_quit: true, ..v },
        ActionView::Nothing,
        ),
        key_result(v, Key::Char('Q'), false, space_ready) == key_result(v, Key::Char('q'), false, space_ready),
{
}

/// While an error is shown, no key outside input moves through the
/// history: it asks for nothing and shows the error's message.
pub proof fn law_error_blocks_moves(v: AppView, key: Key, space_ready: bool)
    requires
        v.error is Some,
        key is Left || key is Right || key is Enter || key is Backspace || key == Key::Char('s') || key
            == Key::Char('a'),
    ensures
        key_result(v, key, false, space_ready).1 == ActionView::Nothing,
        key_result(v, key, false, space_ready).0.status == error_message(v.error->Some_0),
{
}

} // verus!
