# crustty

The verified library beneath CRusTTY, a time-travel debugger for a subset of
C. It holds the lexer and parser, the memory model (a call stack of frames with scoped
variables and a byte-addressed heap), the rules of C arithmetic and pointer
arithmetic, the serialisation of values into heap bytes, `printf` formatting,
type inference of expressions, the snapshot history with its memory limit,
and the logic of the terminal user interface (key handling, scrolling and the
text each pane shows).

It holds the interpreter's set-up (indexing a program's functions and
structs by name) and travel through the recorded history (stepping forward
and back, stepping over calls, rewinding to the start), but not the part of the
interpreter that executes a program (evaluating expressions, running
statements, calling functions, `malloc`, `free` and `scanf` at run time):
the memory model, operators and snapshot history it runs on are here, the
statement and expression evaluator is not. The command-line front end in
`app/` parses a file and reports the result.

Every function in `src/` carries a `requires`/`ensures` contract checked by
Verus; the laws the library keeps (reading back what was written, leaving a
scope undoing its declarations, undoing a focus change, ...) are stated as
public proof functions beside the code they are about.

Layout:

- `src/parser/` — tokens, lexer, AST and recursive-descent parser; the
  grammar (`grammar.rs`) states, as spec functions over the token stream,
  the tree or the error each construct parses to, and every parsing
  function is proved to follow it.
- `src/memory/` — values, the stack, the heap, type sizes and their laws.
- `src/interpreter/` — runtime errors, operators, heap serialisation,
  built-ins (`printf`, strings on the heap), type inference, and the
  interpreter's history with its stepping commands.
- `src/snapshot.rs` — the mock terminal and the bounded snapshot history.
- `src/ui/` — the application's key handling as a state machine, and the
  lines the source, stack, heap, terminal and status panes show.
- `tests/` — tests of the library on concrete values.
- `app/` — a command-line front end that reads a C file and parses it.
