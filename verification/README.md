# Jang front end and stack machine, verified

A small language, Jang: its lexer, the grammar of type declarations and of
arithmetic expressions, a code formatter that indents by braces, and a stack
machine that runs compiled functions one instruction at a time. Every
function under `src/` is verified with Verus against a contract stated over
mathematical models (`Seq`, `Map`, spec functions).

Layout:

- `src/parser/lexer.rs` — text to tokens; `tokenize` equals the spec `spec_tokens`.
- `src/parser/grammar.rs` — tokens to type declarations; proved to read exactly
  the token spellings of declarations.
- `src/parser/expression_grammar.rs` — tokens to expressions, with precedence
  and left grouping proved.
- `src/parser/ast/` — the syntax tree, its display, and the code formatter.
- `src/parser/layout.rs` — what the formatter lays type declarations out as;
  proved to read back, through the lexer and the grammar, as the same
  declaration.
- `src/interpreter/bytecode/` — instructions, blocks, locals, compiler scopes and
  the machine; `Machine::step` is exact against `spec_machine_after`, with a
  global load given what the context's `spec_resolve` says of its name.
- `src/interpreter/evaluator.rs` — evaluates an expression over named scopes
  one step at a time, exact against `spec_eval_step`.
- `src/interpreter/` — values and their arithmetic, errors, named scopes, and
  the program of compiled functions.
- `app/` — the loop that drives the machine and does the floating-point work,
  which the library hands out as `FloatWork`.
