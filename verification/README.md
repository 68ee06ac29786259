# javars

Java as a front end to a bytecode machine: the verified core. What the language
means is proved in `src/` with Verus; what touches the machine, the console, the
file system, floating point and an editor's connection is ordinary Rust in
`app/`.

## Layout

- `src/lexer.rs`, `src/parser/`, `src/ast.rs`: from a source text to a syntax
  tree. `parser/grammar.rs` states the grammar as rules on places in the tokens;
  `parser/exprs.rs`, `stmts.rs`, `members.rs` and `classes.rs` read by them, and
  `parser/progress.rs` proves what every rule keeps.
- `src/blocks.rs`: inline native blocks, rewritten as calls before lexing.
- `src/prelude.rs`: the exception classes and functional interfaces that a
  program may name without declaring them. `src/injection.rs` proves that
  adding them never fails and that a second time adds nothing; `src/injection/`
  holds how each of their sources is lexed and read.
- `src/host.rs`, `src/host/`: the object heap and everything a running program
  asks of it: strings, builders, boxes, arrays, collections, sorting, formatting,
  arithmetic, casts and exceptions. `host/keeping.rs` proves what the collections
  keep.
- `src/regex.rs`: `java.util.regex` patterns on the `fancy-regex` engine.
- `src/lsp.rs`: completion, hover and diagnostics.
- `src/text.rs`, `src/double.rs`, `src/value.rs`: what the others are made of.

## Reading the contracts

Each function states its result over a mathematical model: texts are sequences of
characters, values are `Val`, the host is `HostV`, a tree is one of the types that
end in `V`. A public proof function states something that holds across functions;
its doc comment says it in words.

A `double` is held by its bits together with its decimal renderings, so that the
library never computes in floating point. Where code of the program has to run in
the middle of a call (its own `equals`, `toString` or comparator), the call is
split: one function says what has to run, the next takes what came back.
