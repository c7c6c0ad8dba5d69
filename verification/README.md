# rustc_parts

Decision logic of a Rust compiler, as executable Rust whose behaviour is stated
in contracts and proved by Verus.

- `src/lexer`: a cursor over source text.
- `src/backend.rs`: what a GCC code generation backend decides: the processor and
  its features, the optimization level, what becomes of link-time optimization.
- `src/specialize`: impl specialization: whether one impl specializes another
  (`translate`, `fulfill`), how generic arguments read in terms of a parent impl
  (`translate`), in which order the impls of a trait enter its specialization
  graph (`order`, `graph`), and what is reported where they overlap (`report`,
  `header`).
- `src/text.rs`, `src/fx.rs`: text offsets and strings, and the insertion-ordered
  set that the headers are built with.
- `app`: the code around the library, in terms of the compiler's own crates and
  of libgccjit. It runs the loops that put the library's questions to the
  compiler. It needs a toolchain with `rustc_private`.
- `tests`: the library's tests.

Laws of the library are public proof functions whose names begin with `law_`.
