# shapelang

Text processing around rectangles, verified with Verus.

- `src/token_lexer.rs` — a lexer for a small Rust-like language: tokens by
  regular expression, identifiers collected once each.
- `src/command_lexer.rs` — normalization of a Ukrainian command language
  about rectangles (words, measurements with units, arithmetic).
- `src/rectangles.rs`, `src/store.rs`, `src/script.rs` — integer rectangles
  with named corners, the table of rectangles a script works on, and one
  command at a time run against it.
- `src/geometry.rs` — reading the data and the asked quantities of a
  geometry word problem, and planning how to derive them.
- `src/words.rs` — preparing a problem text and reading the lemmas from a
  CoNLL-U answer.
- `src/pattern.rs`, `src/text.rs`, `src/numeral.rs` — regular expressions
  from the `regex` crate, character helpers, and the texts `f64` parsing
  accepts.

`app/` holds what the library does not: file and network access, the
floating-point geometry, JSON output, and `main`.
