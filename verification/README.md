# nazmc

The front end of the Nazm compiler (a programming language written in Arabic), as a
library verified with Verus, and the mdbook preprocessor that highlights Nazm code in the
language's book.

- `src/lexer`: the lexer. `LexerIter` hands out the tokens of a source text with their spans,
  gathers the lines of the text and the errors it finds. Its contracts say exactly what each
  token is (`lexed_as`, `token_at`), which errors each token adds (`token_errors`), and that
  the tokens joined back give the text.
- `src/parser`: the token iterator of the parser, the parse result and the `NazmcParse`
  trait, the repeated and optional parsers (`ZeroOrMany`, `OneOrMany`, `parse_vec`,
  `parse_option`), the terminals and paths, the nodes of the syntax tree (`syntax.rs`), the
  reporting of lexer errors, and the checks of a parsed file (`checks.rs`), whose reports are
  stated node by node (`file_item_reports` and the functions it calls). `ParseCtx::parse`
  lexes a file and reports its lexer errors.
- `src/diagnostics`: diagnostics, their code windows, and the diagnostics of one phase.
- `src/ast`, `src/nir`, `src/resolve`: the syntax trees and the packed kind-and-index
  values of the later phases, with the laws of packing and unpacking them.
- `src/display_table`: the table of the strings of a program, each kept once.
- `src/book`: the highlighting of Nazm code blocks in a chapter's markdown; `markdown.rs`
  keeps each markdown event with where it came from, so that the markdown written back is
  stated over plain values.
- `src/span.rs`, `src/text.rs`: spans in a file, and small text helpers.
- `app/`: the `mdbook-nazm` program, and the printing of diagnostics in colour.
