# rstu

A reStructuredText toolkit written in Verus: a lexer, token cursors, parsers
that build a document tree, and the element rules of a docutils-style
document tree. Every function of the library carries a contract that Verus
proves, except two small wrappers around the `regex` crate whose contracts
are trusted. Proof functions named `law_*` state what holds across calls:
for instance, that parsing never puts a section inside a section with the
same marker.

## Layout

- `src/token.rs`, `src/line_token.rs`: token kinds and the patterns that
  recognise them (matched with the `regex` crate behind two small trusted
  wrappers).
- `src/lexer.rs`: text to tokens, with indentation turned into relative
  `Indent`/`Dedent` tokens.
- `src/token_slice.rs`, `src/token_stream.rs`: lookups over token slices and a
  token buffer with a cursor; the weight of what is left to read, which bounds
  how long parsing runs.
- `src/ast.rs`: the syntax tree, its attributes, and how sections and body
  elements are placed in it.
- `src/paragraph.rs`, `src/comments.rs`, `src/literal_block.rs`, `src/list.rs`,
  `src/block.rs`, `src/lib.rs`: the parsers, each stated as a function from the
  tokens and cursor to its result.
- `src/parser.rs`: a small parser of headings, comments and directives into a
  flat list of blocks.
- `src/elements.rs`, `src/doctree.rs`: element kinds, their categories and
  content models, and validation of a document tree.
- `app/main.rs`: the `rstu` command line (`check`, `format`, `parse`), which
  prints the parsed tree as JSON.
