# descr

Descr is a small language for describing other languages. From a
description the generator builds AST types with constructors, parsers, a
printer back to source, and a TextMate grammar for syntax highlighting.

The library in `src/` is written in Verus, and each of its functions
carries a contract that Verus proves:

- `descr_lang`: the syntax tree of descriptions, its parser from bytes
  and its printer.
- `lang_data`: what the generator knows about a language: annotations,
  typed parts, parser rules, the AST types they give rise to, and the
  collection of regexes for the grammar.
- `process`: the passes, from resolving tokens and building rules and AST
  types to generating the AST, parser, printer and grammar sources.
- `json`, `rust_lang`, `pg`: syntax trees, parsers (for `rust_lang` and
  `pg`) and printers of the languages the generator's output and examples
  use.
- `common`: ordered traversal of maps and the shared byte parsers:
  whitespace, identifiers, special characters and quoted strings.
- `strmap`, `text`: the name-keyed map every table uses, and text helpers.
- `laws`: properties that span several functions.

`app/` holds the file handling, the timing of the passes and the visitor
trait for description trees.
