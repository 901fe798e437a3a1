# treesitter-index

A verified library, and a small command around it, that turns source files
into compact skeletons: the imports, modules, constants, types, traits,
impls, functions, classes, macros and Markdown headings of a file, each with
its line range (`[5]` is line 5, `[5-10]` lines 5 to 10), without the bodies.

Tree-sitter parses the file; the library copies the tree into a plain model
(`syntax::SyntaxNode`) and does everything else on that model, with
contracts proved by Verus. Each language's extractor states exactly which
entries a declaration gives (`rust_entry`, `go_entries`, `python_entry`,
`statement_views`, `java_entry`, `heading_views`), and `indexer::extract`
states the entries of a whole file in terms of them.

## Layout

- `src/syntax.rs`: parsing with Tree-sitter and the plain syntax-tree model.
- `src/language.rs`: the supported languages, by name and by file extension.
- `src/indexer.rs`: extraction of a whole file, selection by symbol patterns
  and by section, and the skeleton of a file.
- `src/go.rs`, `src/rust.rs`, `src/python.rs`, `src/typescript.rs`,
  `src/java.rs`, `src/markdown.rs`: the declarations of each language.
- `src/entries.rs`, `src/skeleton.rs`: entries and their layout.
- `src/render.rs`, `src/trie.rs`: the rendered skeleton and the import trie,
  with the proofs that the rendering depends only on what was found.
- `src/text.rs`: text operations (whitespace, truncation, line ranges).
- `src/pattern.rs`: symbol patterns (regular expressions).
- `src/cli.rs`: the command line's options and decisions.
- `app/main.rs`: the program: arguments, files, `rg`, JSON output.
