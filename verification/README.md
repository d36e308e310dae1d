# pax-compiler

The core of the Pax compiler, written in Verus: what it computes is stated in
contracts and proved. Given the manifest of a parsed application, it generates
the re-exports, the properties coproduct and the cartridge of that application,
and plans the commands that build it.

- `src/` is the verified core.
  - `text`, `table`, `order`: strings, tables keyed by strings, sorted lists.
  - `namespace`, `namespace_laws`, `node_order`, `reexports`: the trie of imported
    namespaces and the Rust module that re-exports them.
  - `layout`, `layout_laws`, `nesting`: the lines of that module, what they
    re-export and which modules they stand in.
  - `manifest`, `prefixes`, `host`: the application, the crate it is written in,
    and the `Cargo.toml` files that point to that crate.
  - `literals`, `events`, `render`, `factory`, `readiness`: templates as Rust
    expressions, and tests of whether a template can be rendered.
  - `coproduct`, `cartridge`: what the generated crates are pressed from.
  - `target`, `commands`, `steps`: targets, commands and the order of a build.
  - `component`, `visits`: component instances, and the sources visited by the
    parser.
- `tests/` runs the core.
- `app/` is the rest of the compiler: files, commands and printing. Templates and
  the compilation of expressions are supplied by its caller.

Calls into `itertools`, `toml_edit` and `str::to_lowercase` stand behind a few
functions whose contracts are believed; each says what it claims.
