# hover

What an editor shows when the pointer rests on a name in Rust code: the declaration, where its
documentation can be read, the documentation itself, and the context of a local variable.

- `src/` is the library. It is written in Rust with contracts that Verus proves. It decides what a
  tooltip says from plain values: the lines of files, what is known of a definition, the completions
  of a name, and what a formatter of Rust code made of an item.
  - `text` defines the string operations, and `text_laws` what holds of them.
  - `docs` finds documentation in comments and cleans it up, `decl` finds declarations, `display`
    shows them.
  - `racer` picks a completion, and `tooltip` puts a tooltip together from all of these.
  - `docs_laws`, `display_laws` and `tooltip_laws` hold what is true of every input.
  - `sample` is a small set of items to try hovers on.
- `app/` reads files, asks the analysis, racer and rustfmt, and calls the library.
- `tests/` runs the library on examples.
