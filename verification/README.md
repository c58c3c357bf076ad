# valin

The logic of the Valin code editor as a verified library: the syntax
highlighter, the panels and tabs of the editor state, the document model with
its selection highlights, the file explorer tree, the commander, the icon
themes, the subscriptions that decide what is redrawn, and the decisions of the
language server client.  Each public function states its behaviour in
`requires`/`ensures`, proved by Verus; the laws that relate several
operations are public proof functions named `law_*`.

- `src/` — the library.  `rope.rs` and `paths.rs` hold the trusted items
  through which it reads `ropey` ropes and `std::path` paths.
- `tests/` — tests of the library on concrete values.
- `app/` — a command line front: argument parsing, settings, file reading,
  and the conversions from `lsp-types` values.
