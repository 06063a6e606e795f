# biome_bindings

Verified pieces of the generator of the TypeScript module through which
JavaScript callers reach the Biome workspace over a transport.

- `src/casing.rs`: camel case of names: words split at separators and case
  changes, Unicode case mapping, a leading or trailing `_` or `$` kept.
- `src/separated.rs`: formatting and printing of separated lists: one item
  per element (a syntax error where a node or separator slot is missing),
  separators reused from the list, the trailing-separator policies
  `Allowed`, `Disallowed`, `Omit` and `Mandatory`, and the comments of a
  separator token kept even where its text is not printed.
- `src/bindings.rs`: the module text itself: the `Transport` import, the
  exported type declarations, the `Workspace` interface and the
  `createWorkspace` function.

The caller of `generate_workspace_bindings` passes every declaration to
export, in order: those of the methods' types, then those of `SupportKind`,
`RuleDomain` and `RuleDomainValue`. The text is laid out for a print width of
80 columns (a tab counting two): a method signature or request call that does
not fit is broken with one argument per line, and single-line description
comments are laid out as documentation comments (`/**`, ` * text`, ` */`).

Each public function's contract states its result exactly over spec
functions; the proof functions state the laws that relate them.
