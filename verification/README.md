# parcel_cjs

Rewrites ES6 modules into CommonJS modules: `import` declarations become
bindings to `require.module(…)` results, `export` declarations become
property definitions on `exports`, and every other token of the source is
kept as written.  Optionally, `require('…')` calls are recorded as
dependencies.

The source is lexed with the `esparse` crate; the token stream, the parsing
of declarations, the skipping of expressions and the generated text are
verified with Verus.

- `src/` — the verified library (`token`, `strlit`, `es6`, `parse`, `cjs`,
  `laws`, `text`);
- `tests/` — tests on concrete modules;
- `app/` — a text-level entry point and `Display` for errors.
