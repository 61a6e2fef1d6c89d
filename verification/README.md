# inception

Typed, nested errors with semantic creation traces, verified with Verus.

An Inception error carries a stable code, a safe description, the source
coordinate at which it was created, classified entries and, optionally, the
nested error that caused it. Its trace lists every semantic layer, outermost
first.

## Layout

- `src/` — the verified library.
  - `locate.rs`, `text.rs`: source coordinates and their `file:line:column`
    rendering (exact decimal numerals).
  - `descriptor.rs`, `entry.rs`: catalog entries, builder failures and
    classified entries (hidden entries withhold their value).
  - `trace.rs`: captured traces (one layer per semantic error) and their
    rendering; `tracing.rs`: the fields of a reported event.
  - `inceptioned.rs`: ordinary errors captured as one located layer.
  - `lib.rs`: the `InceptionError` trait.
  - `syntax.rs`: reading text with `syn` (string literals, identifiers,
    path lists, call-site expressions, enum definitions), with what holds of
    every reading.
  - `definition.rs`: an error definition read from the text of its options
    and of the annotated enum, then planned.
  - `attributes.rs`, `options.rs`, `naming.rs`, `paths.rs`, `plan.rs`,
    `diagnostic.rs`: the rules of error definitions and call-site macros,
    over a plain model of the syntax — which attributes are accepted, codes
    and descriptions, causes and entries, generated names, and the
    rewriting of call-site paths.
- `app/` — what runs outside the verifier: capturing the caller's
  coordinate, handing the macros' input text to the library and writing the
  generated items with `quote`, emitting `tracing` events, and `serde` copies of the metadata.
- `tests/` — tests of the library.
