# conflaguration

Typed configuration from environment variables, files and fluent builders,
with its rules proved by Verus.

## Layout

- `src/` — the verified library.
  - `lib.rs`: `join_key`, the `Settings`, `Validate`, `ConfigDisplay` and
    `ConfigCodegen` traits, `init`, `builder` and the display adapters.
  - `builder.rs`: `ConfigBuilder`, whose state is the value so far, the first
    error, or nothing yet; every source states how it changes that state.
  - `value.rs`: `ConfigValue`, the JSON-shaped medium a file or mapping is laid
    over the running value in, and the deep merge with its laws (override
    replaces, overlay fills gaps, untouched keys are kept).
  - `template.rs`: `{{ expr }}` expansion over bytes, strict and lenient, with
    resolvers that compose in tuples.
  - `resolve.rs`: resolving one value through a custom parser.
  - `file.rs`: the file formats and a file's value layered under the
    environment.
  - `errors.rs`: `Error` and `ValidationMessage`.
  - `schema/`: the rules by which a struct's declaration becomes behaviour —
    which `#[setting(..)]` / `#[settings(..)]` attributes are accepted, which
    env keys a field reads, how a field is displayed, what a build-time
    constants module holds, and how validation cascades into sub-structs.
- `app/` — the parts that touch the outside world: reading files, converting
  between serde values and `ConfigValue`, build-script output, and an error
  type with `Display`.
- `tests/` — tests of the library.

There are no derive macros: a struct implements `Settings`, `Validate`,
`ConfigDisplay` or `ConfigCodegen` by hand, calling the `schema` functions
that decide what a derive would have produced (the tests show how).
