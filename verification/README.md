# lsharp

The checking and tooling core of the L# compiler, written in Verus. Every
function in `src/` carries a contract that Verus proves, except one trusted
wrapper, `text::push_char`, whose contract (that `String::push` appends the
character) is assumed.

- `src/` — the verified library: runtime type constraints (evaluation,
  hierarchy, conversion, runtime checks), intent graph identities and wire
  forms, the evidence graph, metadata contract checks and test generation,
  API docs and their HTML page, compile targets, the compile pipeline as a
  state machine, the artifact cache's envelopes and trimming, and the native
  (Apple Silicon) assembly backend; and, of type inference, the built-in
  type environment, the occurs check and variable binding, free type
  variables, generalization, instantiation and the kind check of trait
  implementations.
- `tests/` — tests of the library on concrete values.
- `app/` — file-system and process plumbing around the library: reading and
  writing files, the artifact cache on disk, linking native executables, and
  the JSON form of API docs.

Unification and the inference of expressions, patterns and declarations
are not part of this crate; the functions that need their results, such as
the API docs, take them as arguments.
