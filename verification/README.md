# splint

Prolog terms, frames and queries behind typed handles, verified with Verus.

The library keeps the state of the calling thread's engine (term references,
bindings, open scopes) as plain data and decides every operation on it. The
engine itself stays outside: what it answers is handed in, as a verdict on the
next operation, as a parsed or rendered term, or as the steps of a query.

- `src/` is the library.
  - `fli`, `scope`, `rollback`: the engine state, the order in which scopes
    close, and what closing one undoes or keeps.
  - `term`, `list`, `dict`, `handles`: terms and global handles.
  - `query`, `typed`, `args`, `codec_args`: queries and typed calls.
  - `record`, `external_record`: terms that outlive their engine.
  - `engine`, `runtime`: attaching engines and initializing the runtime.
  - `codec`: conversion of values to and from terms, and its round trip.
  - `format`: a self-describing data format on terms.
  - `derive`: what a derived encoder or decoder does.
- `tests/` runs the library with a stand-in for the engine.
- `app/` connects the library to an engine, to serde and to the derive macros.
