# lm_provision

Provisioning a machine from a declared profile, as a verified library.

A profile lists what it may do (capabilities, paths, URLs) and the phases
it is made of. The library decides which phases are admitted, composes the
steps of a phase, asks whether a step is finished already, and records what
a run did: report entries, trace lines and audit events. Every function in
`src/` carries a contract over mathematical models of its data, proved by
Verus. Laws that relate several functions stand beside them as proof
functions named `law_*`.

| directory | what it holds |
|---|---|
| `src/` | the library: no I/O, every function proved |
| `tests/` | tests of the compiled library |
| `app/` | the host: commands, requests, files, the engine's ops and calls |

The library trusts a few outside functions, each behind one small wrapper
that says what is believed of it: `serde_json` for building, reading and
printing JSON (`src/json.rs`), `String::push` and the `Debug` rendering of
a string (`src/text.rs`), and lossy UTF-8 decoding (`src/effects.rs`).

The host hands the library plain values and takes plain values back. A
phase goes through it like this:

1. `admission::dispatch` (or `resolve_call`) finds the phase and makes the
   checks that need no values.
2. The host resolves the phase's values.
3. `registry::begin` or `phases::run_lifecycle` says what to do.
4. The host does it.
5. A `finish_*` function records what came of it.
