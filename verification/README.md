# tungsten_core

The verified core of the Tungsten toolchain: the logic of its type checker
(intervals, relational refinements, effect rows, unification), of its TIR
passes (verification, constant folding, LLVM text emission with debug
metadata), of the Forge package tool (manifest tables, the dependency walk
with its cycle check, C header bindings, source pragmas), of its runtime
(channel queues, arena address planning, I/O completion records), of the
language server (JSON grammar and text, message dispatch, replies, document
store, word lookup)
and of the fuzzer (random number generator, program generator), each with its
contract proved by Verus.

- `src/` is the library, verified with Verus.
- `tests/` exercises it on concrete values.
- `app/` holds what talks to the outside world: files and TOML
  (`manifest_io`), the `forge bindgen` command, threads and locks around the
  channel queue, raw memory behind the arena, process-wide runtime state, and
  JSON values with floating-point numbers, read from the library's values,
  whose numbers are kept as text, and the reading of a hover position.
