# pixofold-core

The verified core of PixoFold, a local batch compressor for static PNG images.

`src/` is written in Verus. Its functions carry contracts over mathematical
models (sequences of bytes and chunks, counts, views of the batch and task
state) and are proved by Verus; the exceptions are the few trusted wrappers
around outside crates and the shared cancellation flag (`CancellationToken`),
whose state lives in an atomic that the contracts do not track:

- `probe`, `codecs`, `quality`, `pipeline`: PNG chunk parsing with CRC checks,
  structural inspection, lossless recompression that keeps every non-IDAT
  chunk byte for byte, the lossy palette path with its transparency guard and
  the reason of each fallback, content-credential removal, and the decisions of the single-file
  pipeline.
- `batch`: admission, path-conflict detection, the working-set budget, and the
  batch service as a state machine (cancel, retry, clear, shutdown).
- `import`: the read-only scan as a state machine and output planning.
- `tasks`, `ingress`, `subscriptions`, `mutation`, `wire`, `query`: the desktop
  application's task coordinator, its single native selection slot, its change
  notices, the admission of task mutations, and the bounded snapshot queries.
- `paths`: the path arithmetic the rest relies on.

The outside crates (`png`, `oxipng`, `crc32fast`) are reached through a few
trusted wrappers whose contracts are documented where they are declared.

`app/` is ordinary Rust around the library: file reading and committing, the
worker and coordinator threads, the directory walk, the quantizer call, and the
serialized forms of the front-end contract. `tests/` exercises the library
through its public API.
