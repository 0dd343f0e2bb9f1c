# mlxcel_xla

The core of an ahead-of-time XLA inference backend for language and vision-language
models, written in Rust and verified with Verus.

- `src/` is the library. It reads model configurations, finds and converts checkpoint
  weights, emits the Molmo2 vision program, prepares image inputs, and takes the decisions
  of the engines and of the token loop. Every function states what it returns and when it
  fails.
- `app/` does what the library decides: it reads directories, maps files, runs the
  compiler, calls the native engine, and computes in floating point.
- `tests/` runs the library on concrete values.

Single-precision values are carried as `u32` bit patterns and double-precision ones as
`u64`. JSON parsing, the safetensors container and SHA-256 come from their crates, behind
small wrappers whose doc comments say what is taken from them.
