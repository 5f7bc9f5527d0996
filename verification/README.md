# wami

A WebAssembly binary decoder and integer interpreter, verified with Verus.

- `src/` is the library. `model.rs` states what a module holds as plain values and what each
  section makes of it (`compile_result`); `module.rs` decodes modules, binds imports and runs
  functions; `cg.rs` checks function bodies; `wasmrt.rs` states and runs the instructions;
  `memory.rs`, `global.rs`, `leb128.rs`, `names.rs`, `types.rs`, `wasm.rs`, `opcode*` hold the
  parts they name; `text.rs` writes numbers for the messages of errors.
- `tests/` runs the library on concrete modules and bodies.
- `app/` is a command-line runner that loads a module from a file and binds `fd_write`.
