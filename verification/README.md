# wasm_runtime

A WebAssembly module parser and the runtime-side logic of tables, globals and WASI data
layout, written in Verus. Verus verifies every function under `src/` against its contract.

## Layout

- `src/reader.rs`, `src/decode.rs`, `src/module_decode.rs`: reading bytes, LEB128 integers,
  value types, limits, names and the entries of the module sections, each against a
  specification of the decoding.
- `src/types.rs`, `src/functypes.rs`: value types and function types; a function type packs
  its parameters and results into one integer, with an overflow list for long signatures.
- `src/module.rs`, `src/module_parser.rs`, `src/loader.rs`: module metadata, the section
  parser (with the order of sections), and parsing a whole module and its functions.
- `src/stack.rs`, `src/context.rs`, `src/instructions.rs`, `src/ops.rs`, `src/table_instr.rs`,
  `src/variable_instr.rs`, `src/control_instr.rs`, `src/opcodes.rs`: validation of function
  bodies, instruction by instruction, on an operand stack with block boundaries.
- `src/ir.rs`, `src/function_builder.rs`, `src/basic_blocks.rs`, `src/function_parser.rs`:
  the basic-block IR and its construction from a function body.
- `src/tables.rs`, `src/globals.rs`, `src/wasi.rs`, `src/config.rs`: table instances and the
  table instructions, initial global values, the layout of WASI arguments and environment,
  and the runtime configuration.
- `app/`: reading modules from files (memory-mapped), errors that display, path helpers.
- `tests/`: tests of the library from outside.

The laws that the library keeps stand as `law_*` proof functions beside the code they
speak of.
