# move_bytecode_to_wasm

The logic of a compiler from Move bytecode to WebAssembly for Stylus, written in Verus.

- `src/` is the verified library. Functions that emit WebAssembly build plain values
  (`wasm::FunctionBody`, `wasm::Instr`), and their contracts fix the instructions they emit.
  `wasm::run` says what running such code computes; it covers locals, the operand stack,
  blocks, loops, calls and linear memory, but not globals or memory growth, so code that
  reads or moves the next free memory pointer is only described by its instructions.
- The laws (`law_*` proof functions, and the `ensures` of the runtime function builders) state
  what the emitted runtime functions do on memory, and what the ABI encoding and decoding code
  computes for word-sized values, addresses, enums, references to word-sized values, vectors
  of 32-bit elements (empty ones included, with the allocator taken as a callee, and read back
  as they were packed) and structs of integer fields expanded in place.
- The allocator is stated over a semantics that adds the globals and the page count
  (`memory::run_with_globals`): one call (`law_allocator`) and any sequence of calls
  (`law_allocator_calls`: contiguous blocks, all inside the memory).
- Linking a runtime function is planned in `runtime::link::linking_plan`: a function already
  in the module is found by its name, and the functions it calls come first.
- `tests/` runs the emitted code on a small interpreter and compares the results with
  `alloy-sol-types`' ABI encoding.
- `app/` turns the emitted values into `walrus` functions, memories, globals and imports.
