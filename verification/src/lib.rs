//! Logic of a compiler from Move bytecode to WebAssembly for the Stylus
//! environment: the intermediate type model, generic instantiation, module
//! metadata, Solidity ABI naming and selectors, the code that encodes and
//! decodes ABI values, the runtime functions and the memory allocator that
//! compiled modules call, and a model of what running that code computes.
use vstd::prelude::*;

pub mod abi_types;
pub mod address;
pub mod compilation_context;
pub mod text;
pub mod utils;
pub mod vm_handled_datatypes;
pub mod intermediate_types;
pub mod memory;
pub mod move_model;
pub mod generics;
pub mod names;
pub mod native_functions;
pub mod runtime;
pub mod wasm;

verus! {

} // verus!
