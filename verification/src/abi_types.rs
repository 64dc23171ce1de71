//! Solidity ABI: type names, function selectors and the layout of encoded values.
pub mod function_encoding;
pub mod type_mapping;
pub mod packing;
pub mod unpacking;
