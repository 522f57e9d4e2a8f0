//! The middle-end entry: closure conversion over the expanded AST.

pub mod closure_conversion;
