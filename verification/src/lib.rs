pub mod ast;
pub mod diagnostic;
pub mod expander;
pub mod laws;
pub mod matcher;
pub mod middle;
pub mod notation;
pub mod render;
pub mod type_system;
