//! Translator from a stack-based virtual-machine instruction stream to
//! register-transfer assembly for a 16-bit accumulator machine.
//!
//! The library covers the instruction algebra ([`assembly`]), the number and
//! string helpers the renderer needs ([`text`]), the segment and command
//! models, the translation rules for every command, a small machine semantics
//! used to state what the emitted code does, and the proved laws of the
//! translator.

pub mod assembly;
pub mod babel;
pub mod commands;
pub mod latt;
pub mod laws;
pub mod machine;
pub mod pointer;
pub mod text;
pub mod utils;
