//! The JSON text format in which requests and replies travel: the value
//! model, the grammar, the canonical rendering, and a parser for it.

pub mod grammar;
pub mod parser;
pub mod render;
pub mod roundtrip;
pub mod value;
