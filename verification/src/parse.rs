//! The parser: from tokens to the grammar model.

pub mod argument;
pub mod definition;
pub mod field;
pub mod path;
pub mod variant;
