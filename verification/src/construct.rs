//! The constructs: state functions that each look at the current byte, update
//! the tokenizer, and say where to go next.

pub mod directive_container;
pub mod directive_leaf;
pub mod directive_text;
pub mod partial_directive;
pub mod wiki;
