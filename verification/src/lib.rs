//! Directive and wiki-link constructs of a markdown tokenizer, with a
//! verified model of the tokenizer they run on.

pub mod event;
pub mod state;
pub mod tokenizer;
pub mod character;
pub mod construct;
pub mod machine;
pub mod wiki_syntax;
pub mod to_markdown;
pub mod wiki_laws;
pub mod directive_syntax;
pub mod directive_laws;
