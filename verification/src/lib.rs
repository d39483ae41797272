//! Turns EPUB, Markdown and plain-text books into chapters of identified
//! paragraphs, and renders them as annotated HTML.
pub mod text;
pub mod search;
pub mod types;
pub mod patterns;
pub mod parse_utils;
pub mod batching;
pub mod text_parser;
pub mod markdown;
pub mod epub;
pub mod parser;
pub mod html_gen;
pub mod pipeline;
pub mod block_scan;
pub mod laws;
