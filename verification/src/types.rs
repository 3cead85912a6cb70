//! Data model of the parsed tree: tags, nodes and the tree builder.

pub mod html;
pub mod html_builder;
pub mod tag;
