//! The public face of the library.

pub use crate::filter::element::{BlackWhiteList, ElementState, ValueAssociateHash};
pub use crate::filter::node_type::NodeTypeFilter;
pub use crate::filter::types::Filter;
pub use crate::parse::tag::parse_tag;
pub use crate::types::html::Html;
pub use crate::types::html_builder::{CommentFull, HtmlBuilder};
pub use crate::types::tag::{Attribute, PrefixName, Tag, TagBuilder, TagClosingStatus, TagType};
