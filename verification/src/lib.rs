//! json2lua: render a JSON document as the text of an equivalent Lua
//! table literal.
//!
//! The JSON text is parsed by serde_json into an order-preserving tree;
//! the tree is then walked recursively, emitting tab-indented Lua table
//! syntax with every key written as a bracketed string literal and every
//! entry terminated by a trailing comma.

pub mod escape;
pub mod parse;
pub mod render;
pub mod value;

pub use escape::validate_string;
pub use parse::{parse, ParseError};
pub use render::{get_indent, render_document, walk};
pub use value::Json;
