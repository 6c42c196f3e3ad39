//! Recursive-descent parser for a small markup language: nested tags with
//! optional attributes (quoted literals or braced variable references) and
//! free text between tags, turned into an in-memory tree.
//!
//! The behaviour of the executable parser is pinned down by a specification-
//! level parser (`model`): `parse` and `start_parse` are proved to return
//! exactly what the model returns, and the laws about node identifiers are
//! proved of the model.

mod ast;
mod chars;
mod cursor;
mod laws;
mod model;
mod parser;

pub use ast::Attribute;
pub use ast::Body;
pub use ast::Node;
pub use ast::ParseError;
pub use ast::SpecAttribute;
pub use ast::SpecBody;
pub use ast::SpecError;
pub use ast::SpecNode;
pub use ast::SpecValue;
pub use ast::Value;
pub use cursor::Cursor;
pub use parser::parse;
pub use parser::start_parse;
