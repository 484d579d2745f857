//! A reader for a small Scheme-like S-expression syntax.
//!
//! `parse` turns one complete expression into a tree of `Value`s, lists being
//! chains of cons cells ended by `Value::Null`. What the reader accepts is
//! stated by the spec functions of `syntax`; the readers of `reader` are proved
//! to follow them exactly.
pub mod laws;
pub mod reader;
pub mod syntax;
pub mod value;

pub use reader::parse;
pub use value::{Cons, Datum, Error, Shape, Value};
