//! A structural model of relational database dumps: a statement recognizer,
//! a model builder, a canonical renderer and a masking transform.

pub mod text;
pub mod model;
pub mod schema;
pub mod lexer;
pub mod cursor;
pub mod datatypes;
pub mod ddl;
pub mod dml;
pub mod statement;
pub mod parser;
pub mod render;
pub mod masker;
pub mod pipeline;
pub mod types;
