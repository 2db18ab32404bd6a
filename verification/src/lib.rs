//! Reader for a small array- and table-oriented query language: source text
//! to syntax tree, with literals folded into typed values on the way.
pub mod ast_node;
pub mod blueprint;
pub mod errors;
pub mod grammar;
pub mod j;
pub mod jobj;
pub mod keyword;
pub mod laws;
pub mod lexer;
pub mod ops;
pub mod pair;
pub mod parser;
pub mod series;
pub mod syntax;
pub mod temporal;
pub mod text;
pub mod time_laws;
pub mod typing;

pub use crate::ast_node::AstNode;
pub use crate::errors::ErrorKind;
pub use crate::errors::JError;
pub use crate::errors::ParseError;
pub use crate::grammar::JParser;
pub use crate::j::Dict;
pub use crate::j::J;
pub use crate::jobj::JObj;
pub use crate::jobj::JType;
pub use crate::keyword::is_keyword;
pub use crate::ops::bar;
pub use crate::pair::Pair;
pub use crate::pair::Rule;
pub use crate::parser::parse;
pub use crate::series::Cell;
pub use crate::series::DataFrame;
pub use crate::series::DataType;
pub use crate::series::Matrix;
pub use crate::series::Series;
pub use crate::series::TimeUnit;
pub use crate::temporal::parse_date;
pub use crate::temporal::parse_datetime;
pub use crate::temporal::parse_duration;
pub use crate::temporal::parse_time;
pub use crate::temporal::parse_timestamp;
pub use crate::temporal::NS_IN_DAY;
pub use crate::temporal::UNIX_EPOCH_DAY;
