//! Schema front-end and permission model of a Zanzibar-style authorization
//! service: a lexer and recursive-descent parser for the namespace DSL, the
//! subject-set rewrite model the parser produces, a canonical printer, and a
//! query evaluator that decides `check` and `expand` questions over a set of
//! relation tuples.

pub mod cursor;
pub mod error;
pub mod errors;
pub mod lexer;
pub mod parser;
pub mod printer;
pub mod relation_tuple;
pub mod schema;
pub mod token;
pub mod traversal;
pub mod tuple_text;
pub mod uuid_mapping;

pub use cursor::TokenCursor;
pub use error::ParserError;
pub use errors::{HeimdallError, HeimdallResult};
pub use lexer::Lexer;
pub use parser::SchemaParser;
pub use relation_tuple::{RelationTuple, Subject, SubjectId, SubjectSet, Uuid};
pub use schema::{Child, Namespace, Operator, Relation, RelationType, Schema, SubjectSetRewrite};
pub use token::{Token, TokenKind};
pub use traversal::{Error, TraversalResult, TraversalType, Tree};
