//! Resolution of accessor directives.
//!
//! A schema is a list of named, typed fields. Directives attached to the schema and to its
//! fields say which getters and setters each field gets, under which name, with which inline
//! hint and visibility. This crate parses the directive text, merges the layers of defaults
//! and overrides, rejects duplicates and colliding names, and produces for every field the
//! set of accessors to emit.

pub mod accessor;
pub mod directive;
pub mod error;
pub mod grammar;
pub mod kinds;
pub mod lexer;
pub mod options;
pub mod resolver;
pub mod schema;
pub mod syntax;
pub mod text;
pub mod vocabulary;
