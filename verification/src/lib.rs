//! Front end for a small interface-definition language describing networked
//! object models, payload types and enums, each with a 64-bit wire identity.
//!
//! The crate covers the lexer, the recursive-descent parser, the lowering of
//! the syntax tree into a canonical semantic model (type signatures, codec
//! descriptors, identity packing), and the project-wide symbol resolution
//! tables, together with the template matchers that recover missing
//! definitions from legacy compiled-codec sources.

pub mod span;
pub mod ids;
pub mod text;
pub mod token;
pub mod lexer;
pub mod ast;
pub mod grammar;
pub mod parser;
pub mod hl;
pub mod lower;
pub mod resolve;
pub mod extract;
