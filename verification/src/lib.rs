//! A Protocol Buffer interface-definition (`.proto`) parser.
//!
//! The library turns proto source text into a typed abstract syntax tree and
//! serializes that tree to a canonical JSON document.  Parsing is all-or-nothing:
//! a call either yields a complete document or a single syntax error.
//!
//! The pipeline has four layers: the lexical rules ([`lex`]), the structural
//! grammar and tree construction ([`parser`]), the typed entities ([`ast`]),
//! and the serializer ([`json`]).  Each layer's behaviour is specified by the
//! `spec` functions beside it, and [`laws`] states properties that hold of
//! the pipeline as a whole.

pub mod ast;
pub mod fidelity;
pub mod json;
pub mod laws;
pub mod lex;
pub mod parser;
pub mod text;

pub use ast::{EnumDef, EnumValue, Field, Message, Method, Proto, Service};
pub use parser::ProtoParser;
pub use text::ParserError;
