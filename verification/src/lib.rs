//! A verified interpreter for a compact guitar-tablature notation.
//!
//! The library scans a notation source into a typed token stream
//! ([`lexer::Lexer`]) and renders that stream into human-readable ASCII
//! tablature ([`parser::Parser`]), tracking time-signature and beat state
//! per staff along the way.

pub mod data;
pub mod lexer;
pub mod manager;
pub mod options;
pub mod parser;
pub mod staff;
pub mod text;
pub mod time;
