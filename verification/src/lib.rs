//! A compiler front end for a small textual hardware-description language:
//! a scanner that turns source text into tokens, and a recursive-descent
//! parser that builds from them a program model of gates wired by named
//! signals, with reusable hierarchical subcircuits.

pub mod ast;
pub mod laws;
pub mod lexer;
pub mod parser;
pub mod token;

pub use ast::Component;
pub use ast::GateType;
pub use ast::Program;
pub use ast::Subcircuit;
pub use lexer::Lexer;
pub use lexer::LexerError;
pub use lexer::Location;
pub use parser::Parser;
pub use token::TokenKind;
