//! The lexical vocabulary: one variant per kind of token the scanner can
//! produce, together with its mathematical image used by contracts.

use vstd::prelude::*;

verus! {

/// One lexical unit of the circuit language. Keywords are matched
/// case-insensitively by the scanner; an `Identifier` keeps the text
/// exactly as it stood in the source.
#[derive(Debug, PartialEq, Eq)]
pub enum TokenKind {
    // Structural keywords
    Inputs,
    Outputs,
    In,
    Out,
    // Punctuation
    Comma,
    ParenOpen,
    ParenClose,
    Newline,
    EOF,
    // Gate keywords
    And,
    Or,
    Not,
    Nand,
    Nor,
    Xor,
    Xnor,
    // Subcircuit definition keywords
    Subcircuit,
    End,
    // Anything else that scans as a name
    Identifier(String),
}

/// The mathematical image of a token: identical to `TokenKind` except that
/// identifier text is a sequence of characters.
pub enum SpecToken {
    Inputs,
    Outputs,
    In,
    Out,
    Comma,
    ParenOpen,
    ParenClose,
    Newline,
    Eof,
    And,
    Or,
    Not,
    Nand,
    Nor,
    Xor,
    Xnor,
    Subcircuit,
    End,
    Identifier(Seq<char>),
}

impl View for TokenKind {
    type V = SpecToken;

    open spec fn view(&self) -> SpecToken {
        match self {
            TokenKind::Inputs => SpecToken::Inputs,
            TokenKind::Outputs => SpecToken::Outputs,
            TokenKind::In => SpecToken::In,
            TokenKind::Out => SpecToken::Out,
            TokenKind::Comma => SpecToken::Comma,
            TokenKind::ParenOpen => SpecToken::ParenOpen,
            TokenKind::ParenClose => SpecToken::ParenClose,
            TokenKind::Newline => SpecToken::Newline,
            TokenKind::EOF => SpecToken::Eof,
            TokenKind::And => SpecToken::And,
            TokenKind::Or => SpecToken::Or,
            TokenKind::Not => SpecToken::Not,
            TokenKind::Nand => SpecToken::Nand,
            TokenKind::Nor => SpecToken::Nor,
            TokenKind::Xor => SpecToken::Xor,
            TokenKind::Xnor => SpecToken::Xnor,
            TokenKind::Subcircuit => SpecToken::Subcircuit,
            TokenKind::End => SpecToken::End,
            TokenKind::Identifier(s) => SpecToken::Identifier(s@),
        }
    }
}

/// Decides whether two tokens are the same lexical unit, identifier text
/// included.
pub fn token_eq(a: &TokenKind, b: &TokenKind) -> (r: bool)
    ensures
        r == (a@ == b@),
{
    match a {
        TokenKind::Inputs => matches!(b, TokenKind::Inputs),
        TokenKind::Outputs => matches!(b, TokenKind::Outputs),
        TokenKind::In => matches!(b, TokenKind::In),
        TokenKind::Out => matches!(b, TokenKind::Out),
        TokenKind::Comma => matches!(b, TokenKind::Comma),
        TokenKind::ParenOpen => matches!(b, TokenKind::ParenOpen),
        TokenKind::ParenClose => matches!(b, TokenKind::ParenClose),
        TokenKind::Newline => matches!(b, TokenKind::Newline),
        TokenKind::EOF => matches!(b, TokenKind::EOF),
        TokenKind::And => matches!(b, TokenKind::And),
        TokenKind::Or => matches!(b, TokenKind::Or),
        TokenKind::Not => matches!(b, TokenKind::Not),
        TokenKind::Nand => matches!(b, TokenKind::Nand),
        TokenKind::Nor => matches!(b, TokenKind::Nor),
        TokenKind::Xor => matches!(b, TokenKind::Xor),
        TokenKind::Xnor => matches!(b, TokenKind::Xnor),
        TokenKind::Subcircuit => matches!(b, TokenKind::Subcircuit),
        TokenKind::End => matches!(b, TokenKind::End),
        TokenKind::Identifier(x) => match b {
            TokenKind::Identifier(y) => x.eq(y),
            _ => false,
        },
    }
}

} // verus!
