use vstd::prelude::*;

use crate::location::{LocV, Location};

verus! {

/// The raw text of a lexeme. Kept as a plain string for now; an interned
/// representation could replace it without changing the token model.
pub type Symbol = String;

/// The closed set of single-character binary operators.
#[derive(Clone, Copy, Debug, PartialEq, Eq, Structural)]
pub enum Operator {
    Plus,
    Minus,
    Slash,
    Star,
}

/// The lexical category of a token, together with its lexeme where one exists.
#[derive(Debug, PartialEq)]
pub enum TokenKind {
    /// Synthetic sentinel returned forever once the input is exhausted.
    EndOfFile,
    Identifier { text: Symbol },
    /// `value` is the digit string with `_` separators removed; `radix` is
    /// always 10 (reserved for future bases).
    Integer { value: Symbol, radix: u8 },
    Operator(Operator),
}

/// The mathematical model of a `TokenKind`: lexemes as character sequences.
pub ghost enum TokenKindV {
    EndOfFile,
    Identifier { text: Seq<char> },
    Integer { value: Seq<char>, radix: u8 },
    Operator(Operator),
}

impl TokenKindV {
    /// A token kind continues a binary expression exactly when it is one of
    /// the four operators.
    pub open spec fn is_binary_operator(self) -> bool {
        self is Operator
    }
}

impl View for TokenKind {
    type V = TokenKindV;

    open spec fn view(&self) -> TokenKindV {
        match self {
            TokenKind::EndOfFile => TokenKindV::EndOfFile,
            TokenKind::Identifier { text } => TokenKindV::Identifier { text: text@ },
            TokenKind::Integer { value, radix } => TokenKindV::Integer {
                value: value@,
                radix: *radix,
            },
            TokenKind::Operator(op) => TokenKindV::Operator(*op),
        }
    }
}

impl Clone for TokenKind {
    fn clone(&self) -> (r: Self)
        ensures
            r == *self,
    {
        match self {
            TokenKind::EndOfFile => TokenKind::EndOfFile,
            TokenKind::Identifier { text } => TokenKind::Identifier { text: text.clone() },
            TokenKind::Integer { value, radix } => TokenKind::Integer {
                value: value.clone(),
                radix: *radix,
            },
            TokenKind::Operator(op) => TokenKind::Operator(*op),
        }
    }
}

impl TokenKind {
    /// Whether this token may continue a binary expression: true exactly for
    /// the four operator tokens.
    pub fn is_binary_operator(&self) -> (r: bool)
        ensures
            r == self@.is_binary_operator(),
    {
        match *self {
            TokenKind::Operator(Operator::Plus)
            | TokenKind::Operator(Operator::Minus)
            | TokenKind::Operator(Operator::Slash)
            | TokenKind::Operator(Operator::Star) => true,
            _ => false,
        }
    }
}

/// A located token.
#[derive(Debug, PartialEq)]
pub struct Token {
    pub location: Location,
    pub kind: TokenKind,
}

/// The mathematical model of a `Token`.
pub ghost struct TokenV {
    pub location: LocV,
    pub kind: TokenKindV,
}

impl View for Token {
    type V = TokenV;

    open spec fn view(&self) -> TokenV {
        TokenV { location: self.location@, kind: self.kind@ }
    }
}

impl Clone for Token {
    fn clone(&self) -> (r: Self)
        ensures
            r == *self,
    {
        Token { location: self.location, kind: self.kind.clone() }
    }
}

impl Token {
    pub fn new(location: Location, kind: TokenKind) -> (r: Self)
        ensures
            r.location == location,
            r.kind == kind,
    {
        Self { location, kind }
    }
}

} // verus!
