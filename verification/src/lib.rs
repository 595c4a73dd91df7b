pub mod ast;
pub mod emit;
pub mod location;
pub mod parser;
pub mod text;
pub mod token;
pub mod tokenizer;
pub mod xmlout;

pub use ast::{BinaryOperation, ExprKindV, ExprV, Expression, ExpressionKind, Literal,
    LiteralKind, LiteralKindV};
pub use location::{LocV, Location};
pub use parser::{ParseErrV, ParseError, Parser};
pub use token::{Operator, Symbol, Token, TokenKind, TokenKindV};
pub use tokenizer::{Tokenizer, TokenizerError};
pub use xmlout::{SerializeError, XmlOut, XmlOutV};
