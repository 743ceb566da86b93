use crate::parser::Precedence;
use crate::tokeninfo::TokenInfo;
use vstd::prelude::*;

verus! {

/// The closed set of token kinds the lexer can emit.
#[derive(Clone, Copy, Debug, PartialEq, Eq, Hash, Structural)]
pub enum TokenType {
    // Keywords
    Function,
    While,
    Let,
    True,
    False,
    If,
    Else,
    Return,
    // Variables
    Ident,
    Int,
    String,
    // Operators
    Assign,
    Plus,
    Minus,
    Bang,
    Asterisk,
    Slash,
    Lessthan,
    Greaterthan,
    Equal,
    Notequal,
    // Separators
    Comma,
    Semicolon,
    // Grouping
    Lparen,
    Rparen,
    Lbrace,
    Rbrace,
    Lbracket,
    Rbracket,
    // Illegal
    Illegal,
    // EOF
    Eof,
}

impl TokenType {
    /// The binding power of this token when it appears in infix position.
    /// Tokens that start no infix expression sit at `Lowest`.
    pub open spec fn spec_precedence(token_type: TokenType) -> Precedence {
        match token_type {
            TokenType::Equal => Precedence::Equals,
            TokenType::Notequal => Precedence::Equals,
            TokenType::Lessthan => Precedence::Lessgreater,
            TokenType::Greaterthan => Precedence::Lessgreater,
            TokenType::Plus => Precedence::Sum,
            TokenType::Minus => Precedence::Sum,
            TokenType::Asterisk => Precedence::Product,
            TokenType::Slash => Precedence::Product,
            TokenType::Lparen => Precedence::Call,
            TokenType::Lbracket => Precedence::Index,
            TokenType::Assign => Precedence::Assign,
            _ => Precedence::Lowest,
        }
    }

    pub fn precedence(token_type: &TokenType) -> (r: Precedence)
        ensures
            r == TokenType::spec_precedence(*token_type),
    {
        match token_type {
            TokenType::Equal => Precedence::Equals,
            TokenType::Notequal => Precedence::Equals,
            TokenType::Lessthan => Precedence::Lessgreater,
            TokenType::Greaterthan => Precedence::Lessgreater,
            TokenType::Plus => Precedence::Sum,
            TokenType::Minus => Precedence::Sum,
            TokenType::Asterisk => Precedence::Product,
            TokenType::Slash => Precedence::Product,
            TokenType::Lparen => Precedence::Call,
            TokenType::Lbracket => Precedence::Index,
            TokenType::Assign => Precedence::Assign,
            _ => Precedence::Lowest,
        }
    }
}

/// A lexed token: its kind together with its lexeme and source position.
#[derive(Clone, Debug, PartialEq)]
pub struct Token {
    pub token_type: TokenType,
    pub token_info: TokenInfo,
}

/// The mathematical model of a token: the lexeme as a sequence of
/// characters, the position as unbounded integers.
pub struct TokenM {
    pub kind: TokenType,
    pub literal: Seq<char>,
    pub line: int,
    pub col: int,
}

impl Token {
    pub open spec fn model(self) -> TokenM {
        TokenM {
            kind: self.token_type,
            literal: self.token_info.literal@,
            line: self.token_info.line as int,
            col: self.token_info.col as int,
        }
    }

    /// A token of the given kind that carries no lexeme or position.
    pub fn new(token_type: TokenType) -> (r: Self)
        ensures
            r.model() == (TokenM {
                kind: token_type,
                literal: Seq::<char>::empty(),
                line: 0,
                col: 0,
            }),
    {
        Token { token_type, token_info: TokenInfo { literal: String::new(), line: 0, col: 0 } }
    }
}

} // verus!
