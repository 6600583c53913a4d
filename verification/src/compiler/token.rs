//! Tokens: the units that the lexer cuts the source text into.

use crate::compiler::Location;
use vstd::prelude::*;

verus! {

#[derive(Copy, Clone, Debug, PartialEq, Eq, Structural)]
pub enum TokenKind {
    And,
    Assign,
    At,
    Colon,
    Comma,
    Divide,
    Double,
    EndBlock,
    EndTerm,
    Equal,
    Exit,
    Identifier,
    Integer,
    Keyword,
    KeywordSequence,
    Less,
    Minus,
    Modulus,
    More,
    NewBlock,
    NewTerm,
    Not,
    OperatorSequence,
    Or,
    Percent,
    Period,
    Plus,
    Pound,
    Primitive,
    Separator,
    Star,
    String,
}

impl TokenKind {
    /// The kinds of the fourteen operators of one character.
    pub open spec fn binary_operator(self) -> bool {
        match self {
            TokenKind::And
            | TokenKind::At
            | TokenKind::Comma
            | TokenKind::Divide
            | TokenKind::Equal
            | TokenKind::Less
            | TokenKind::Minus
            | TokenKind::Modulus
            | TokenKind::More
            | TokenKind::Not
            | TokenKind::Or
            | TokenKind::Percent
            | TokenKind::Plus
            | TokenKind::Star => true,
            _ => false,
        }
    }

    /// The kinds whose tokens carry their text.
    pub open spec fn has_text(self) -> bool {
        match self {
            TokenKind::Identifier
            | TokenKind::Integer
            | TokenKind::Double
            | TokenKind::String
            | TokenKind::Keyword
            | TokenKind::KeywordSequence
            | TokenKind::OperatorSequence => true,
            kind => kind.binary_operator(),
        }
    }

    pub fn is_binary_operator(self) -> (result: bool)
        ensures
            result == self.binary_operator(),
    {
        match self {
            TokenKind::And
            | TokenKind::At
            | TokenKind::Comma
            | TokenKind::Divide
            | TokenKind::Equal
            | TokenKind::Less
            | TokenKind::Minus
            | TokenKind::Modulus
            | TokenKind::More
            | TokenKind::Not
            | TokenKind::Or
            | TokenKind::Percent
            | TokenKind::Plus
            | TokenKind::Star => true,
            _ => false,
        }
    }
}

impl DeepView for TokenKind {
    type V = TokenKind;

    open spec fn deep_view(&self) -> TokenKind {
        *self
    }
}

#[derive(Debug, PartialEq)]
pub struct Token {
    pub kind: TokenKind,
    pub text: Option<String>,
    pub location: Location,
}

/// A token as a value: its text is a sequence of characters.
pub struct TokenView {
    pub kind: TokenKind,
    pub text: Option<Seq<char>>,
    pub location: Location,
}

impl View for Token {
    type V = TokenView;

    open spec fn view(&self) -> TokenView {
        TokenView {
            kind: self.kind,
            text: match self.text {
                Some(text) => Some(text@),
                None => None,
            },
            location: self.location,
        }
    }
}

impl DeepView for Token {
    type V = TokenView;

    open spec fn deep_view(&self) -> TokenView {
        self@
    }
}

impl Token {
    pub fn new(kind: TokenKind, text: Option<String>, location: Location) -> (token: Token)
        ensures
            token.kind == kind,
            token.text == text,
            token.location == location,
    {
        Token { kind, text, location }
    }
}

} // verus!
