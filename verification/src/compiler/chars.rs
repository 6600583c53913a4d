//! The classes of characters that the lexer tells apart.

use vstd::prelude::*;

verus! {

/// A decimal digit.
pub open spec fn digit(c: char) -> bool {
    '0' <= c <= '9'
}

/// A letter of the Latin alphabet, small or capital.
pub open spec fn letter(c: char) -> bool {
    'a' <= c <= 'z' || 'A' <= c <= 'Z'
}

/// A character that an operator is made of.
pub open spec fn operator(c: char) -> bool {
    c == '~' || c == '&' || c == '|' || c == '*' || c == '/' || c == '\\' || c == '+' || c == '='
        || c == '>' || c == '<' || c == ',' || c == '@' || c == '%' || c == '-'
}

/// White space: the characters with the Unicode property `White_Space`.
pub open spec fn whitespace(c: char) -> bool {
    '\u{9}' <= c <= '\u{d}' || c == ' ' || c == '\u{85}' || c == '\u{a0}' || c == '\u{1680}'
        || '\u{2000}' <= c <= '\u{200a}' || c == '\u{2028}' || c == '\u{2029}' || c == '\u{202f}'
        || c == '\u{205f}' || c == '\u{3000}'
}

/// A class of characters of which a token takes as many in a row as follow.
#[derive(Copy, Clone, Debug, PartialEq, Eq, Structural)]
pub enum CharClass {
    /// Decimal digits.
    Digit,
    /// What a name goes on with: letters, digits and the underscore.
    Word,
    /// What a sequence of keywords goes on with: letters and colons.
    KeywordPart,
    /// The characters of operators.
    Operator,
}

impl CharClass {
    pub open spec fn contains(self, c: char) -> bool {
        match self {
            CharClass::Digit => digit(c),
            CharClass::Word => letter(c) || digit(c) || c == '_',
            CharClass::KeywordPart => letter(c) || c == ':',
            CharClass::Operator => operator(c),
        }
    }

    pub fn holds(self, c: char) -> (result: bool)
        ensures
            result == self.contains(c),
    {
        match self {
            CharClass::Digit => is_digit(c),
            CharClass::Word => is_letter(c) || is_digit(c) || c == '_',
            CharClass::KeywordPart => is_letter(c) || c == ':',
            CharClass::Operator => is_operator(c),
        }
    }
}

pub fn is_digit(c: char) -> (result: bool)
    ensures
        result == digit(c),
{
    '0' <= c && c <= '9'
}

pub fn is_letter(c: char) -> (result: bool)
    ensures
        result == letter(c),
{
    ('a' <= c && c <= 'z') || ('A' <= c && c <= 'Z')
}

pub fn is_operator(c: char) -> (result: bool)
    ensures
        result == operator(c),
{
    match c {
        '~' | '&' | '|' | '*' | '/' | '\\' | '+' | '=' | '>' | '<' | ',' | '@' | '%' | '-' => true,
        _ => false,
    }
}

pub fn is_whitespace(c: char) -> (result: bool)
    ensures
        result == whitespace(c),
{
    ('\u{9}' <= c && c <= '\u{d}') || c == ' ' || c == '\u{85}' || c == '\u{a0}' || c == '\u{1680}'
        || ('\u{2000}' <= c && c <= '\u{200a}') || c == '\u{2028}' || c == '\u{2029}' || c
        == '\u{202f}' || c == '\u{205f}' || c == '\u{3000}'
}

} // verus!
