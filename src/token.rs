//! Attributes as flat token sequences, and the errors found in their syntax.
//!
//! A group is written as its opening delimiter, its contents and its closing
//! delimiter, so that `serde(rename = "x")` is `Ident(serde)`,
//! `Open(Parenthesis)`, `Ident(rename)`, `Punct('=')`, `Literal("\"x\"")`,
//! `Close(Parenthesis)`.

use vstd::prelude::*;

use crate::case::str_eq;

verus! {

#[derive(Debug, Clone, Copy, PartialEq, Eq, Structural)]
pub enum Delimiter {
    Parenthesis,
    Brace,
    Bracket,
}

#[derive(Debug, Clone, PartialEq, Eq)]
pub enum Token {
    /// An identifier or keyword.
    Ident(String),
    /// One punctuation character.
    Punct(char),
    /// A literal, as it is written in the source (quotes and escapes kept).
    Literal(String),
    /// The start of a group.
    Open(Delimiter),
    /// The end of a group.
    Close(Delimiter),
}

/// What stands between `#[` and `]`.
#[derive(Debug, Clone, PartialEq, Eq)]
pub struct Attribute {
    pub tokens: Vec<Token>,
}

/// A mistake in the syntax of an attribute.
#[derive(Debug, Clone, Copy, PartialEq, Eq, Structural)]
pub enum AttrError {
    /// `#[str]` without a value.
    ExpectedStrValue,
    /// A second `#[str ...]` attribute on one item.
    DuplicateStrAttribute,
    /// A rename that starts with neither `=` nor `(`.
    ExpectedEqOrParen,
    ExpectedIdent,
    ExpectedEq,
    ExpectedComma,
    ExpectedStringLiteral,
    /// A key other than `serialize` and `deserialize`.
    ExpectedSerializeOrDeserialize,
    DuplicateSerialize,
    DuplicateDeserialize,
    /// Tokens after a complete rename.
    UnexpectedToken,
}

pub open spec fn attr_error_message(e: AttrError) -> Seq<char> {
    match e {
        AttrError::ExpectedStrValue => "expected #[str = \"...\"]"@,
        AttrError::DuplicateStrAttribute => "duplicate #[str = \"...\"] attribute"@,
        AttrError::ExpectedEqOrParen => "expected `=` or parentheses"@,
        AttrError::ExpectedIdent => "expected identifier"@,
        AttrError::ExpectedEq => "expected `=`"@,
        AttrError::ExpectedComma => "expected `,`"@,
        AttrError::ExpectedStringLiteral => "expected string literal"@,
        AttrError::ExpectedSerializeOrDeserialize => "expected `serialize` or `deserialize`"@,
        AttrError::DuplicateSerialize => "duplicate `serialize`"@,
        AttrError::DuplicateDeserialize => "duplicate `deserialize`"@,
        AttrError::UnexpectedToken => "unexpected token"@,
    }
}

impl AttrError {
    pub fn message(&self) -> (r: &'static str)
        ensures
            r@ == attr_error_message(*self),
    {
        match self {
            AttrError::ExpectedStrValue => "expected #[str = \"...\"]",
            AttrError::DuplicateStrAttribute => "duplicate #[str = \"...\"] attribute",
            AttrError::ExpectedEqOrParen => "expected `=` or parentheses",
            AttrError::ExpectedIdent => "expected identifier",
            AttrError::ExpectedEq => "expected `=`",
            AttrError::ExpectedComma => "expected `,`",
            AttrError::ExpectedStringLiteral => "expected string literal",
            AttrError::ExpectedSerializeOrDeserialize => "expected `serialize` or `deserialize`",
            AttrError::DuplicateSerialize => "duplicate `serialize`",
            AttrError::DuplicateDeserialize => "duplicate `deserialize`",
            AttrError::UnexpectedToken => "unexpected token",
        }
    }
}

/// The value of a string literal written as `text`, if `text` is one.
pub uninterp spec fn str_literal_value(text: Seq<char>) -> Option<Seq<char>>;

/// Relies on `syn::parse_str::<syn::LitStr>` and `syn::LitStr::value`: the
/// literal is read from `text` alone, and its escapes are resolved.
#[verifier::external_body]
fn parse_str_literal(text: &str) -> (r: Option<String>)
    ensures
        match str_literal_value(text@) {
            Some(v) => r matches Some(s) && s@ == v,
            None => r is None,
        },
{
    syn::parse_str::<syn::LitStr>(text).ok().map(|lit| lit.value())
}

/// The value of `t` if it is a string literal.
pub open spec fn spec_string_literal(t: Token) -> Option<Seq<char>> {
    match t {
        Token::Literal(text) => str_literal_value(text@),
        _ => None,
    }
}

pub open spec fn is_punct(t: Token, c: char) -> bool {
    t matches Token::Punct(p) && p == c
}

pub open spec fn is_ident(t: Token, name: Seq<char>) -> bool {
    t matches Token::Ident(s) && s@ == name
}

impl Token {
    /// The value of the token if it is a string literal.
    pub fn string_literal(&self) -> (r: Option<String>)
        ensures
            match spec_string_literal(*self) {
                Some(v) => r matches Some(s) && s@ == v,
                None => r is None,
            },
    {
        match self {
            Token::Literal(text) => parse_str_literal(text.as_str()),
            _ => None,
        }
    }

    pub fn is_punct(&self, c: char) -> (r: bool)
        ensures
            r == is_punct(*self, c),
    {
        match self {
            Token::Punct(p) => *p == c,
            _ => false,
        }
    }

    pub fn is_ident(&self, name: &str) -> (r: bool)
        ensures
            r == is_ident(*self, name@),
    {
        match self {
            Token::Ident(s) => str_eq(s.as_str(), name),
            _ => false,
        }
    }

    pub fn is_open(&self, d: Delimiter) -> (r: bool)
        ensures
            r == (*self == Token::Open(d)),
    {
        match self {
            Token::Open(o) => *o == d,
            _ => false,
        }
    }

    pub fn is_close(&self, d: Delimiter) -> (r: bool)
        ensures
            r == (*self == Token::Close(d)),
    {
        match self {
            Token::Close(c) => *c == d,
            _ => false,
        }
    }
}

} // verus!
