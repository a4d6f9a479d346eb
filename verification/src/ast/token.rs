//! Tokens.

use crate::span::{Span, Spanned};
use vstd::prelude::*;

verus! {

/// Where the text of a literal comes from.
#[derive(Clone, Copy, Debug, PartialEq, Eq, Structural)]
pub enum LitSource {
    /// The source file with this id, at the span of the token.
    Text(usize),
    /// The string stored under this id.
    Synthetic(usize),
}

/// The kinds of token.
#[derive(Clone, Copy, Debug, PartialEq, Eq, Structural)]
pub enum Kind {
    /// `{`
    Open,
    /// `}`
    Close,
    /// `(`
    OpenParen,
    /// `)`
    CloseParen,
    /// `[`
    OpenBracket,
    /// `]`
    CloseBracket,
    /// `;`
    SemiColon,
    /// `,`
    Comma,
    /// `.`
    Dot,
    /// `-`
    Dash,
    /// An attribute, `#[..]`.
    Attribute,
    /// `await`
    Await,
    /// `break`
    Break,
    /// `fn`
    Fn,
    /// `return`
    Return,
    /// `yield`
    Yield,
    /// A number literal.
    Number,
    /// A string literal, `"text"`.
    LitStr,
    /// A byte string literal, `b"text"`.
    LitByteStr,
    /// A byte literal, `b'a'`.
    LitByte,
    /// A character literal, `'a'`.
    LitChar,
    /// An identifier.
    Ident,
    /// A label, like `'foo`.
    Label(LitSource),
}

/// A token.
#[derive(Clone, Copy, Debug, PartialEq, Eq, Structural)]
pub struct Token {
    pub span: Span,
    pub kind: Kind,
}

/// What the parser was looking for.
#[derive(Clone, Copy, Debug, PartialEq, Eq, Structural)]
pub enum Expectation {
    Expr,
    Label,
    Open,
    Close,
    CloseBracket,
    Fn,
    Ident,
    OpenParen,
    CloseParen,
}

/// Why the tokens could not be parsed.
#[derive(Clone, Copy, Debug, PartialEq, Eq, Structural)]
pub enum ParseError {
    /// The tokens ended too early.
    Eof,
    /// Another token stood where `what` was expected.
    Expected { what: Expectation, actual: Token },
}

/// A label, like `'foo`.
#[derive(Clone, Copy, Debug, PartialEq, Eq, Structural)]
pub struct Label {
    /// The token of the label.
    pub token: Token,
    /// Where the name of the label comes from.
    pub source: LitSource,
}

/// An attribute.
#[derive(Clone, Copy, Debug, PartialEq, Eq, Structural)]
pub struct Attribute {
    pub token: Token,
}

impl Spanned for Token {
    open spec fn spanned(&self) -> Span {
        self.span
    }

    fn span(&self) -> (span: Span) {
        self.span
    }
}

impl Spanned for Label {
    open spec fn spanned(&self) -> Span {
        self.token.span
    }

    fn span(&self) -> (span: Span) {
        self.token.span
    }
}

/// The tokens of the attributes.
pub open spec fn attribute_tokens(attributes: Seq<Attribute>) -> Seq<Token> {
    attributes.map_values(|a: Attribute| a.token)
}

/// The span `inner` stretched back to the first of the attributes.
pub open spec fn attributed_span(attributes: Seq<Attribute>, inner: Span) -> Span {
    if attributes.len() > 0 {
        attributes[0].token.span.spec_join(inner)
    } else {
        inner
    }
}

/// The span `inner` stretched back to the first of the attributes.
pub fn span_with_attributes(attributes: &Vec<Attribute>, inner: Span) -> (span: Span)
    ensures
        span == attributed_span(attributes@, inner),
{
    if attributes.len() > 0 {
        attributes[0].token.span.join(inner)
    } else {
        inner
    }
}

} // verus!
