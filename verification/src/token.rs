//! Tokens: what the tokenizer hands to the parser.

use vstd::prelude::*;
use crate::bytes::copyBytes;
use crate::token::keyword::Keyword;
use crate::token::tokenkind::TokenKind;

pub mod keyword;
pub mod symbol;
pub mod tokenkind;

verus! {

/// What a token carries beside its kind.
#[derive(Debug, PartialEq)]
pub enum TokenValue {
    Null,
    True,
    False,
    /// The number that an integer literal spells.
    Int(isize),
    /// A floating-point literal as it is written: digits, a point, digits.
    Float(Vec<u8>),
    Char(char),
    /// The bytes that a string literal stands for, escapes resolved.
    Str(Vec<u8>),
    Keyword(Keyword),
    /// The name as it is written.
    Identifier(Vec<u8>),
    /// Punctuation and the end of the input carry nothing.
    Empty,
    /// What the token of an error carries.
    Error,
}

/// The mathematical content of a [`TokenValue`].
pub enum TokenValueView {
    Null,
    True,
    False,
    Int(isize),
    Float(Seq<u8>),
    Char(char),
    Str(Seq<u8>),
    Keyword(Keyword),
    Identifier(Seq<u8>),
    Empty,
    Error,
}

impl View for TokenValue {
    type V = TokenValueView;

    open spec fn view(&self) -> TokenValueView {
        match self {
            TokenValue::Null => TokenValueView::Null,
            TokenValue::True => TokenValueView::True,
            TokenValue::False => TokenValueView::False,
            TokenValue::Int(v) => TokenValueView::Int(*v),
            TokenValue::Float(v) => TokenValueView::Float(v@),
            TokenValue::Char(v) => TokenValueView::Char(*v),
            TokenValue::Str(v) => TokenValueView::Str(v@),
            TokenValue::Keyword(v) => TokenValueView::Keyword(*v),
            TokenValue::Identifier(v) => TokenValueView::Identifier(v@),
            TokenValue::Empty => TokenValueView::Empty,
            TokenValue::Error => TokenValueView::Error,
        }
    }
}

impl Clone for TokenValue {
    fn clone(&self) -> (r: Self)
        ensures
            r@ == self@,
    {
        match self {
            TokenValue::Null => TokenValue::Null,
            TokenValue::True => TokenValue::True,
            TokenValue::False => TokenValue::False,
            TokenValue::Int(v) => TokenValue::Int(*v),
            TokenValue::Float(v) => TokenValue::Float(copyBytes(v)),
            TokenValue::Char(v) => TokenValue::Char(*v),
            TokenValue::Str(v) => TokenValue::Str(copyBytes(v)),
            TokenValue::Keyword(v) => TokenValue::Keyword(*v),
            TokenValue::Identifier(v) => TokenValue::Identifier(copyBytes(v)),
            TokenValue::Empty => TokenValue::Empty,
            TokenValue::Error => TokenValue::Error,
        }
    }
}

/// A source line, counted from one.
pub type TokenLine = u16;

/// A token: its kind, what it carries, and the line it stands on.
#[derive(Debug, PartialEq)]
pub struct Token {
    kind: TokenKind,
    value: TokenValue,
    line: TokenLine,
}

/// The mathematical content of a [`Token`].
pub struct TokenView {
    pub kind: TokenKind,
    pub value: TokenValueView,
    pub line: TokenLine,
}

impl View for Token {
    type V = TokenView;

    closed spec fn view(&self) -> TokenView {
        TokenView { kind: self.kind, value: self.value@, line: self.line }
    }
}

impl Clone for Token {
    fn clone(&self) -> (r: Self)
        ensures
            r@ == self@,
    {
        Token { kind: self.kind, value: self.value.clone(), line: self.line }
    }
}

impl Token {
    pub fn new(kind: TokenKind, value: TokenValue, line: TokenLine) -> (r: Self)
        ensures
            r@ == (TokenView { kind, value: value@, line }),
    {
        Self { kind, value, line }
    }

    pub fn kind(&self) -> (k: TokenKind)
        ensures
            k == self@.kind,
    {
        self.kind
    }

    pub fn value(&self) -> (v: TokenValue)
        ensures
            v@ == self@.value,
    {
        self.value.clone()
    }

    pub fn line(&self) -> (l: TokenLine)
        ensures
            l == self@.line,
    {
        self.line
    }
}

} // verus!
