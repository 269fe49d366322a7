//! The kinds of token.

use vstd::prelude::*;
use vstd::std_specs::convert::TryFromSpecImpl;
use vstd::string::StringSliceAdditionalSpecFns;
use crate::token::symbol::{mark_of, symbol_of, Symbol};
use crate::value::text::{pushChar, pushText, textBytes, utf8_text};

verus! {

/// Why a piece of source text is no token.
#[derive(Debug, Clone, Copy, PartialEq, Eq, Structural)]
pub enum LexError {
    /// A byte that starts no token.
    InvalidCharacter(u8),
    /// The input ended where the character of a character literal was due.
    CharExpected,
    /// The input ended where the closing quote of a character literal was due.
    ClosingQuoteExpected,
    /// This byte stands where the closing quote of a character literal was due.
    ClosingQuoteMissing(u8),
    /// A backslash and this byte, in a character literal, are no escape.
    InvalidEscapedChar(u8),
    /// The input ended after a backslash in a string literal.
    EscapeExpected,
    /// A backslash and this byte, in a string literal, are no escape.
    InvalidEscapeSequence(u8),
    /// The escape `\x` is not supported.
    UnsupportedEscape,
    /// The input ended inside a string literal.
    UnterminatedString,
    /// The input ended inside a block comment.
    UnterminatedComment,
    /// An integer literal too large for the machine.
    IntegerTooLarge,
}

/// The kind of a token.
#[derive(Debug, Clone, Copy, PartialEq, Eq, Structural)]
pub enum TokenKind {
    Null,
    Bool,
    Int,
    Float,
    Char,
    Str,
    Keyword,
    Identifier,
    Symbol(Symbol),
    Compound(Symbol, Symbol),
    EOF,
    /// The text here is no token.
    Error(LexError),
}

/// Text that spells no punctuation token.
#[derive(Debug, Clone, Copy, PartialEq, Eq, Structural)]
pub struct NotPunctuation;

/// The kind of the punctuation token that `text` spells: `&&`, `||`, or one
/// punctuation mark.
pub open spec fn punctuation_of(text: Seq<u8>) -> Option<TokenKind> {
    if text == seq!['&' as u8, '&' as u8] {
        Some(TokenKind::Compound(Symbol::Ampersand, Symbol::Ampersand))
    } else if text == seq!['|' as u8, '|' as u8] {
        Some(TokenKind::Compound(Symbol::Pipe, Symbol::Pipe))
    } else if text.len() == 1 {
        match symbol_of(text[0]) {
            Some(s) => Some(TokenKind::Symbol(s)),
            None => None,
        }
    } else {
        None
    }
}

impl TryFromSpecImpl<u8> for TokenKind {
    open spec fn obeys_try_from_spec() -> bool {
        true
    }

    open spec fn try_from_spec(value: u8) -> Result<Self, NotPunctuation> {
        match symbol_of(value) {
            Some(s) => Ok(TokenKind::Symbol(s)),
            None => Err(NotPunctuation),
        }
    }
}

impl TryFrom<u8> for TokenKind {
    type Error = NotPunctuation;

    /// The kind of the one-byte punctuation token `value`.
    fn try_from(value: u8) -> (r: Result<Self, NotPunctuation>) {
        match Symbol::of(value) {
            Some(s) => Ok(TokenKind::Symbol(s)),
            None => Err(NotPunctuation),
        }
    }
}

impl TryFromSpecImpl<char> for TokenKind {
    open spec fn obeys_try_from_spec() -> bool {
        true
    }

    open spec fn try_from_spec(value: char) -> Result<Self, NotPunctuation> {
        if (value as u32) < 0x80 {
            match symbol_of(value as u8) {
                Some(s) => Ok(TokenKind::Symbol(s)),
                None => Err(NotPunctuation),
            }
        } else {
            Err(NotPunctuation)
        }
    }
}

impl TryFrom<char> for TokenKind {
    type Error = NotPunctuation;

    /// The kind of the punctuation token that is the character `value`.
    fn try_from(value: char) -> (r: Result<Self, NotPunctuation>) {
        if (value as u32) < 0x80 {
            match Symbol::of(value as u8) {
                Some(s) => Ok(TokenKind::Symbol(s)),
                None => Err(NotPunctuation),
            }
        } else {
            Err(NotPunctuation)
        }
    }
}

impl<'a> TryFromSpecImpl<&'a [u8]> for TokenKind {
    open spec fn obeys_try_from_spec() -> bool {
        true
    }

    open spec fn try_from_spec(value: &'a [u8]) -> Result<Self, NotPunctuation> {
        match punctuation_of(value@) {
            Some(k) => Ok(k),
            None => Err(NotPunctuation),
        }
    }
}

impl<'a> TryFrom<&'a [u8]> for TokenKind {
    type Error = NotPunctuation;

    /// The kind of the punctuation token that `value` spells.
    fn try_from(value: &'a [u8]) -> (r: Result<Self, NotPunctuation>) {
        if value.len() == 2 && value[0] == '&' as u8 && value[1] == '&' as u8 {
            assert(value@ =~= seq!['&' as u8, '&' as u8]);
            Ok(TokenKind::Compound(Symbol::Ampersand, Symbol::Ampersand))
        } else if value.len() == 2 && value[0] == '|' as u8 && value[1] == '|' as u8 {
            assert(value@ =~= seq!['|' as u8, '|' as u8]);
            Ok(TokenKind::Compound(Symbol::Pipe, Symbol::Pipe))
        } else if value.len() == 1 {
            match Symbol::of(value[0]) {
                Some(s) => Ok(TokenKind::Symbol(s)),
                None => Err(NotPunctuation),
            }
        } else {
            assert(value@ != seq!['&' as u8, '&' as u8]) by {
                if value@ == seq!['&' as u8, '&' as u8] {
                    assert(value@.len() == 2 && value@[0] == '&' as u8 && value@[1] == '&' as u8);
                }
            }
            assert(value@ != seq!['|' as u8, '|' as u8]) by {
                if value@ == seq!['|' as u8, '|' as u8] {
                    assert(value@.len() == 2 && value@[0] == '|' as u8 && value@[1] == '|' as u8);
                }
            }
            Err(NotPunctuation)
        }
    }
}

/// The message of a fault in the source text. A byte is shown as the
/// character with its scalar value.
pub open spec fn lex_message(e: LexError) -> Seq<u8> {
    match e {
        LexError::InvalidCharacter(c) => "invalid character ".spec_bytes() + utf8_text(c as char),
        LexError::CharExpected => "expected char, found EOF".spec_bytes(),
        LexError::ClosingQuoteExpected => "expected closing quote, found EOF".spec_bytes(),
        LexError::ClosingQuoteMissing(c) => "expected closing quote, got '".spec_bytes()
            + utf8_text(c as char) + "'".spec_bytes(),
        LexError::InvalidEscapedChar(c) => "invalid escaped char '\\".spec_bytes() + utf8_text(
            c as char,
        ) + "'".spec_bytes(),
        LexError::EscapeExpected => "unexpected EOF".spec_bytes(),
        LexError::InvalidEscapeSequence(c) => "invalid escape sequence in string: '\\".spec_bytes()
            + utf8_text(c as char) + "'".spec_bytes(),
        LexError::UnsupportedEscape => "ascii escape not supported".spec_bytes(),
        LexError::UnterminatedString => "unterminated string".spec_bytes(),
        LexError::UnterminatedComment => "unterminated multi-line comment".spec_bytes(),
        LexError::IntegerTooLarge => "failed to parse int".spec_bytes(),
    }
}

impl LexError {
    /// The message of the fault.
    pub fn message(&self) -> (m: Vec<u8>)
        ensures
            m@ == lex_message(*self),
    {
        let mut m: Vec<u8> = Vec::new();
        match self {
            LexError::InvalidCharacter(c) => {
                pushText(&mut m, "invalid character ");
                pushChar(&mut m, *c);
            },
            LexError::CharExpected => {
                pushText(&mut m, "expected char, found EOF");
            },
            LexError::ClosingQuoteExpected => {
                pushText(&mut m, "expected closing quote, found EOF");
            },
            LexError::ClosingQuoteMissing(c) => {
                pushText(&mut m, "expected closing quote, got '");
                pushChar(&mut m, *c);
                pushText(&mut m, "'");
            },
            LexError::InvalidEscapedChar(c) => {
                pushText(&mut m, "invalid escaped char '\\");
                pushChar(&mut m, *c);
                pushText(&mut m, "'");
            },
            LexError::EscapeExpected => {
                pushText(&mut m, "unexpected EOF");
            },
            LexError::InvalidEscapeSequence(c) => {
                pushText(&mut m, "invalid escape sequence in string: '\\");
                pushChar(&mut m, *c);
                pushText(&mut m, "'");
            },
            LexError::UnsupportedEscape => {
                pushText(&mut m, "ascii escape not supported");
            },
            LexError::UnterminatedString => {
                pushText(&mut m, "unterminated string");
            },
            LexError::UnterminatedComment => {
                pushText(&mut m, "unterminated multi-line comment");
            },
            LexError::IntegerTooLarge => {
                pushText(&mut m, "failed to parse int");
            },
        }
        m
    }
}

/// How a kind of token is named in a message: punctuation by its marks,
/// every other kind by a word.
pub open spec fn kind_name(kind: TokenKind) -> Seq<u8> {
    match kind {
        TokenKind::Null => "null".spec_bytes(),
        TokenKind::Bool => "bool".spec_bytes(),
        TokenKind::Int => "int".spec_bytes(),
        TokenKind::Float => "float".spec_bytes(),
        TokenKind::Char => "char".spec_bytes(),
        TokenKind::Str => "string".spec_bytes(),
        TokenKind::Keyword => "keyword".spec_bytes(),
        TokenKind::Identifier => "identifier".spec_bytes(),
        TokenKind::Symbol(s) => seq![mark_of(s)],
        TokenKind::Compound(a, b) => seq![mark_of(a), mark_of(b)],
        TokenKind::EOF => "EOF".spec_bytes(),
        TokenKind::Error(_) => "error".spec_bytes(),
    }
}

impl TokenKind {
    /// The name of the kind in a message.
    pub fn name(&self) -> (n: Vec<u8>)
        ensures
            n@ == kind_name(*self),
    {
        match self {
            TokenKind::Null => textBytes("null"),
            TokenKind::Bool => textBytes("bool"),
            TokenKind::Int => textBytes("int"),
            TokenKind::Float => textBytes("float"),
            TokenKind::Char => textBytes("char"),
            TokenKind::Str => textBytes("string"),
            TokenKind::Keyword => textBytes("keyword"),
            TokenKind::Identifier => textBytes("identifier"),
            TokenKind::Symbol(s) => {
                let mut n: Vec<u8> = Vec::new();
                n.push(s.mark());
                assert(n@ == seq![mark_of(*s)]);
                n
            },
            TokenKind::Compound(a, b) => {
                let mut n: Vec<u8> = Vec::new();
                n.push(a.mark());
                n.push(b.mark());
                assert(n@ == seq![mark_of(*a), mark_of(*b)]);
                n
            },
            TokenKind::EOF => textBytes("EOF"),
            TokenKind::Error(_) => textBytes("error"),
        }
    }
}

} // verus!
