//! The reserved words.

use vstd::prelude::*;
use vstd::std_specs::convert::TryFromSpecImpl;
use vstd::string::StringSliceAdditionalSpecFns;
use crate::bytes::sameBytes;
use crate::value::text::textBytes;

verus! {

/// A reserved word.
#[derive(Debug, Clone, Copy, PartialEq, Eq, Structural)]
pub enum Keyword {
    Let,
    If,
    Else,
    While,
    Do,
    For,
    Def,
    Return,
    Class,
    This,
    Super,
    Print,
}

/// A word that is not reserved.
#[derive(Debug, Clone, Copy, PartialEq, Eq, Structural)]
pub struct NotAKeyword;

/// How a reserved word is spelled.
pub open spec fn spelling(k: Keyword) -> Seq<u8> {
    match k {
        Keyword::Let => "let".spec_bytes(),
        Keyword::If => "if".spec_bytes(),
        Keyword::Else => "else".spec_bytes(),
        Keyword::While => "while".spec_bytes(),
        Keyword::Do => "do".spec_bytes(),
        Keyword::For => "for".spec_bytes(),
        Keyword::Def => "def".spec_bytes(),
        Keyword::Return => "return".spec_bytes(),
        Keyword::Class => "class".spec_bytes(),
        Keyword::This => "this".spec_bytes(),
        Keyword::Super => "super".spec_bytes(),
        Keyword::Print => "print".spec_bytes(),
    }
}

/// The reserved word that `word` spells, if it spells one.
pub open spec fn keyword_of(word: Seq<u8>) -> Option<Keyword> {
    if word == spelling(Keyword::Let) {
        Some(Keyword::Let)
    } else if word == spelling(Keyword::If) {
        Some(Keyword::If)
    } else if word == spelling(Keyword::Else) {
        Some(Keyword::Else)
    } else if word == spelling(Keyword::While) {
        Some(Keyword::While)
    } else if word == spelling(Keyword::Do) {
        Some(Keyword::Do)
    } else if word == spelling(Keyword::For) {
        Some(Keyword::For)
    } else if word == spelling(Keyword::Def) {
        Some(Keyword::Def)
    } else if word == spelling(Keyword::Return) {
        Some(Keyword::Return)
    } else if word == spelling(Keyword::Class) {
        Some(Keyword::Class)
    } else if word == spelling(Keyword::This) {
        Some(Keyword::This)
    } else if word == spelling(Keyword::Super) {
        Some(Keyword::Super)
    } else if word == spelling(Keyword::Print) {
        Some(Keyword::Print)
    } else {
        None
    }
}

impl Keyword {
    /// The spelling of the word.
    pub fn text(&self) -> (t: Vec<u8>)
        ensures
            t@ == spelling(*self),
    {
        match self {
            Keyword::Let => textBytes("let"),
            Keyword::If => textBytes("if"),
            Keyword::Else => textBytes("else"),
            Keyword::While => textBytes("while"),
            Keyword::Do => textBytes("do"),
            Keyword::For => textBytes("for"),
            Keyword::Def => textBytes("def"),
            Keyword::Return => textBytes("return"),
            Keyword::Class => textBytes("class"),
            Keyword::This => textBytes("this"),
            Keyword::Super => textBytes("super"),
            Keyword::Print => textBytes("print"),
        }
    }

    /// Whether `word` spells this reserved word.
    fn spells(&self, word: &[u8]) -> (r: bool)
        ensures
            r == (word@ == spelling(*self)),
    {
        let t = self.text();
        sameBytes(word, t.as_slice())
    }
}

impl<'a> TryFromSpecImpl<&'a [u8]> for Keyword {
    open spec fn obeys_try_from_spec() -> bool {
        true
    }

    open spec fn try_from_spec(word: &'a [u8]) -> Result<Self, NotAKeyword> {
        match keyword_of(word@) {
            Some(k) => Ok(k),
            None => Err(NotAKeyword),
        }
    }
}

impl<'a> TryFrom<&'a [u8]> for Keyword {
    type Error = NotAKeyword;

    /// The reserved word that `word` spells.
    fn try_from(word: &'a [u8]) -> (r: Result<Self, NotAKeyword>) {
        if Keyword::Let.spells(word) {
            Ok(Keyword::Let)
        } else if Keyword::If.spells(word) {
            Ok(Keyword::If)
        } else if Keyword::Else.spells(word) {
            Ok(Keyword::Else)
        } else if Keyword::While.spells(word) {
            Ok(Keyword::While)
        } else if Keyword::Do.spells(word) {
            Ok(Keyword::Do)
        } else if Keyword::For.spells(word) {
            Ok(Keyword::For)
        } else if Keyword::Def.spells(word) {
            Ok(Keyword::Def)
        } else if Keyword::Return.spells(word) {
            Ok(Keyword::Return)
        } else if Keyword::Class.spells(word) {
            Ok(Keyword::Class)
        } else if Keyword::This.spells(word) {
            Ok(Keyword::This)
        } else if Keyword::Super.spells(word) {
            Ok(Keyword::Super)
        } else if Keyword::Print.spells(word) {
            Ok(Keyword::Print)
        } else {
            Err(NotAKeyword)
        }
    }
}

} // verus!
