//! The character value.

use vstd::prelude::*;
use vstd::std_specs::convert::FromSpecImpl;
use crate::bytes::ToBytes;
use crate::value::text::{utf8, utf8_text};
use crate::value::VALUE_CHAR;

verus! {

/// A character: one Unicode scalar value.
#[derive(Debug, Clone, Copy, PartialEq)]
pub struct Char {
    value: char,
}

impl View for Char {
    type V = char;

    closed spec fn view(&self) -> char {
        self.value
    }
}

/// The one byte that stands for `c` on the wire: its scalar value, cut to
/// the low eight bits.
pub open spec fn wire_byte(c: char) -> u8 {
    ((c as u32) % 256) as u8
}

impl FromSpecImpl<char> for Char {
    open spec fn obeys_from_spec() -> bool {
        true
    }

    open spec fn from_spec(value: char) -> Self {
        Char::spec_new(value)
    }
}

impl From<char> for Char {
    fn from(value: char) -> (r: Self)
        ensures
            r@ == value,
    {
        Self { value }
    }
}

impl FromSpecImpl<u8> for Char {
    open spec fn obeys_from_spec() -> bool {
        true
    }

    open spec fn from_spec(value: u8) -> Self {
        Char::spec_new(value as char)
    }
}

impl From<u8> for Char {
    /// The character whose scalar value is the byte.
    fn from(value: u8) -> (r: Self)
        ensures
            r@ == value as char,
    {
        Self { value: value as char }
    }
}

impl Char {
    /// The character `value`.
    pub closed spec fn spec_new(value: char) -> Self {
        Char { value }
    }

    pub fn new(value: char) -> (r: Self)
        ensures
            r@ == value,
            r == Self::spec_new(value),
    {
        Self { value }
    }

    pub fn value(&self) -> (c: char)
        ensures
            c == self@,
    {
        self.value
    }

    /// The character itself, as text.
    pub fn to_string(&self) -> (text: Vec<u8>)
        ensures
            text@ == utf8_text(self@),
    {
        utf8(self.value)
    }
}

impl ToBytes for Char {
    open spec fn wire(&self) -> Seq<u8> {
        seq![VALUE_CHAR, wire_byte(self@)]
    }

    fn bytes(&self) -> (out: Vec<u8>) {
        let mut out: Vec<u8> = Vec::with_capacity(2);
        out.push(VALUE_CHAR);
        out.push(((self.value as u32) % 256) as u8);
        assert(out@ == seq![VALUE_CHAR, wire_byte(self@)]);
        out
    }
}

} // verus!
