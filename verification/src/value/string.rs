//! The string value: a run of bytes.

use vstd::prelude::*;
use vstd::std_specs::convert::FromSpecImpl;
use crate::bytes::{le_bytes, pushAll, pushLe, ToBytes};
use crate::value::VALUE_STR;

verus! {

/// A string. It holds raw bytes, one for each character of the source text.
#[derive(Debug, PartialEq)]
pub struct String {
    value: Vec<u8>,
}

impl View for String {
    type V = Seq<u8>;

    closed spec fn view(&self) -> Seq<u8> {
        self.value@
    }
}

impl Clone for String {
    fn clone(&self) -> (r: Self)
        ensures
            r@ == self@,
    {
        Self { value: self.value() }
    }
}

impl FromSpecImpl<Vec<u8>> for String {
    open spec fn obeys_from_spec() -> bool {
        true
    }

    open spec fn from_spec(value: Vec<u8>) -> Self {
        String::spec_new(value)
    }
}

impl From<Vec<u8>> for String {
    fn from(value: Vec<u8>) -> (r: Self)
        ensures
            r@ == value@,
    {
        Self { value }
    }
}

impl String {
    /// The string that holds `value`.
    pub closed spec fn spec_new(value: Vec<u8>) -> Self {
        String { value }
    }

    pub fn new(value: Vec<u8>) -> (r: Self)
        ensures
            r@ == value@,
            r == Self::spec_new(value),
    {
        Self { value }
    }

    /// A copy of the bytes.
    pub fn value(&self) -> (v: Vec<u8>)
        ensures
            v@ == self@,
    {
        let mut out: Vec<u8> = Vec::new();
        pushAll(&mut out, self.value.as_slice());
        out
    }

    pub fn len(&self) -> (n: usize)
        ensures
            n == self@.len(),
    {
        self.value.len()
    }

    /// The bytes as they stand.
    pub fn to_string(&self) -> (text: Vec<u8>)
        ensures
            text@ == self@,
    {
        self.value()
    }

    /// The string followed by `text`.
    pub fn add(self, text: &[u8]) -> (r: Self)
        ensures
            r@ == self@ + text@,
    {
        let mut value = self.value;
        pushAll(&mut value, text);
        Self { value }
    }
}

impl ToBytes for String {
    /// The tag, the length in two bytes, then the bytes. A length of 65536 or
    /// more does not fit the two bytes: only its low sixteen bits are written.
    open spec fn wire(&self) -> Seq<u8> {
        seq![VALUE_STR] + le_bytes(self@.len(), 2) + self@
    }

    fn bytes(&self) -> (out: Vec<u8>) {
        let mut out: Vec<u8> = Vec::new();
        out.push(VALUE_STR);
        pushLe(&mut out, self.value.len() as u64, 2);
        pushAll(&mut out, self.value.as_slice());
        out
    }
}

} // verus!
