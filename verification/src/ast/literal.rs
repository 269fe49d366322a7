//! Literals of the syntax tree.

use vstd::prelude::*;
use vstd::std_specs::convert::FromSpecImpl;
use crate::bytes::ToBytes;
use crate::value::{value_wire, Value, ValueView};

verus! {

pub type LiteralValue = Value;

/// A literal: a value written in the source text.
#[derive(Debug, PartialEq)]
pub struct Literal {
    value: LiteralValue,
}

impl View for Literal {
    type V = ValueView;

    closed spec fn view(&self) -> ValueView {
        self.value@
    }
}

impl FromSpecImpl<LiteralValue> for Literal {
    open spec fn obeys_from_spec() -> bool {
        true
    }

    closed spec fn from_spec(value: LiteralValue) -> Self {
        Literal { value }
    }
}

impl From<LiteralValue> for Literal {
    fn from(value: LiteralValue) -> (r: Self)
        ensures
            r@ == value@,
    {
        Self { value }
    }
}

impl Literal {
    pub fn new(value: LiteralValue) -> (r: Self)
        ensures
            r@ == value@,
    {
        Self { value }
    }

    pub fn value(&self) -> (v: &LiteralValue)
        ensures
            v@ == self@,
    {
        &self.value
    }
}

impl ToBytes for Literal {
    open spec fn wire(&self) -> Seq<u8> {
        value_wire(self@)
    }

    fn bytes(&self) -> (out: Vec<u8>) {
        self.value.bytes()
    }
}

} // verus!
