//! Values from plain data and from what tokens carry.

use vstd::prelude::*;
use vstd::std_specs::convert::FromSpecImpl;
use crate::token::{TokenValue, TokenValueView};
use crate::value::char::Char;
use crate::value::number::{Float, Float32, Float64, Int, Int32, Int64};
use crate::value::string::String as NString;
use crate::value::{Value, ValueView};

verus! {

impl FromSpecImpl<bool> for Value {
    open spec fn obeys_from_spec() -> bool {
        true
    }

    open spec fn from_spec(b: bool) -> Self {
        if b {
            Value::True
        } else {
            Value::False
        }
    }
}

impl From<bool> for Value {
    fn from(b: bool) -> (r: Self) {
        if b {
            Value::True
        } else {
            Value::False
        }
    }
}

impl FromSpecImpl<i32> for Value {
    open spec fn obeys_from_spec() -> bool {
        true
    }

    open spec fn from_spec(i: i32) -> Self {
        Value::Int32(Int::spec_new(i))
    }
}

impl From<i32> for Value {
    fn from(i: i32) -> (r: Self)
        ensures
            r@ == ValueView::Int32(i),
    {
        Value::Int32(Int::new(i))
    }
}

impl FromSpecImpl<i64> for Value {
    open spec fn obeys_from_spec() -> bool {
        true
    }

    open spec fn from_spec(i: i64) -> Self {
        Value::Int64(Int::spec_new(i))
    }
}

impl From<i64> for Value {
    fn from(i: i64) -> (r: Self)
        ensures
            r@ == ValueView::Int64(i),
    {
        Value::Int64(Int::new(i))
    }
}

impl FromSpecImpl<isize> for Value {
    open spec fn obeys_from_spec() -> bool {
        true
    }

    open spec fn from_spec(i: isize) -> Self {
        Value::Int64(Int::spec_new(i as i64))
    }
}

impl From<isize> for Value {
    fn from(i: isize) -> (r: Self)
        ensures
            r@ == ValueView::Int64(i as i64),
    {
        Value::Int64(Int::new(i as i64))
    }
}

impl FromSpecImpl<char> for Value {
    open spec fn obeys_from_spec() -> bool {
        true
    }

    open spec fn from_spec(c: char) -> Self {
        Value::Char(Char::spec_new(c))
    }
}

impl From<char> for Value {
    fn from(c: char) -> (r: Self)
        ensures
            r@ == ValueView::Char(c),
    {
        Value::Char(Char::new(c))
    }
}

impl FromSpecImpl<Vec<u8>> for Value {
    open spec fn obeys_from_spec() -> bool {
        true
    }

    open spec fn from_spec(text: Vec<u8>) -> Self {
        Value::Str(NString::spec_new(text))
    }
}

impl From<Vec<u8>> for Value {
    fn from(text: Vec<u8>) -> (r: Self)
        ensures
            r@ == ValueView::Str(text@),
    {
        Value::Str(NString::new(text))
    }
}

impl FromSpecImpl<Int32> for Value {
    open spec fn obeys_from_spec() -> bool {
        true
    }

    open spec fn from_spec(i: Int32) -> Self {
        Value::Int32(i)
    }
}

impl From<Int32> for Value {
    fn from(i: Int32) -> (r: Self) {
        Value::Int32(i)
    }
}

impl FromSpecImpl<Int64> for Value {
    open spec fn obeys_from_spec() -> bool {
        true
    }

    open spec fn from_spec(i: Int64) -> Self {
        Value::Int64(i)
    }
}

impl From<Int64> for Value {
    fn from(i: Int64) -> (r: Self) {
        Value::Int64(i)
    }
}

impl FromSpecImpl<Float32> for Value {
    open spec fn obeys_from_spec() -> bool {
        true
    }

    open spec fn from_spec(f: Float32) -> Self {
        Value::Float32(f)
    }
}

impl From<Float32> for Value {
    fn from(f: Float32) -> (r: Self) {
        Value::Float32(f)
    }
}

impl FromSpecImpl<Float64> for Value {
    open spec fn obeys_from_spec() -> bool {
        true
    }

    open spec fn from_spec(f: Float64) -> Self {
        Value::Float64(f)
    }
}

impl From<Float64> for Value {
    fn from(f: Float64) -> (r: Self) {
        Value::Float64(f)
    }
}

/// Work for the host: read `text`, a floating-point literal, as a binary64
/// number.
#[derive(Debug, PartialEq)]
pub struct FloatParse {
    pub text: Vec<u8>,
}

impl FloatParse {
    /// The value that the work gives when the host reads the literal as the
    /// number with the bit pattern `bits`.
    pub fn complete(&self, bits: u64) -> (v: Value)
        ensures
            v@ == ValueView::Float64(bits),
    {
        Value::Float64(Float::new(bits))
    }
}

/// The value that a token stands for.
#[derive(Debug, PartialEq)]
pub enum Conversion {
    /// This value.
    Done(Value),
    /// The binary64 number that this work gives.
    Parse(FloatParse),
}

/// The mathematical content of a [`Conversion`].
pub enum ConversionView {
    Done(ValueView),
    Parse(Seq<u8>),
}

impl View for Conversion {
    type V = ConversionView;

    open spec fn view(&self) -> ConversionView {
        match self {
            Conversion::Done(v) => ConversionView::Done(v@),
            Conversion::Parse(w) => ConversionView::Parse(w.text@),
        }
    }
}

/// What a token carries that stands for no value.
#[derive(Debug, PartialEq)]
pub struct NotAValue(pub TokenValue);

/// The value that what a token carries stands for: a literal stands for
/// its value, an integer as one of 64 bits, a floating-point literal as
/// the binary64 number that it spells; nothing else stands for a value.
pub open spec fn value_of_token(value: TokenValueView) -> Option<ConversionView> {
    match value {
        TokenValueView::Null => Some(ConversionView::Done(ValueView::Null)),
        TokenValueView::True => Some(ConversionView::Done(ValueView::True)),
        TokenValueView::False => Some(ConversionView::Done(ValueView::False)),
        TokenValueView::Int(v) => Some(ConversionView::Done(ValueView::Int64(v as i64))),
        TokenValueView::Float(text) => Some(ConversionView::Parse(text)),
        TokenValueView::Char(c) => Some(ConversionView::Done(ValueView::Char(c))),
        TokenValueView::Str(text) => Some(ConversionView::Done(ValueView::Str(text))),
        _ => None,
    }
}

impl Value {
    /// The value that what a token carries stands for.
    pub fn try_from(value: TokenValue) -> (r: Result<Conversion, NotAValue>)
        ensures
            match value_of_token(value@) {
                Some(c) => r is Ok && r->Ok_0@ == c,
                None => r is Err && r->Err_0.0@ == value@,
            },
    {
        match value {
            TokenValue::Null => Ok(Conversion::Done(Value::Null)),
            TokenValue::True => Ok(Conversion::Done(Value::True)),
            TokenValue::False => Ok(Conversion::Done(Value::False)),
            TokenValue::Int(v) => Ok(Conversion::Done(Value::Int64(Int::new(v as i64)))),
            TokenValue::Float(text) => Ok(Conversion::Parse(FloatParse { text })),
            TokenValue::Char(c) => Ok(Conversion::Done(Value::Char(Char::new(c)))),
            TokenValue::Str(text) => Ok(Conversion::Done(Value::Str(NString::new(text)))),
            other => Err(NotAValue(other)),
        }
    }
}

} // verus!
