//! The value domain of the machine: what a value is, how it is rendered as
//! text, and how it is laid out in bytes.

use vstd::prelude::*;
use vstd::slice::slice_subrange;
use vstd::string::StringSliceAdditionalSpecFns;
use crate::bytes::{
    le_bytes, le_value, lemma_le_bytes_len, lemma_le_round_trip, lemma_le_value_bound,
    lemma_pow256_values, pushAll, readLe, DecodeError, FromBytes, ToBytes,
};
use crate::value::char::{wire_byte, Char};
use crate::value::number::{
    fromPattern32, fromPattern64, of_pattern32, of_pattern64, pattern32, pattern64, Float,
    Float32, Float64, Int, Int32, Int64,
};
use crate::value::string::String as NString;
use crate::value::text::{decimal_text, textBytes, utf8_text};

pub mod arith;
pub mod char;
pub mod convert;
pub mod number;
pub mod string;
pub mod text;
pub mod traits;

verus! {

// The tags of the values: 0x1_
pub const VALUE_NULL: u8 = 0x10;

pub const VALUE_TRUE: u8 = 0x11;

pub const VALUE_FALSE: u8 = 0x12;

pub const VALUE_INT32: u8 = 0x13;

pub const VALUE_INT64: u8 = 0x14;

pub const VALUE_FLOAT32: u8 = 0x15;

pub const VALUE_FLOAT64: u8 = 0x16;

pub const VALUE_CHAR: u8 = 0x17;

pub const VALUE_STR: u8 = 0x18;

/// A value of the machine. The two booleans are variants of their own.
/// A floating-point number is held as the bits of its IEEE-754 encoding.
#[derive(Debug, PartialEq)]
pub enum Value {
    Null,
    True,
    False,
    Int32(Int32),
    Int64(Int64),
    Float32(Float32),
    Float64(Float64),
    Char(Char),
    Str(NString),
}

/// The value type, under its second name.
pub type Value2 = Value;

/// The mathematical content of a [`Value`].
pub enum ValueView {
    Null,
    True,
    False,
    Int32(i32),
    Int64(i64),
    Float32(u32),
    Float64(u64),
    Char(char),
    Str(Seq<u8>),
}

impl View for Value {
    type V = ValueView;

    open spec fn view(&self) -> ValueView {
        match self {
            Value::Null => ValueView::Null,
            Value::True => ValueView::True,
            Value::False => ValueView::False,
            Value::Int32(v) => ValueView::Int32(v@),
            Value::Int64(v) => ValueView::Int64(v@),
            Value::Float32(v) => ValueView::Float32(v@),
            Value::Float64(v) => ValueView::Float64(v@),
            Value::Char(v) => ValueView::Char(v@),
            Value::Str(v) => ValueView::Str(v@),
        }
    }
}

impl Clone for Value {
    fn clone(&self) -> (r: Self)
        ensures
            r@ == self@,
    {
        match self {
            Value::Null => Value::Null,
            Value::True => Value::True,
            Value::False => Value::False,
            Value::Int32(v) => Value::Int32(Int::new(v.value())),
            Value::Int64(v) => Value::Int64(Int::new(v.value())),
            Value::Float32(v) => Value::Float32(Float::new(v.value())),
            Value::Float64(v) => Value::Float64(Float::new(v.value())),
            Value::Char(v) => Value::Char(Char::new(v.value())),
            Value::Str(v) => Value::Str(NString::new(v.value())),
        }
    }
}

/// The textual rendering of a value. The decimal form of a floating-point
/// number is the host's to choose, so for such a value the rendering names
/// the number and leaves its digits open.
#[derive(Debug, PartialEq)]
pub enum Text {
    /// These bytes.
    Plain(Vec<u8>),
    /// The host's decimal form of the binary32 number with these bits.
    Float32(u32),
    /// The host's decimal form of the binary64 number with these bits.
    Float64(u64),
}

/// The mathematical content of a [`Text`].
pub enum TextView {
    Plain(Seq<u8>),
    Float32(u32),
    Float64(u64),
}

impl View for Text {
    type V = TextView;

    open spec fn view(&self) -> TextView {
        match self {
            Text::Plain(t) => TextView::Plain(t@),
            Text::Float32(b) => TextView::Float32(*b),
            Text::Float64(b) => TextView::Float64(*b),
        }
    }
}

/// The contents of a text in parts.
pub open spec fn text_views(parts: Seq<Text>) -> Seq<TextView> {
    parts.map_values(|t: Text| t@)
}

/// The part of a text that is the bytes of `text`.
pub open spec fn plain(text: &str) -> TextView {
    TextView::Plain(text.spec_bytes())
}

impl Text {
    /// The part of a text that is the bytes of `text`.
    pub fn of(text: &str) -> (t: Text)
        ensures
            t@ == plain(text),
    {
        Text::Plain(textBytes(text))
    }
}

impl Clone for Text {
    fn clone(&self) -> (r: Self)
        ensures
            r@ == self@,
    {
        match self {
            Text::Plain(t) => {
                let mut copy: Vec<u8> = Vec::new();
                pushAll(&mut copy, t.as_slice());
                Text::Plain(copy)
            },
            Text::Float32(b) => Text::Float32(*b),
            Text::Float64(b) => Text::Float64(*b),
        }
    }
}

/// The bytes of `null`.
pub open spec fn null_text() -> Seq<u8> {
    "null".spec_bytes()
}

/// The bytes of `true`.
pub open spec fn true_text() -> Seq<u8> {
    "true".spec_bytes()
}

/// The bytes of `false`.
pub open spec fn false_text() -> Seq<u8> {
    "false".spec_bytes()
}

/// How a value is rendered: `null`, `true`, `false`, the decimal form of a
/// number, the character itself, the bytes of a string.
pub open spec fn rendering(v: ValueView) -> TextView {
    match v {
        ValueView::Null => TextView::Plain(null_text()),
        ValueView::True => TextView::Plain(true_text()),
        ValueView::False => TextView::Plain(false_text()),
        ValueView::Int32(i) => TextView::Plain(decimal_text(i as int)),
        ValueView::Int64(i) => TextView::Plain(decimal_text(i as int)),
        ValueView::Float32(b) => TextView::Float32(b),
        ValueView::Float64(b) => TextView::Float64(b),
        ValueView::Char(c) => TextView::Plain(utf8_text(c)),
        ValueView::Str(s) => TextView::Plain(s),
    }
}

/// The wire encoding of a value: its tag, then its payload with multi-byte
/// integers least significant byte first. A character is cut to its low
/// eight bits, and the length of a string to its low sixteen.
pub open spec fn value_wire(v: ValueView) -> Seq<u8> {
    match v {
        ValueView::Null => seq![VALUE_NULL],
        ValueView::True => seq![VALUE_TRUE],
        ValueView::False => seq![VALUE_FALSE],
        ValueView::Int32(i) => seq![VALUE_INT32] + le_bytes(pattern32(i), 4),
        ValueView::Int64(i) => seq![VALUE_INT64] + le_bytes(pattern64(i), 8),
        ValueView::Float32(b) => seq![VALUE_FLOAT32] + le_bytes(b as nat, 4),
        ValueView::Float64(b) => seq![VALUE_FLOAT64] + le_bytes(b as nat, 8),
        ValueView::Char(c) => seq![VALUE_CHAR, wire_byte(c)],
        ValueView::Str(s) => seq![VALUE_STR] + le_bytes(s.len(), 2) + s,
    }
}

/// Whether the wire encoding holds all of `v`: a character must fit one
/// byte, and the length of a string two.
pub open spec fn wire_exact(v: ValueView) -> bool {
    match v {
        ValueView::Char(c) => (c as u32) <= 0xFF,
        ValueView::Str(s) => s.len() <= 0xFFFF,
        _ => true,
    }
}

/// What the front of `s` decodes to as a value, and the number of bytes
/// that the value takes.
pub open spec fn parse_value(s: Seq<u8>) -> Result<(ValueView, int), DecodeError> {
    if s.len() == 0 {
        Err(DecodeError::UnexpectedEnd)
    } else if s[0] == VALUE_NULL {
        Ok((ValueView::Null, 1))
    } else if s[0] == VALUE_TRUE {
        Ok((ValueView::True, 1))
    } else if s[0] == VALUE_FALSE {
        Ok((ValueView::False, 1))
    } else if s[0] == VALUE_INT32 {
        if s.len() < 5 {
            Err(DecodeError::UnexpectedEnd)
        } else {
            Ok((ValueView::Int32(of_pattern32(le_value(s.subrange(1, 5)))), 5))
        }
    } else if s[0] == VALUE_INT64 {
        if s.len() < 9 {
            Err(DecodeError::UnexpectedEnd)
        } else {
            Ok((ValueView::Int64(of_pattern64(le_value(s.subrange(1, 9)))), 9))
        }
    } else if s[0] == VALUE_FLOAT32 {
        if s.len() < 5 {
            Err(DecodeError::UnexpectedEnd)
        } else {
            Ok((ValueView::Float32(le_value(s.subrange(1, 5)) as u32), 5))
        }
    } else if s[0] == VALUE_FLOAT64 {
        if s.len() < 9 {
            Err(DecodeError::UnexpectedEnd)
        } else {
            Ok((ValueView::Float64(le_value(s.subrange(1, 9)) as u64), 9))
        }
    } else if s[0] == VALUE_CHAR {
        if s.len() < 2 {
            Err(DecodeError::UnexpectedEnd)
        } else {
            Ok((ValueView::Char(s[1] as char), 2))
        }
    } else if s[0] == VALUE_STR {
        if s.len() < 3 {
            Err(DecodeError::UnexpectedEnd)
        } else {
            let n = le_value(s.subrange(1, 3)) as int;
            if s.len() < 3 + n {
                Err(DecodeError::UnexpectedEnd)
            } else {
                Ok((ValueView::Str(s.subrange(3, 3 + n)), 3 + n))
            }
        }
    } else {
        Err(DecodeError::UnknownOpcode(s[0]))
    }
}

/// Codec round trip: a value whose encoding holds all of it is read back
/// from the front of any buffer that starts with its encoding, and reading
/// it takes exactly the bytes of the encoding.
pub proof fn lemma_value_round_trip(v: ValueView, rest: Seq<u8>)
    requires
        wire_exact(v),
    ensures
        parse_value(value_wire(v) + rest) == Ok::<(ValueView, int), DecodeError>(
            (v, value_wire(v).len() as int),
        ),
{
    let w = value_wire(v);
    let s = w + rest;
    lemma_pow256_values();
    match v {
        ValueView::Int32(i) => {
            let p = le_bytes(pattern32(i), 4);
            lemma_le_bytes_len(pattern32(i), 4);
            lemma_le_round_trip(pattern32(i), 4);
            assert(s.subrange(1, 5) == p);
        },
        ValueView::Int64(i) => {
            let p = le_bytes(pattern64(i), 8);
            lemma_le_bytes_len(pattern64(i), 8);
            lemma_le_round_trip(pattern64(i), 8);
            assert(s.subrange(1, 9) == p);
        },
        ValueView::Float32(b) => {
            let p = le_bytes(b as nat, 4);
            lemma_le_bytes_len(b as nat, 4);
            lemma_le_round_trip(b as nat, 4);
            assert(s.subrange(1, 5) == p);
        },
        ValueView::Float64(b) => {
            let p = le_bytes(b as nat, 8);
            lemma_le_bytes_len(b as nat, 8);
            lemma_le_round_trip(b as nat, 8);
            assert(s.subrange(1, 9) == p);
        },
        ValueView::Char(c) => {
            assert(s[1] == wire_byte(c));
        },
        ValueView::Str(t) => {
            let p = le_bytes(t.len(), 2);
            lemma_le_bytes_len(t.len(), 2);
            lemma_le_round_trip(t.len(), 2);
            assert(s.subrange(1, 3) == p);
            assert(s.subrange(3, 3 + t.len() as int) == t);
        },
        _ => {},
    }
}

impl Value {
    /// Renders the value as text.
    pub fn to_string(&self) -> (text: Text)
        ensures
            text@ == rendering(self@),
    {
        match self {
            Value::Null => Text::Plain(textBytes("null")),
            Value::True => Text::Plain(textBytes("true")),
            Value::False => Text::Plain(textBytes("false")),
            Value::Int32(v) => Text::Plain(v.to_string()),
            Value::Int64(v) => Text::Plain(v.to_string()),
            Value::Float32(v) => Text::Float32(v.value()),
            Value::Float64(v) => Text::Float64(v.value()),
            Value::Char(v) => Text::Plain(v.to_string()),
            Value::Str(v) => Text::Plain(v.to_string()),
        }
    }

    /// Decodes the value at the front of `bytes`, and says how many bytes
    /// it takes.
    pub fn decode(bytes: &[u8]) -> (r: Result<(Value, usize), DecodeError>)
        ensures
            match parse_value(bytes@) {
                Ok((v, n)) => r is Ok && r->Ok_0.0@ == v && r->Ok_0.1 == n,
                Err(e) => r is Err && r->Err_0 == e,
            },
    {
        let len = bytes.len();
        if len == 0 {
            return Err(DecodeError::UnexpectedEnd);
        }
        let tag: u8 = bytes[0];
        proof {
            lemma_pow256_values();
        }
        if tag == VALUE_NULL {
            Ok((Value::Null, 1))
        } else if tag == VALUE_TRUE {
            Ok((Value::True, 1))
        } else if tag == VALUE_FALSE {
            Ok((Value::False, 1))
        } else if tag == VALUE_INT32 {
            if len < 5 {
                return Err(DecodeError::UnexpectedEnd);
            }
            proof {
                lemma_le_value_bound(bytes@.subrange(1, 5));
            }
            let p = readLe(bytes, 1, 4);
            Ok((Value::Int32(Int::new(fromPattern32(p as u32))), 5))
        } else if tag == VALUE_INT64 {
            if len < 9 {
                return Err(DecodeError::UnexpectedEnd);
            }
            let p = readLe(bytes, 1, 8);
            Ok((Value::Int64(Int::new(fromPattern64(p))), 9))
        } else if tag == VALUE_FLOAT32 {
            if len < 5 {
                return Err(DecodeError::UnexpectedEnd);
            }
            proof {
                lemma_le_value_bound(bytes@.subrange(1, 5));
            }
            let p = readLe(bytes, 1, 4);
            Ok((Value::Float32(Float::new(p as u32)), 5))
        } else if tag == VALUE_FLOAT64 {
            if len < 9 {
                return Err(DecodeError::UnexpectedEnd);
            }
            let p = readLe(bytes, 1, 8);
            Ok((Value::Float64(Float::new(p)), 9))
        } else if tag == VALUE_CHAR {
            if len < 2 {
                return Err(DecodeError::UnexpectedEnd);
            }
            Ok((Value::Char(Char::new(bytes[1] as char)), 2))
        } else if tag == VALUE_STR {
            if len < 3 {
                return Err(DecodeError::UnexpectedEnd);
            }
            proof {
                lemma_le_value_bound(bytes@.subrange(1, 3));
            }
            let n = readLe(bytes, 1, 2) as usize;
            if len - 3 < n {
                return Err(DecodeError::UnexpectedEnd);
            }
            let mut text: Vec<u8> = Vec::with_capacity(n);
            pushAll(&mut text, slice_subrange(bytes, 3, 3 + n));
            Ok((Value::Str(NString::new(text)), 3 + n))
        } else {
            Err(DecodeError::UnknownOpcode(tag))
        }
    }
}

impl ToBytes for Value {
    open spec fn wire(&self) -> Seq<u8> {
        value_wire(self@)
    }

    fn bytes(&self) -> (out: Vec<u8>) {
        match self {
            Value::Null => {
                let mut out: Vec<u8> = Vec::new();
                out.push(VALUE_NULL);
                out
            },
            Value::True => {
                let mut out: Vec<u8> = Vec::new();
                out.push(VALUE_TRUE);
                out
            },
            Value::False => {
                let mut out: Vec<u8> = Vec::new();
                out.push(VALUE_FALSE);
                out
            },
            Value::Int32(v) => v.bytes(),
            Value::Int64(v) => v.bytes(),
            Value::Float32(v) => v.bytes(),
            Value::Float64(v) => v.bytes(),
            Value::Char(v) => v.bytes(),
            Value::Str(v) => v.bytes(),
        }
    }
}

/// Removes the first `n` bytes of `bytes`.
pub(crate) fn dropFront(bytes: &mut Vec<u8>, n: usize)
    requires
        n <= old(bytes)@.len(),
    ensures
        final(bytes)@ == old(bytes)@.skip(n as int),
{
    let tail = bytes.split_off(n);
    *bytes = tail;
}

impl FromBytes for Value {
    open spec fn parse(bytes: Seq<u8>) -> Result<(ValueView, int), DecodeError> {
        parse_value(bytes)
    }

    fn fromBytes(bytes: &mut Vec<u8>) -> (r: Result<Self, DecodeError>) {
        match Value::decode(bytes.as_slice()) {
            Ok((value, n)) => {
                dropFront(bytes, n);
                Ok(value)
            },
            Err(e) => Err(e),
        }
    }
}

} // verus!
