//! Textual rendering of the plain pieces of a value, as bytes of UTF-8.

use vstd::prelude::*;
use vstd::string::StringSliceAdditionalSpecFns;

verus! {

/// Appends the bytes of `text` to `out`.
pub fn pushText(out: &mut Vec<u8>, text: &str)
    ensures
        final(out)@ == old(out)@ + text.spec_bytes(),
{
    let bytes = text.as_bytes();
    let mut i: usize = 0;
    while i < bytes.len()
        invariant
            i <= bytes.len(),
            bytes@ == text.spec_bytes(),
            out@ == old(out)@ + bytes@.subrange(0, i as int),
        decreases bytes.len() - i,
    {
        out.push(bytes[i]);
        i += 1;
    }
    assert(bytes@.subrange(0, bytes.len() as int) == bytes@);
}

/// The bytes of `text`.
pub fn textBytes(text: &str) -> (out: Vec<u8>)
    ensures
        out@ == text.spec_bytes(),
{
    let mut out: Vec<u8> = Vec::new();
    pushText(&mut out, text);
    out
}

/// The decimal digits of `n`, most significant first, without leading zeros.
pub open spec fn digits_text(n: nat) -> Seq<u8>
    decreases n,
{
    if n < 10 {
        seq![(48 + n) as u8]
    } else {
        digits_text(n / 10).push((48 + n % 10) as u8)
    }
}

/// The decimal form of `i`: a minus sign if it is negative, then its digits.
pub open spec fn decimal_text(i: int) -> Seq<u8> {
    if i < 0 {
        seq![45u8] + digits_text((-i) as nat)
    } else {
        digits_text(i as nat)
    }
}

/// The UTF-8 encoding of the scalar value `c`.
pub open spec fn utf8_text(c: char) -> Seq<u8> {
    let n = c as u32 as nat;
    if n < 0x80 {
        seq![n as u8]
    } else if n < 0x800 {
        seq![(0xC0 + n / 64) as u8, (0x80 + n % 64) as u8]
    } else if n < 0x1_0000 {
        seq![(0xE0 + n / 4096) as u8, (0x80 + (n / 64) % 64) as u8, (0x80 + n % 64) as u8]
    } else {
        seq![
            (0xF0 + n / 262144) as u8,
            (0x80 + (n / 4096) % 64) as u8,
            (0x80 + (n / 64) % 64) as u8,
            (0x80 + n % 64) as u8,
        ]
    }
}

/// Appends the decimal digits of `n` to `out`.
pub fn pushDigits(out: &mut Vec<u8>, n: u64)
    ensures
        final(out)@ == old(out)@ + digits_text(n as nat),
    decreases n,
{
    if n >= 10 {
        pushDigits(out, n / 10);
    }
    let digit: u8 = (48 + n % 10) as u8;
    out.push(digit);
    proof {
        if n >= 10 {
            assert(old(out)@ + digits_text((n / 10) as nat).push(digit) == (old(out)@
                + digits_text((n / 10) as nat)).push(digit));
        } else {
            assert(old(out)@ + seq![digit] == old(out)@.push(digit));
        }
    }
}

/// Renders `v` in decimal.
pub fn decimal(v: i64) -> (text: Vec<u8>)
    ensures
        text@ == decimal_text(v as int),
{
    let mut out: Vec<u8> = Vec::new();
    if v < 0 {
        out.push(45);
        let magnitude: u64 = ((-(v + 1)) as u64) + 1;
        pushDigits(&mut out, magnitude);
    } else {
        pushDigits(&mut out, v as u64);
        assert(out@ == digits_text(v as nat));
    }
    out
}

/// Encodes `c` in UTF-8.
pub fn utf8(c: char) -> (text: Vec<u8>)
    ensures
        text@ == utf8_text(c),
{
    let n: u32 = c as u32;
    let mut out: Vec<u8> = Vec::new();
    if n < 0x80 {
        out.push(n as u8);
    } else if n < 0x800 {
        out.push((0xC0 + n / 64) as u8);
        out.push((0x80 + n % 64) as u8);
    } else if n < 0x1_0000 {
        out.push((0xE0 + n / 4096) as u8);
        out.push((0x80 + (n / 64) % 64) as u8);
        out.push((0x80 + n % 64) as u8);
    } else {
        out.push((0xF0 + n / 262144) as u8);
        out.push((0x80 + (n / 4096) % 64) as u8);
        out.push((0x80 + (n / 64) % 64) as u8);
        out.push((0x80 + n % 64) as u8);
    }
    assert(out@ == utf8_text(c));
    out
}

/// The lower-case hexadecimal digit of `d`.
pub open spec fn hex_digit(d: nat) -> u8
    recommends
        d < 16,
{
    if d < 10 {
        (48 + d) as u8
    } else {
        (87 + d) as u8
    }
}

/// The byte `b` in hexadecimal, without a leading zero.
pub open spec fn hex_text(b: u8) -> Seq<u8> {
    if b < 16 {
        seq![hex_digit(b as nat)]
    } else {
        seq![hex_digit((b / 16) as nat), hex_digit((b % 16) as nat)]
    }
}

/// Appends the byte `b` in hexadecimal to `out`.
pub fn pushHex(out: &mut Vec<u8>, b: u8)
    ensures
        final(out)@ == old(out)@ + hex_text(b),
{
    let high: u8 = b / 16;
    let low: u8 = b % 16;
    if high > 0 {
        out.push(if high < 10 { 48 + high } else { 87 + high });
    }
    out.push(if low < 10 { 48 + low } else { 87 + low });
    assert(out@ == old(out)@ + hex_text(b));
}

/// Appends the UTF-8 encoding of the character with the scalar value `b`
/// to `out`.
pub fn pushChar(out: &mut Vec<u8>, b: u8)
    ensures
        final(out)@ == old(out)@ + utf8_text(b as char),
{
    let encoded = utf8(b as char);
    let mut i: usize = 0;
    while i < encoded.len()
        invariant
            i <= encoded.len(),
            out@ == old(out)@ + encoded@.subrange(0, i as int),
        decreases encoded.len() - i,
    {
        out.push(encoded[i]);
        i += 1;
    }
    assert(encoded@.subrange(0, encoded.len() as int) == encoded@);
}

} // verus!
