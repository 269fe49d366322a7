//! The byte codec: what it means to write a value into a byte buffer and to
//! read one back from the front of a buffer, and the little-endian integer
//! layout that every multi-byte field uses.

use vstd::prelude::*;
use vstd::string::StringSliceAdditionalSpecFns;
use crate::value::text::{hex_text, pushHex, pushText};

verus! {

/// Why the front of a byte buffer could not be decoded.
#[derive(Debug, Clone, Copy, PartialEq, Eq, Structural)]
pub enum DecodeError {
    /// The buffer ended before an opcode, or inside a payload.
    UnexpectedEnd,
    /// The leading byte is neither a value tag nor an instruction opcode.
    UnknownOpcode(u8),
}

/// The message of a decoding error. An unknown opcode is named in
/// hexadecimal.
pub open spec fn decode_message(e: DecodeError) -> Seq<u8> {
    match e {
        DecodeError::UnexpectedEnd => "unexpected end of bytecode".spec_bytes(),
        DecodeError::UnknownOpcode(b) => "invalid instruction: ".spec_bytes() + hex_text(b),
    }
}

impl DecodeError {
    /// The message of the error.
    pub fn message(&self) -> (m: Vec<u8>)
        ensures
            m@ == decode_message(*self),
    {
        let mut m: Vec<u8> = Vec::new();
        match self {
            DecodeError::UnexpectedEnd => {
                pushText(&mut m, "unexpected end of bytecode");
            },
            DecodeError::UnknownOpcode(b) => {
                pushText(&mut m, "invalid instruction: ");
                pushHex(&mut m, *b);
            },
        }
        m
    }
}

/// Serialisation into the wire format.
pub trait ToBytes {
    /// The wire encoding of `self`.
    spec fn wire(&self) -> Seq<u8>;

    /// Produces the wire encoding of `self`.
    fn bytes(&self) -> (out: Vec<u8>)
        ensures
            out@ == self.wire(),
    ;
}

/// Deserialisation from the front of a byte buffer.
pub trait FromBytes: Sized + View {
    /// What the front of `bytes` decodes to, and how many bytes that takes.
    spec fn parse(bytes: Seq<u8>) -> Result<(Self::V, int), DecodeError>;

    /// Removes one encoded item from the front of `bytes` and returns it.
    /// When the front does not decode, the buffer is left as it was.
    fn fromBytes(bytes: &mut Vec<u8>) -> (r: Result<Self, DecodeError>)
        ensures
            match Self::parse(old(bytes)@) {
                Ok((v, n)) => {
                    &&& r is Ok
                    &&& r->Ok_0@ == v
                    &&& 0 < n <= old(bytes)@.len()
                    &&& final(bytes)@ == old(bytes)@.skip(n)
                },
                Err(e) => r is Err && r->Err_0 == e && final(bytes)@ == old(bytes)@,
            },
    ;
}

/// 256 to the power `n`.
pub open spec fn pow256(n: nat) -> nat
    decreases n,
{
    if n == 0 {
        1
    } else {
        256 * pow256((n - 1) as nat)
    }
}

/// The `n` low-order bytes of `x`, least significant first.
pub open spec fn le_bytes(x: nat, n: nat) -> Seq<u8>
    decreases n,
{
    if n == 0 {
        Seq::empty()
    } else {
        seq![(x % 256) as u8] + le_bytes(x / 256, (n - 1) as nat)
    }
}

/// The number that `s` spells, least significant byte first.
pub open spec fn le_value(s: Seq<u8>) -> nat
    decreases s.len(),
{
    if s.len() == 0 {
        0
    } else {
        s[0] as nat + 256 * le_value(s.drop_first())
    }
}

/// The powers of 256 that the codec uses.
pub proof fn lemma_pow256_values()
    ensures
        pow256(0) == 1,
        pow256(1) == 0x100,
        pow256(2) == 0x1_0000,
        pow256(4) == 0x1_0000_0000,
        pow256(8) == 0x1_0000_0000_0000_0000,
{
    reveal_with_fuel(pow256, 9);
}

/// `le_bytes` yields exactly `n` bytes.
pub proof fn lemma_le_bytes_len(x: nat, n: nat)
    ensures
        le_bytes(x, n).len() == n,
    decreases n,
{
    if n > 0 {
        lemma_le_bytes_len(x / 256, (n - 1) as nat);
    }
}

/// A sequence of `n` bytes spells a number below 256^n.
pub proof fn lemma_le_value_bound(s: Seq<u8>)
    ensures
        le_value(s) < pow256(s.len()),
    decreases s.len(),
{
    if s.len() > 0 {
        lemma_le_value_bound(s.drop_first());
    }
}

/// Reading back the `n` bytes of a number that fits in `n` bytes gives the number.
pub proof fn lemma_le_round_trip(x: nat, n: nat)
    requires
        x < pow256(n),
    ensures
        le_value(le_bytes(x, n)) == x,
    decreases n,
{
    if n > 0 {
        let rest = le_bytes(x / 256, (n - 1) as nat);
        let all = le_bytes(x, n);
        assert(all.drop_first() == rest);
        lemma_le_round_trip(x / 256, (n - 1) as nat);
    }
}

/// Appends the `n` low-order bytes of `x` to `out`, least significant first.
pub(crate) fn pushLe(out: &mut Vec<u8>, x: u64, n: usize)
    requires
        n <= 8,
    ensures
        final(out)@ == old(out)@ + le_bytes(x as nat, n as nat),
{
    let mut rest: u64 = x;
    let mut i: usize = 0;
    let ghost start = out@;
    while i < n
        invariant
            i <= n <= 8,
            out@ + le_bytes(rest as nat, (n - i) as nat) == start + le_bytes(x as nat, n as nat),
        decreases n - i,
    {
        let ghost before = out@;
        let low: u8 = (rest % 256) as u8;
        out.push(low);
        proof {
            let tail = le_bytes((rest / 256) as nat, (n - i - 1) as nat);
            assert(le_bytes(rest as nat, (n - i) as nat) == seq![low] + tail);
            assert(before.push(low) + tail == before + (seq![low] + tail));
        }
        rest = rest / 256;
        i += 1;
    }
}

/// Reads the number spelled by the `n` bytes of `bytes` that start at `pos`.
pub(crate) fn readLe(bytes: &[u8], pos: usize, n: usize) -> (x: u64)
    requires
        n <= 8,
        pos + n <= bytes.len(),
    ensures
        x as nat == le_value(bytes@.subrange(pos as int, pos + n)),
{
    let mut acc: u64 = 0;
    let mut i: usize = n;
    proof {
        lemma_pow256_values();
    }
    while i > 0
        invariant
            i <= n <= 8,
            pos + n <= bytes.len(),
            acc as nat == le_value(bytes@.subrange(pos + i, pos + n)),
            pow256(8) == 0x1_0000_0000_0000_0000,
        decreases i,
    {
        i -= 1;
        let b: u8 = bytes[pos + i];
        proof {
            let cur = bytes@.subrange(pos + i, pos + n);
            let tail = bytes@.subrange(pos + i + 1, pos + n);
            assert(cur.drop_first() == tail);
            assert(cur[0] == b);
            lemma_le_value_bound(cur);
            lemma_pow256_monotonic(cur.len(), 8);
        }
        acc = acc * 256 + b as u64;
    }
    acc
}

/// `pow256` grows with its argument.
pub proof fn lemma_pow256_monotonic(a: nat, b: nat)
    requires
        a <= b,
    ensures
        pow256(a) <= pow256(b),
        pow256(a) >= 1,
    decreases b,
{
    if a < b {
        lemma_pow256_monotonic(a, (b - 1) as nat);
    } else if a > 0 {
        lemma_pow256_monotonic((a - 1) as nat, (a - 1) as nat);
    }
}

/// Appends a copy of `bytes` to `out`.
pub fn pushAll(out: &mut Vec<u8>, bytes: &[u8])
    ensures
        final(out)@ == old(out)@ + bytes@,
{
    let mut i: usize = 0;
    while i < bytes.len()
        invariant
            i <= bytes.len(),
            out@ == old(out)@ + bytes@.subrange(0, i as int),
        decreases bytes.len() - i,
    {
        out.push(bytes[i]);
        i += 1;
    }
    assert(bytes@.subrange(0, bytes.len() as int) == bytes@);
}

/// A copy of `bytes`.
pub fn copyBytes(bytes: &Vec<u8>) -> (out: Vec<u8>)
    ensures
        out@ == bytes@,
{
    let mut out: Vec<u8> = Vec::new();
    pushAll(&mut out, bytes.as_slice());
    out
}

/// Whether `a` and `b` hold the same bytes.
pub fn sameBytes(a: &[u8], b: &[u8]) -> (r: bool)
    ensures
        r == (a@ == b@),
{
    if a.len() != b.len() {
        return false;
    }
    let mut i: usize = 0;
    while i < a.len()
        invariant
            i <= a.len() == b.len(),
            forall|k: int| 0 <= k < i ==> a@[k] == b@[k],
        decreases a.len() - i,
    {
        if a[i] != b[i] {
            return false;
        }
        i += 1;
    }
    assert(a@ =~= b@);
    true
}

} // verus!
