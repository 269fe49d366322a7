//! The instruction set and its byte encoding.

use vstd::prelude::*;
use vstd::slice::slice_subrange;
use crate::bytes::{DecodeError, FromBytes, ToBytes};
use crate::bytes::pushAll;
use crate::value::{
    dropFront, lemma_value_round_trip, parse_value, value_wire, wire_exact, Value, ValueView,
};
use crate::ValueType;

verus! {

// The opcodes of the stack instructions: 0x0_
pub const INSTR_HALT: u8 = 0x00;

pub const INSTR_PUSH: u8 = 0x01;

pub const INSTR_POP: u8 = 0x02;

// The opcodes of the arithmetic instructions: 0x2_
pub const INSTR_ADD: u8 = 0x20;

pub const INSTR_SUB: u8 = 0x21;

pub const INSTR_MUL: u8 = 0x22;

pub const INSTR_DIV: u8 = 0x23;

// The opcodes of the output instructions: 0x3_
pub const INSTR_PRINT: u8 = 0x30;

/// A program in its byte encoding.
pub type Instructions = Vec<u8>;

/// One instruction of the machine.
#[derive(Debug, PartialEq)]
pub enum Instruction {
    Halt,
    Push(ValueType),
    Pop,
    Add,
    Sub,
    Mul,
    Div,
    Print,
}

/// The mathematical content of an [`Instruction`].
pub enum InstructionView {
    Halt,
    Push(ValueView),
    Pop,
    Add,
    Sub,
    Mul,
    Div,
    Print,
}

impl View for Instruction {
    type V = InstructionView;

    open spec fn view(&self) -> InstructionView {
        match self {
            Instruction::Halt => InstructionView::Halt,
            Instruction::Push(v) => InstructionView::Push(v@),
            Instruction::Pop => InstructionView::Pop,
            Instruction::Add => InstructionView::Add,
            Instruction::Sub => InstructionView::Sub,
            Instruction::Mul => InstructionView::Mul,
            Instruction::Div => InstructionView::Div,
            Instruction::Print => InstructionView::Print,
        }
    }
}

impl Clone for Instruction {
    fn clone(&self) -> (r: Self)
        ensures
            r@ == self@,
    {
        match self {
            Instruction::Halt => Instruction::Halt,
            Instruction::Push(v) => Instruction::Push(v.clone()),
            Instruction::Pop => Instruction::Pop,
            Instruction::Add => Instruction::Add,
            Instruction::Sub => Instruction::Sub,
            Instruction::Mul => Instruction::Mul,
            Instruction::Div => Instruction::Div,
            Instruction::Print => Instruction::Print,
        }
    }
}

/// The contents of a sequence of instructions.
pub open spec fn views(xs: Seq<Instruction>) -> Seq<InstructionView> {
    xs.map_values(|i: Instruction| i@)
}

/// The encoding of one instruction: its opcode and, for a push, the
/// encoding of the value.
pub open spec fn instr_wire(i: InstructionView) -> Seq<u8> {
    match i {
        InstructionView::Halt => seq![INSTR_HALT],
        InstructionView::Push(v) => seq![INSTR_PUSH] + value_wire(v),
        InstructionView::Pop => seq![INSTR_POP],
        InstructionView::Add => seq![INSTR_ADD],
        InstructionView::Sub => seq![INSTR_SUB],
        InstructionView::Mul => seq![INSTR_MUL],
        InstructionView::Div => seq![INSTR_DIV],
        InstructionView::Print => seq![INSTR_PRINT],
    }
}

/// Whether the encoding holds all of the instruction.
pub open spec fn instr_exact(i: InstructionView) -> bool {
    i matches InstructionView::Push(v) ==> wire_exact(v)
}

/// What the front of `s` decodes to as an instruction, and the number of
/// bytes that the instruction takes.
pub open spec fn parse_instr(s: Seq<u8>) -> Result<(InstructionView, int), DecodeError> {
    if s.len() == 0 {
        Err(DecodeError::UnexpectedEnd)
    } else if s[0] == INSTR_HALT {
        Ok((InstructionView::Halt, 1))
    } else if s[0] == INSTR_PUSH {
        match parse_value(s.skip(1)) {
            Ok((v, n)) => Ok((InstructionView::Push(v), n + 1)),
            Err(e) => Err(e),
        }
    } else if s[0] == INSTR_POP {
        Ok((InstructionView::Pop, 1))
    } else if s[0] == INSTR_ADD {
        Ok((InstructionView::Add, 1))
    } else if s[0] == INSTR_SUB {
        Ok((InstructionView::Sub, 1))
    } else if s[0] == INSTR_MUL {
        Ok((InstructionView::Mul, 1))
    } else if s[0] == INSTR_DIV {
        Ok((InstructionView::Div, 1))
    } else if s[0] == INSTR_PRINT {
        Ok((InstructionView::Print, 1))
    } else {
        Err(DecodeError::UnknownOpcode(s[0]))
    }
}

/// The encoding of a sequence of instructions: their encodings, one after
/// the other.
pub open spec fn stream_wire(xs: Seq<InstructionView>) -> Seq<u8>
    decreases xs.len(),
{
    if xs.len() == 0 {
        Seq::empty()
    } else {
        stream_wire(xs.drop_last()) + instr_wire(xs.last())
    }
}

/// What `s` decodes to when it is read as instructions from its first byte
/// to its last.
pub open spec fn parse_stream(s: Seq<u8>) -> Result<Seq<InstructionView>, DecodeError>
    decreases s.len(),
{
    if s.len() == 0 {
        Ok(Seq::empty())
    } else {
        match parse_instr(s) {
            Ok((i, n)) => {
                if 0 < n <= s.len() {
                    match parse_stream(s.skip(n)) {
                        Ok(rest) => Ok(seq![i] + rest),
                        Err(e) => Err(e),
                    }
                } else {
                    Err(DecodeError::UnexpectedEnd)
                }
            },
            Err(e) => Err(e),
        }
    }
}

/// Codec round trip for one instruction: it is read back from the front of
/// any buffer that starts with its encoding, and reading it takes exactly
/// the bytes of the encoding.
pub proof fn lemma_instr_round_trip(i: InstructionView, rest: Seq<u8>)
    requires
        instr_exact(i),
    ensures
        parse_instr(instr_wire(i) + rest) == Ok::<(InstructionView, int), DecodeError>(
            (i, instr_wire(i).len() as int),
        ),
        instr_wire(i).len() > 0,
{
    let s = instr_wire(i) + rest;
    match i {
        InstructionView::Push(v) => {
            lemma_value_round_trip(v, rest);
            assert(s.skip(1) == value_wire(v) + rest);
        },
        _ => {},
    }
}

/// The encoding of a sequence that starts with `x` is the encoding of `x`
/// followed by that of the others.
pub proof fn lemma_stream_wire_cons(x: InstructionView, xs: Seq<InstructionView>)
    ensures
        stream_wire(seq![x] + xs) == instr_wire(x) + stream_wire(xs),
    decreases xs.len(),
{
    let all = seq![x] + xs;
    if xs.len() == 0 {
        assert(all.drop_last() == Seq::<InstructionView>::empty());
        assert(stream_wire(all.drop_last()) == Seq::<u8>::empty());
        assert(stream_wire(all) == Seq::<u8>::empty() + instr_wire(x));
    } else {
        lemma_stream_wire_cons(x, xs.drop_last());
        assert(all.drop_last() == seq![x] + xs.drop_last());
        assert(all.last() == xs.last());
        assert(stream_wire(all) == (instr_wire(x) + stream_wire(xs.drop_last())) + instr_wire(
            xs.last(),
        ));
    }
}

/// Instruction-stream round trip: decoding the concatenation of the
/// encodings of a sequence of instructions reproduces the sequence.
pub proof fn lemma_stream_round_trip(xs: Seq<InstructionView>)
    requires
        forall|k: int| 0 <= k < xs.len() ==> instr_exact(#[trigger] xs[k]),
    ensures
        parse_stream(stream_wire(xs)) == Ok::<Seq<InstructionView>, DecodeError>(xs),
    decreases xs.len(),
{
    if xs.len() == 0 {
        assert(xs == Seq::<InstructionView>::empty());
    } else {
        let x = xs[0];
        let tail = xs.drop_first();
        assert(xs == seq![x] + tail);
        lemma_stream_wire_cons(x, tail);
        lemma_instr_round_trip(x, stream_wire(tail));
        let s = stream_wire(xs);
        let n = instr_wire(x).len() as int;
        assert(s.skip(n) == stream_wire(tail));
        assert forall|k: int| 0 <= k < tail.len() implies instr_exact(#[trigger] tail[k]) by {
            assert(tail[k] == xs[k + 1]);
        }
        lemma_stream_round_trip(tail);
        assert(s == instr_wire(x) + stream_wire(tail));
        assert(parse_instr(s) == Ok::<(InstructionView, int), DecodeError>((x, n)));
        assert(parse_stream(s.skip(n)) == Ok::<Seq<InstructionView>, DecodeError>(tail));
    }
}

impl Instruction {
    /// Decodes the instruction at the front of `bytes`, and says how many
    /// bytes it takes.
    pub fn decode(bytes: &[u8]) -> (r: Result<(Instruction, usize), DecodeError>)
        ensures
            match parse_instr(bytes@) {
                Ok((i, n)) => r is Ok && r->Ok_0.0@ == i && r->Ok_0.1 == n,
                Err(e) => r is Err && r->Err_0 == e,
            },
    {
        let len = bytes.len();
        if len == 0 {
            return Err(DecodeError::UnexpectedEnd);
        }
        let opcode: u8 = bytes[0];
        if opcode == INSTR_HALT {
            Ok((Instruction::Halt, 1))
        } else if opcode == INSTR_PUSH {
            assert(bytes@.subrange(1, len as int) == bytes@.skip(1));
            match Value::decode(slice_subrange(bytes, 1, len)) {
                Ok((value, n)) => Ok((Instruction::Push(value), n + 1)),
                Err(e) => Err(e),
            }
        } else if opcode == INSTR_POP {
            Ok((Instruction::Pop, 1))
        } else if opcode == INSTR_ADD {
            Ok((Instruction::Add, 1))
        } else if opcode == INSTR_SUB {
            Ok((Instruction::Sub, 1))
        } else if opcode == INSTR_MUL {
            Ok((Instruction::Mul, 1))
        } else if opcode == INSTR_DIV {
            Ok((Instruction::Div, 1))
        } else if opcode == INSTR_PRINT {
            Ok((Instruction::Print, 1))
        } else {
            Err(DecodeError::UnknownOpcode(opcode))
        }
    }

    /// Encodes the instructions one after the other.
    pub fn encodeAll(instrs: &Vec<Instruction>) -> (out: Instructions)
        ensures
            out@ == stream_wire(views(instrs@)),
    {
        let mut out: Vec<u8> = Vec::new();
        let mut i: usize = 0;
        while i < instrs.len()
            invariant
                i <= instrs.len(),
                out@ == stream_wire(views(instrs@.subrange(0, i as int))),
            decreases instrs.len() - i,
        {
            let part = instrs[i].bytes();
            proof {
                let next = views(instrs@.subrange(0, i + 1));
                assert(next.drop_last() == views(instrs@.subrange(0, i as int)));
                assert(next.last() == instrs@[i as int]@);
            }
            pushAll(&mut out, part.as_slice());
            i += 1;
        }
        assert(instrs@.subrange(0, instrs.len() as int) == instrs@);
        out
    }

    /// Decodes `bytes` from its first byte to its last.
    pub fn decodeAll(bytes: &[u8]) -> (r: Result<Vec<Instruction>, DecodeError>)
        ensures
            match parse_stream(bytes@) {
                Ok(xs) => r is Ok && views(r->Ok_0@) == xs,
                Err(e) => r is Err && r->Err_0 == e,
            },
    {
        let mut out: Vec<Instruction> = Vec::new();
        let mut pos: usize = 0;
        let len = bytes.len();
        assert(bytes@.skip(0) == bytes@);
        while pos < len
            invariant
                pos <= len == bytes.len(),
                parse_stream(bytes@) == match parse_stream(bytes@.skip(pos as int)) {
                    Ok(rest) => Ok::<Seq<InstructionView>, DecodeError>(views(out@) + rest),
                    Err(e) => Err(e),
                },
            decreases len - pos,
        {
            let ghost here = bytes@.skip(pos as int);
            assert(bytes@.subrange(pos as int, len as int) == here);
            match Instruction::decode(slice_subrange(bytes, pos, len)) {
                Ok((instr, n)) => {
                    proof {
                        assert(here.skip(n as int) == bytes@.skip(pos + n));
                        let ghost rest = parse_stream(here.skip(n as int));
                        if rest is Ok {
                            assert(views(out@.push(instr)) + rest->Ok_0 == views(out@) + (
                            seq![instr@] + rest->Ok_0));
                        }
                    }
                    out.push(instr);
                    pos += n;
                },
                Err(e) => {
                    return Err(e);
                },
            }
        }
        assert(views(out@) + Seq::<InstructionView>::empty() == views(out@));
        Ok(out)
    }
}

impl ToBytes for Instruction {
    open spec fn wire(&self) -> Seq<u8> {
        instr_wire(self@)
    }

    fn bytes(&self) -> (out: Vec<u8>) {
        let mut out: Vec<u8> = Vec::new();
        match self {
            Instruction::Halt => out.push(INSTR_HALT),
            Instruction::Push(v) => {
                out.push(INSTR_PUSH);
                let payload = v.bytes();
                pushAll(&mut out, payload.as_slice());
            },
            Instruction::Pop => out.push(INSTR_POP),
            Instruction::Add => out.push(INSTR_ADD),
            Instruction::Sub => out.push(INSTR_SUB),
            Instruction::Mul => out.push(INSTR_MUL),
            Instruction::Div => out.push(INSTR_DIV),
            Instruction::Print => out.push(INSTR_PRINT),
        }
        out
    }
}

impl FromBytes for Instruction {
    open spec fn parse(bytes: Seq<u8>) -> Result<(InstructionView, int), DecodeError> {
        parse_instr(bytes)
    }

    fn fromBytes(bytes: &mut Vec<u8>) -> (r: Result<Self, DecodeError>) {
        match Instruction::decode(bytes.as_slice()) {
            Ok((instr, n)) => {
                dropFront(bytes, n);
                Ok(instr)
            },
            Err(e) => Err(e),
        }
    }
}

} // verus!
