//! The nodes of the syntax tree, and their lowering to bytecode.

use vstd::prelude::*;
use vstd::string::StringSliceAdditionalSpecFns;
use crate::ast::literal::Literal;
use crate::bytes::ToBytes;
use crate::instruction::{
    instr_wire, stream_wire, InstructionView, INSTR_ADD, INSTR_DIV, INSTR_HALT, INSTR_MUL,
    INSTR_PRINT, INSTR_PUSH, INSTR_SUB,
};
use crate::token::symbol::Symbol;
use crate::token::tokenkind::{kind_name, TokenKind};
use crate::token::Token;
use crate::bytes::pushAll;
use crate::value::text::pushText;

verus! {

/// A node of the syntax tree.
#[derive(Debug, PartialEq)]
pub enum Node {
    /// BinaryExpression(OPERATOR, LEFT, RIGHT)
    BinaryExpression(Token, Box<Node>, Box<Node>),
    Block(Vec<Node>),
    CallExpression(Box<Node>, Vec<Node>),
    Class(Box<Node>, Option<Box<Node>>, Box<Node>),
    /// DoWhileStatement(BODY, TEST)
    DoWhileStatement(Box<Node>, Box<Node>),
    EmptyStatement,
    ExpressionStatement(Box<Node>),
    ForStatement(Option<Box<Node>>, Option<Box<Node>>, Option<Box<Node>>, Box<Node>),
    Function(Box<Node>, Vec<Node>, Box<Node>),
    Identifier(Token),
    IfStatement(Box<Node>, Box<Node>, Option<Box<Node>>),
    Literal(Literal),
    /// MemberExpression(COMPUTED?, OBJECT, PROPERTY)
    MemberExpression(bool, Box<Node>, Box<Node>),
    PrintExpression(Box<Node>),
    Program(Vec<Node>),
    ReturnStatement(Option<Box<Node>>),
    SuperExpression,
    ThisExpression,
    /// UnaryExpression(OPERATOR, LEFT)
    UnaryExpression(Token, Box<Node>),
    VariableDeclaration(Box<Node>, Box<Node>),
    VariableStatement(Vec<Node>),
    /// WhileStatement(TEST, BODY)
    WhileStatement(Box<Node>, Box<Node>),
}

/// Why a tree could not be lowered.
#[derive(Debug, Clone, Copy, PartialEq, Eq, Structural)]
pub enum LowerError {
    /// An operator that is reserved, and not lowered yet.
    OperatorNotImplemented(TokenKind),
    /// A token that is no binary operator.
    InvalidOperator(TokenKind),
    /// A kind of node that is not lowered yet.
    NodeNotImplemented,
}

/// The message of a failure to lower a tree. It names the operator at fault.
pub open spec fn lower_message(e: LowerError) -> Seq<u8> {
    match e {
        LowerError::OperatorNotImplemented(kind) => "binary operator not yet implemented: ".spec_bytes()
            + kind_name(kind),
        LowerError::InvalidOperator(kind) => "invalid binary operator ".spec_bytes() + kind_name(
            kind,
        ),
        LowerError::NodeNotImplemented => "not yet implemented".spec_bytes(),
    }
}

impl LowerError {
    /// The message of the failure.
    pub fn message(&self) -> (m: Vec<u8>)
        ensures
            m@ == lower_message(*self),
    {
        let mut m: Vec<u8> = Vec::new();
        match self {
            LowerError::OperatorNotImplemented(kind) => {
                pushText(&mut m, "binary operator not yet implemented: ");
                let name = kind.name();
                pushAll(&mut m, name.as_slice());
            },
            LowerError::InvalidOperator(kind) => {
                pushText(&mut m, "invalid binary operator ");
                let name = kind.name();
                pushAll(&mut m, name.as_slice());
            },
            LowerError::NodeNotImplemented => {
                pushText(&mut m, "not yet implemented");
            },
        }
        m
    }
}

/// The instruction that a binary operator lowers to: `+ - * /` are the four
/// arithmetic instructions; `% & |` and `&& || == !=` are reserved; any
/// other token is no operator.
pub open spec fn operator_of(kind: TokenKind) -> Result<InstructionView, LowerError> {
    match kind {
        TokenKind::Symbol(Symbol::Plus) => Ok(InstructionView::Add),
        TokenKind::Symbol(Symbol::Minus) => Ok(InstructionView::Sub),
        TokenKind::Symbol(Symbol::Asterisk) => Ok(InstructionView::Mul),
        TokenKind::Symbol(Symbol::Slash) => Ok(InstructionView::Div),
        TokenKind::Symbol(Symbol::Percent) | TokenKind::Symbol(Symbol::Ampersand)
        | TokenKind::Symbol(Symbol::Pipe) => Err(LowerError::OperatorNotImplemented(kind)),
        TokenKind::Compound(Symbol::Ampersand, Symbol::Ampersand) | TokenKind::Compound(
            Symbol::Pipe,
            Symbol::Pipe,
        ) | TokenKind::Compound(Symbol::Equal, Symbol::Equal) | TokenKind::Compound(
            Symbol::Bang,
            Symbol::Equal,
        ) => Err(LowerError::OperatorNotImplemented(kind)),
        _ => Err(LowerError::InvalidOperator(kind)),
    }
}

/// The instructions that a node lowers to, in the order of the traversal:
/// a program is its children in order, then `Halt`; a literal is a push of
/// its value; a binary expression is its left side, its right side, then
/// the instruction of its operator; a print expression is its operand,
/// then `Print`; an empty statement is nothing. No other node is lowered.
/// The first failure of the traversal is the failure of the whole.
pub open spec fn lower(node: Node) -> Result<Seq<InstructionView>, LowerError>
    decreases node,
{
    match node {
        Node::BinaryExpression(op, a, b) => match lower(*a) {
            Err(e) => Err(e),
            Ok(xa) => match lower(*b) {
                Err(e) => Err(e),
                Ok(xb) => match operator_of(op@.kind) {
                    Ok(i) => Ok((xa + xb).push(i)),
                    Err(e) => Err(e),
                },
            },
        },
        Node::EmptyStatement => Ok(Seq::empty()),
        Node::Literal(lit) => Ok(seq![InstructionView::Push(lit@)]),
        Node::PrintExpression(v) => match lower(*v) {
            Ok(x) => Ok(x.push(InstructionView::Print)),
            Err(e) => Err(e),
        },
        Node::Program(body) => match lower_all(body@) {
            Ok(x) => Ok(x.push(InstructionView::Halt)),
            Err(e) => Err(e),
        },
        _ => Err(LowerError::NodeNotImplemented),
    }
}

/// The instructions that a sequence of nodes lowers to: those of each node,
/// in order.
pub open spec fn lower_all(nodes: Seq<Node>) -> Result<Seq<InstructionView>, LowerError>
    decreases nodes,
{
    if nodes.len() == 0 {
        Ok(Seq::empty())
    } else {
        match lower_all(nodes.drop_last()) {
            Err(e) => Err(e),
            Ok(x) => match lower(nodes.last()) {
                Ok(y) => Ok(x + y),
                Err(e) => Err(e),
            },
        }
    }
}

/// The encoding of two sequences of instructions, one after the other, is
/// the encoding of the first followed by that of the second.
pub proof fn lemma_stream_wire_concat(a: Seq<InstructionView>, b: Seq<InstructionView>)
    ensures
        stream_wire(a + b) == stream_wire(a) + stream_wire(b),
    decreases b.len(),
{
    if b.len() == 0 {
        assert(a + b == a);
    } else {
        lemma_stream_wire_concat(a, b.drop_last());
        assert((a + b).drop_last() == a + b.drop_last());
        assert((a + b).last() == b.last());
    }
}

/// The encoding of a sequence with one more instruction.
pub proof fn lemma_stream_wire_push(a: Seq<InstructionView>, i: InstructionView)
    ensures
        stream_wire(a.push(i)) == stream_wire(a) + instr_wire(i),
{
    assert(a.push(i).drop_last() == a);
}

/// What a program lowers to ends with `Halt`, and its bytecode with the
/// opcode of `Halt`.
pub proof fn lemma_program_ends_with_halt(body: Vec<Node>)
    ensures
        lower(Node::Program(body)) matches Ok(xs) ==> {
            &&& xs.len() > 0
            &&& xs.last() == InstructionView::Halt
            &&& stream_wire(xs).len() > 0
            &&& stream_wire(xs).last() == INSTR_HALT
        },
{
    if lower_all(body@) is Ok {
        lemma_stream_wire_push(lower_all(body@)->Ok_0, InstructionView::Halt);
    }
}

/// The opcode of the instruction that the operator `kind` lowers to.
pub fn operatorCode(kind: TokenKind) -> (r: Result<u8, LowerError>)
    ensures
        match operator_of(kind) {
            Ok(i) => r is Ok && seq![r->Ok_0] == instr_wire(i),
            Err(e) => r is Err && r->Err_0 == e,
        },
{
    match kind {
        TokenKind::Symbol(Symbol::Plus) => Ok(INSTR_ADD),
        TokenKind::Symbol(Symbol::Minus) => Ok(INSTR_SUB),
        TokenKind::Symbol(Symbol::Asterisk) => Ok(INSTR_MUL),
        TokenKind::Symbol(Symbol::Slash) => Ok(INSTR_DIV),
        TokenKind::Symbol(Symbol::Percent) => Err(LowerError::OperatorNotImplemented(kind)),
        TokenKind::Symbol(Symbol::Ampersand) => Err(LowerError::OperatorNotImplemented(kind)),
        TokenKind::Symbol(Symbol::Pipe) => Err(LowerError::OperatorNotImplemented(kind)),
        TokenKind::Compound(Symbol::Ampersand, Symbol::Ampersand) => Err(
            LowerError::OperatorNotImplemented(kind),
        ),
        TokenKind::Compound(Symbol::Pipe, Symbol::Pipe) => Err(
            LowerError::OperatorNotImplemented(kind),
        ),
        TokenKind::Compound(Symbol::Equal, Symbol::Equal) => Err(
            LowerError::OperatorNotImplemented(kind),
        ),
        TokenKind::Compound(Symbol::Bang, Symbol::Equal) => Err(
            LowerError::OperatorNotImplemented(kind),
        ),
        _ => Err(LowerError::InvalidOperator(kind)),
    }
}

impl Node {
    /// The bytecode of the node: the encoding of the instructions that it
    /// lowers to.
    pub fn bytes(&self) -> (r: Result<Vec<u8>, LowerError>)
        ensures
            match lower(*self) {
                Ok(xs) => r is Ok && r->Ok_0@ == stream_wire(xs),
                Err(e) => r is Err && r->Err_0 == e,
            },
        decreases self,
    {
        let mut bytes: Vec<u8> = Vec::new();
        match self {
            Node::BinaryExpression(op, a, b) => {
                let left = match a.bytes() {
                    Ok(l) => l,
                    Err(e) => {
                        return Err(e);
                    },
                };
                let right = match b.bytes() {
                    Ok(r) => r,
                    Err(e) => {
                        return Err(e);
                    },
                };
                let code = match operatorCode(op.kind()) {
                    Ok(c) => c,
                    Err(e) => {
                        return Err(e);
                    },
                };
                pushAll(&mut bytes, left.as_slice());
                pushAll(&mut bytes, right.as_slice());
                bytes.push(code);
                proof {
                    let xa = lower(**a)->Ok_0;
                    let xb = lower(**b)->Ok_0;
                    let i = operator_of(op@.kind)->Ok_0;
                    lemma_stream_wire_concat(xa, xb);
                    lemma_stream_wire_push(xa + xb, i);
                    assert(bytes@ == stream_wire(xa) + stream_wire(xb) + seq![code]);
                }
            },
            Node::EmptyStatement => {},
            Node::Literal(v) => {
                bytes.push(INSTR_PUSH);
                let payload = v.bytes();
                pushAll(&mut bytes, payload.as_slice());
                proof {
                    lemma_stream_wire_push(Seq::empty(), InstructionView::Push(v@));
                    assert(seq![InstructionView::Push(v@)] == Seq::<InstructionView>::empty().push(
                        InstructionView::Push(v@),
                    ));
                }
            },
            Node::PrintExpression(v) => {
                let inner = match v.bytes() {
                    Ok(i) => i,
                    Err(e) => {
                        return Err(e);
                    },
                };
                pushAll(&mut bytes, inner.as_slice());
                bytes.push(INSTR_PRINT);
                proof {
                    lemma_stream_wire_push(lower(**v)->Ok_0, InstructionView::Print);
                }
            },
            Node::Program(body) => {
                let mut i: usize = 0;
                while i < body.len()
                    invariant
                        i <= body.len(),
                        *self == Node::Program(*body),
                        lower_all(body@.subrange(0, i as int)) is Ok,
                        bytes@ == stream_wire(lower_all(body@.subrange(0, i as int))->Ok_0),
                    decreases body.len() - i,
                {
                    proof {
                        vstd::std_specs::vec::axiom_vec_index_decreases(*body, i as int);
                        assert(self->Program_0 == *body);
                        assert(decreases_to!(*self => self->Program_0));
                        let upto = body@.subrange(0, i + 1);
                        assert(upto.drop_last() == body@.subrange(0, i as int));
                        assert(upto.last() == body@[i as int]);
                    }
                    match body[i].bytes() {
                        Ok(part) => {
                            proof {
                                lemma_stream_wire_concat(
                                    lower_all(body@.subrange(0, i as int))->Ok_0,
                                    lower(body@[i as int])->Ok_0,
                                );
                            }
                            pushAll(&mut bytes, part.as_slice());
                        },
                        Err(e) => {
                            proof {
                                lemma_lower_all_fails(body@, i as int);
                            }
                            return Err(e);
                        },
                    }
                    i += 1;
                }
                assert(body@.subrange(0, body.len() as int) == body@);
                bytes.push(INSTR_HALT);
                proof {
                    lemma_stream_wire_push(lower_all(body@)->Ok_0, InstructionView::Halt);
                }
            },
            _ => {
                return Err(LowerError::NodeNotImplemented);
            },
        }
        Ok(bytes)
    }
}

/// If the nodes before the `k`-th are lowered and the `k`-th is not, the
/// failure of the `k`-th is the failure of the whole sequence.
pub proof fn lemma_lower_all_fails(nodes: Seq<Node>, k: int)
    requires
        0 <= k < nodes.len(),
        lower_all(nodes.subrange(0, k)) is Ok,
        lower(nodes[k]) is Err,
    ensures
        lower_all(nodes) == Err::<Seq<InstructionView>, LowerError>(lower(nodes[k])->Err_0),
    decreases nodes.len() - k,
{
    let upto = nodes.subrange(0, k + 1);
    assert(upto.drop_last() == nodes.subrange(0, k));
    assert(upto.last() == nodes[k]);
    lemma_lower_all_prefix_fails(nodes, k + 1);
}

/// A failure among the first `k` nodes is the failure of the whole sequence.
pub proof fn lemma_lower_all_prefix_fails(nodes: Seq<Node>, k: int)
    requires
        0 <= k <= nodes.len(),
        lower_all(nodes.subrange(0, k)) is Err,
    ensures
        lower_all(nodes) == lower_all(nodes.subrange(0, k)),
    decreases nodes.len() - k,
{
    if k < nodes.len() {
        let upto = nodes.subrange(0, k + 1);
        assert(upto.drop_last() == nodes.subrange(0, k));
        lemma_lower_all_prefix_fails(nodes, k + 1);
    } else {
        assert(nodes.subrange(0, k) == nodes);
    }
}

} // verus!
