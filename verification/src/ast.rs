//! The syntax tree and its lowering to instructions.

use vstd::prelude::*;
use vstd::std_specs::convert::FromSpecImpl;
use crate::ast::node::{lemma_lower_all_fails, lower, lower_all, LowerError, Node};
use crate::instruction::{stream_wire, views, Instruction, InstructionView};
use crate::token::symbol::Symbol;
use crate::token::tokenkind::TokenKind;
use crate::token::Token;

pub mod literal;
pub mod node;

verus! {

/// A syntax tree.
#[derive(Debug, PartialEq)]
pub struct AST {
    program: Node,
}

/// The tokens that a syntax tree is made from.
pub type Tokens = Vec<Token>;

/// A parser: whatever makes a syntax tree from tokens.
pub trait GenerateAST {
    type Error;

    fn generate(tokens: Tokens) -> Result<AST, Self::Error>;
}

/// Appends the instructions of `part` to `out`.
fn extend(out: &mut Vec<Instruction>, part: Vec<Instruction>)
    ensures
        views(final(out)@) == views(old(out)@) + views(part@),
{
    let ghost items = part@;
    let mut part = part;
    out.append(&mut part);
    assert(views(out@) =~= views(old(out)@) + views(items));
}

impl FromSpecImpl<Node> for AST {
    open spec fn obeys_from_spec() -> bool {
        true
    }

    closed spec fn from_spec(program: Node) -> Self {
        AST { program }
    }
}

impl From<Node> for AST {
    fn from(program: Node) -> (r: Self)
        ensures
            r.root() == program,
    {
        Self { program }
    }
}

impl AST {
    /// The root of the tree.
    pub closed spec fn root(&self) -> Node {
        self.program
    }

    pub fn new(program: Node) -> (r: Self)
        ensures
            r.root() == program,
    {
        Self { program }
    }

    pub fn program(&self) -> (n: &Node)
        ensures
            *n == self.root(),
    {
        &self.program
    }

    /// Lowers the tree to instructions.
    pub fn toInstructions(&self) -> (r: Result<Vec<Instruction>, LowerError>)
        ensures
            match lower(self.root()) {
                Ok(xs) => r is Ok && views(r->Ok_0@) == xs,
                Err(e) => r is Err && r->Err_0 == e,
            },
    {
        let mut instrs: Vec<Instruction> = Vec::new();
        match self.toInstruction(self.program()) {
            Ok(part) => {
                extend(&mut instrs, part);
                assert(views(instrs@) == lower(self.root())->Ok_0);
                Ok(instrs)
            },
            Err(e) => Err(e),
        }
    }

    /// Lowers one node, and the nodes below it, to instructions.
    pub fn toInstruction(&self, node: &Node) -> (r: Result<Vec<Instruction>, LowerError>)
        ensures
            match lower(*node) {
                Ok(xs) => r is Ok && views(r->Ok_0@) == xs,
                Err(e) => r is Err && r->Err_0 == e,
            },
        decreases node,
    {
        let mut instrs: Vec<Instruction> = Vec::new();
        assert(views(instrs@) == Seq::<InstructionView>::empty());
        match node {
            Node::BinaryExpression(op, a, b) => {
                let left = match self.toInstruction(a) {
                    Ok(l) => l,
                    Err(e) => {
                        return Err(e);
                    },
                };
                let right = match self.toInstruction(b) {
                    Ok(r) => r,
                    Err(e) => {
                        return Err(e);
                    },
                };
                extend(&mut instrs, left);
                extend(&mut instrs, right);
                let kind = op.kind();
                let i = match kind {
                    TokenKind::Symbol(sym) => match sym {
                        Symbol::Plus => Instruction::Add,
                        Symbol::Minus => Instruction::Sub,
                        Symbol::Asterisk => Instruction::Mul,
                        Symbol::Slash => Instruction::Div,
                        Symbol::Percent | Symbol::Ampersand | Symbol::Pipe => {
                            return Err(LowerError::OperatorNotImplemented(kind));
                        },
                        _ => {
                            return Err(LowerError::InvalidOperator(kind));
                        },
                    },
                    TokenKind::Compound(Symbol::Ampersand, Symbol::Ampersand) => {
                        return Err(LowerError::OperatorNotImplemented(kind));
                    },
                    TokenKind::Compound(Symbol::Pipe, Symbol::Pipe) => {
                        return Err(LowerError::OperatorNotImplemented(kind));
                    },
                    TokenKind::Compound(Symbol::Equal, Symbol::Equal) => {
                        return Err(LowerError::OperatorNotImplemented(kind));
                    },
                    TokenKind::Compound(Symbol::Bang, Symbol::Equal) => {
                        return Err(LowerError::OperatorNotImplemented(kind));
                    },
                    _ => {
                        return Err(LowerError::InvalidOperator(kind));
                    },
                };
                let ghost before = instrs@;
                instrs.push(i);
                assert(views(instrs@) == views(before).push(i@));
            },
            Node::EmptyStatement => {},
            Node::Literal(lit) => {
                instrs.push(Instruction::Push(lit.value().clone()));
                assert(views(instrs@) == seq![InstructionView::Push(lit@)]);
            },
            Node::PrintExpression(value) => {
                let inner = match self.toInstruction(value) {
                    Ok(i) => i,
                    Err(e) => {
                        return Err(e);
                    },
                };
                extend(&mut instrs, inner);
                let ghost before = instrs@;
                instrs.push(Instruction::Print);
                assert(views(instrs@) == views(before).push(InstructionView::Print));
            },
            Node::Program(body) => {
                let mut k: usize = 0;
                assert(body@.subrange(0, 0) == Seq::<Node>::empty());
                while k < body.len()
                    invariant
                        k <= body.len(),
                        *node == Node::Program(*body),
                        lower_all(body@.subrange(0, k as int)) is Ok,
                        views(instrs@) == lower_all(body@.subrange(0, k as int))->Ok_0,
                    decreases body.len() - k,
                {
                    proof {
                        vstd::std_specs::vec::axiom_vec_index_decreases(*body, k as int);
                        assert(node->Program_0 == *body);
                        assert(decreases_to!(*node => node->Program_0));
                        let upto = body@.subrange(0, k + 1);
                        assert(upto.drop_last() == body@.subrange(0, k as int));
                        assert(upto.last() == body@[k as int]);
                    }
                    match self.toInstruction(&body[k]) {
                        Ok(part) => {
                            extend(&mut instrs, part);
                        },
                        Err(e) => {
                            proof {
                                lemma_lower_all_fails(body@, k as int);
                            }
                            return Err(e);
                        },
                    }
                    k += 1;
                }
                assert(body@.subrange(0, body.len() as int) == body@);
                let ghost before = instrs@;
                instrs.push(Instruction::Halt);
                assert(views(instrs@) == views(before).push(InstructionView::Halt));
            },
            _ => {
                return Err(LowerError::NodeNotImplemented);
            },
        }
        Ok(instrs)
    }

    /// The bytecode of the tree: the encoding of the instructions that it
    /// lowers to.
    pub fn bytes(&self) -> (r: Result<Vec<u8>, LowerError>)
        ensures
            match lower(self.root()) {
                Ok(xs) => r is Ok && r->Ok_0@ == stream_wire(xs),
                Err(e) => r is Err && r->Err_0 == e,
            },
    {
        self.program.bytes()
    }
}

} // verus!
