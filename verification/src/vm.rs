//! The stack machine: it reads instructions from the front of its code and
//! works on a stack of values.
//!
//! The machine does no input or output and no floating-point arithmetic.
//! It runs until it halts or fails, or until there is work for the host: a
//! text to print, or an operation for the floating-point unit. The host
//! does the work, pushes the result where there is one, and runs the
//! machine on.

use vstd::prelude::*;
use vstd::slice::slice_subrange;
use crate::ast::node::{lower, LowerError};
use crate::ast::AST;
use crate::bytes::{decode_message, DecodeError};
use crate::instruction::{
    parse_instr, stream_wire, views, Instruction, InstructionView, Instructions,
};
use crate::value::arith::{
    arith_message, eval, ArithError, ArithErrorView, BinOp, Evaluation, EvaluationView,
    FloatBinary, FloatConcat, Scalar,
};
use crate::value::{plain, rendering, text_views, Text, TextView, Value, ValueView};
use crate::{ValueType, MAGIC_NUMBER};

verus! {

/// The stack of the machine. Its last value is its top.
pub type Stack = Vec<ValueType>;

/// Why the machine failed.
#[derive(Debug, PartialEq)]
pub enum Fault {
    /// An instruction needed more values than the stack holds.
    StackUnderflow,
    /// An arithmetic instruction failed.
    Arithmetic(ArithError),
    /// The code could not be decoded.
    Decode(DecodeError),
    /// The machine halted on a value that is no exit code.
    ExitCode(ValueType),
    /// The code ended before the machine halted.
    MissingHalt,
}

/// The mathematical content of a [`Fault`].
pub enum FaultView {
    StackUnderflow,
    Arithmetic(ArithErrorView),
    Decode(DecodeError),
    ExitCode(ValueView),
    MissingHalt,
}

impl View for Fault {
    type V = FaultView;

    open spec fn view(&self) -> FaultView {
        match self {
            Fault::StackUnderflow => FaultView::StackUnderflow,
            Fault::Arithmetic(e) => FaultView::Arithmetic(e@),
            Fault::Decode(e) => FaultView::Decode(*e),
            Fault::ExitCode(v) => FaultView::ExitCode(v@),
            Fault::MissingHalt => FaultView::MissingHalt,
        }
    }
}

/// The message of a fault, in parts. A value that is no exit code is
/// rendered as a value is.
pub open spec fn fault_message(f: FaultView) -> Seq<TextView> {
    match f {
        FaultView::StackUnderflow => seq![plain("stack is empty")],
        FaultView::Arithmetic(e) => arith_message(e),
        FaultView::Decode(e) => seq![TextView::Plain(decode_message(e))],
        FaultView::ExitCode(v) => seq![
            plain("cannot use "),
            rendering(v),
            plain(" as exit code"),
        ],
        FaultView::MissingHalt => seq![plain("program exited without HALT instruction!")],
    }
}

impl Fault {
    /// The message of the fault, in parts.
    pub fn message(&self) -> (m: Vec<Text>)
        ensures
            text_views(m@) == fault_message(self@),
    {
        let mut m: Vec<Text> = Vec::new();
        match self {
            Fault::StackUnderflow => {
                m.push(Text::of("stack is empty"));
            },
            Fault::Arithmetic(e) => {
                return e.message();
            },
            Fault::Decode(e) => {
                m.push(Text::Plain(e.message()));
            },
            Fault::ExitCode(v) => {
                m.push(Text::of("cannot use "));
                m.push(v.to_string());
                m.push(Text::of(" as exit code"));
            },
            Fault::MissingHalt => {
                m.push(Text::of("program exited without HALT instruction!"));
            },
        }
        assert(text_views(m@) =~= fault_message(self@));
        m
    }
}

/// Why the machine stopped running.
#[derive(Debug, PartialEq)]
pub enum Outcome {
    /// It halted, with this exit code.
    Halted(i32),
    /// It failed.
    Faulted(Fault),
    /// It has this text to print.
    Print(Text),
    /// It waits for the floating-point unit. The result is to be pushed.
    Compute(FloatBinary),
    /// It waits for the rendering of a floating-point number. The result
    /// is to be pushed.
    Concat(FloatConcat),
}

/// The mathematical content of an [`Outcome`].
pub enum OutcomeView {
    Halted(i32),
    Faulted(FaultView),
    Print(TextView),
    Compute(FloatBinary),
    Concat(Seq<u8>, Scalar),
}

impl View for Outcome {
    type V = OutcomeView;

    open spec fn view(&self) -> OutcomeView {
        match self {
            Outcome::Halted(c) => OutcomeView::Halted(*c),
            Outcome::Faulted(f) => OutcomeView::Faulted(f@),
            Outcome::Print(t) => OutcomeView::Print(t@),
            Outcome::Compute(w) => OutcomeView::Compute(*w),
            Outcome::Concat(w) => OutcomeView::Concat(w.text@, w.number),
        }
    }
}

/// The machine.
pub struct VM {
    code: Instructions,
    pc: usize,
    stack: Stack,
}

/// The state of the machine: the code that it has not read yet, and its
/// stack.
pub struct VmView {
    pub code: Seq<u8>,
    pub stack: Seq<ValueView>,
}

/// The contents of a sequence of values.
pub open spec fn value_views(values: Seq<Value>) -> Seq<ValueView> {
    values.map_values(|v: Value| v@)
}

impl View for VM {
    type V = VmView;

    closed spec fn view(&self) -> VmView {
        VmView {
            code: if self.pc <= self.code@.len() {
                self.code@.skip(self.pc as int)
            } else {
                Seq::empty()
            },
            stack: value_views(self.stack@),
        }
    }
}

/// The magic number: the three bytes that may open a bytecode file.
pub open spec fn magic() -> Seq<u8> {
    seq![0x6eu8, 0x79u8, 0x62u8]
}

/// Whether `code` opens with the magic number.
pub open spec fn has_magic(code: Seq<u8>) -> bool {
    code.len() >= 3 && code[0] == 0x6e && code[1] == 0x79 && code[2] == 0x62
}

/// `code` without the magic number, if it opens with it.
pub open spec fn strip_magic(code: Seq<u8>) -> Seq<u8> {
    if has_magic(code) {
        code.skip(3)
    } else {
        code
    }
}

/// The state of a machine that has been given `code` to run.
pub open spec fn loaded(code: Seq<u8>) -> VmView {
    VmView { code: strip_magic(code), stack: Seq::empty() }
}

/// How the machine halts on the value `v` at the top of its stack: an
/// integer is the exit code, cut to 32 bits; any other value is a fault.
pub open spec fn exit_of(v: ValueView) -> OutcomeView {
    match v {
        ValueView::Int32(c) => OutcomeView::Halted(c),
        ValueView::Int64(c) => OutcomeView::Halted(c as i32),
        other => OutcomeView::Faulted(FaultView::ExitCode(other)),
    }
}

/// An arithmetic instruction on a stack: it takes the right operand from
/// the top and the left one from below it, and puts the result in their
/// place. Where the floating-point unit has to give the result, the
/// machine stops with the operands taken.
pub open spec fn binary(op: BinOp, stack: Seq<ValueView>) -> (Seq<ValueView>, Option<OutcomeView>) {
    if stack.len() < 2 {
        (stack, Some(OutcomeView::Faulted(FaultView::StackUnderflow)))
    } else {
        let b = stack[stack.len() - 1];
        let a = stack[stack.len() - 2];
        let rest = stack.subrange(0, stack.len() - 2);
        match eval(op, a, b) {
            Ok(EvaluationView::Done(v)) => (rest.push(v), None),
            Ok(EvaluationView::Compute(w)) => (rest, Some(OutcomeView::Compute(w))),
            Ok(EvaluationView::Concat(t, n)) => (rest, Some(OutcomeView::Concat(t, n))),
            Err(e) => (rest, Some(OutcomeView::Faulted(FaultView::Arithmetic(e)))),
        }
    }
}

/// One instruction on a stack: the stack after it, and why the machine
/// stops, if it does.
pub open spec fn dispatch(i: InstructionView, stack: Seq<ValueView>) -> (
    Seq<ValueView>,
    Option<OutcomeView>,
) {
    match i {
        InstructionView::Halt => {
            if stack.len() == 0 {
                (stack, Some(OutcomeView::Halted(0)))
            } else {
                (stack.drop_last(), Some(exit_of(stack.last())))
            }
        },
        InstructionView::Push(v) => (stack.push(v), None),
        InstructionView::Pop => {
            if stack.len() == 0 {
                (stack, Some(OutcomeView::Faulted(FaultView::StackUnderflow)))
            } else {
                (stack.drop_last(), None)
            }
        },
        InstructionView::Add => binary(BinOp::Add, stack),
        InstructionView::Sub => binary(BinOp::Sub, stack),
        InstructionView::Mul => binary(BinOp::Mul, stack),
        InstructionView::Div => binary(BinOp::Div, stack),
        InstructionView::Print => {
            if stack.len() == 0 {
                (stack, Some(OutcomeView::Faulted(FaultView::StackUnderflow)))
            } else {
                (stack.drop_last(), Some(OutcomeView::Print(rendering(stack.last()))))
            }
        },
    }
}

/// One step of the machine: it decodes the instruction at the front of
/// the code, takes it off, and dispatches it. At the end of the code the
/// machine fails for want of a `Halt`; where the front of the code does
/// not decode, it fails and leaves the code as it is.
pub open spec fn step(vm: VmView) -> (VmView, Option<OutcomeView>) {
    if vm.code.len() == 0 {
        (vm, Some(OutcomeView::Faulted(FaultView::MissingHalt)))
    } else {
        match parse_instr(vm.code) {
            Err(e) => (vm, Some(OutcomeView::Faulted(FaultView::Decode(e)))),
            Ok((i, n)) => {
                let (stack, out) = dispatch(i, vm.stack);
                (VmView { code: vm.code.skip(n), stack }, out)
            },
        }
    }
}

/// A run of the machine: step after step until it stops. The state it
/// stops in, and why it stops.
pub open spec fn execution(vm: VmView) -> (VmView, OutcomeView)
    decreases vm.code.len(),
{
    let (next, out) = step(vm);
    match out {
        Some(o) => (next, o),
        None => {
            if next.code.len() < vm.code.len() {
                execution(next)
            } else {
                (next, OutcomeView::Faulted(FaultView::MissingHalt))
            }
        },
    }
}

/// Magic-prefix idempotence: code that does not itself open with the magic
/// number runs the same with the magic number before it and without.
pub proof fn lemma_magic_prefix(code: Seq<u8>)
    requires
        !has_magic(code),
    ensures
        loaded(magic() + code) == loaded(code),
        execution(loaded(magic() + code)) == execution(loaded(code)),
{
    assert((magic() + code).skip(3) == code);
}

impl Default for VM {
    fn default() -> (vm: Self)
        ensures
            vm@ == (VmView { code: Seq::empty(), stack: Seq::empty() }),
    {
        let vm = Self { code: Vec::new(), pc: 0, stack: Vec::new() };
        assert(vm@.code == Seq::<u8>::empty());
        assert(vm@.stack == Seq::<ValueView>::empty());
        vm
    }
}

impl VM {
    /// A machine that is to run `code`. The magic number, if the code
    /// opens with it, is left out.
    pub fn new(code: Instructions) -> (vm: Self)
        ensures
            vm@ == loaded(code@),
    {
        let magical = code.len() >= 3 && code[0] == MAGIC_NUMBER[0] && code[1] == MAGIC_NUMBER[1]
            && code[2] == MAGIC_NUMBER[2];
        let pc: usize = if magical {
            3
        } else {
            0
        };
        let vm = Self { code, pc, stack: Vec::new() };
        assert(vm@.stack == Seq::<ValueView>::empty());
        assert(code@.skip(0) == code@);
        vm
    }

    /// A machine that is to run the encoding of `instrs`.
    pub fn fromInstructions(instrs: Vec<Instruction>) -> (vm: Self)
        ensures
            vm@ == loaded(stream_wire(views(instrs@))),
    {
        Self::new(Instruction::encodeAll(&instrs))
    }

    /// A machine that is to run the bytecode of `ast`.
    pub fn fromAST(ast: AST) -> (r: Result<Self, LowerError>)
        ensures
            match lower(ast.root()) {
                Ok(xs) => r is Ok && r->Ok_0@ == loaded(stream_wire(xs)),
                Err(e) => r is Err && r->Err_0 == e,
            },
    {
        match ast.toInstructions() {
            Ok(instrs) => Ok(Self::fromInstructions(instrs)),
            Err(e) => Err(e),
        }
    }

    /// Puts `value` on the stack.
    pub fn push(&mut self, value: ValueType)
        ensures
            final(self)@ == (VmView { code: old(self)@.code, stack: old(self)@.stack.push(value@) }),
    {
        self.stack.push(value);
        assert(value_views(self.stack@) == value_views(old(self).stack@).push(value@));
    }

    /// Takes the top value off the stack, if there is one.
    pub fn pop(&mut self) -> (r: Option<ValueType>)
        ensures
            old(self)@.stack.len() == 0 ==> r is None && final(self)@ == old(self)@,
            old(self)@.stack.len() > 0 ==> r is Some && r->Some_0@ == old(self)@.stack.last()
                && final(self)@ == (VmView {
                code: old(self)@.code,
                stack: old(self)@.stack.drop_last(),
            }),
    {
        let r = self.stack.pop();
        assert(value_views(self.stack@) == value_views(old(self).stack@).take(
            self.stack@.len() as int,
        ));
        if r.is_some() {
            assert(value_views(self.stack@) == value_views(old(self).stack@).drop_last());
        }
        r
    }

    /// Runs an arithmetic instruction. Says why the machine stops, if it does.
    fn binaryOp(&mut self, op: BinOp) -> (r: Option<Outcome>)
        ensures
            final(self)@.code == old(self)@.code,
            final(self)@.stack == binary(op, old(self)@.stack).0,
            match binary(op, old(self)@.stack).1 {
                Some(o) => r is Some && r->Some_0@ == o,
                None => r is None,
            },
    {
        if self.stack.len() < 2 {
            return Some(Outcome::Faulted(Fault::StackUnderflow));
        }
        let ghost stack = self@.stack;
        let b = match self.pop() {
            Some(b) => b,
            None => {
                return Some(Outcome::Faulted(Fault::StackUnderflow));
            },
        };
        let a = match self.pop() {
            Some(a) => a,
            None => {
                return Some(Outcome::Faulted(Fault::StackUnderflow));
            },
        };
        proof {
            assert(b@ == stack[stack.len() - 1]);
            assert(a@ == stack[stack.len() - 2]);
            assert(self@.stack == stack.subrange(0, stack.len() - 2));
        }
        match Value::apply(op, a, b) {
            Ok(Evaluation::Done(result)) => {
                self.push(result);
                None
            },
            Ok(Evaluation::Compute(work)) => Some(Outcome::Compute(work)),
            Ok(Evaluation::Concat(work)) => Some(Outcome::Concat(work)),
            Err(e) => Some(Outcome::Faulted(Fault::Arithmetic(e))),
        }
    }

    /// Runs the machine until it stops: until it halts or fails, or has
    /// work for the host.
    #[verifier::loop_isolation(false)]
    pub fn run(&mut self) -> (r: Outcome)
        ensures
            (final(self)@, r@) == execution(old(self)@),
    {
        loop
            invariant
                execution(old(self)@) == execution(self@),
            decreases self@.code.len(),
        {
            let ghost before = self@;
            let len = self.code.len();
            if self.pc >= len {
                return Outcome::Faulted(Fault::MissingHalt);
            }
            assert(self.code@.subrange(self.pc as int, len as int) == before.code);
            let instr = match Instruction::decode(slice_subrange(&self.code, self.pc, len)) {
                Ok((instr, n)) => {
                    assert(self.code@.skip(self.pc as int).skip(n as int) == self.code@.skip(
                        self.pc + n,
                    ));
                    self.pc = self.pc + n;
                    instr
                },
                Err(e) => {
                    return Outcome::Faulted(Fault::Decode(e));
                },
            };
            match instr {
                Instruction::Halt => {
                    return match self.pop() {
                        None => Outcome::Halted(0),
                        Some(val) => match val {
                            Value::Int32(v) => Outcome::Halted(v.value()),
                            Value::Int64(v) => Outcome::Halted(
                                #[verifier::truncate]
                                (v.value() as i32),
                            ),
                            other => Outcome::Faulted(Fault::ExitCode(other)),
                        },
                    };
                },
                Instruction::Push(v) => {
                    self.push(v);
                },
                Instruction::Pop => {
                    match self.pop() {
                        None => {
                            return Outcome::Faulted(Fault::StackUnderflow);
                        },
                        Some(_) => {},
                    }
                },
                Instruction::Add => {
                    match self.binaryOp(BinOp::Add) {
                        Some(o) => {
                            return o;
                        },
                        None => {},
                    }
                },
                Instruction::Sub => {
                    match self.binaryOp(BinOp::Sub) {
                        Some(o) => {
                            return o;
                        },
                        None => {},
                    }
                },
                Instruction::Mul => {
                    match self.binaryOp(BinOp::Mul) {
                        Some(o) => {
                            return o;
                        },
                        None => {},
                    }
                },
                Instruction::Div => {
                    match self.binaryOp(BinOp::Div) {
                        Some(o) => {
                            return o;
                        },
                        None => {},
                    }
                },
                Instruction::Print => {
                    match self.pop() {
                        None => {
                            return Outcome::Faulted(Fault::StackUnderflow);
                        },
                        Some(val) => {
                            return Outcome::Print(val.to_string());
                        },
                    }
                },
            }
        }
    }
}

} // verus!
