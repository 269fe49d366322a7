//! Arithmetic on values: the four binary operators and the lattice that
//! says what kind of value each pair of operands gives.
//!
//! The library never computes with floating-point numbers. Where an
//! operation needs the floating-point unit, the outcome names the work, and
//! the host completes it.

use vstd::prelude::*;
use vstd::wrapping::i32_specs;
use vstd::wrapping::i64_specs;
use crate::value::number::{trunc_div, Float, Int32, Int64};
use crate::value::string::String as NString;
use crate::value::traits::zero_pattern;
use crate::value::{plain, rendering, text_views, Text, TextView, Value, ValueView};

verus! {

/// A binary operator.
#[derive(Debug, Clone, Copy, PartialEq, Eq, Structural)]
pub enum BinOp {
    Add,
    Sub,
    Mul,
    Div,
}

/// The kind of a value: its variant without its content.
#[derive(Debug, Clone, Copy, PartialEq, Eq, Structural)]
pub enum Kind {
    Null,
    True,
    False,
    Int32,
    Int64,
    Float32,
    Float64,
    Char,
    Str,
}

/// A number handed to the floating-point unit: an integer, a
/// floating-point number by its bits, or the constant one.
#[derive(Debug, Clone, Copy, PartialEq, Eq, Structural)]
pub enum Scalar {
    Int32(i32),
    Int64(i64),
    Float32(u32),
    Float64(u64),
    One,
}

/// Work for the floating-point unit: convert both operands to binary64 if
/// `wide`, to binary32 if not, and apply `op`.
#[derive(Debug, Clone, Copy, PartialEq, Eq, Structural)]
pub struct FloatBinary {
    pub op: BinOp,
    pub wide: bool,
    pub lhs: Scalar,
    pub rhs: Scalar,
}

/// Work for the host: render `number` in decimal and append it to `text`.
#[derive(Debug, PartialEq)]
pub struct FloatConcat {
    pub text: Vec<u8>,
    pub number: Scalar,
}

/// What evaluating an operator on two values gives.
#[derive(Debug, PartialEq)]
pub enum Evaluation {
    /// The result.
    Done(Value),
    /// The result is the floating-point number that this work gives.
    Compute(FloatBinary),
    /// The result is the string that this work gives.
    Concat(FloatConcat),
}

/// The mathematical content of an [`Evaluation`].
pub enum EvaluationView {
    Done(ValueView),
    Compute(FloatBinary),
    Concat(Seq<u8>, Scalar),
}

impl View for Evaluation {
    type V = EvaluationView;

    open spec fn view(&self) -> EvaluationView {
        match self {
            Evaluation::Done(v) => EvaluationView::Done(v@),
            Evaluation::Compute(w) => EvaluationView::Compute(*w),
            Evaluation::Concat(w) => EvaluationView::Concat(w.text@, w.number),
        }
    }
}

/// Why an operator could not be evaluated.
#[derive(Debug, PartialEq)]
pub enum ArithError {
    /// cannot divide by 0
    DivideByZero,
    /// invalid operation: the operator is not defined on this pair
    InvalidOperation(BinOp, Value, Value),
}

/// The mathematical content of an [`ArithError`].
pub enum ArithErrorView {
    DivideByZero,
    InvalidOperation(BinOp, ValueView, ValueView),
}

impl View for ArithError {
    type V = ArithErrorView;

    open spec fn view(&self) -> ArithErrorView {
        match self {
            ArithError::DivideByZero => ArithErrorView::DivideByZero,
            ArithError::InvalidOperation(op, a, b) => ArithErrorView::InvalidOperation(
                *op,
                a@,
                b@,
            ),
        }
    }
}

/// The kind of `v`.
pub open spec fn kind_of(v: ValueView) -> Kind {
    match v {
        ValueView::Null => Kind::Null,
        ValueView::True => Kind::True,
        ValueView::False => Kind::False,
        ValueView::Int32(_) => Kind::Int32,
        ValueView::Int64(_) => Kind::Int64,
        ValueView::Float32(_) => Kind::Float32,
        ValueView::Float64(_) => Kind::Float64,
        ValueView::Char(_) => Kind::Char,
        ValueView::Str(_) => Kind::Str,
    }
}

/// Whether `v` is a number: an integer or a floating-point number.
pub open spec fn numeric(v: ValueView) -> bool {
    v is Int32 || v is Int64 || v is Float32 || v is Float64
}

/// Whether `v` is a zero: an integer zero, `false`, or a floating-point
/// zero of either sign.
pub open spec fn is_zero(v: ValueView) -> bool {
    match v {
        ValueView::Int32(i) => i == 0,
        ValueView::Int64(i) => i == 0,
        ValueView::False => true,
        ValueView::Float32(b) => zero_pattern(b as nat, 4),
        ValueView::Float64(b) => zero_pattern(b as nat, 8),
        _ => false,
    }
}

/// `x op y` in 32-bit two's complement. Division rounds toward zero.
pub open spec fn int32_op(op: BinOp, x: i32, y: i32) -> i32 {
    match op {
        BinOp::Add => i32_specs::wrapping_add(x, y),
        BinOp::Sub => i32_specs::wrapping_sub(x, y),
        BinOp::Mul => i32_specs::wrapping_mul(x, y),
        BinOp::Div => i32_specs::signed_crop(trunc_div(x as int, y as int)),
    }
}

/// `x op y` in 64-bit two's complement. Division rounds toward zero.
pub open spec fn int64_op(op: BinOp, x: i64, y: i64) -> i64 {
    match op {
        BinOp::Add => i64_specs::wrapping_add(x, y),
        BinOp::Sub => i64_specs::wrapping_sub(x, y),
        BinOp::Mul => i64_specs::wrapping_mul(x, y),
        BinOp::Div => i64_specs::signed_crop(trunc_div(x as int, y as int)),
    }
}

/// The number that stands for `v` in floating-point work: `true` counts as
/// one.
pub open spec fn scalar_of(v: ValueView) -> Scalar
    recommends
        numeric(v) || v is True,
{
    match v {
        ValueView::Int32(i) => Scalar::Int32(i),
        ValueView::Int64(i) => Scalar::Int64(i),
        ValueView::Float32(b) => Scalar::Float32(b),
        ValueView::Float64(b) => Scalar::Float64(b),
        _ => Scalar::One,
    }
}

/// Whether the floating-point result of a pair of kinds is binary64: always,
/// but for binary32 with binary32 and binary32 with `true`.
pub open spec fn wide_result(a: ValueView, b: ValueView) -> bool {
    !((a is Float32 && (b is Float32 || b is True)))
}

/// The value of `a op b`, by the coercion lattice:
///
/// - dividing a number by a zero fails;
/// - two integers give an integer, of 64 bits if either has 64;
/// - an integer with `true` or `false` counts the boolean as one or zero
///   and keeps its width;
/// - an integer with a floating-point number, either way round, gives
///   binary64; two floating-point numbers give binary32 if both are, and
///   binary64 otherwise; a floating-point number with `true` counts `true`
///   as one and keeps its width;
/// - a floating-point number with `false` is left as it is by `+` and `-`
///   and becomes a zero of its width by `*`;
/// - a string plus a value other than null is the string followed by the
///   rendering of the value;
/// - every other pair fails.
pub open spec fn eval(op: BinOp, a: ValueView, b: ValueView) -> Result<
    EvaluationView,
    ArithErrorView,
> {
    if op is Div && numeric(a) && is_zero(b) {
        Err(ArithErrorView::DivideByZero)
    } else {
        match (a, b) {
            (ValueView::Int32(x), ValueView::Int32(y)) => Ok(
                EvaluationView::Done(ValueView::Int32(int32_op(op, x, y))),
            ),
            (ValueView::Int32(x), ValueView::Int64(y)) => Ok(
                EvaluationView::Done(ValueView::Int64(int64_op(op, x as i64, y))),
            ),
            (ValueView::Int32(x), ValueView::True) => Ok(
                EvaluationView::Done(ValueView::Int32(int32_op(op, x, 1))),
            ),
            (ValueView::Int32(x), ValueView::False) => Ok(
                EvaluationView::Done(ValueView::Int32(int32_op(op, x, 0))),
            ),
            (ValueView::Int64(x), ValueView::Int32(y)) => Ok(
                EvaluationView::Done(ValueView::Int64(int64_op(op, x, y as i64))),
            ),
            (ValueView::Int64(x), ValueView::Int64(y)) => Ok(
                EvaluationView::Done(ValueView::Int64(int64_op(op, x, y))),
            ),
            (ValueView::Int64(x), ValueView::True) => Ok(
                EvaluationView::Done(ValueView::Int64(int64_op(op, x, 1))),
            ),
            (ValueView::Int64(x), ValueView::False) => Ok(
                EvaluationView::Done(ValueView::Int64(int64_op(op, x, 0))),
            ),
            (ValueView::Float32(x), ValueView::False) => Ok(
                EvaluationView::Done(ValueView::Float32(if op is Mul { 0 } else { x })),
            ),
            (ValueView::Float64(x), ValueView::False) => Ok(
                EvaluationView::Done(ValueView::Float64(if op is Mul { 0 } else { x })),
            ),
            (ValueView::Str(s), _) => {
                if op is Add && !(b is Null) {
                    match rendering(b) {
                        TextView::Plain(t) => Ok(EvaluationView::Done(ValueView::Str(s + t))),
                        _ => Ok(EvaluationView::Concat(s, scalar_of(b))),
                    }
                } else {
                    Err(ArithErrorView::InvalidOperation(op, a, b))
                }
            },
            _ => {
                if numeric(a) && (numeric(b) || b is True) {
                    Ok(
                        EvaluationView::Compute(
                            FloatBinary {
                                op,
                                wide: wide_result(a, b),
                                lhs: scalar_of(a),
                                rhs: scalar_of(b),
                            },
                        ),
                    )
                } else {
                    Err(ArithErrorView::InvalidOperation(op, a, b))
                }
            },
        }
    }
}

/// The kind of value that an evaluation gives.
pub open spec fn result_kind(e: EvaluationView) -> Kind {
    match e {
        EvaluationView::Done(v) => kind_of(v),
        EvaluationView::Compute(w) => if w.wide {
            Kind::Float64
        } else {
            Kind::Float32
        },
        EvaluationView::Concat(_, _) => Kind::Str,
    }
}

/// Arithmetic commutativity on numerics: sum and product of two numbers
/// succeed whichever way round the operands stand, and give the same kind
/// of value. Two integers give the same value. Two operands of which one
/// is floating-point give the same work for the floating-point unit, with
/// the operands exchanged.
pub proof fn lemma_numeric_commutes(op: BinOp, a: ValueView, b: ValueView)
    requires
        op is Add || op is Mul,
        numeric(a),
        numeric(b),
    ensures
        eval(op, a, b) is Ok,
        eval(op, b, a) is Ok,
        result_kind(eval(op, a, b)->Ok_0) == result_kind(eval(op, b, a)->Ok_0),
        !(a is Float32 || a is Float64 || b is Float32 || b is Float64) ==> eval(op, a, b) == eval(
            op,
            b,
            a,
        ),
        (a is Float32 || a is Float64 || b is Float32 || b is Float64) ==> {
            let ab = eval(op, a, b)->Ok_0->Compute_0;
            let ba = eval(op, b, a)->Ok_0->Compute_0;
            &&& eval(op, a, b)->Ok_0 is Compute
            &&& eval(op, b, a)->Ok_0 is Compute
            &&& ab.op == op && ba.op == op
            &&& ab.wide == ba.wide
            &&& ab.lhs == ba.rhs
            &&& ab.rhs == ba.lhs
        },
{
    match (a, b) {
        (ValueView::Int32(x), ValueView::Int32(y)) => {
            assert(x * y == y * x) by (nonlinear_arith);
        },
        (ValueView::Int32(x), ValueView::Int64(y)) => {
            assert((x as i64) * y == y * (x as i64)) by (nonlinear_arith);
        },
        (ValueView::Int64(x), ValueView::Int32(y)) => {
            assert(x * (y as i64) == (y as i64) * x) by (nonlinear_arith);
        },
        (ValueView::Int64(x), ValueView::Int64(y)) => {
            assert(x * y == y * x) by (nonlinear_arith);
        },
        _ => {},
    }
}

/// Division by zero: a number divided by an integer zero, by a
/// floating-point zero of either width and sign, or by `false`, fails.
pub proof fn lemma_division_by_zero(a: ValueView, b: ValueView)
    requires
        numeric(a),
        b == ValueView::Int32(0) || b == ValueView::Int64(0) || b == ValueView::Float32(0) || b
            == ValueView::Float32(0x8000_0000) || b == ValueView::Float64(0) || b
            == ValueView::Float64(0x8000_0000_0000_0000) || b == ValueView::False,
    ensures
        eval(BinOp::Div, a, b) == Err::<EvaluationView, ArithErrorView>(
            ArithErrorView::DivideByZero,
        ),
{
}

impl FloatBinary {
    /// The value that the work gives when the floating-point unit answers
    /// with the bit pattern `bits`: a binary64 number if the work is wide,
    /// else the binary32 number in the low 32 bits.
    pub fn complete(&self, bits: u64) -> (v: Value)
        ensures
            v@ == (if self.wide {
                ValueView::Float64(bits)
            } else {
                ValueView::Float32((bits % 0x1_0000_0000) as u32)
            }),
            result_kind(EvaluationView::Compute(*self)) == kind_of(v@),
    {
        if self.wide {
            Value::Float64(Float::new(bits))
        } else {
            Value::Float32(Float::new((bits % 0x1_0000_0000) as u32))
        }
    }
}

impl FloatConcat {
    /// The value that the work gives when the host renders the number as
    /// `rendered`.
    pub fn complete(self, rendered: &[u8]) -> (v: Value)
        ensures
            v@ == ValueView::Str(self.text@ + rendered@),
    {
        Value::Str(NString::new(self.text).add(rendered))
    }
}

impl Value {
    /// The kind of the value.
    pub fn kind(&self) -> (k: Kind)
        ensures
            k == kind_of(self@),
    {
        match self {
            Value::Null => Kind::Null,
            Value::True => Kind::True,
            Value::False => Kind::False,
            Value::Int32(_) => Kind::Int32,
            Value::Int64(_) => Kind::Int64,
            Value::Float32(_) => Kind::Float32,
            Value::Float64(_) => Kind::Float64,
            Value::Char(_) => Kind::Char,
            Value::Str(_) => Kind::Str,
        }
    }

    /// Whether the value is an integer or a floating-point number.
    pub fn isNumeric(&self) -> (r: bool)
        ensures
            r == numeric(self@),
    {
        match self {
            Value::Int32(_) | Value::Int64(_) | Value::Float32(_) | Value::Float64(_) => true,
            _ => false,
        }
    }

    /// Whether the value is an integer zero, `false`, or a floating-point
    /// zero.
    pub fn isZero(&self) -> (r: bool)
        ensures
            r == is_zero(self@),
    {
        match self {
            Value::Int32(i) => i.value() == 0,
            Value::Int64(i) => i.value() == 0,
            Value::False => true,
            Value::Float32(f) => f.isZero(),
            Value::Float64(f) => f.isZero(),
            _ => false,
        }
    }

    /// The number that stands for the value in floating-point work.
    fn scalar(&self) -> (s: Scalar)
        ensures
            s == scalar_of(self@),
    {
        match self {
            Value::Int32(i) => Scalar::Int32(i.value()),
            Value::Int64(i) => Scalar::Int64(i.value()),
            Value::Float32(f) => Scalar::Float32(f.value()),
            Value::Float64(f) => Scalar::Float64(f.value()),
            _ => Scalar::One,
        }
    }

    /// `x op y` on 32-bit integers.
    fn int32(op: BinOp, x: Int32, y: i32) -> (r: Value)
        requires
            op is Div ==> y != 0,
        ensures
            r@ == ValueView::Int32(int32_op(op, x@, y)),
    {
        Value::Int32(
            match op {
                BinOp::Add => x.add(y),
                BinOp::Sub => x.sub(y),
                BinOp::Mul => x.mul(y),
                BinOp::Div => x.div(y),
            },
        )
    }

    /// `x op y` on 64-bit integers.
    fn int64(op: BinOp, x: Int64, y: i64) -> (r: Value)
        requires
            op is Div ==> y != 0,
        ensures
            r@ == ValueView::Int64(int64_op(op, x@, y)),
    {
        Value::Int64(
            match op {
                BinOp::Add => x.add(y),
                BinOp::Sub => x.sub(y),
                BinOp::Mul => x.mul(y),
                BinOp::Div => x.div(y),
            },
        )
    }

    /// Evaluates `a op b` by the coercion lattice.
    pub fn apply(op: BinOp, a: Value, b: Value) -> (r: Result<Evaluation, ArithError>)
        ensures
            match eval(op, a@, b@) {
                Ok(e) => r is Ok && r->Ok_0@ == e,
                Err(e) => r is Err && r->Err_0@ == e,
            },
    {
        let dividing = match op {
            BinOp::Div => true,
            _ => false,
        };
        let multiplying = match op {
            BinOp::Mul => true,
            _ => false,
        };
        let adding = match op {
            BinOp::Add => true,
            _ => false,
        };
        if dividing && a.isNumeric() && b.isZero() {
            return Err(ArithError::DivideByZero);
        }
        match (a, b) {
            (Value::Int32(x), Value::Int32(y)) => Ok(
                Evaluation::Done(Value::int32(op, x, y.value())),
            ),
            (Value::Int32(x), Value::Int64(y)) => Ok(
                Evaluation::Done(Value::int64(op, x.widen(), y.value())),
            ),
            (Value::Int32(x), Value::True) => Ok(Evaluation::Done(Value::int32(op, x, 1))),
            (Value::Int32(x), Value::False) => Ok(Evaluation::Done(Value::int32(op, x, 0))),
            (Value::Int64(x), Value::Int32(y)) => Ok(
                Evaluation::Done(Value::int64(op, x, y.widen().value())),
            ),
            (Value::Int64(x), Value::Int64(y)) => Ok(
                Evaluation::Done(Value::int64(op, x, y.value())),
            ),
            (Value::Int64(x), Value::True) => Ok(Evaluation::Done(Value::int64(op, x, 1))),
            (Value::Int64(x), Value::False) => Ok(Evaluation::Done(Value::int64(op, x, 0))),
            (Value::Float32(x), Value::False) => Ok(
                Evaluation::Done(
                    Value::Float32(if multiplying { Float::new(0) } else { x }),
                ),
            ),
            (Value::Float64(x), Value::False) => Ok(
                Evaluation::Done(
                    Value::Float64(if multiplying { Float::new(0) } else { x }),
                ),
            ),
            (Value::Str(s), b) => {
                let null = match b {
                    Value::Null => true,
                    _ => false,
                };
                if adding && !null {
                    match b.to_string() {
                        Text::Plain(t) => Ok(
                            Evaluation::Done(Value::Str(s.add(t.as_slice()))),
                        ),
                        _ => Ok(
                            Evaluation::Concat(
                                FloatConcat { text: s.value(), number: b.scalar() },
                            ),
                        ),
                    }
                } else {
                    Err(ArithError::InvalidOperation(op, Value::Str(s), b))
                }
            },
            (a, b) => {
                let truth = match b {
                    Value::True => true,
                    _ => false,
                };
                if a.isNumeric() && (b.isNumeric() || truth) {
                    let narrow = match (&a, &b) {
                        (Value::Float32(_), Value::Float32(_)) => true,
                        (Value::Float32(_), Value::True) => true,
                        _ => false,
                    };
                    Ok(
                        Evaluation::Compute(
                            FloatBinary { op, wide: !narrow, lhs: a.scalar(), rhs: b.scalar() },
                        ),
                    )
                } else {
                    Err(ArithError::InvalidOperation(op, a, b))
                }
            },
        }
    }

    /// `self + rhs`.
    pub fn add(self, rhs: Self) -> (r: Result<Evaluation, ArithError>)
        ensures
            match eval(BinOp::Add, self@, rhs@) {
                Ok(e) => r is Ok && r->Ok_0@ == e,
                Err(e) => r is Err && r->Err_0@ == e,
            },
    {
        Value::apply(BinOp::Add, self, rhs)
    }

    /// `self - rhs`.
    pub fn sub(self, rhs: Self) -> (r: Result<Evaluation, ArithError>)
        ensures
            match eval(BinOp::Sub, self@, rhs@) {
                Ok(e) => r is Ok && r->Ok_0@ == e,
                Err(e) => r is Err && r->Err_0@ == e,
            },
    {
        Value::apply(BinOp::Sub, self, rhs)
    }

    /// `self * rhs`.
    pub fn mul(self, rhs: Self) -> (r: Result<Evaluation, ArithError>)
        ensures
            match eval(BinOp::Mul, self@, rhs@) {
                Ok(e) => r is Ok && r->Ok_0@ == e,
                Err(e) => r is Err && r->Err_0@ == e,
            },
    {
        Value::apply(BinOp::Mul, self, rhs)
    }

    /// `self / rhs`.
    pub fn div(self, rhs: Self) -> (r: Result<Evaluation, ArithError>)
        ensures
            match eval(BinOp::Div, self@, rhs@) {
                Ok(e) => r is Ok && r->Ok_0@ == e,
                Err(e) => r is Err && r->Err_0@ == e,
            },
    {
        Value::apply(BinOp::Div, self, rhs)
    }
}

/// How an operator is written between its operands in a message.
pub open spec fn operator_text(op: BinOp) -> &'static str {
    match op {
        BinOp::Add => " + ",
        BinOp::Sub => " - ",
        BinOp::Mul => " * ",
        BinOp::Div => " / ",
    }
}

/// The message of an arithmetic error, in parts: `cannot divide by 0`, or
/// `invalid operation`, the left operand, the operator and the right
/// operand. An operand is rendered as a value is.
pub open spec fn arith_message(e: ArithErrorView) -> Seq<TextView> {
    match e {
        ArithErrorView::DivideByZero => seq![plain("cannot divide by 0")],
        ArithErrorView::InvalidOperation(op, a, b) => seq![
            plain("invalid operation "),
            rendering(a),
            plain(operator_text(op)),
            rendering(b),
        ],
    }
}

impl ArithError {
    /// The message of the error, in parts.
    pub fn message(&self) -> (m: Vec<Text>)
        ensures
            text_views(m@) == arith_message(self@),
    {
        let mut m: Vec<Text> = Vec::new();
        match self {
            ArithError::DivideByZero => {
                m.push(Text::of("cannot divide by 0"));
            },
            ArithError::InvalidOperation(op, a, b) => {
                m.push(Text::of("invalid operation "));
                m.push(a.to_string());
                m.push(
                    match op {
                        BinOp::Add => Text::of(" + "),
                        BinOp::Sub => Text::of(" - "),
                        BinOp::Mul => Text::of(" * "),
                        BinOp::Div => Text::of(" / "),
                    },
                );
                m.push(b.to_string());
            },
        }
        assert(text_views(m@) =~= arith_message(self@));
        m
    }
}

} // verus!
