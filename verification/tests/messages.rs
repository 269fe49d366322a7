use nyooom_vm::ast::node::LowerError;
use nyooom_vm::bytes::DecodeError;
use nyooom_vm::token::symbol::Symbol;
use nyooom_vm::token::tokenkind::{LexError, TokenKind};
use nyooom_vm::tokenizer::{Stream, Tokenizer};
use nyooom_vm::value::arith::{ArithError, BinOp};
use nyooom_vm::value::char::Char;
use nyooom_vm::value::number::{Float, Int};
use nyooom_vm::value::string::String as NString;
use nyooom_vm::value::{Text, Value};
use nyooom_vm::vm::Fault;

fn assemble(parts: Vec<Text>) -> String {
    let mut out = String::new();
    for part in parts {
        match part {
            Text::Plain(bytes) => out.push_str(&String::from_utf8(bytes).unwrap()),
            Text::Float32(bits) => out.push_str(&f32::from_bits(bits).to_string()),
            Text::Float64(bits) => out.push_str(&f64::from_bits(bits).to_string()),
        }
    }
    out
}

fn plain(bytes: Vec<u8>) -> String {
    String::from_utf8(bytes).unwrap()
}

fn text(s: &str) -> Value {
    Value::Str(NString::new(s.as_bytes().to_vec()))
}

#[test]
fn arithmetic_messages() {
    assert_eq!(assemble(ArithError::DivideByZero.message()), "cannot divide by 0");
    let cases = [
        (BinOp::Add, "invalid operation null + 5"),
        (BinOp::Sub, "invalid operation null - 5"),
        (BinOp::Mul, "invalid operation null * 5"),
        (BinOp::Div, "invalid operation null / 5"),
    ];
    for (op, expected) in cases {
        let e = ArithError::InvalidOperation(op, Value::Null, Value::Int32(Int::new(5)));
        assert_eq!(assemble(e.message()), expected);
    }
    let e = ArithError::InvalidOperation(
        BinOp::Sub,
        text("abc"),
        Value::Float64(Float::new(1.5f64.to_bits())),
    );
    assert_eq!(assemble(e.message()), "invalid operation abc - 1.5");
    let e = ArithError::InvalidOperation(BinOp::Add, Value::True, Value::Char(Char::new('x')));
    assert_eq!(assemble(e.message()), "invalid operation true + x");
    let e = Value::False.div(Value::Int64(Int::new(-3))).unwrap_err();
    assert_eq!(assemble(e.message()), "invalid operation false / -3");
}

#[test]
fn machine_messages() {
    assert_eq!(assemble(Fault::StackUnderflow.message()), "stack is empty");
    assert_eq!(
        assemble(Fault::MissingHalt.message()),
        "program exited without HALT instruction!"
    );
    assert_eq!(
        assemble(Fault::Arithmetic(ArithError::DivideByZero).message()),
        "cannot divide by 0"
    );
    assert_eq!(
        assemble(Fault::ExitCode(Value::Float64(Float::new(1.5f64.to_bits()))).message()),
        "cannot use 1.5 as exit code"
    );
    assert_eq!(assemble(Fault::ExitCode(Value::Null).message()), "cannot use null as exit code");
    assert_eq!(assemble(Fault::ExitCode(text("7")).message()), "cannot use 7 as exit code");
    assert_eq!(
        assemble(Fault::Decode(DecodeError::UnknownOpcode(0x42)).message()),
        "invalid instruction: 42"
    );
    assert_eq!(
        assemble(Fault::Decode(DecodeError::UnexpectedEnd).message()),
        "unexpected end of bytecode"
    );
}

#[test]
fn decoding_messages() {
    assert_eq!(plain(DecodeError::UnexpectedEnd.message()), "unexpected end of bytecode");
    for b in [0u8, 1, 9, 10, 15, 16, 0x1f, 0x6e, 0x99, 0xa0, 0xff] {
        assert_eq!(
            plain(DecodeError::UnknownOpcode(b).message()),
            format!("invalid instruction: {:x}", b)
        );
    }
}

#[test]
fn tokenizing_messages() {
    let cases = [
        (LexError::InvalidCharacter(b'@'), "invalid character @"),
        (LexError::CharExpected, "expected char, found EOF"),
        (LexError::ClosingQuoteExpected, "expected closing quote, found EOF"),
        (LexError::ClosingQuoteMissing(b'z'), "expected closing quote, got 'z'"),
        (LexError::InvalidEscapedChar(b'q'), "invalid escaped char '\\q'"),
        (LexError::EscapeExpected, "unexpected EOF"),
        (LexError::InvalidEscapeSequence(b'q'), "invalid escape sequence in string: '\\q'"),
        (LexError::UnsupportedEscape, "ascii escape not supported"),
        (LexError::UnterminatedString, "unterminated string"),
        (LexError::UnterminatedComment, "unterminated multi-line comment"),
        (LexError::IntegerTooLarge, "failed to parse int"),
    ];
    for (e, expected) in cases {
        assert_eq!(plain(e.message()), expected);
    }
    assert_eq!(
        plain(LexError::InvalidCharacter(0xe9).message()),
        format!("invalid character {}", 0xe9 as char)
    );
    let failure = Tokenizer::tokenize(Stream::new(b"#")).unwrap_err();
    assert_eq!(plain(failure.message()), "failed to tokenize");
}

#[test]
fn lowering_messages() {
    assert_eq!(
        plain(LowerError::OperatorNotImplemented(TokenKind::Symbol(Symbol::Percent)).message()),
        "binary operator not yet implemented: %"
    );
    assert_eq!(
        plain(
            LowerError::OperatorNotImplemented(TokenKind::Compound(Symbol::Bang, Symbol::Equal))
                .message()
        ),
        "binary operator not yet implemented: !="
    );
    assert_eq!(
        plain(LowerError::InvalidOperator(TokenKind::Symbol(Symbol::LBrace)).message()),
        "invalid binary operator {"
    );
    assert_eq!(
        plain(LowerError::InvalidOperator(TokenKind::Identifier).message()),
        "invalid binary operator identifier"
    );
    assert_eq!(plain(LowerError::NodeNotImplemented.message()), "not yet implemented");
}

#[test]
fn names_of_token_kinds() {
    let cases = [
        (TokenKind::Null, "null"),
        (TokenKind::Bool, "bool"),
        (TokenKind::Int, "int"),
        (TokenKind::Float, "float"),
        (TokenKind::Char, "char"),
        (TokenKind::Str, "string"),
        (TokenKind::Keyword, "keyword"),
        (TokenKind::Identifier, "identifier"),
        (TokenKind::Symbol(Symbol::Plus), "+"),
        (TokenKind::Compound(Symbol::Ampersand, Symbol::Ampersand), "&&"),
        (TokenKind::EOF, "EOF"),
        (TokenKind::Error(LexError::CharExpected), "error"),
    ];
    for (kind, expected) in cases {
        assert_eq!(plain(kind.name()), expected);
    }
}

#[test]
fn marks_and_symbols_agree() {
    for b in 0u8..=255 {
        if let Some(s) = Symbol::of(b) {
            assert_eq!(s.mark(), b);
        }
    }
    let all = [
        Symbol::Equal,
        Symbol::Bang,
        Symbol::Plus,
        Symbol::Minus,
        Symbol::Asterisk,
        Symbol::Slash,
        Symbol::Ampersand,
        Symbol::Pipe,
        Symbol::Caret,
        Symbol::Percent,
        Symbol::Lesser,
        Symbol::Greater,
        Symbol::Dot,
        Symbol::Colon,
        Symbol::Comma,
        Symbol::Semicolon,
        Symbol::LParen,
        Symbol::RParen,
        Symbol::LBrace,
        Symbol::RBrace,
        Symbol::LBracket,
        Symbol::RBracket,
    ];
    for s in all {
        assert_eq!(Symbol::of(s.mark()), Some(s));
    }
}
