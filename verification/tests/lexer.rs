use nyooom_vm::token::keyword::{Keyword, NotAKeyword};
use nyooom_vm::token::symbol::Symbol;
use nyooom_vm::token::tokenkind::{LexError, NotPunctuation, TokenKind};
use nyooom_vm::token::{Token, TokenValue};
use nyooom_vm::tokenizer::{Stream, TokenizeError, Tokenizer};

fn lex(s: &[u8]) -> Result<Vec<Token>, TokenizeError> {
    Tokenizer::tokenize(Stream::new(s))
}

/// The tokens, whether the tokenization failed or not.
fn all(s: &[u8]) -> Vec<Token> {
    match lex(s) {
        Ok(tokens) => tokens,
        Err(e) => e.tokens,
    }
}

fn kinds(s: &str) -> Vec<TokenKind> {
    all(s.as_bytes()).iter().map(|t| t.kind()).collect()
}

fn sym(s: Symbol, line: u16) -> Token {
    Token::new(TokenKind::Symbol(s), TokenValue::Empty, line)
}

fn eof(line: u16) -> Token {
    Token::new(TokenKind::EOF, TokenValue::Empty, line)
}

fn ident(name: &str, line: u16) -> Token {
    Token::new(TokenKind::Identifier, TokenValue::Identifier(name.as_bytes().to_vec()), line)
}

fn whole(v: isize, line: u16) -> Token {
    Token::new(TokenKind::Int, TokenValue::Int(v), line)
}

fn fault(e: LexError, line: u16) -> Token {
    Token::new(TokenKind::Error(e), TokenValue::Error, line)
}

fn inputs() -> Vec<Vec<u8>> {
    let mut all: Vec<Vec<u8>> = [
        "",
        "\n",
        "\n\n\n",
        "let x = 1;\nprint x;\n",
        "'\n'\n",
        "'a\n'b'",
        "\"a\nb\"\n",
        "\"unterminated\n\n",
        "// comment\nx",
        "// comment without end",
        "/* a \n b \n */ c",
        "/* /* nested \n */ \n */ d",
        "/* open \n\n",
        "@ # $ \n ~",
        "'\\q'\n'",
        "'\\\n",
        "\"\\\n\"",
        "1.5.2\n.\n",
        "a\r\n\tb\r\n",
        "99999999999999999999999999 \n 1",
        "&& || & |",
        "'",
        "\"",
        "'\\",
        "\"\\",
        "/",
        "/*",
        "//",
        "'''",
        "''",
        "'a",
        "0\0\n",
        "// a\0b\nc",
    ]
    .iter()
    .map(|s| s.as_bytes().to_vec())
    .collect();
    all.push(vec![0xff, 0xfe, b'\n', 0x80]);
    all.push((0u8..=255).collect());
    all.push((0u8..=255).rev().collect());
    all
}

#[test]
fn last_token_and_no_other_ends_the_input() {
    for input in inputs() {
        let tokens = all(&input);
        assert!(!tokens.is_empty());
        assert_eq!(tokens.last().unwrap().kind(), TokenKind::EOF);
        assert_eq!(tokens.last().unwrap().value(), TokenValue::Empty);
        for t in &tokens[..tokens.len() - 1] {
            assert_ne!(t.kind(), TokenKind::EOF);
        }
    }
}

#[test]
fn failure_means_a_fault_among_the_tokens() {
    for input in inputs() {
        match lex(&input) {
            Ok(tokens) => {
                assert!(tokens.iter().all(|t| !matches!(t.kind(), TokenKind::Error(_))))
            }
            Err(e) => {
                assert!(e.tokens.iter().any(|t| matches!(t.kind(), TokenKind::Error(_))))
            }
        }
    }
}

#[test]
fn faults_carry_the_error_value() {
    for input in inputs() {
        for t in all(&input) {
            if matches!(t.kind(), TokenKind::Error(_)) {
                assert_eq!(t.value(), TokenValue::Error);
            }
        }
    }
}

#[test]
fn end_of_input_line_counts_newlines() {
    assert_eq!(all(b"").last().unwrap().line(), 1);
    assert_eq!(all(b"\n").last().unwrap().line(), 2);
    assert_eq!(all(b"\n\n\n").last().unwrap().line(), 4);
    assert_eq!(all(b"let x = 1;\nprint x;\n").last().unwrap().line(), 3);
    assert_eq!(all(b"\"a\nb\"\n").last().unwrap().line(), 3);
    assert_eq!(all(b"// comment\nx").last().unwrap().line(), 2);
    assert_eq!(all(b"/* a \n b \n */ c").last().unwrap().line(), 3);
    assert_eq!(all(b"/* /* nested \n */ \n */ d").last().unwrap().line(), 3);
    assert_eq!(all(b"/* open \n\n").last().unwrap().line(), 3);
    assert_eq!(all(b"\"unterminated\n\n").last().unwrap().line(), 3);
    assert_eq!(all(b"\"\\\n\"").last().unwrap().line(), 2);
    assert_eq!(all(b"a\r\n\tb\r\n").last().unwrap().line(), 3);
}

#[test]
fn newlines_in_character_literals_do_not_count() {
    assert_eq!(all(b"'\n'").last().unwrap().line(), 1);
    assert_eq!(all(b"'\n'\n").last().unwrap().line(), 2);
    assert_eq!(all(b"'a\n'b'").last().unwrap().line(), 1);
    assert_eq!(all(b"'\\q\n").last().unwrap().line(), 1);
    assert_eq!(all(b"'\\\n").last().unwrap().line(), 1);
}

#[test]
fn line_count_without_character_literals_is_the_newline_count() {
    for input in inputs() {
        if input.contains(&b'\'') {
            continue;
        }
        let newlines = input.iter().filter(|b| **b == b'\n').count();
        assert_eq!(all(&input).last().unwrap().line() as usize, 1 + newlines);
    }
}

#[test]
fn line_counter_wraps_at_sixteen_bits() {
    let many = vec![b'\n'; 65534];
    assert_eq!(all(&many).last().unwrap().line(), 65535);
    let more = vec![b'\n'; 65535];
    assert_eq!(all(&more).last().unwrap().line(), 0);
    let most = vec![b'\n'; 65536 + 4];
    assert_eq!(all(&most).last().unwrap().line(), 5);
}

#[test]
fn tokens_stand_on_their_lines() {
    assert_eq!(
        lex(b"a\nb\n\nc").unwrap(),
        vec![ident("a", 1), ident("b", 2), ident("c", 4), eof(4)]
    );
}

#[test]
fn numbers() {
    assert_eq!(lex(b"0").unwrap(), vec![whole(0, 1), eof(1)]);
    assert_eq!(lex(b"007").unwrap(), vec![whole(7, 1), eof(1)]);
    assert_eq!(lex(b"1234567890").unwrap(), vec![whole(1234567890, 1), eof(1)]);
    assert_eq!(
        lex(isize::MAX.to_string().as_bytes()).unwrap(),
        vec![whole(isize::MAX, 1), eof(1)]
    );
    assert_eq!(
        lex(b"1.").unwrap(),
        vec![Token::new(TokenKind::Float, TokenValue::Float(b"1.".to_vec()), 1), eof(1)]
    );
    assert_eq!(
        lex(b"10.25 7").unwrap(),
        vec![
            Token::new(TokenKind::Float, TokenValue::Float(b"10.25".to_vec()), 1),
            whole(7, 1),
            eof(1)
        ]
    );
    assert_eq!(
        lex(b"1.5.2").unwrap(),
        vec![
            Token::new(TokenKind::Float, TokenValue::Float(b"1.5".to_vec()), 1),
            sym(Symbol::Dot, 1),
            whole(2, 1),
            eof(1)
        ]
    );
    assert_eq!(lex(b"-3").unwrap(), vec![sym(Symbol::Minus, 1), whole(3, 1), eof(1)]);
    assert_eq!(lex(b"1e5").unwrap(), vec![whole(1, 1), ident("e", 1), whole(5, 1), eof(1)]);
    assert_eq!(lex(b"0x1f").unwrap(), vec![whole(0, 1), ident("x", 1), whole(1, 1), ident("f", 1), eof(1)]);
}

#[test]
fn integer_too_large_is_a_fault() {
    let too_large = format!("{}", isize::MAX as u128 + 1);
    let e = lex(too_large.as_bytes()).unwrap_err();
    assert_eq!(e.tokens, vec![fault(LexError::IntegerTooLarge, 1), eof(1)]);
    let e = lex(b"99999999999999999999999999 \n 1").unwrap_err();
    assert_eq!(e.tokens, vec![fault(LexError::IntegerTooLarge, 1), whole(1, 2), eof(2)]);
}

#[test]
fn keywords_literals_and_identifiers() {
    let words = [
        ("let", Keyword::Let),
        ("if", Keyword::If),
        ("else", Keyword::Else),
        ("while", Keyword::While),
        ("do", Keyword::Do),
        ("for", Keyword::For),
        ("def", Keyword::Def),
        ("return", Keyword::Return),
        ("class", Keyword::Class),
        ("this", Keyword::This),
        ("super", Keyword::Super),
        ("print", Keyword::Print),
    ];
    for (text, keyword) in words {
        assert_eq!(
            lex(text.as_bytes()).unwrap(),
            vec![Token::new(TokenKind::Keyword, TokenValue::Keyword(keyword), 1), eof(1)]
        );
        assert_eq!(Keyword::try_from(text.as_bytes()), Ok(keyword));
        assert_eq!(keyword.text(), text.as_bytes().to_vec());
    }
    for name in ["x", "_", "_x_", "Let", "lets", "le", "nulls", "True", "printer", "FALSE"] {
        assert_eq!(lex(name.as_bytes()).unwrap(), vec![ident(name, 1), eof(1)]);
        assert_eq!(Keyword::try_from(name.as_bytes()), Err(NotAKeyword));
    }
    assert_eq!(Keyword::try_from("".as_bytes()), Err(NotAKeyword));
}

#[test]
fn digits_are_no_part_of_an_identifier() {
    assert_eq!(lex(b"x1").unwrap(), vec![ident("x", 1), whole(1, 1), eof(1)]);
    assert_eq!(lex(b"a1b").unwrap(), vec![ident("a", 1), whole(1, 1), ident("b", 1), eof(1)]);
    assert_eq!(
        lex(b"null1").unwrap(),
        vec![Token::new(TokenKind::Null, TokenValue::Null, 1), whole(1, 1), eof(1)]
    );
}

#[test]
fn punctuation() {
    let marks = [
        ('=', Symbol::Equal),
        ('!', Symbol::Bang),
        ('+', Symbol::Plus),
        ('-', Symbol::Minus),
        ('*', Symbol::Asterisk),
        ('/', Symbol::Slash),
        ('&', Symbol::Ampersand),
        ('|', Symbol::Pipe),
        ('^', Symbol::Caret),
        ('%', Symbol::Percent),
        ('<', Symbol::Lesser),
        ('>', Symbol::Greater),
        ('.', Symbol::Dot),
        (':', Symbol::Colon),
        (',', Symbol::Comma),
        (';', Symbol::Semicolon),
        ('(', Symbol::LParen),
        (')', Symbol::RParen),
        ('{', Symbol::LBrace),
        ('}', Symbol::RBrace),
        ('[', Symbol::LBracket),
        (']', Symbol::RBracket),
    ];
    for (c, s) in marks {
        assert_eq!(lex(c.to_string().as_bytes()).unwrap(), vec![sym(s, 1), eof(1)]);
        assert_eq!(TokenKind::try_from(c), Ok(TokenKind::Symbol(s)));
        assert_eq!(TokenKind::try_from(c as u8), Ok(TokenKind::Symbol(s)));
        assert_eq!(TokenKind::try_from(c.to_string().as_bytes()), Ok(TokenKind::Symbol(s)));
        assert_eq!(Symbol::of(c as u8), Some(s));
    }
    for c in ['a', '0', ' ', '\n', '"', '\'', '@', '#', '$', '~', '\\', '?', 'é'] {
        assert_eq!(TokenKind::try_from(c), Err(NotPunctuation));
    }
    assert_eq!(TokenKind::try_from(0u8), Err(NotPunctuation));
    assert_eq!(TokenKind::try_from(200u8), Err(NotPunctuation));
    assert_eq!(
        TokenKind::try_from("&&".as_bytes()),
        Ok(TokenKind::Compound(Symbol::Ampersand, Symbol::Ampersand))
    );
    assert_eq!(
        TokenKind::try_from("||".as_bytes()),
        Ok(TokenKind::Compound(Symbol::Pipe, Symbol::Pipe))
    );
    for text in ["", "==", "&|", "&&&", "ab", "a"] {
        assert_eq!(TokenKind::try_from(text.as_bytes()), Err(NotPunctuation));
    }
}

#[test]
fn compound_tokens() {
    let and = Token::new(
        TokenKind::Compound(Symbol::Ampersand, Symbol::Ampersand),
        TokenValue::Empty,
        1,
    );
    let or = Token::new(TokenKind::Compound(Symbol::Pipe, Symbol::Pipe), TokenValue::Empty, 1);
    assert_eq!(lex(b"&&").unwrap(), vec![and.clone(), eof(1)]);
    assert_eq!(lex(b"||").unwrap(), vec![or.clone(), eof(1)]);
    assert_eq!(lex(b"&&&").unwrap(), vec![and.clone(), sym(Symbol::Ampersand, 1), eof(1)]);
    assert_eq!(
        lex(b"& & | &|").unwrap(),
        vec![
            sym(Symbol::Ampersand, 1),
            sym(Symbol::Ampersand, 1),
            sym(Symbol::Pipe, 1),
            sym(Symbol::Ampersand, 1),
            sym(Symbol::Pipe, 1),
            eof(1)
        ]
    );
    assert_eq!(
        lex(b"a&&b||c").unwrap(),
        vec![ident("a", 1), and, ident("b", 1), or, ident("c", 1), eof(1)]
    );
    assert_eq!(
        lex(b"==").unwrap(),
        vec![sym(Symbol::Equal, 1), sym(Symbol::Equal, 1), eof(1)]
    );
}

#[test]
fn character_literals() {
    let chr = |c: char| vec![Token::new(TokenKind::Char, TokenValue::Char(c), 1), eof(1)];
    assert_eq!(lex(b"'a'").unwrap(), chr('a'));
    assert_eq!(lex(b"' '").unwrap(), chr(' '));
    assert_eq!(lex(b"'\"'").unwrap(), chr('"'));
    assert_eq!(lex(b"'''").unwrap(), chr('\''));
    assert_eq!(lex(b"'\\0'").unwrap(), chr('\0'));
    assert_eq!(lex(b"'\\n'").unwrap(), chr('\n'));
    assert_eq!(lex(b"'\\r'").unwrap(), chr('\r'));
    assert_eq!(lex(b"'\\t'").unwrap(), chr('\t'));
    assert_eq!(lex(b"'\\''").unwrap(), chr('\''));
    assert_eq!(lex(b"'\\\\'").unwrap(), chr('\\'));
    assert_eq!(lex(&[b'\'', 0xe9, b'\'']).unwrap(), chr('\u{e9}'));
}

#[test]
fn character_literal_faults() {
    assert_eq!(lex(b"'").unwrap_err().tokens, vec![fault(LexError::CharExpected, 1), eof(1)]);
    assert_eq!(lex(b"'\\").unwrap_err().tokens, vec![fault(LexError::CharExpected, 1), eof(1)]);
    assert_eq!(
        lex(b"'a").unwrap_err().tokens,
        vec![fault(LexError::ClosingQuoteExpected, 1), eof(1)]
    );
    assert_eq!(
        lex(b"''").unwrap_err().tokens,
        vec![fault(LexError::ClosingQuoteExpected, 1), eof(1)]
    );
    assert_eq!(
        lex(b"'\\n").unwrap_err().tokens,
        vec![fault(LexError::ClosingQuoteExpected, 1), eof(1)]
    );
    assert_eq!(
        lex(b"'ab' c").unwrap_err().tokens,
        vec![
            fault(LexError::ClosingQuoteMissing(b'b'), 1),
            fault(LexError::ClosingQuoteMissing(b'c'), 1),
            eof(1)
        ]
    );
    assert_eq!(
        lex(b"'a+ b").unwrap_err().tokens,
        vec![fault(LexError::ClosingQuoteMissing(b'+'), 1), ident("b", 1), eof(1)]
    );
    assert_eq!(
        lex(b"'\\q").unwrap_err().tokens,
        vec![fault(LexError::ClosingQuoteExpected, 1), eof(1)]
    );
    assert_eq!(
        lex(b"'\\qz b").unwrap_err().tokens,
        vec![fault(LexError::InvalidEscapedChar(b'q'), 1), ident("b", 1), eof(1)]
    );
    assert_eq!(
        lex(b"'\\q'").unwrap_err().tokens,
        vec![fault(LexError::InvalidEscapedChar(b'q'), 1), eof(1)]
    );
    assert_eq!(
        lex(b"'\\q'ab").unwrap_err().tokens,
        vec![fault(LexError::InvalidEscapedChar(b'q'), 1), ident("b", 1), eof(1)]
    );
}

#[test]
fn string_literals() {
    let string = |s: &[u8], line: u16| {
        vec![Token::new(TokenKind::Str, TokenValue::Str(s.to_vec()), line), eof(line)]
    };
    assert_eq!(lex(b"\"\"").unwrap(), string(b"", 1));
    assert_eq!(lex(b"\"a b\"").unwrap(), string(b"a b", 1));
    assert_eq!(lex(b"\"it's\"").unwrap(), string(b"it's", 1));
    assert_eq!(lex(b"\"// no comment\"").unwrap(), string(b"// no comment", 1));
    assert_eq!(lex(b"\"\\0\\n\\r\\t\\\"\\\\\"").unwrap(), string(b"\0\n\r\t\"\\", 1));
    assert_eq!(lex(b"\"\\a\\b\\f\\v\"").unwrap(), string(b"\\a\\b\\f\\v", 1));
    assert_eq!(lex(b"\"a\nb\"").unwrap(), string(b"a\nb", 2));
    assert_eq!(lex(b"\"\n\n\"").unwrap(), string(b"\n\n", 3));
    assert_eq!(lex(&[b'"', 0xc3, 0xa9, 0xff, b'"']).unwrap(), string(&[0xc3, 0xa9, 0xff], 1));
    assert_eq!(
        lex(b"\"a\"\"b\"").unwrap(),
        vec![
            Token::new(TokenKind::Str, TokenValue::Str(b"a".to_vec()), 1),
            Token::new(TokenKind::Str, TokenValue::Str(b"b".to_vec()), 1),
            eof(1)
        ]
    );
}

#[test]
fn string_literal_faults() {
    assert_eq!(
        lex(b"\"").unwrap_err().tokens,
        vec![fault(LexError::UnterminatedString, 1), eof(1)]
    );
    assert_eq!(
        lex(b"\"abc\n").unwrap_err().tokens,
        vec![fault(LexError::UnterminatedString, 2), eof(2)]
    );
    assert_eq!(
        lex(b"\"abc\\").unwrap_err().tokens,
        vec![fault(LexError::EscapeExpected, 1), eof(1)]
    );
    assert_eq!(
        lex(b"\"a\\qb\" c").unwrap_err().tokens,
        vec![
            fault(LexError::InvalidEscapeSequence(b'q'), 1),
            ident("b", 1),
            fault(LexError::UnterminatedString, 1),
            eof(1)
        ]
    );
    assert_eq!(
        lex(b"\"\\x41\" z").unwrap_err().tokens,
        vec![
            fault(LexError::UnsupportedEscape, 1),
            whole(41, 1),
            fault(LexError::UnterminatedString, 1),
            eof(1)
        ]
    );
    assert_eq!(
        lex(b"\"\\\nz").unwrap_err().tokens,
        vec![fault(LexError::InvalidEscapeSequence(b'\n'), 2), ident("z", 2), eof(2)]
    );
}

#[test]
fn comments() {
    assert_eq!(lex(b"// nothing here").unwrap(), vec![eof(1)]);
    assert_eq!(lex(b"a // b\nc").unwrap(), vec![ident("a", 1), ident("c", 2), eof(2)]);
    assert_eq!(lex(b"a /// b\n").unwrap(), vec![ident("a", 1), eof(2)]);
    assert_eq!(lex(b"// a\0b").unwrap(), vec![eof(1)]);
    assert_eq!(lex(b"// a\0b\nc").unwrap(), vec![ident("c", 2), eof(2)]);
    assert_eq!(
        lex(b"//\0\0\n\0").unwrap_err().tokens,
        vec![fault(LexError::InvalidCharacter(0), 2), eof(2)]
    );
    assert_eq!(lex(b"a /* b */ c").unwrap(), vec![ident("a", 1), ident("c", 1), eof(1)]);
    assert_eq!(lex(b"/**/x").unwrap(), vec![ident("x", 1), eof(1)]);
    assert_eq!(lex(b"/*a*/x").unwrap(), vec![ident("x", 1), eof(1)]);
    assert_eq!(lex(b"/* a*/x").unwrap(), vec![ident("x", 1), eof(1)]);
    assert_eq!(lex(b"/***/x").unwrap(), vec![ident("x", 1), eof(1)]);
    assert_eq!(lex(b"/* / * */x").unwrap(), vec![ident("x", 1), eof(1)]);
    assert_eq!(lex(b"/* /* */ y */ x").unwrap(), vec![ident("x", 1), eof(1)]);
    assert_eq!(lex(b"/*/**//**/*/x").unwrap(), vec![ident("x", 1), eof(1)]);
    assert_eq!(lex(b"/* // */ x").unwrap(), vec![ident("x", 1), eof(1)]);
    assert_eq!(lex(b"/* \" */ x").unwrap(), vec![ident("x", 1), eof(1)]);
    assert_eq!(lex(b"/*\n\n*/x").unwrap(), vec![ident("x", 3), eof(3)]);
    assert_eq!(
        lex(b"a / b").unwrap(),
        vec![ident("a", 1), sym(Symbol::Slash, 1), ident("b", 1), eof(1)]
    );
    assert_eq!(
        lex(b"a */ b").unwrap(),
        vec![ident("a", 1), sym(Symbol::Asterisk, 1), sym(Symbol::Slash, 1), ident("b", 1), eof(1)]
    );
}

#[test]
fn comment_faults() {
    assert_eq!(
        lex(b"/*").unwrap_err().tokens,
        vec![fault(LexError::UnterminatedComment, 1), eof(1)]
    );
    assert_eq!(
        lex(b"a /* b").unwrap_err().tokens,
        vec![ident("a", 1), fault(LexError::UnterminatedComment, 1), eof(1)]
    );
    assert_eq!(
        lex(b"/* /* */ x").unwrap_err().tokens,
        vec![fault(LexError::UnterminatedComment, 1), eof(1)]
    );
    assert_eq!(
        lex(b"/*/").unwrap_err().tokens,
        vec![fault(LexError::UnterminatedComment, 1), eof(1)]
    );
    assert_eq!(
        lex(b"/* \n *").unwrap_err().tokens,
        vec![fault(LexError::UnterminatedComment, 2), eof(2)]
    );
}

#[test]
fn blank_space_is_passed_over() {
    assert_eq!(lex(b" \t\r ").unwrap(), vec![eof(1)]);
    assert_eq!(lex(b" a\t b\r").unwrap(), vec![ident("a", 1), ident("b", 1), eof(1)]);
}

#[test]
fn invalid_bytes_are_faults_and_the_scan_goes_on() {
    assert_eq!(
        lex(b"@").unwrap_err().tokens,
        vec![fault(LexError::InvalidCharacter(b'@'), 1), eof(1)]
    );
    assert_eq!(
        lex(b"a # b\n$ c").unwrap_err().tokens,
        vec![
            ident("a", 1),
            fault(LexError::InvalidCharacter(b'#'), 1),
            ident("b", 1),
            fault(LexError::InvalidCharacter(b'$'), 2),
            ident("c", 2),
            eof(2)
        ]
    );
    assert_eq!(
        lex(&[0, 0x7f, 0x80, 0xff]).unwrap_err().tokens,
        vec![
            fault(LexError::InvalidCharacter(0), 1),
            fault(LexError::InvalidCharacter(0x7f), 1),
            fault(LexError::InvalidCharacter(0x80), 1),
            fault(LexError::InvalidCharacter(0xff), 1),
            eof(1)
        ]
    );
    assert_eq!(
        lex(b"\\ ? ` ~").unwrap_err().tokens,
        vec![
            fault(LexError::InvalidCharacter(b'\\'), 1),
            fault(LexError::InvalidCharacter(b'?'), 1),
            fault(LexError::InvalidCharacter(b'`'), 1),
            fault(LexError::InvalidCharacter(b'~'), 1),
            eof(1)
        ]
    );
}

#[test]
fn a_small_program() {
    assert_eq!(
        kinds("let x = 2 + 40; // answer\nprint(x * 1.5);"),
        vec![
            TokenKind::Keyword,
            TokenKind::Identifier,
            TokenKind::Symbol(Symbol::Equal),
            TokenKind::Int,
            TokenKind::Symbol(Symbol::Plus),
            TokenKind::Int,
            TokenKind::Symbol(Symbol::Semicolon),
            TokenKind::Keyword,
            TokenKind::Symbol(Symbol::LParen),
            TokenKind::Identifier,
            TokenKind::Symbol(Symbol::Asterisk),
            TokenKind::Float,
            TokenKind::Symbol(Symbol::RParen),
            TokenKind::Symbol(Symbol::Semicolon),
            TokenKind::EOF,
        ]
    );
}

#[test]
fn tokenizing_from_the_middle_of_a_stream() {
    let source = b"ab cd";
    let mut stream = Stream::new(source);
    assert_eq!(stream.position(), 0);
    assert_eq!(stream.peek(), Some(b'a'));
    assert_eq!(stream.next(), Some(b'a'));
    assert_eq!(stream.next(), Some(b'b'));
    assert_eq!(stream.position(), 2);
    assert_eq!(Tokenizer::tokenize(stream).unwrap(), vec![ident("cd", 1), eof(1)]);
    let mut end = Stream::new(b"");
    assert_eq!(end.peek(), None);
    assert_eq!(end.next(), None);
    assert_eq!(end.position(), 0);
}

#[test]
fn tokens_one_at_a_time() {
    let mut tokenizer = Tokenizer::new();
    let mut stream = Stream::new(b"  a\n/* c */ 'x' @ 1");
    assert_eq!(tokenizer.makeToken(&mut stream), Ok(ident("a", 1)));
    assert_eq!(
        tokenizer.makeToken(&mut stream),
        Ok(Token::new(TokenKind::Char, TokenValue::Char('x'), 2))
    );
    assert_eq!(tokenizer.makeToken(&mut stream), Err(LexError::InvalidCharacter(b'@')));
    assert_eq!(tokenizer.makeToken(&mut stream), Ok(whole(1, 2)));
    assert_eq!(tokenizer.makeToken(&mut stream), Ok(eof(2)));
    assert_eq!(tokenizer.makeToken(&mut stream), Ok(eof(2)));
}

#[test]
fn skipping_comments_directly() {
    let mut tokenizer = Tokenizer::new();
    let mut stream = Stream::new(b" rest of line\nnext");
    assert_eq!(tokenizer.skipSingleComment(&mut stream), Ok(()));
    assert_eq!(stream.position(), 14);
    assert_eq!(tokenizer.makeToken(&mut stream), Ok(ident("next", 2)));

    let mut tokenizer = Tokenizer::new();
    let mut stream = Stream::new(b"a\0b\nc");
    assert_eq!(tokenizer.skipSingleComment(&mut stream), Ok(()));
    assert_eq!(stream.position(), 4);
    assert_eq!(tokenizer.makeToken(&mut stream), Ok(ident("c", 2)));

    let mut tokenizer = Tokenizer::new();
    let mut stream = Stream::new(b"a\0b");
    assert_eq!(tokenizer.skipSingleComment(&mut stream), Ok(()));
    assert_eq!(stream.position(), 3);
    assert_eq!(tokenizer.makeToken(&mut stream), Ok(eof(1)));

    let mut tokenizer = Tokenizer::new();
    let mut stream = Stream::new(b" in /* deep \n */ side */after");
    assert_eq!(tokenizer.skipMultiComment(&mut stream), Ok(()));
    assert_eq!(tokenizer.makeToken(&mut stream), Ok(ident("after", 2)));

    let mut tokenizer = Tokenizer::new();
    let mut stream = Stream::new(b" never closed");
    assert_eq!(tokenizer.skipMultiComment(&mut stream), Err(LexError::UnterminatedComment));
    assert_eq!(stream.position(), 13);
}

#[test]
fn token_accessors() {
    let t = Token::new(TokenKind::Int, TokenValue::Int(5), 9);
    assert_eq!(t.kind(), TokenKind::Int);
    assert_eq!(t.value(), TokenValue::Int(5));
    assert_eq!(t.line(), 9);
    assert_eq!(t.clone(), t);
}
