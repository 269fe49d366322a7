use nyooom_vm::token::tokenkind::TokenKind;
use nyooom_vm::token::{Token, TokenValue};
use nyooom_vm::tokenizer::{Stream, TokenizeError, Tokenizer};

type R = Result<(), TokenizeError>;

fn t(s: &str) -> Result<Vec<Token>, TokenizeError> {
    Tokenizer::tokenize(Stream::new(s.as_bytes()))
}

#[test]
fn test_empty() -> R {
    assert_eq!(t("")?, vec![Token::new(TokenKind::EOF, TokenValue::Empty, 1)]);

    Ok(())
}

#[test]
fn test_null() -> R {
    assert_eq!(
        t("null")?,
        vec![
            Token::new(TokenKind::Null, TokenValue::Null, 1),
            Token::new(TokenKind::EOF, TokenValue::Empty, 1)
        ]
    );

    Ok(())
}

#[test]
fn test_bool() -> R {
    assert_eq!(
        t("true")?,
        vec![
            Token::new(TokenKind::Bool, TokenValue::True, 1),
            Token::new(TokenKind::EOF, TokenValue::Empty, 1)
        ]
    );
    assert_eq!(
        t("false")?,
        vec![
            Token::new(TokenKind::Bool, TokenValue::False, 1),
            Token::new(TokenKind::EOF, TokenValue::Empty, 1)
        ]
    );

    Ok(())
}

#[test]
fn test_int() -> R {
    assert_eq!(
        t("42")?,
        vec![
            Token::new(TokenKind::Int, TokenValue::Int(42), 1),
            Token::new(TokenKind::EOF, TokenValue::Empty, 1)
        ]
    );

    Ok(())
}

#[test]
fn test_float() -> R {
    let tokens = t("3.14159")?;
    assert_eq!(
        tokens,
        vec![
            Token::new(TokenKind::Float, TokenValue::Float("3.14159".as_bytes().to_vec()), 1),
            Token::new(TokenKind::EOF, TokenValue::Empty, 1)
        ]
    );
    match tokens[0].value() {
        TokenValue::Float(text) => {
            let number: f64 = String::from_utf8(text).unwrap().parse().unwrap();
            assert_eq!(number, 3.14159);
        }
        other => panic!("not a float: {:?}", other),
    }

    Ok(())
}

#[test]
fn test_char() -> R {
    for c in ['a', '\n', '\0'] {
        assert_eq!(
            t(format!("'{}'", &c).as_str())?,
            vec![
                Token::new(TokenKind::Char, TokenValue::Char(c), 1),
                Token::new(TokenKind::EOF, TokenValue::Empty, 1)
            ]
        )
    }

    Ok(())
}

#[test]
fn test_string() -> R {
    for s in ["", "Hello World!", "true"] {
        assert_eq!(
            t(format!("{:?}", &s).as_str())?,
            vec![
                Token::new(TokenKind::Str, TokenValue::Str(s.as_bytes().to_vec()), 1),
                Token::new(TokenKind::EOF, TokenValue::Empty, 1)
            ]
        )
    }

    Ok(())
}
