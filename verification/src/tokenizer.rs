//! The tokenizer: from source text to tokens.

use vstd::prelude::*;
use vstd::string::StringSliceAdditionalSpecFns;
use crate::bytes::sameBytes;
use crate::token::keyword::Keyword;
use crate::token::symbol::Symbol;
use crate::token::tokenkind::{LexError, TokenKind};
use crate::token::{Token, TokenLine, TokenValue, TokenView};
use crate::tokenizer::grammar::{
    advance, block_comment_end, decimal_value, digits_end, has_fault, is_digit, is_word_byte,
    line_comment_end, line_plus, newlines, next_lexeme, scan_char, scan_number,
    scan_punctuation, scan_string, scan_word, token_of, tokens_from, word_end, Found,
};
use crate::tokenizer::laws::{
    counted_newlines, lemma_digits_end, lemma_digits_end_from, lemma_last_line,
    lemma_line_comment_shape, lemma_line_plus, lemma_newlines_one, lemma_newlines_split, lemma_next_lexeme,
    lemma_no_newlines, lemma_scan_moves, lemma_tokens_end, lemma_word_end,
    lemma_word_end_from,
};
use crate::value::text::textBytes;

pub mod grammar;
pub mod laws;

verus! {

/// The source text and a position in it. Reading moves the position
/// forward, never past the end.
pub struct Stream<'a> {
    bytes: &'a [u8],
    pos: usize,
}

impl<'a> Stream<'a> {
    #[verifier::type_invariant]
    closed spec fn inside(self) -> bool {
        self.pos <= self.bytes@.len()
    }

    /// The whole text.
    pub closed spec fn source(&self) -> Seq<u8> {
        self.bytes@
    }

    /// The position of the next byte to read.
    pub closed spec fn offset(&self) -> int {
        self.pos as int
    }

    /// The position of the next byte to read. It is never past the end of
    /// the text.
    pub fn position(&self) -> (p: usize)
        ensures
            p == self.offset(),
            0 <= self.offset() <= self.source().len(),
    {
        proof {
            use_type_invariant(self);
        }
        self.pos
    }

    /// A stream at the start of `bytes`.
    pub fn new(bytes: &'a [u8]) -> (s: Self)
        ensures
            s.source() == bytes@,
            s.offset() == 0,
    {
        Stream { bytes, pos: 0 }
    }

    /// The next byte, if there is one. The position stays.
    pub fn peek(&self) -> (b: Option<u8>)
        ensures
            b == (if self.offset() < self.source().len() {
                Some(self.source()[self.offset()])
            } else {
                None
            }),
    {
        proof {
            use_type_invariant(self);
        }
        if self.pos < self.bytes.len() {
            Some(self.bytes[self.pos])
        } else {
            None
        }
    }

    /// The next byte, if there is one. The position moves past it.
    pub fn next(&mut self) -> (b: Option<u8>)
        ensures
            final(self).source() == old(self).source(),
            old(self).offset() < old(self).source().len() ==> b == Some(
                old(self).source()[old(self).offset()],
            ) && final(self).offset() == old(self).offset() + 1,
            old(self).offset() >= old(self).source().len() ==> b is None && final(self).offset()
                == old(self).offset(),
    {
        proof {
            use_type_invariant(&*self);
        }
        if self.pos < self.bytes.len() {
            let b = self.bytes[self.pos];
            self.pos = self.pos + 1;
            Some(b)
        } else {
            None
        }
    }
}

/// Whether `r` hands over what a scan found, as a token on line `line` or
/// as the fault.
pub open spec fn delivers(found: Found, r: Result<Token, LexError>, line: TokenLine) -> bool {
    match found {
        Found::Token(kind, value) => r is Ok && r->Ok_0@ == (TokenView { kind, value, line }),
        Found::Fault(e) => r is Err && r->Err_0 == e,
        Found::Skip => false,
    }
}

/// Whether `tokens`, made from `src` at `pos` with the lines counted from
/// one, end as a token stream does: the last token has kind `EOF`, no
/// other has, and the last stands on the line that the counter reaches
/// after the newlines outside the character literals.
pub open spec fn ends_input(tokens: Seq<TokenView>, src: Seq<u8>, pos: int) -> bool {
    &&& tokens.len() >= 1
    &&& tokens.last().kind is EOF
    &&& forall|i: int| 0 <= i < tokens.len() - 1 ==> !((#[trigger] tokens[i]).kind is EOF)
    &&& tokens.last().line == line_plus(1, counted_newlines(src, pos) as int)
}

/// The largest number that an integer literal can spell.
pub const INT_MAX: isize = isize::MAX;

/// The number that `digits` spells, if the machine can hold it.
pub(crate) fn parseInt(digits: &[u8]) -> (r: Option<isize>)
    requires
        forall|i: int| 0 <= i < digits@.len() ==> is_digit(#[trigger] digits@[i]),
    ensures
        r == (if decimal_value(digits@) <= isize::MAX {
            Some(decimal_value(digits@) as isize)
        } else {
            None
        }),
{
    let mut acc: isize = 0;
    let mut i: usize = 0;
    while i < digits.len()
        invariant
            i <= digits.len(),
            forall|k: int| 0 <= k < digits@.len() ==> is_digit(#[trigger] digits@[k]),
            0 <= acc,
            acc == decimal_value(digits@.subrange(0, i as int)),
        decreases digits.len() - i,
    {
        let d: isize = (digits[i] - '0' as u8) as isize;
        proof {
            let upto = digits@.subrange(0, i + 1);
            assert(upto.drop_last() == digits@.subrange(0, i as int));
            assert(upto.last() == digits@[i as int]);
            assert(decimal_value(upto) == acc * 10 + d);
            lemma_decimal_grows(digits@, i + 1);
        }
        if acc > (INT_MAX - d) / 10 {
            return None;
        }
        acc = acc * 10 + d;
        i += 1;
    }
    assert(digits@.subrange(0, digits.len() as int) == digits@);
    Some(acc)
}

/// The digits before a position spell no more than all the digits.
pub proof fn lemma_decimal_grows(digits: Seq<u8>, k: int)
    requires
        0 <= k <= digits.len(),
        forall|i: int| 0 <= i < digits.len() ==> is_digit(#[trigger] digits[i]),
    ensures
        decimal_value(digits.subrange(0, k)) <= decimal_value(digits),
    decreases digits.len() - k,
{
    if k < digits.len() {
        let upto = digits.subrange(0, k + 1);
        assert(upto.drop_last() == digits.subrange(0, k));
        assert(upto.last() == digits[k]);
        lemma_decimal_grows(digits, k + 1);
    } else {
        assert(digits.subrange(0, k) == digits);
    }
}

/// The failure of a tokenization: "failed to tokenize". It holds all the
/// tokens, those of the faults among them, for diagnosis.
#[derive(Debug, PartialEq)]
pub struct TokenizeError {
    pub tokens: Vec<Token>,
}

impl TokenizeError {
    /// The message of the failure.
    pub fn message(&self) -> (m: Vec<u8>)
        ensures
            m@ == "failed to tokenize".spec_bytes(),
    {
        textBytes("failed to tokenize")
    }
}

/// The contents of a sequence of tokens.
pub open spec fn token_views(tokens: Seq<Token>) -> Seq<TokenView> {
    tokens.map_values(|t: Token| t@)
}

/// A sequence with one more token holds a fault if the sequence did or the
/// token is one.
pub proof fn lemma_has_fault_push(tokens: Seq<TokenView>, t: TokenView)
    ensures
        has_fault(tokens.push(t)) <==> has_fault(tokens) || t.kind is Error,
{
    let more = tokens.push(t);
    if has_fault(tokens) {
        let i = choose|i: int| 0 <= i < tokens.len() && (#[trigger] tokens[i]).kind is Error;
        assert(more[i].kind is Error);
    }
    if t.kind is Error {
        assert(more[tokens.len() as int].kind is Error);
    }
    if has_fault(more) {
        let i = choose|i: int| 0 <= i < more.len() && (#[trigger] more[i]).kind is Error;
        if i < tokens.len() {
            assert(tokens[i].kind is Error);
        }
    }
}

/// Turns source text into tokens, and counts the lines as it goes.
pub struct Tokenizer {
    line: TokenLine,
}

impl Tokenizer {
    /// The line that the tokenizer stands on.
    pub closed spec fn line(&self) -> TokenLine {
        self.line
    }

    /// Tokenizes the text of `stream` from its position on, counting the
    /// lines from one. The tokens are those of the lexical grammar, in
    /// order; the last of them, and no other, has kind `EOF`, and stands on
    /// the line that the counter reaches after the newlines outside the
    /// character literals. If one of the tokens is that of a fault, the
    /// tokenization fails as a whole, and the failure holds the tokens.
    pub fn tokenize(stream: Stream) -> (r: Result<Vec<Token>, TokenizeError>)
        ensures
            match r {
                Ok(tokens) => {
                    &&& token_views(tokens@) == tokens_from(stream.source(), stream.offset(), 1)
                    &&& !has_fault(token_views(tokens@))
                    &&& ends_input(token_views(tokens@), stream.source(), stream.offset())
                },
                Err(e) => {
                    &&& token_views(e.tokens@) == tokens_from(
                        stream.source(),
                        stream.offset(),
                        1,
                    )
                    &&& has_fault(token_views(e.tokens@))
                    &&& ends_input(token_views(e.tokens@), stream.source(), stream.offset())
                },
            },
    {
        let _ = stream.position();
        proof {
            lemma_tokens_end(stream.source(), stream.offset(), 1);
            lemma_last_line(stream.source(), stream.offset(), 1);
        }
        Self::new()._tokenize(stream)
    }

    /// A tokenizer on line one.
    pub fn new() -> (t: Self)
        ensures
            t.line() == 1,
    {
        Self { line: 1 }
    }

    /// Tokenizes the text of `stream` from its position on, counting the
    /// lines from where the tokenizer stands.
    pub fn _tokenize(&mut self, stream: Stream) -> (r: Result<Vec<Token>, TokenizeError>)
        ensures
            match r {
                Ok(tokens) => {
                    &&& token_views(tokens@) == tokens_from(
                        stream.source(),
                        stream.offset(),
                        old(self).line(),
                    )
                    &&& !has_fault(token_views(tokens@))
                },
                Err(e) => {
                    &&& token_views(e.tokens@) == tokens_from(
                        stream.source(),
                        stream.offset(),
                        old(self).line(),
                    )
                    &&& has_fault(token_views(e.tokens@))
                },
            },
    {
        let ghost src = stream.source();
        let ghost all = tokens_from(src, stream.offset(), self.line);
        let mut stream = stream;
        let mut error = false;
        let mut tokens: Vec<Token> = Vec::new();
        let _ = stream.position();
        assert(token_views(tokens@) + all == all);
        loop
            invariant_except_break
                all == token_views(tokens@) + tokens_from(src, stream.offset(), self.line),
            invariant
                stream.source() == src,
                0 <= stream.offset() <= src.len(),
                error <==> has_fault(token_views(tokens@)),
            ensures
                all == token_views(tokens@),
            decreases src.len() - stream.offset(),
        {
            let ghost here = stream.offset();
            let ghost line = self.line;
            let ghost before = tokens@;
            proof {
                lemma_next_lexeme(src, here, line);
            }
            let token = match self.makeToken(&mut stream) {
                Ok(tk) => tk,
                Err(e) => {
                    error = true;
                    Token::new(TokenKind::Error(e), TokenValue::Error, self.line)
                },
            };
            let last = match token.kind() {
                TokenKind::EOF => true,
                _ => false,
            };
            proof {
                let x = next_lexeme(src, here, line);
                assert(token@ == token_of(x.found, x.line));
                lemma_has_fault_push(token_views(before), token@);
                assert(token_views(before.push(token)) == token_views(before).push(token@));
                if !last {
                    assert(token_views(before).push(token@) + tokens_from(src, x.next, x.line)
                        == token_views(before) + (seq![token@] + tokens_from(
                        src,
                        x.next,
                        x.line,
                    )));
                } else {
                    assert(token_views(before).push(token@) == token_views(before)
                        + seq![token@]);
                }
            }
            tokens.push(token);
            if last {
                break ;
            }
        }
        if error {
            Err(TokenizeError { tokens })
        } else {
            Ok(tokens)
        }
    }

    /// Reads the next token, passing over blank space and comments. At the
    /// end of the input it is the token of kind `EOF`. A byte that starts
    /// no token is passed over and reported as a fault.
    #[verifier::loop_isolation(false)]
    pub fn makeToken(&mut self, stream: &mut Stream) -> (r: Result<Token, LexError>)
        ensures
            final(stream).source() == old(stream).source(),
            final(stream).offset() == next_lexeme(
                old(stream).source(),
                old(stream).offset(),
                old(self).line(),
            ).next,
            final(self).line() == next_lexeme(
                old(stream).source(),
                old(stream).offset(),
                old(self).line(),
            ).line,
            delivers(
                next_lexeme(old(stream).source(), old(stream).offset(), old(self).line()).found,
                r,
                final(self).line(),
            ),
    {
        let ghost src = stream.source();
        let ghost goal = next_lexeme(src, stream.offset(), self.line);
        let _ = stream.position();
        loop
            invariant
                stream.source() == src,
                0 <= stream.offset() <= src.len(),
                goal == next_lexeme(src, stream.offset(), self.line),
            decreases src.len() - stream.offset(),
        {
            let ghost here = stream.offset();
            let ghost line = self.line;
            let byte = match stream.peek() {
                Some(b) => b,
                None => {
                    return Ok(Token::new(TokenKind::EOF, TokenValue::Empty, self.line));
                },
            };
            proof {
                lemma_scan_moves(src, here);
                lemma_newlines_one(src, here);
                lemma_line_plus(line, 0, 0);
            }
            let letter = (byte >= 'a' as u8 && byte <= 'z' as u8) || (byte >= 'A' as u8 && byte
                <= 'Z' as u8);
            if byte >= '0' as u8 && byte <= '9' as u8 {
                return self.makeNumber(stream);
            } else if byte == '\'' as u8 {
                return self.makeChar(stream);
            } else if byte == '"' as u8 {
                return self.makeString(stream);
            } else if letter || byte == '_' as u8 {
                return self.makeKeyword(stream);
            } else if Symbol::of(byte).is_some() {
                match self.makePunctuation(stream) {
                    Ok(Some(token)) => {
                        return Ok(token);
                    },
                    Ok(None) => {},
                    Err(e) => {
                        return Err(e);
                    },
                }
            } else if byte == '\n' as u8 {
                stream.next();
                self.newLine();
            } else if byte == ' ' as u8 || byte == '\t' as u8 || byte == '\r' as u8 {
                stream.next();
            } else {
                stream.next();
                return Err(LexError::InvalidCharacter(byte));
            }
        }
    }

    /// Moves to the next line.
    fn newLine(&mut self)
        ensures
            final(self).line() == line_plus(old(self).line(), 1),
    {
        self.line = self.line.wrapping_add(1);
    }

    /// Reads the run of digits at the position and appends it to `text`.
    fn takeDigits(stream: &mut Stream, text: &mut Vec<u8>)
        ensures
            final(stream).source() == old(stream).source(),
            final(stream).offset() == digits_end(old(stream).source(), old(stream).offset()),
            old(stream).offset() <= final(stream).offset() <= old(stream).source().len(),
            final(text)@ == old(text)@ + old(stream).source().subrange(
                old(stream).offset(),
                final(stream).offset(),
            ),
    {
        let ghost src = stream.source();
        let ghost start = stream.offset();
        let _ = stream.position();
        proof {
            lemma_digits_end(src, start);
            assert(src.subrange(start, start) == Seq::<u8>::empty());
        }
        loop
            invariant
                stream.source() == src,
                0 <= start <= stream.offset() <= src.len(),
                forall|i: int| start <= i < stream.offset() ==> is_digit(#[trigger] src[i]),
                text@ == old(text)@ + src.subrange(start, stream.offset()),
            ensures
                stream.source() == src,
                stream.offset() == digits_end(src, start),
                start <= stream.offset() <= src.len(),
                text@ == old(text)@ + src.subrange(start, stream.offset()),
            decreases src.len() - stream.offset(),
        {
            let ghost here = stream.offset();
            proof {
                lemma_digits_end_from(src, start, here);
            }
            match stream.peek() {
                Some(b) => {
                    if b < '0' as u8 || b > '9' as u8 {
                        break ;
                    }
                    stream.next();
                    text.push(b);
                    assert(src.subrange(start, here + 1) == src.subrange(start, here).push(b));
                },
                None => {
                    break ;
                },
            }
        }
    }

    /// Reads a number: an integer literal, or a floating-point literal if a
    /// point follows the first digits.
    fn makeNumber(&mut self, stream: &mut Stream) -> (r: Result<Token, LexError>)
        ensures
            final(stream).source() == old(stream).source(),
            final(stream).offset() == scan_number(
                old(stream).source(),
                old(stream).offset(),
            ).next,
            final(self).line() == advance(
                old(self).line(),
                old(stream).source(),
                old(stream).offset(),
                scan_number(old(stream).source(), old(stream).offset()),
            ),
            delivers(
                scan_number(old(stream).source(), old(stream).offset()).found,
                r,
                final(self).line(),
            ),
    {
        let ghost src = stream.source();
        let ghost start = stream.offset();
        let mut text: Vec<u8> = Vec::new();
        let mut isFloat = false;
        Self::takeDigits(stream, &mut text);
        let ghost e = stream.offset();
        proof {
            lemma_digits_end(src, start);
            assert(text@ == src.subrange(start, e));
        }
        let point = match stream.peek() {
            Some(b) => b == '.' as u8,
            None => false,
        };
        if point {
            isFloat = true;
            stream.next();
            text.push('.' as u8);
            assert(text@ == src.subrange(start, e + 1));
            Self::takeDigits(stream, &mut text);
            proof {
                let f = stream.offset();
                lemma_digits_end(src, e + 1);
                assert(text@ == src.subrange(start, f));
                assert forall|i: int| start <= i < f implies src[i] != '\n' as u8 by {
                    if i < e {
                        assert(is_digit(src[i]));
                    } else if i > e {
                        assert(is_digit(src[i]));
                    }
                }
                lemma_no_newlines(src, start, f);
                lemma_line_plus(self.line, 0, 0);
            }
        } else {
            proof {
                assert forall|i: int| start <= i < e implies src[i] != '\n' as u8 by {
                    assert(is_digit(src[i]));
                }
                lemma_no_newlines(src, start, e);
                lemma_line_plus(self.line, 0, 0);
            }
        }
        if isFloat {
            Ok(Token::new(TokenKind::Float, TokenValue::Float(text), self.line))
        } else {
            match parseInt(text.as_slice()) {
                Some(v) => Ok(Token::new(TokenKind::Int, TokenValue::Int(v), self.line)),
                None => Err(LexError::IntegerTooLarge),
            }
        }
    }

    /// Reads a keyword, one of the literals `null`, `true` and `false`, or
    /// an identifier: a run of letters and underscores.
    fn makeKeyword(&mut self, stream: &mut Stream) -> (r: Result<Token, LexError>)
        ensures
            final(stream).source() == old(stream).source(),
            final(stream).offset() == scan_word(old(stream).source(), old(stream).offset()).next,
            final(self).line() == advance(
                old(self).line(),
                old(stream).source(),
                old(stream).offset(),
                scan_word(old(stream).source(), old(stream).offset()),
            ),
            delivers(
                scan_word(old(stream).source(), old(stream).offset()).found,
                r,
                final(self).line(),
            ),
    {
        let ghost src = stream.source();
        let ghost start = stream.offset();
        let mut kw: Vec<u8> = Vec::new();
        let _ = stream.position();
        proof {
            lemma_word_end(src, start);
            assert(src.subrange(start, start) == Seq::<u8>::empty());
        }
        loop
            invariant
                stream.source() == src,
                0 <= start <= stream.offset() <= src.len(),
                forall|i: int| start <= i < stream.offset() ==> is_word_byte(#[trigger] src[i]),
                kw@ == src.subrange(start, stream.offset()),
            ensures
                stream.source() == src,
                stream.offset() == word_end(src, start),
                start <= stream.offset() <= src.len(),
                forall|i: int| start <= i < stream.offset() ==> is_word_byte(#[trigger] src[i]),
                kw@ == src.subrange(start, stream.offset()),
            decreases src.len() - stream.offset(),
        {
            let ghost here = stream.offset();
            proof {
                lemma_word_end_from(src, start, here);
            }
            match stream.peek() {
                Some(c) => {
                    let letter = (c >= 'a' as u8 && c <= 'z' as u8) || (c >= 'A' as u8 && c
                        <= 'Z' as u8);
                    if !(letter || c == '_' as u8) {
                        break ;
                    }
                    stream.next();
                    kw.push(c);
                    assert(src.subrange(start, here + 1) == src.subrange(start, here).push(c));
                },
                None => {
                    break ;
                },
            }
        }
        proof {
            let e = stream.offset();
            assert forall|i: int| start <= i < e implies src[i] != '\n' as u8 by {
                assert(is_word_byte(src[i]));
            }
            lemma_no_newlines(src, start, e);
            lemma_line_plus(self.line, 0, 0);
        }
        match Keyword::try_from(kw.as_slice()) {
            Ok(v) => Ok(Token::new(TokenKind::Keyword, TokenValue::Keyword(v), self.line)),
            Err(_) => {
                if sameBytes(kw.as_slice(), "null".as_bytes()) {
                    Ok(Token::new(TokenKind::Null, TokenValue::Null, self.line))
                } else if sameBytes(kw.as_slice(), "true".as_bytes()) {
                    Ok(Token::new(TokenKind::Bool, TokenValue::True, self.line))
                } else if sameBytes(kw.as_slice(), "false".as_bytes()) {
                    Ok(Token::new(TokenKind::Bool, TokenValue::False, self.line))
                } else {
                    Ok(Token::new(TokenKind::Identifier, TokenValue::Identifier(kw), self.line))
                }
            },
        }
    }

    /// Reads a character literal. The opening quote stands at the position.
    fn makeChar(&mut self, stream: &mut Stream) -> (r: Result<Token, LexError>)
        ensures
            final(stream).source() == old(stream).source(),
            final(stream).offset() == scan_char(old(stream).source(), old(stream).offset()).next,
            final(self).line() == old(self).line(),
            delivers(
                scan_char(old(stream).source(), old(stream).offset()).found,
                r,
                final(self).line(),
            ),
    {
        let _ = stream.position();
        stream.next();
        let chr = match stream.next() {
            Some(c) => c,
            None => {
                return Err(LexError::CharExpected);
            },
        };
        let value: char = if chr == '\\' as u8 {
            let escaped = match stream.next() {
                Some(c) => c,
                None => {
                    return Err(LexError::CharExpected);
                },
            };
            if escaped == '0' as u8 {
                '\0'
            } else if escaped == 'n' as u8 {
                '\n'
            } else if escaped == 'r' as u8 {
                '\r'
            } else if escaped == 't' as u8 {
                '\t'
            } else if escaped == '\'' as u8 {
                '\''
            } else if escaped == '\\' as u8 {
                '\\'
            } else {
                match stream.next() {
                    Some(after) => {
                        if after == '\'' as u8 {
                            stream.next();
                        }
                    },
                    None => {
                        return Err(LexError::ClosingQuoteExpected);
                    },
                }
                return Err(LexError::InvalidEscapedChar(escaped));
            }
        } else {
            chr as char
        };
        match stream.next() {
            Some(v) => {
                if v == '\'' as u8 {
                    Ok(Token::new(TokenKind::Char, TokenValue::Char(value), self.line))
                } else {
                    Err(LexError::ClosingQuoteMissing(v))
                }
            },
            None => Err(LexError::ClosingQuoteExpected),
        }
    }

    /// Reads a string literal. The opening quote stands at the position.
    #[verifier::loop_isolation(false)]
    fn makeString(&mut self, stream: &mut Stream) -> (r: Result<Token, LexError>)
        requires
            old(stream).offset() < old(stream).source().len(),
            old(stream).source()[old(stream).offset()] == '"' as u8,
        ensures
            final(stream).source() == old(stream).source(),
            final(stream).offset() == scan_string(
                old(stream).source(),
                old(stream).offset() + 1,
                Seq::empty(),
            ).next,
            final(self).line() == advance(
                old(self).line(),
                old(stream).source(),
                old(stream).offset(),
                scan_string(old(stream).source(), old(stream).offset() + 1, Seq::empty()),
            ),
            delivers(
                scan_string(old(stream).source(), old(stream).offset() + 1, Seq::empty()).found,
                r,
                final(self).line(),
            ),
    {
        let ghost src = stream.source();
        let ghost start = stream.offset();
        let ghost line0 = self.line;
        let ghost goal = scan_string(src, start + 1, Seq::empty());
        stream.next();
        let mut text: Vec<u8> = Vec::new();
        proof {
            lemma_newlines_one(src, start);
            lemma_line_plus(line0, 0, 0);
        }
        loop
            invariant
                stream.source() == src,
                0 <= start < stream.offset() <= src.len(),
                goal == scan_string(src, stream.offset(), text@),
                self.line == line_plus(line0, newlines(src, start, stream.offset()) as int),
            decreases src.len() - stream.offset(),
        {
            let ghost here = stream.offset();
            match stream.next() {
                None => {
                    return Err(LexError::UnterminatedString);
                },
                Some(chr) => {
                    proof {
                        lemma_newlines_one(src, here);
                        lemma_newlines_split(src, start, here, here + 1);
                        lemma_line_plus(line0, newlines(src, start, here) as int, 1);
                    }
                    if chr == '"' as u8 {
                        return Ok(Token::new(TokenKind::Str, TokenValue::Str(text), self.line));
                    } else if chr == '\n' as u8 {
                        self.newLine();
                        text.push('\n' as u8);
                    } else if chr == '\\' as u8 {
                        let c = match stream.next() {
                            Some(c) => c,
                            None => {
                                return Err(LexError::EscapeExpected);
                            },
                        };
                        proof {
                            lemma_newlines_one(src, here + 1);
                            lemma_newlines_split(src, start, here + 1, here + 2);
                            lemma_line_plus(line0, newlines(src, start, here + 1) as int, 1);
                        }
                        if c == '\n' as u8 {
                            self.newLine();
                        }
                        let ghost before = text@;
                        if c == '0' as u8 {
                            text.push(0);
                            assert(text@ == before + seq![0u8]);
                        } else if c == 'n' as u8 {
                            text.push('\n' as u8);
                            assert(text@ == before + seq!['\n' as u8]);
                        } else if c == 'r' as u8 {
                            text.push('\r' as u8);
                            assert(text@ == before + seq!['\r' as u8]);
                        } else if c == 't' as u8 {
                            text.push('\t' as u8);
                            assert(text@ == before + seq!['\t' as u8]);
                        } else if c == '"' as u8 {
                            text.push('"' as u8);
                            assert(text@ == before + seq!['"' as u8]);
                        } else if c == 'a' as u8 || c == 'b' as u8 || c == 'f' as u8 || c
                            == 'v' as u8 {
                            text.push('\\' as u8);
                            text.push(c);
                            assert(text@ == before + seq!['\\' as u8, c]);
                        } else if c == '\\' as u8 {
                            text.push('\\' as u8);
                            assert(text@ == before + seq!['\\' as u8]);
                        } else if c == 'x' as u8 {
                            return Err(LexError::UnsupportedEscape);
                        } else {
                            return Err(LexError::InvalidEscapeSequence(c));
                        }
                    } else {
                        text.push(chr);
                    }
                },
            }
        }
    }

    /// Passes over a line comment: up to and including the first newline,
    /// or to the end of the input.
    pub fn skipSingleComment(&mut self, stream: &mut Stream) -> (r: Result<(), LexError>)
        ensures
            r is Ok,
            final(stream).source() == old(stream).source(),
            final(stream).offset() == line_comment_end(
                old(stream).source(),
                old(stream).offset(),
            ),
            old(stream).offset() <= final(stream).offset() <= old(stream).source().len(),
            forall|i: int|
                old(stream).offset() <= i < final(stream).offset() - 1
                    ==> #[trigger] old(stream).source()[i] != '\n' as u8,
            final(stream).offset() < old(stream).source().len() ==> {
                &&& final(stream).offset() > old(stream).offset()
                &&& old(stream).source()[final(stream).offset() - 1] == '\n' as u8
            },
            final(self).line() == line_plus(
                old(self).line(),
                newlines(old(stream).source(), old(stream).offset(), final(stream).offset()) as int,
            ),
    {
        let ghost src = stream.source();
        let ghost start = stream.offset();
        let ghost line0 = self.line;
        let _ = stream.position();
        proof {
            lemma_line_plus(line0, 0, 0);
            lemma_line_comment_shape(src, start);
        }
        loop
            invariant_except_break
                line_comment_end(src, start) == line_comment_end(src, stream.offset()),
            invariant
                stream.source() == src,
                0 <= start <= stream.offset() <= src.len(),
                self.line == line_plus(line0, newlines(src, start, stream.offset()) as int),
            ensures
                stream.source() == src,
                start <= stream.offset() <= src.len(),
                stream.offset() == line_comment_end(src, start),
                self.line == line_plus(line0, newlines(src, start, stream.offset()) as int),
            decreases src.len() - stream.offset(),
        {
            let ghost here = stream.offset();
            match stream.next() {
                Some(c) => {
                    proof {
                        lemma_newlines_one(src, here);
                        lemma_newlines_split(src, start, here, here + 1);
                        lemma_line_plus(line0, newlines(src, start, here) as int, 1);
                    }
                    if c == '\n' as u8 {
                        self.newLine();
                        break ;
                    }
                },
                None => {
                    break ;
                },
            }
        }
        Ok(())
    }

    /// Passes over a block comment whose opening `/*` has been read: up to
    /// and including the `*/` that closes it. Block comments nest. Fails at
    /// the end of the input if the comment is not closed.
    #[verifier::loop_isolation(false)]
    pub fn skipMultiComment(&mut self, stream: &mut Stream) -> (r: Result<(), LexError>)
        ensures
            final(stream).source() == old(stream).source(),
            old(stream).offset() <= final(stream).offset() <= old(stream).source().len(),
            match block_comment_end(old(stream).source(), old(stream).offset(), 0) {
                Some(e) => r is Ok && final(stream).offset() == e,
                None => {
                    &&& r == Err::<(), LexError>(LexError::UnterminatedComment)
                    &&& final(stream).offset() == old(stream).source().len()
                },
            },
            final(self).line() == line_plus(
                old(self).line(),
                newlines(old(stream).source(), old(stream).offset(), final(stream).offset()) as int,
            ),
    {
        let ghost src = stream.source();
        let ghost start = stream.offset();
        let ghost line0 = self.line;
        let _ = stream.position();
        let mut depth: usize = 0;
        proof {
            lemma_line_plus(line0, 0, 0);
        }
        loop
            invariant
                stream.source() == src,
                0 <= start <= stream.offset() <= src.len(),
                depth <= stream.offset(),
                block_comment_end(src, start, 0) == block_comment_end(
                    src,
                    stream.offset(),
                    depth as nat,
                ),
                self.line == line_plus(line0, newlines(src, start, stream.offset()) as int),
            decreases src.len() - stream.offset(),
        {
            let ghost here = stream.offset();
            let current = match stream.next() {
                Some(c) => c,
                None => {
                    return Err(LexError::UnterminatedComment);
                },
            };
            proof {
                lemma_newlines_one(src, here);
                lemma_newlines_split(src, start, here, here + 1);
                lemma_line_plus(line0, newlines(src, start, here) as int, 1);
            }
            if current == '\n' as u8 {
                self.newLine();
            }
            let following = stream.peek();
            let closes = current == '*' as u8 && match following {
                Some(f) => f == '/' as u8,
                None => false,
            };
            let opens = current == '/' as u8 && match following {
                Some(f) => f == '*' as u8,
                None => false,
            };
            if closes || opens {
                stream.next();
                proof {
                    lemma_newlines_one(src, here + 1);
                    lemma_newlines_split(src, start, here + 1, here + 2);
                    lemma_line_plus(line0, newlines(src, start, here + 1) as int, 0);
                }
                if closes {
                    if depth == 0 {
                        return Ok(());
                    }
                    depth = depth - 1;
                } else {
                    depth = depth + 1;
                }
            }
        }
    }

    /// Reads punctuation. A comment gives no token.
    fn makePunctuation(&mut self, stream: &mut Stream) -> (r: Result<Option<Token>, LexError>)
        requires
            old(stream).offset() < old(stream).source().len(),
        ensures
            final(stream).source() == old(stream).source(),
            final(stream).offset() == scan_punctuation(
                old(stream).source(),
                old(stream).offset(),
            ).next,
            final(self).line() == advance(
                old(self).line(),
                old(stream).source(),
                old(stream).offset(),
                scan_punctuation(old(stream).source(), old(stream).offset()),
            ),
            match scan_punctuation(old(stream).source(), old(stream).offset()).found {
                Found::Token(kind, value) => r is Ok && r->Ok_0 is Some && r->Ok_0->Some_0@ == (
                TokenView { kind, value, line: final(self).line() }),
                Found::Fault(e) => r is Err && r->Err_0 == e,
                Found::Skip => r is Ok && r->Ok_0 is None,
            },
    {
        let ghost src = stream.source();
        let ghost start = stream.offset();
        let ghost line0 = self.line;
        let p = match stream.next() {
            Some(p) => p,
            None => {
                return Ok(None);
            },
        };
        let following = stream.peek();
        let _ = stream.position();
        proof {
            lemma_line_plus(line0, 0, 0);
            lemma_newlines_one(src, start);
        }
        let second = match following {
            Some(f) => f,
            None => 0,
        };
        let paired = following.is_some();
        if p == '/' as u8 && paired && second == '/' as u8 {
            let done = self.skipSingleComment(stream);
            proof {
                lemma_newlines_split(src, start, start + 1, stream.offset());
            }
            Ok(None)
        } else if p == '/' as u8 && paired && second == '*' as u8 {
            stream.next();
            proof {
                lemma_newlines_one(src, start + 1);
            }
            let done = self.skipMultiComment(stream);
            proof {
                lemma_newlines_split(src, start, start + 1, stream.offset());
                lemma_newlines_split(src, start + 1, start + 2, stream.offset());
            }
            match done {
                Ok(_) => Ok(None),
                Err(e) => Err(e),
            }
        } else if p == '&' as u8 && paired && second == '&' as u8 {
            stream.next();
            proof {
                lemma_newlines_one(src, start + 1);
                lemma_newlines_split(src, start, start + 1, start + 2);
            }
            Ok(
                Some(
                    Token::new(
                        TokenKind::Compound(Symbol::Ampersand, Symbol::Ampersand),
                        TokenValue::Empty,
                        self.line,
                    ),
                ),
            )
        } else if p == '|' as u8 && paired && second == '|' as u8 {
            stream.next();
            proof {
                lemma_newlines_one(src, start + 1);
                lemma_newlines_split(src, start, start + 1, start + 2);
            }
            Ok(
                Some(
                    Token::new(
                        TokenKind::Compound(Symbol::Pipe, Symbol::Pipe),
                        TokenValue::Empty,
                        self.line,
                    ),
                ),
            )
        } else {
            match TokenKind::try_from(p) {
                Ok(kind) => {
                    Ok(Some(Token::new(kind, TokenValue::Empty, self.line)))
                },
                Err(_) => {
                    if p == '\n' as u8 {
                        self.newLine();
                    }
                    Err(LexError::InvalidCharacter(p))
                },
            }
        }
    }
}

} // verus!
