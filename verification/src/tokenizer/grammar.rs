//! The lexical grammar: which token stands at a position of the source
//! text, where the next one starts, and how the lines are counted.

use vstd::prelude::*;
use crate::token::keyword::{keyword_of, Keyword};
use crate::token::symbol::{symbol_of, Symbol};
use crate::token::tokenkind::{LexError, TokenKind};
use crate::token::{TokenLine, TokenValueView, TokenView};
use crate::value::{false_text, null_text, true_text};

verus! {

/// An ASCII digit.
pub open spec fn is_digit(b: u8) -> bool {
    '0' as u8 <= b <= '9' as u8
}

/// A byte of an identifier-like run: an ASCII letter or an underscore.
pub open spec fn is_word_byte(b: u8) -> bool {
    b == '_' as u8 || ('a' as u8 <= b <= 'z' as u8) || ('A' as u8 <= b <= 'Z' as u8)
}

/// Space, tab or carriage return.
pub open spec fn is_blank(b: u8) -> bool {
    b == ' ' as u8 || b == '\t' as u8 || b == '\r' as u8
}

/// The end of the run of digits that starts at `pos`.
pub open spec fn digits_end(src: Seq<u8>, pos: int) -> int
    decreases src.len() - pos,
{
    if 0 <= pos < src.len() && is_digit(src[pos]) {
        digits_end(src, pos + 1)
    } else {
        pos
    }
}

/// The end of the run of letters and underscores that starts at `pos`.
pub open spec fn word_end(src: Seq<u8>, pos: int) -> int
    decreases src.len() - pos,
{
    if 0 <= pos < src.len() && is_word_byte(src[pos]) {
        word_end(src, pos + 1)
    } else {
        pos
    }
}

/// The number that a run of digits spells in decimal.
pub open spec fn decimal_value(digits: Seq<u8>) -> nat
    decreases digits.len(),
{
    if digits.len() == 0 {
        0
    } else {
        decimal_value(digits.drop_last()) * 10 + (digits.last() - '0' as u8) as nat
    }
}

/// The number of newline bytes in `src` from `from` up to, not including, `to`.
pub open spec fn newlines(src: Seq<u8>, from: int, to: int) -> nat
    decreases to - from,
{
    if from >= to {
        0
    } else {
        newlines(src, from, to - 1) + if 0 <= to - 1 < src.len() && src[to - 1] == '\n' as u8 {
            1nat
        } else {
            0nat
        }
    }
}

/// What one scan finds.
pub enum Found {
    /// A token of this kind, carrying this.
    Token(TokenKind, TokenValueView),
    /// Text that is no token.
    Fault(LexError),
    /// Blank space or a comment.
    Skip,
}

/// One scan of the source text: what stands at a position, where the scan
/// ends, and whether the newlines that it passes over move the line counter.
pub struct Scan {
    pub found: Found,
    pub next: int,
    pub counted: bool,
}

/// A scan that finds a fault and ends at `next`.
pub open spec fn fault(e: LexError, next: int, counted: bool) -> Scan {
    Scan { found: Found::Fault(e), next, counted }
}

/// A number: digits; if a point follows them, the point and the digits
/// after it, which makes a floating-point literal; an integer literal
/// otherwise. An integer that the machine cannot hold is a fault.
pub open spec fn scan_number(src: Seq<u8>, pos: int) -> Scan {
    let e = digits_end(src, pos);
    if e < src.len() && src[e] == '.' as u8 {
        let f = digits_end(src, e + 1);
        Scan {
            found: Found::Token(TokenKind::Float, TokenValueView::Float(src.subrange(pos, f))),
            next: f,
            counted: true,
        }
    } else {
        let v = decimal_value(src.subrange(pos, e));
        Scan {
            found: if v <= isize::MAX {
                Found::Token(TokenKind::Int, TokenValueView::Int(v as isize))
            } else {
                Found::Fault(LexError::IntegerTooLarge)
            },
            next: e,
            counted: true,
        }
    }
}

/// The token that a run of letters and underscores makes: a keyword if it
/// spells one, else one of the literals `null`, `true`, `false`, else an
/// identifier.
pub open spec fn word_token(word: Seq<u8>) -> Found {
    match keyword_of(word) {
        Some(k) => Found::Token(TokenKind::Keyword, TokenValueView::Keyword(k)),
        None => {
            if word == null_text() {
                Found::Token(TokenKind::Null, TokenValueView::Null)
            } else if word == true_text() {
                Found::Token(TokenKind::Bool, TokenValueView::True)
            } else if word == false_text() {
                Found::Token(TokenKind::Bool, TokenValueView::False)
            } else {
                Found::Token(TokenKind::Identifier, TokenValueView::Identifier(word))
            }
        },
    }
}

/// A keyword, a literal word or an identifier.
pub open spec fn scan_word(src: Seq<u8>, pos: int) -> Scan {
    let e = word_end(src, pos);
    Scan { found: word_token(src.subrange(pos, e)), next: e, counted: true }
}

/// The character that a backslash and `b` stand for in a character literal.
pub open spec fn char_escape(b: u8) -> Option<char> {
    if b == '0' as u8 {
        Some('\0')
    } else if b == 'n' as u8 {
        Some('\n')
    } else if b == 'r' as u8 {
        Some('\r')
    } else if b == 't' as u8 {
        Some('\t')
    } else if b == '\'' as u8 {
        Some('\'')
    } else if b == '\\' as u8 {
        Some('\\')
    } else {
        None
    }
}

/// The end of a character literal whose character is `c`: the closing quote
/// is due at `at`.
pub open spec fn close_char(src: Seq<u8>, at: int, c: char) -> Scan {
    if at >= src.len() {
        fault(LexError::ClosingQuoteExpected, src.len() as int, false)
    } else if src[at] == '\'' as u8 {
        Scan {
            found: Found::Token(TokenKind::Char, TokenValueView::Char(c)),
            next: at + 1,
            counted: false,
        }
    } else {
        fault(LexError::ClosingQuoteMissing(src[at]), at + 1, false)
    }
}

/// A character literal, whose opening quote stands at `pos`: one byte, or a
/// backslash and the byte of an escape, then the closing quote. After a
/// backslash and a byte that is no escape, the scan passes over one more
/// byte, and if that is a quote, over the byte after it too.
pub open spec fn scan_char(src: Seq<u8>, pos: int) -> Scan {
    let n = src.len() as int;
    if pos + 1 >= n {
        fault(LexError::CharExpected, n, false)
    } else if src[pos + 1] == '\\' as u8 {
        if pos + 2 >= n {
            fault(LexError::CharExpected, n, false)
        } else {
            match char_escape(src[pos + 2]) {
                Some(c) => close_char(src, pos + 3, c),
                None => {
                    if pos + 3 >= n {
                        fault(LexError::ClosingQuoteExpected, n, false)
                    } else if src[pos + 3] == '\'' as u8 {
                        fault(
                            LexError::InvalidEscapedChar(src[pos + 2]),
                            if pos + 4 >= n {
                                n
                            } else {
                                pos + 5
                            },
                            false,
                        )
                    } else {
                        fault(LexError::InvalidEscapedChar(src[pos + 2]), pos + 4, false)
                    }
                },
            }
        }
    } else {
        close_char(src, pos + 2, src[pos + 1] as char)
    }
}

/// The bytes that a backslash and `b` stand for in a string literal. The
/// escapes `\a`, `\b`, `\f` and `\v` stand for themselves, backslash included.
pub open spec fn string_escape(b: u8) -> Option<Seq<u8>> {
    if b == '0' as u8 {
        Some(seq![0u8])
    } else if b == 'n' as u8 {
        Some(seq!['\n' as u8])
    } else if b == 'r' as u8 {
        Some(seq!['\r' as u8])
    } else if b == 't' as u8 {
        Some(seq!['\t' as u8])
    } else if b == '"' as u8 {
        Some(seq!['"' as u8])
    } else if b == 'a' as u8 || b == 'b' as u8 || b == 'f' as u8 || b == 'v' as u8 {
        Some(seq!['\\' as u8, b])
    } else if b == '\\' as u8 {
        Some(seq!['\\' as u8])
    } else {
        None
    }
}

/// The rest of a string literal from `pos` on, when the part before stands
/// for `text`: bytes and escapes up to the closing quote. A newline may
/// stand in the literal.
pub open spec fn scan_string(src: Seq<u8>, pos: int, text: Seq<u8>) -> Scan
    decreases src.len() - pos,
{
    let n = src.len() as int;
    if pos < 0 || pos >= n {
        fault(LexError::UnterminatedString, n, true)
    } else if src[pos] == '"' as u8 {
        Scan {
            found: Found::Token(TokenKind::Str, TokenValueView::Str(text)),
            next: pos + 1,
            counted: true,
        }
    } else if src[pos] == '\\' as u8 {
        if pos + 1 >= n {
            fault(LexError::EscapeExpected, n, true)
        } else {
            match string_escape(src[pos + 1]) {
                Some(t) => scan_string(src, pos + 2, text + t),
                None => {
                    if src[pos + 1] == 'x' as u8 {
                        fault(LexError::UnsupportedEscape, pos + 2, true)
                    } else {
                        fault(LexError::InvalidEscapeSequence(src[pos + 1]), pos + 2, true)
                    }
                },
            }
        }
    } else {
        scan_string(src, pos + 1, text.push(src[pos]))
    }
}

/// The end of a line comment whose text starts at `pos`: after the first
/// newline, or at the end of the input.
pub open spec fn line_comment_end(src: Seq<u8>, pos: int) -> int
    decreases src.len() - pos,
{
    if pos < 0 || pos >= src.len() {
        src.len() as int
    } else if src[pos] == '\n' as u8 {
        pos + 1
    } else {
        line_comment_end(src, pos + 1)
    }
}

/// The end of a block comment, read from `pos` on with `depth` comments
/// open inside it: after the `*/` that closes it. Block comments nest.
pub open spec fn block_comment_end(src: Seq<u8>, pos: int, depth: nat) -> Option<int>
    decreases src.len() - pos,
{
    let n = src.len() as int;
    if pos < 0 || pos >= n {
        None
    } else if src[pos] == '*' as u8 && pos + 1 < n && src[pos + 1] == '/' as u8 {
        if depth == 0 {
            Some(pos + 2)
        } else {
            block_comment_end(src, pos + 2, (depth - 1) as nat)
        }
    } else if src[pos] == '/' as u8 && pos + 1 < n && src[pos + 1] == '*' as u8 {
        block_comment_end(src, pos + 2, depth + 1)
    } else {
        block_comment_end(src, pos + 1, depth)
    }
}

/// Punctuation at `pos`: `//` and `/*` start comments, `&&` and `||` are
/// compound tokens, every other mark is a token by itself.
pub open spec fn scan_punctuation(src: Seq<u8>, pos: int) -> Scan {
    let n = src.len() as int;
    let b = src[pos];
    let follows = pos + 1 < n;
    if b == '/' as u8 && follows && src[pos + 1] == '/' as u8 {
        Scan { found: Found::Skip, next: line_comment_end(src, pos + 1), counted: true }
    } else if b == '/' as u8 && follows && src[pos + 1] == '*' as u8 {
        match block_comment_end(src, pos + 2, 0) {
            Some(e) => Scan { found: Found::Skip, next: e, counted: true },
            None => fault(LexError::UnterminatedComment, n, true),
        }
    } else if b == '&' as u8 && follows && src[pos + 1] == '&' as u8 {
        Scan {
            found: Found::Token(
                TokenKind::Compound(Symbol::Ampersand, Symbol::Ampersand),
                TokenValueView::Empty,
            ),
            next: pos + 2,
            counted: true,
        }
    } else if b == '|' as u8 && follows && src[pos + 1] == '|' as u8 {
        Scan {
            found: Found::Token(
                TokenKind::Compound(Symbol::Pipe, Symbol::Pipe),
                TokenValueView::Empty,
            ),
            next: pos + 2,
            counted: true,
        }
    } else {
        Scan {
            found: match symbol_of(b) {
                Some(s) => Found::Token(TokenKind::Symbol(s), TokenValueView::Empty),
                None => Found::Fault(LexError::InvalidCharacter(b)),
            },
            next: pos + 1,
            counted: true,
        }
    }
}

/// The scan at `pos`, by the first byte there, in this order: a digit
/// starts a number, a single quote a character literal, a double quote a
/// string literal, a letter or an underscore a word, a punctuation mark
/// punctuation; blank space and newlines are passed over; any other byte is
/// a fault, and the scan passes over it.
pub open spec fn scan(src: Seq<u8>, pos: int) -> Scan
    recommends
        0 <= pos < src.len(),
{
    let b = src[pos];
    if is_digit(b) {
        scan_number(src, pos)
    } else if b == '\'' as u8 {
        scan_char(src, pos)
    } else if b == '"' as u8 {
        scan_string(src, pos + 1, Seq::empty())
    } else if is_word_byte(b) {
        scan_word(src, pos)
    } else if symbol_of(b) is Some {
        scan_punctuation(src, pos)
    } else if b == '\n' as u8 || is_blank(b) {
        Scan { found: Found::Skip, next: pos + 1, counted: true }
    } else {
        fault(LexError::InvalidCharacter(b), pos + 1, true)
    }
}

/// The line counter after `count` more newlines. The counter has 16 bits
/// and wraps.
pub open spec fn line_plus(line: TokenLine, count: int) -> TokenLine {
    ((line + count) % 0x1_0000) as TokenLine
}

/// The line counter after a scan from `pos`: every newline that the scan
/// passes over moves it, but in a character literal.
pub open spec fn advance(line: TokenLine, src: Seq<u8>, pos: int, s: Scan) -> TokenLine {
    if s.counted {
        line_plus(line, newlines(src, pos, s.next) as int)
    } else {
        line
    }
}

/// The next token from `pos` on, where it ends, and the line it stands on.
pub struct Lexeme {
    pub found: Found,
    pub next: int,
    pub line: TokenLine,
}

/// The token that ends the input.
pub open spec fn end_of_input() -> Found {
    Found::Token(TokenKind::EOF, TokenValueView::Empty)
}

/// The next token from `pos` on, blank space and comments passed over. At
/// the end of the input it is the token that ends the input. (A scan always
/// moves forward and stays inside the text: `lemma_scan_moves`.)
pub open spec fn next_lexeme(src: Seq<u8>, pos: int, line: TokenLine) -> Lexeme
    decreases src.len() - pos,
{
    if pos < 0 || pos >= src.len() {
        Lexeme { found: end_of_input(), next: pos, line }
    } else {
        let s = scan(src, pos);
        let l = advance(line, src, pos, s);
        if !(pos < s.next <= src.len()) {
            Lexeme { found: end_of_input(), next: pos, line }
        } else if s.found is Skip {
            next_lexeme(src, s.next, l)
        } else {
            Lexeme { found: s.found, next: s.next, line: l }
        }
    }
}

/// The token that is made of what a scan found, on line `line`. A fault
/// makes a token of its own.
pub open spec fn token_of(found: Found, line: TokenLine) -> TokenView {
    match found {
        Found::Token(kind, value) => TokenView { kind, value, line },
        Found::Fault(e) => TokenView {
            kind: TokenKind::Error(e),
            value: TokenValueView::Error,
            line,
        },
        Found::Skip => TokenView { kind: TokenKind::EOF, value: TokenValueView::Empty, line },
    }
}

/// The tokens of `src` from `pos` on, when the line counter stands at
/// `line`: one after the other, up to and including the token that ends
/// the input.
pub open spec fn tokens_from(src: Seq<u8>, pos: int, line: TokenLine) -> Seq<TokenView>
    decreases src.len() - pos,
{
    let x = next_lexeme(src, pos, line);
    let t = token_of(x.found, x.line);
    if t.kind is EOF || !(pos < x.next <= src.len()) {
        seq![t]
    } else {
        seq![t] + tokens_from(src, x.next, x.line)
    }
}

/// The tokens of `src`.
pub open spec fn token_stream(src: Seq<u8>) -> Seq<TokenView> {
    tokens_from(src, 0, 1)
}

/// Whether one of `tokens` is the token of a fault.
pub open spec fn has_fault(tokens: Seq<TokenView>) -> bool {
    exists|i: int| 0 <= i < tokens.len() && (#[trigger] tokens[i]).kind is Error
}

} // verus!
