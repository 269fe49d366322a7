//! What holds of the lexical grammar: how the counts of newlines add up,
//! that every scan moves forward, and where a token stream ends.

use vstd::prelude::*;
use vstd::arithmetic::div_mod::{lemma_add_mod_noop, lemma_mod_twice, lemma_small_mod};
use crate::token::symbol::symbol_of;
use crate::token::TokenLine;
use crate::tokenizer::grammar::{
    advance, block_comment_end, digits_end, end_of_input, is_digit, is_word_byte,
    line_comment_end, line_plus, newlines, next_lexeme, scan, scan_string, string_escape,
    token_of, token_stream, tokens_from, word_end, Found,
};

verus! {

/// The newlines of a span are those of its two parts.
pub proof fn lemma_newlines_split(src: Seq<u8>, a: int, b: int, c: int)
    requires
        a <= b <= c,
    ensures
        newlines(src, a, c) == newlines(src, a, b) + newlines(src, b, c),
    decreases c - b,
{
    if b < c {
        lemma_newlines_split(src, a, b, c - 1);
    }
}

/// A span without a newline byte counts no newline.
pub proof fn lemma_no_newlines(src: Seq<u8>, a: int, b: int)
    requires
        forall|i: int| a <= i < b && 0 <= i < src.len() ==> src[i] != '\n' as u8,
    ensures
        newlines(src, a, b) == 0,
    decreases b - a,
{
    if a < b {
        lemma_no_newlines(src, a, b - 1);
    }
}

/// One byte counts one newline if it is one, and none if not.
pub proof fn lemma_newlines_one(src: Seq<u8>, a: int)
    requires
        0 <= a < src.len(),
    ensures
        newlines(src, a, a + 1) == (if src[a] == '\n' as u8 {
            1nat
        } else {
            0nat
        }),
{
    assert(newlines(src, a, a) == 0);
}

/// Counting on by `a` and then by `b` is counting on by `a + b`.
pub proof fn lemma_line_plus(line: TokenLine, a: int, b: int)
    requires
        a >= 0,
        b >= 0,
    ensures
        line_plus(line_plus(line, a), b) == line_plus(line, a + b),
        line_plus(line, 0) == line,
{
    let m = 0x1_0000int;
    lemma_add_mod_noop(line + a, b, m);
    lemma_add_mod_noop((line + a) % m, b, m);
    lemma_mod_twice(line + a, m);
    lemma_small_mod(line as nat, m as nat);
}

/// The run of digits from `pos` ends inside the text, holds digits only,
/// and is followed by none.
pub proof fn lemma_digits_end(src: Seq<u8>, pos: int)
    requires
        0 <= pos <= src.len(),
    ensures
        pos <= digits_end(src, pos) <= src.len(),
        forall|i: int| pos <= i < digits_end(src, pos) ==> is_digit(#[trigger] src[i]),
        digits_end(src, pos) < src.len() ==> !is_digit(src[digits_end(src, pos)]),
    decreases src.len() - pos,
{
    if pos < src.len() && is_digit(src[pos]) {
        lemma_digits_end(src, pos + 1);
    }
}

/// A run of digits ends where its rest ends.
pub proof fn lemma_digits_end_from(src: Seq<u8>, pos: int, mid: int)
    requires
        0 <= pos <= mid <= src.len(),
        forall|i: int| pos <= i < mid ==> is_digit(#[trigger] src[i]),
    ensures
        digits_end(src, pos) == digits_end(src, mid),
    decreases mid - pos,
{
    if pos < mid {
        lemma_digits_end_from(src, pos + 1, mid);
    }
}

/// The run of letters and underscores from `pos` ends inside the text,
/// holds such bytes only, and is followed by none.
pub proof fn lemma_word_end(src: Seq<u8>, pos: int)
    requires
        0 <= pos <= src.len(),
    ensures
        pos <= word_end(src, pos) <= src.len(),
        forall|i: int| pos <= i < word_end(src, pos) ==> is_word_byte(#[trigger] src[i]),
        word_end(src, pos) < src.len() ==> !is_word_byte(src[word_end(src, pos)]),
    decreases src.len() - pos,
{
    if pos < src.len() && is_word_byte(src[pos]) {
        lemma_word_end(src, pos + 1);
    }
}

/// A run of letters and underscores ends where its rest ends.
pub proof fn lemma_word_end_from(src: Seq<u8>, pos: int, mid: int)
    requires
        0 <= pos <= mid <= src.len(),
        forall|i: int| pos <= i < mid ==> is_word_byte(#[trigger] src[i]),
    ensures
        word_end(src, pos) == word_end(src, mid),
    decreases mid - pos,
{
    if pos < mid {
        lemma_word_end_from(src, pos + 1, mid);
    }
}

/// The scan of a string literal ends inside the text, at or after the
/// position it is read from.
pub proof fn lemma_scan_string_moves(src: Seq<u8>, pos: int, text: Seq<u8>)
    requires
        0 <= pos <= src.len(),
    ensures
        pos <= scan_string(src, pos, text).next <= src.len(),
        !(scan_string(src, pos, text).found is Skip),
        scan_string(src, pos, text).found matches Found::Token(k, _) ==> k is Str,
        scan_string(src, pos, text).counted,
    decreases src.len() - pos,
{
    let n = src.len() as int;
    if pos < n && src[pos] != '"' as u8 {
        if src[pos] == '\\' as u8 {
            if pos + 1 < n {
                match string_escape(src[pos + 1]) {
                    Some(t) => {
                        lemma_scan_string_moves(src, pos + 2, text + t);
                    },
                    None => {},
                }
            }
        } else {
            lemma_scan_string_moves(src, pos + 1, text.push(src[pos]));
        }
    }
}

/// A line comment ends inside the text, at or after the position it is
/// read from.
pub proof fn lemma_line_comment_end(src: Seq<u8>, pos: int)
    requires
        0 <= pos <= src.len(),
    ensures
        pos <= line_comment_end(src, pos) <= src.len(),
    decreases src.len() - pos,
{
    if pos < src.len() && src[pos] != '\n' as u8 {
        lemma_line_comment_end(src, pos + 1);
    }
}

/// A line comment holds no newline but, at most, its last byte: it ends
/// after the first newline from `pos` on, where there is one, and counts
/// one line; where there is none, it ends with the input and counts no line.
pub proof fn lemma_line_comment_shape(src: Seq<u8>, pos: int)
    requires
        0 <= pos <= src.len(),
    ensures
        forall|i: int|
            pos <= i < line_comment_end(src, pos) - 1 ==> #[trigger] src[i] != '\n' as u8,
        line_comment_end(src, pos) > pos && src[line_comment_end(src, pos) - 1] == '\n' as u8
            ==> newlines(src, pos, line_comment_end(src, pos)) == 1,
        !(line_comment_end(src, pos) > pos && src[line_comment_end(src, pos) - 1] == '\n' as u8)
            ==> line_comment_end(src, pos) == src.len() && newlines(
            src,
            pos,
            line_comment_end(src, pos),
        ) == 0,
    decreases src.len() - pos,
{
    let e = line_comment_end(src, pos);
    lemma_line_comment_end(src, pos);
    if pos < src.len() {
        if src[pos] == '\n' as u8 {
            lemma_newlines_one(src, pos);
        } else {
            lemma_line_comment_shape(src, pos + 1);
            lemma_line_comment_end(src, pos + 1);
            lemma_newlines_one(src, pos);
            lemma_newlines_split(src, pos, pos + 1, e);
        }
    }
}

/// A block comment that is closed ends inside the text, after the position
/// it is read from.
pub proof fn lemma_block_comment_end(src: Seq<u8>, pos: int, depth: nat)
    requires
        0 <= pos <= src.len(),
    ensures
        block_comment_end(src, pos, depth) matches Some(e) ==> pos < e <= src.len(),
    decreases src.len() - pos,
{
    let n = src.len() as int;
    if pos < n {
        if src[pos] == '*' as u8 && pos + 1 < n && src[pos + 1] == '/' as u8 {
            if depth > 0 {
                lemma_block_comment_end(src, pos + 2, (depth - 1) as nat);
            }
        } else if src[pos] == '/' as u8 && pos + 1 < n && src[pos + 1] == '*' as u8 {
            lemma_block_comment_end(src, pos + 2, depth + 1);
        } else {
            lemma_block_comment_end(src, pos + 1, depth);
        }
    }
}

/// Every scan moves forward and ends inside the text. No scan finds the
/// token that ends the input, and only a character literal leaves the
/// line counter alone.
pub proof fn lemma_scan_moves(src: Seq<u8>, pos: int)
    requires
        0 <= pos < src.len(),
    ensures
        pos < scan(src, pos).next <= src.len(),
        scan(src, pos).found matches Found::Token(k, _) ==> !(k is EOF) && !(k is Error),
        !scan(src, pos).counted ==> src[pos] == '\'' as u8,
{
    let b = src[pos];
    if is_digit(b) {
        lemma_digits_end(src, pos);
        let e = digits_end(src, pos);
        assert(digits_end(src, pos) == digits_end(src, pos + 1));
        lemma_digits_end(src, pos + 1);
        if e < src.len() && src[e] == '.' as u8 {
            lemma_digits_end(src, e + 1);
        }
    } else if b == '\'' as u8 {
    } else if b == '"' as u8 {
        lemma_scan_string_moves(src, pos + 1, Seq::empty());
    } else if is_word_byte(b) {
        assert(word_end(src, pos) == word_end(src, pos + 1));
        lemma_word_end(src, pos + 1);
    } else if symbol_of(b) is Some {
        lemma_line_comment_end(src, pos + 1);
        if pos + 2 <= src.len() {
            lemma_block_comment_end(src, pos + 2, 0);
        }
    }
}

/// The next token is found inside the text. Unless it is the token that
/// ends the input, it ends after the position it is read from.
pub proof fn lemma_next_lexeme(src: Seq<u8>, pos: int, line: TokenLine)
    requires
        0 <= pos <= src.len(),
    ensures
        pos <= next_lexeme(src, pos, line).next <= src.len(),
        !(next_lexeme(src, pos, line).found is Skip),
        next_lexeme(src, pos, line).found matches Found::Token(k, _) ==> !(k is Error),
        token_of(next_lexeme(src, pos, line).found, next_lexeme(src, pos, line).line).kind is EOF
            <==> next_lexeme(src, pos, line).found == end_of_input(),
        next_lexeme(src, pos, line).found == end_of_input() ==> next_lexeme(src, pos, line).next
            == src.len(),
        next_lexeme(src, pos, line).found != end_of_input() ==> pos < next_lexeme(
            src,
            pos,
            line,
        ).next,
    decreases src.len() - pos,
{
    if pos < src.len() {
        lemma_scan_moves(src, pos);
        let s = scan(src, pos);
        if s.found is Skip {
            lemma_next_lexeme(src, s.next, advance(line, src, pos, s));
        }
    }
}

/// Tokenizer termination: the tokens from any position end with the token
/// of kind `EOF`, and no token before it has that kind.
pub proof fn lemma_tokens_end(src: Seq<u8>, pos: int, line: TokenLine)
    requires
        0 <= pos <= src.len(),
    ensures
        tokens_from(src, pos, line).len() >= 1,
        tokens_from(src, pos, line).last().kind is EOF,
        forall|i: int|
            0 <= i < tokens_from(src, pos, line).len() - 1 ==> !((#[trigger] tokens_from(
                src,
                pos,
                line,
            )[i]).kind is EOF),
    decreases src.len() - pos,
{
    lemma_next_lexeme(src, pos, line);
    let x = next_lexeme(src, pos, line);
    let t = token_of(x.found, x.line);
    if !(t.kind is EOF) {
        lemma_tokens_end(src, x.next, x.line);
        let rest = tokens_from(src, x.next, x.line);
        let all = tokens_from(src, pos, line);
        assert(all == seq![t] + rest);
        assert(all.last() == rest.last());
        assert forall|i: int| 0 <= i < all.len() - 1 implies !((#[trigger] all[i]).kind is EOF) by {
            if i > 0 {
                assert(all[i] == rest[i - 1]);
            }
        }
    }
}

/// The number of newlines from `pos` on that count: those outside the
/// character literals.
pub open spec fn counted_newlines(src: Seq<u8>, pos: int) -> nat
    decreases src.len() - pos,
{
    if pos < 0 || pos >= src.len() {
        0
    } else {
        let s = scan(src, pos);
        if !(pos < s.next <= src.len()) {
            0
        } else {
            (if s.counted {
                newlines(src, pos, s.next)
            } else {
                0
            }) + counted_newlines(src, s.next)
        }
    }
}

/// The number of newlines from `pos` on that stand in character literals.
pub open spec fn literal_newlines(src: Seq<u8>, pos: int) -> nat
    decreases src.len() - pos,
{
    if pos < 0 || pos >= src.len() {
        0
    } else {
        let s = scan(src, pos);
        if !(pos < s.next <= src.len()) {
            0
        } else {
            (if s.counted {
                0
            } else {
                newlines(src, pos, s.next)
            }) + literal_newlines(src, s.next)
        }
    }
}

/// Every newline either counts or stands in a character literal.
pub proof fn lemma_newlines_partition(src: Seq<u8>, pos: int)
    requires
        0 <= pos <= src.len(),
    ensures
        counted_newlines(src, pos) + literal_newlines(src, pos) == newlines(
            src,
            pos,
            src.len() as int,
        ),
    decreases src.len() - pos,
{
    if pos < src.len() {
        lemma_scan_moves(src, pos);
        let s = scan(src, pos);
        lemma_newlines_partition(src, s.next);
        lemma_newlines_split(src, pos, s.next, src.len() as int);
    }
}

/// In a text without a single quote every newline counts.
pub proof fn lemma_counted_without_quotes(src: Seq<u8>, pos: int)
    requires
        0 <= pos <= src.len(),
        forall|i: int| 0 <= i < src.len() ==> src[i] != '\'' as u8,
    ensures
        counted_newlines(src, pos) == newlines(src, pos, src.len() as int),
    decreases src.len() - pos,
{
    if pos < src.len() {
        lemma_scan_moves(src, pos);
        let s = scan(src, pos);
        lemma_counted_without_quotes(src, s.next);
        lemma_newlines_split(src, pos, s.next, src.len() as int);
    }
}

/// The line of the next token: the newlines that count, from the position
/// up to the end of the token, have moved the counter.
pub proof fn lemma_lexeme_line(src: Seq<u8>, pos: int, line: TokenLine)
    requires
        0 <= pos <= src.len(),
    ensures
        line_plus(
            next_lexeme(src, pos, line).line,
            counted_newlines(src, next_lexeme(src, pos, line).next) as int,
        ) == line_plus(line, counted_newlines(src, pos) as int),
    decreases src.len() - pos,
{
    if pos < src.len() {
        lemma_scan_moves(src, pos);
        let s = scan(src, pos);
        let l = advance(line, src, pos, s);
        let step = if s.counted {
            newlines(src, pos, s.next)
        } else {
            0nat
        };
        lemma_line_plus(line, step as int, counted_newlines(src, s.next) as int);
        if s.found is Skip {
            lemma_lexeme_line(src, s.next, l);
        }
    } else {
        lemma_line_plus(line, 0, 0);
    }
}

/// Tokenizer line count: the last token from any position stands on the
/// line that the counter reaches after the newlines that count.
pub proof fn lemma_last_line(src: Seq<u8>, pos: int, line: TokenLine)
    requires
        0 <= pos <= src.len(),
    ensures
        tokens_from(src, pos, line).last().line == line_plus(
            line,
            counted_newlines(src, pos) as int,
        ),
    decreases src.len() - pos,
{
    lemma_next_lexeme(src, pos, line);
    lemma_lexeme_line(src, pos, line);
    let x = next_lexeme(src, pos, line);
    let t = token_of(x.found, x.line);
    if !(t.kind is EOF) {
        lemma_last_line(src, x.next, x.line);
        let rest = tokens_from(src, x.next, x.line);
        lemma_tokens_end(src, x.next, x.line);
        assert(tokens_from(src, pos, line) == seq![t] + rest);
        assert(tokens_from(src, pos, line).last() == rest.last());
    } else {
        lemma_line_plus(x.line, 0, 0);
        assert(counted_newlines(src, x.next) == 0);
    }
}

/// Tokenizer line count: the token that ends the input stands on line one
/// plus the number of newlines outside the character literals, as long as
/// the sixteen bits of the counter can hold that line.
pub proof fn lemma_line_count(src: Seq<u8>)
    requires
        counted_newlines(src, 0) < 0xFFFF,
    ensures
        token_stream(src).last().kind is EOF,
        token_stream(src).last().line == 1 + counted_newlines(src, 0),
{
    lemma_tokens_end(src, 0, 1);
    lemma_last_line(src, 0, 1);
}

} // verus!
