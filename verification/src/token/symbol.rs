//! The punctuation marks.

use vstd::prelude::*;

verus! {

/// A punctuation mark.
#[derive(Debug, Clone, Copy, PartialEq, Eq, Structural)]
pub enum Symbol {
    Equal,
    Bang,
    Plus,
    Minus,
    Asterisk,
    Slash,
    Ampersand,
    Pipe,
    Caret,
    Percent,
    Lesser,
    Greater,
    Dot,
    Colon,
    Comma,
    Semicolon,
    LParen,
    RParen,
    LBrace,
    RBrace,
    LBracket,
    RBracket,
}

/// The mark that the byte `b` stands for, if it stands for one.
pub open spec fn symbol_of(b: u8) -> Option<Symbol> {
    if b == '=' as u8 {
        Some(Symbol::Equal)
    } else if b == '!' as u8 {
        Some(Symbol::Bang)
    } else if b == '+' as u8 {
        Some(Symbol::Plus)
    } else if b == '-' as u8 {
        Some(Symbol::Minus)
    } else if b == '*' as u8 {
        Some(Symbol::Asterisk)
    } else if b == '/' as u8 {
        Some(Symbol::Slash)
    } else if b == '&' as u8 {
        Some(Symbol::Ampersand)
    } else if b == '|' as u8 {
        Some(Symbol::Pipe)
    } else if b == '^' as u8 {
        Some(Symbol::Caret)
    } else if b == '%' as u8 {
        Some(Symbol::Percent)
    } else if b == '<' as u8 {
        Some(Symbol::Lesser)
    } else if b == '>' as u8 {
        Some(Symbol::Greater)
    } else if b == '.' as u8 {
        Some(Symbol::Dot)
    } else if b == ':' as u8 {
        Some(Symbol::Colon)
    } else if b == ',' as u8 {
        Some(Symbol::Comma)
    } else if b == ';' as u8 {
        Some(Symbol::Semicolon)
    } else if b == '(' as u8 {
        Some(Symbol::LParen)
    } else if b == ')' as u8 {
        Some(Symbol::RParen)
    } else if b == '{' as u8 {
        Some(Symbol::LBrace)
    } else if b == '}' as u8 {
        Some(Symbol::RBrace)
    } else if b == '[' as u8 {
        Some(Symbol::LBracket)
    } else if b == ']' as u8 {
        Some(Symbol::RBracket)
    } else {
        None
    }
}

impl Symbol {
    /// Looks up the mark that the byte `b` stands for.
    pub fn of(b: u8) -> (r: Option<Symbol>)
        ensures
            r == symbol_of(b),
    {
        if b == '=' as u8 {
            Some(Symbol::Equal)
        } else if b == '!' as u8 {
            Some(Symbol::Bang)
        } else if b == '+' as u8 {
            Some(Symbol::Plus)
        } else if b == '-' as u8 {
            Some(Symbol::Minus)
        } else if b == '*' as u8 {
            Some(Symbol::Asterisk)
        } else if b == '/' as u8 {
            Some(Symbol::Slash)
        } else if b == '&' as u8 {
            Some(Symbol::Ampersand)
        } else if b == '|' as u8 {
            Some(Symbol::Pipe)
        } else if b == '^' as u8 {
            Some(Symbol::Caret)
        } else if b == '%' as u8 {
            Some(Symbol::Percent)
        } else if b == '<' as u8 {
            Some(Symbol::Lesser)
        } else if b == '>' as u8 {
            Some(Symbol::Greater)
        } else if b == '.' as u8 {
            Some(Symbol::Dot)
        } else if b == ':' as u8 {
            Some(Symbol::Colon)
        } else if b == ',' as u8 {
            Some(Symbol::Comma)
        } else if b == ';' as u8 {
            Some(Symbol::Semicolon)
        } else if b == '(' as u8 {
            Some(Symbol::LParen)
        } else if b == ')' as u8 {
            Some(Symbol::RParen)
        } else if b == '{' as u8 {
            Some(Symbol::LBrace)
        } else if b == '}' as u8 {
            Some(Symbol::RBrace)
        } else if b == '[' as u8 {
            Some(Symbol::LBracket)
        } else if b == ']' as u8 {
            Some(Symbol::RBracket)
        } else {
            None
        }
    }
}

/// The byte that stands for the mark.
pub open spec fn mark_of(s: Symbol) -> u8 {
    match s {
        Symbol::Equal => '=' as u8,
        Symbol::Bang => '!' as u8,
        Symbol::Plus => '+' as u8,
        Symbol::Minus => '-' as u8,
        Symbol::Asterisk => '*' as u8,
        Symbol::Slash => '/' as u8,
        Symbol::Ampersand => '&' as u8,
        Symbol::Pipe => '|' as u8,
        Symbol::Caret => '^' as u8,
        Symbol::Percent => '%' as u8,
        Symbol::Lesser => '<' as u8,
        Symbol::Greater => '>' as u8,
        Symbol::Dot => '.' as u8,
        Symbol::Colon => ':' as u8,
        Symbol::Comma => ',' as u8,
        Symbol::Semicolon => ';' as u8,
        Symbol::LParen => '(' as u8,
        Symbol::RParen => ')' as u8,
        Symbol::LBrace => '{' as u8,
        Symbol::RBrace => '}' as u8,
        Symbol::LBracket => '[' as u8,
        Symbol::RBracket => ']' as u8,
    }
}

/// Every mark is the mark of its own byte, and of no other byte.
pub proof fn lemma_mark_of(s: Symbol, b: u8)
    ensures
        symbol_of(mark_of(s)) == Some(s),
        symbol_of(b) == Some(s) <==> b == mark_of(s),
{
}

impl Symbol {
    /// The byte that stands for the mark.
    pub fn mark(&self) -> (b: u8)
        ensures
            b == mark_of(*self),
    {
        match self {
            Symbol::Equal => '=' as u8,
            Symbol::Bang => '!' as u8,
            Symbol::Plus => '+' as u8,
            Symbol::Minus => '-' as u8,
            Symbol::Asterisk => '*' as u8,
            Symbol::Slash => '/' as u8,
            Symbol::Ampersand => '&' as u8,
            Symbol::Pipe => '|' as u8,
            Symbol::Caret => '^' as u8,
            Symbol::Percent => '%' as u8,
            Symbol::Lesser => '<' as u8,
            Symbol::Greater => '>' as u8,
            Symbol::Dot => '.' as u8,
            Symbol::Colon => ':' as u8,
            Symbol::Comma => ',' as u8,
            Symbol::Semicolon => ';' as u8,
            Symbol::LParen => '(' as u8,
            Symbol::RParen => ')' as u8,
            Symbol::LBrace => '{' as u8,
            Symbol::RBrace => '}' as u8,
            Symbol::LBracket => '[' as u8,
            Symbol::RBracket => ']' as u8,
        }
    }
}

} // verus!
