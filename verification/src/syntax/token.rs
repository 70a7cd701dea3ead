//! The tokens of the language.

use vstd::prelude::*;

verus! {

/// One lexeme of the source text.
#[derive(Debug, PartialEq)]
pub enum Token {
    // Identifiers
    Ident(String),
    // Literals
    Litrl(String),
    // Punctuation
    Comma,
    Semicolon,
    Colon,
    LeftParen,
    RightParen,
    LeftCurlyBrace,
    RightCurlyBrace,
    LeftSquareBrace,
    RightSquareBrace,
    // Operators
    Assign,
    Negate,
    BitAnd,
    BitOr,
    BitXor,
    ShiftLeft,
    ShiftRight,
    // Keywords
    Mod,
    Top,
    In,
    Out,
    Bit,
    Let,
}

/// The mathematical value of a [`Token`]: the same variants, with the text
/// of identifiers and literals as character sequences.
pub enum TokenView {
    Ident(Seq<char>),
    Litrl(Seq<char>),
    Comma,
    Semicolon,
    Colon,
    LeftParen,
    RightParen,
    LeftCurlyBrace,
    RightCurlyBrace,
    LeftSquareBrace,
    RightSquareBrace,
    Assign,
    Negate,
    BitAnd,
    BitOr,
    BitXor,
    ShiftLeft,
    ShiftRight,
    Mod,
    Top,
    In,
    Out,
    Bit,
    Let,
}

impl View for Token {
    type V = TokenView;

    open spec fn view(&self) -> TokenView {
        match self {
            Token::Ident(text) => TokenView::Ident(text@),
            Token::Litrl(text) => TokenView::Litrl(text@),
            Token::Comma => TokenView::Comma,
            Token::Semicolon => TokenView::Semicolon,
            Token::Colon => TokenView::Colon,
            Token::LeftParen => TokenView::LeftParen,
            Token::RightParen => TokenView::RightParen,
            Token::LeftCurlyBrace => TokenView::LeftCurlyBrace,
            Token::RightCurlyBrace => TokenView::RightCurlyBrace,
            Token::LeftSquareBrace => TokenView::LeftSquareBrace,
            Token::RightSquareBrace => TokenView::RightSquareBrace,
            Token::Assign => TokenView::Assign,
            Token::Negate => TokenView::Negate,
            Token::BitAnd => TokenView::BitAnd,
            Token::BitOr => TokenView::BitOr,
            Token::BitXor => TokenView::BitXor,
            Token::ShiftLeft => TokenView::ShiftLeft,
            Token::ShiftRight => TokenView::ShiftRight,
            Token::Mod => TokenView::Mod,
            Token::Top => TokenView::Top,
            Token::In => TokenView::In,
            Token::Out => TokenView::Out,
            Token::Bit => TokenView::Bit,
            Token::Let => TokenView::Let,
        }
    }
}

impl TokenView {
    /// The source text that spells this token.
    pub open spec fn text(self) -> Seq<char> {
        match self {
            TokenView::Ident(text) => text,
            TokenView::Litrl(text) => text,
            TokenView::Comma => seq![','],
            TokenView::Semicolon => seq![';'],
            TokenView::Colon => seq![':'],
            TokenView::LeftParen => seq!['('],
            TokenView::RightParen => seq![')'],
            TokenView::LeftCurlyBrace => seq!['{'],
            TokenView::RightCurlyBrace => seq!['}'],
            TokenView::LeftSquareBrace => seq!['['],
            TokenView::RightSquareBrace => seq![']'],
            TokenView::Assign => seq!['='],
            TokenView::Negate => seq!['~'],
            TokenView::BitAnd => seq!['&'],
            TokenView::BitOr => seq!['|'],
            TokenView::BitXor => seq!['^'],
            TokenView::ShiftLeft => seq!['<', '<'],
            TokenView::ShiftRight => seq!['>', '>'],
            TokenView::Mod => seq!['m', 'o', 'd'],
            TokenView::Top => seq!['t', 'o', 'p'],
            TokenView::In => seq!['i', 'n'],
            TokenView::Out => seq!['o', 'u', 't'],
            TokenView::Bit => seq!['b', 'i', 't'],
            TokenView::Let => seq!['l', 'e', 't'],
        }
    }
}

/// The token that a word of letters and digits stands for: a keyword where
/// the word is reserved, an identifier otherwise.
pub open spec fn word_token(word: Seq<char>) -> TokenView {
    if word == TokenView::Mod.text() {
        TokenView::Mod
    } else if word == TokenView::Top.text() {
        TokenView::Top
    } else if word == TokenView::In.text() {
        TokenView::In
    } else if word == TokenView::Out.text() {
        TokenView::Out
    } else if word == TokenView::Bit.text() {
        TokenView::Bit
    } else if word == TokenView::Let.text() {
        TokenView::Let
    } else {
        TokenView::Ident(word)
    }
}

/// The token spelled by the single character `c`, if there is one.
pub open spec fn symbol_token(c: char) -> Option<TokenView> {
    if c == ',' {
        Some(TokenView::Comma)
    } else if c == ';' {
        Some(TokenView::Semicolon)
    } else if c == ':' {
        Some(TokenView::Colon)
    } else if c == '(' {
        Some(TokenView::LeftParen)
    } else if c == ')' {
        Some(TokenView::RightParen)
    } else if c == '{' {
        Some(TokenView::LeftCurlyBrace)
    } else if c == '}' {
        Some(TokenView::RightCurlyBrace)
    } else if c == '[' {
        Some(TokenView::LeftSquareBrace)
    } else if c == ']' {
        Some(TokenView::RightSquareBrace)
    } else if c == '=' {
        Some(TokenView::Assign)
    } else if c == '~' {
        Some(TokenView::Negate)
    } else if c == '&' {
        Some(TokenView::BitAnd)
    } else if c == '|' {
        Some(TokenView::BitOr)
    } else if c == '^' {
        Some(TokenView::BitXor)
    } else {
        None
    }
}

impl Clone for Token {
    fn clone(&self) -> (copy: Self)
        ensures
            copy == *self,
    {
        match self {
            Token::Ident(text) => Token::Ident(text.clone()),
            Token::Litrl(text) => Token::Litrl(text.clone()),
            Token::Comma => Token::Comma,
            Token::Semicolon => Token::Semicolon,
            Token::Colon => Token::Colon,
            Token::LeftParen => Token::LeftParen,
            Token::RightParen => Token::RightParen,
            Token::LeftCurlyBrace => Token::LeftCurlyBrace,
            Token::RightCurlyBrace => Token::RightCurlyBrace,
            Token::LeftSquareBrace => Token::LeftSquareBrace,
            Token::RightSquareBrace => Token::RightSquareBrace,
            Token::Assign => Token::Assign,
            Token::Negate => Token::Negate,
            Token::BitAnd => Token::BitAnd,
            Token::BitOr => Token::BitOr,
            Token::BitXor => Token::BitXor,
            Token::ShiftLeft => Token::ShiftLeft,
            Token::ShiftRight => Token::ShiftRight,
            Token::Mod => Token::Mod,
            Token::Top => Token::Top,
            Token::In => Token::In,
            Token::Out => Token::Out,
            Token::Bit => Token::Bit,
            Token::Let => Token::Let,
        }
    }
}

} // verus!
