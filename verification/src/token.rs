//! The tokens of a program.

use vstd::prelude::*;

verus! {

/// One token of a program. A program is a sequence of tokens that stays as it
/// is while the machine runs.
#[derive(Debug, Clone, PartialEq, Eq)]
pub enum Token {
    /// A word: the name of an operation, a label or a call.
    Ident(String),
    /// An integer literal.
    Int(i64),
    /// A string literal, escapes resolved.
    Str(String),
    /// `(`
    LParen,
    /// `)`
    RParen,
    /// `!`
    Bang,
}

/// What a token is, with its text as a sequence of characters.
pub enum TokenView {
    Ident(Seq<char>),
    Int(int),
    Str(Seq<char>),
    LParen,
    RParen,
    Bang,
}

impl View for Token {
    type V = TokenView;

    open spec fn view(&self) -> TokenView {
        match *self {
            Token::Ident(name) => TokenView::Ident(name@),
            Token::Int(value) => TokenView::Int(value as int),
            Token::Str(text) => TokenView::Str(text@),
            Token::LParen => TokenView::LParen,
            Token::RParen => TokenView::RParen,
            Token::Bang => TokenView::Bang,
        }
    }
}

impl DeepView for Token {
    type V = TokenView;

    open spec fn deep_view(&self) -> TokenView {
        self@
    }
}

/// Why a source text is not a program.
#[derive(Debug, Clone, Copy, PartialEq, Eq, Structural)]
pub enum LexError {
    /// A string literal is still open where the text ends.
    UnfinishedString,
    /// An integer literal does not fit in 64 signed bits.
    IntOutOfRange,
}

} // verus!
