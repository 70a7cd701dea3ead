//! Syntax errors: the shapes in which parsing fails, and the errors that
//! the front end reports.

use crate::syntax::lexer::InvalidCharacterError;
use crate::syntax::token::{Token, TokenView};
use crate::syntax::BytePos;
use vstd::prelude::*;
use vstd::std_specs::convert::FromSpecImpl;

verus! {

/// How the parser fails.
#[derive(Debug, PartialEq)]
#[allow(inconsistent_fields)]
pub enum ParseError {
    /// No token can be made out at `location`.
    InvalidToken { location: BytePos },
    /// `token` cannot stand where it was read; `None` means that the input
    /// ended there. `expected` describes the tokens that could.
    UnrecognizedToken { token: Option<(BytePos, Token, BytePos)>, expected: Vec<String> },
    /// The input goes on with `token` behind a complete module.
    ExtraToken { token: (BytePos, Token, BytePos) },
    /// The scanner handed out an error in place of a token.
    User { error: InvalidCharacterError },
}

/// Syntax error types.
#[derive(Debug, PartialEq)]
#[allow(inconsistent_fields)]
pub enum Error {
    InvalidToken { pos: BytePos },
    UnrecognizedToken { token: Option<(BytePos, Token, BytePos)>, expected: Vec<String> },
    ExtraToken { token: (BytePos, Token, BytePos) },
    InvalidCharacter { pos: BytePos, ch: char },
}

/// The mathematical value of a [`ParseError`].
#[allow(inconsistent_fields)]
pub enum ParseErrorView {
    InvalidToken { location: BytePos },
    UnrecognizedToken { token: Option<(BytePos, TokenView, BytePos)>, expected: Seq<Seq<char>> },
    ExtraToken { token: (BytePos, TokenView, BytePos) },
    User { error: InvalidCharacterError },
}

/// The mathematical value of an [`Error`].
#[allow(inconsistent_fields)]
pub enum ErrorView {
    InvalidToken { pos: BytePos },
    UnrecognizedToken { token: Option<(BytePos, TokenView, BytePos)>, expected: Seq<Seq<char>> },
    ExtraToken { token: (BytePos, TokenView, BytePos) },
    InvalidCharacter { pos: BytePos, ch: char },
}

/// The value of a spanned token.
pub open spec fn spanned_view(spanned: (BytePos, Token, BytePos)) -> (BytePos, TokenView, BytePos) {
    (spanned.0, spanned.1@, spanned.2)
}

/// The value of a spanned token that may be missing.
pub open spec fn found_view(found: Option<(BytePos, Token, BytePos)>) -> Option<
    (BytePos, TokenView, BytePos),
> {
    match found {
        Some(spanned) => Some(spanned_view(spanned)),
        None => None,
    }
}

/// The values of a list of strings.
pub open spec fn strings_view(strings: Seq<String>) -> Seq<Seq<char>> {
    strings.map_values(|text: String| text@)
}

impl View for ParseError {
    type V = ParseErrorView;

    open spec fn view(&self) -> ParseErrorView {
        match self {
            ParseError::InvalidToken { location } => ParseErrorView::InvalidToken {
                location: *location,
            },
            ParseError::UnrecognizedToken { token, expected } => ParseErrorView::UnrecognizedToken {
                token: found_view(*token),
                expected: strings_view(expected@),
            },
            ParseError::ExtraToken { token } => ParseErrorView::ExtraToken {
                token: spanned_view(*token),
            },
            ParseError::User { error } => ParseErrorView::User { error: *error },
        }
    }
}

impl View for Error {
    type V = ErrorView;

    open spec fn view(&self) -> ErrorView {
        match self {
            Error::InvalidToken { pos } => ErrorView::InvalidToken { pos: *pos },
            Error::UnrecognizedToken { token, expected } => ErrorView::UnrecognizedToken {
                token: found_view(*token),
                expected: strings_view(expected@),
            },
            Error::ExtraToken { token } => ErrorView::ExtraToken { token: spanned_view(*token) },
            Error::InvalidCharacter { pos, ch } => ErrorView::InvalidCharacter {
                pos: *pos,
                ch: *ch,
            },
        }
    }
}

/// The error that stands for each way in which parsing fails. Positions,
/// tokens and expectations are kept as they are.
pub open spec fn report(error: ParseErrorView) -> ErrorView {
    match error {
        ParseErrorView::InvalidToken { location } => ErrorView::InvalidToken { pos: location },
        ParseErrorView::UnrecognizedToken { token, expected } => ErrorView::UnrecognizedToken {
            token,
            expected,
        },
        ParseErrorView::ExtraToken { token } => ErrorView::ExtraToken { token },
        ParseErrorView::User { error } => ErrorView::InvalidCharacter {
            pos: error.pos,
            ch: error.ch,
        },
    }
}

impl FromSpecImpl<ParseError> for Error {
    open spec fn obeys_from_spec() -> bool {
        true
    }

    open spec fn from_spec(error: ParseError) -> Error {
        match error {
            ParseError::InvalidToken { location } => Error::InvalidToken { pos: location },
            ParseError::UnrecognizedToken { token, expected } => Error::UnrecognizedToken {
                token,
                expected,
            },
            ParseError::ExtraToken { token } => Error::ExtraToken { token },
            ParseError::User { error } => Error::InvalidCharacter { pos: error.pos, ch: error.ch },
        }
    }
}

impl From<ParseError> for Error {
    fn from(error: ParseError) -> (reported: Error)
        ensures
            reported@ == report(error@),
    {
        match error {
            ParseError::InvalidToken { location } => Error::InvalidToken { pos: location },
            ParseError::UnrecognizedToken { token, expected } => Error::UnrecognizedToken {
                token,
                expected,
            },
            ParseError::ExtraToken { token } => Error::ExtraToken { token },
            ParseError::User { error: InvalidCharacterError { ch, pos } } => Error::InvalidCharacter {
                pos,
                ch,
            },
        }
    }
}

/// Copies a spanned token.
fn copy_spanned(spanned: &(BytePos, Token, BytePos)) -> (copy: (BytePos, Token, BytePos))
    ensures
        copy == *spanned,
{
    (spanned.0, spanned.1.clone(), spanned.2)
}

/// Copies a list of strings.
fn copy_strings(strings: &Vec<String>) -> (copy: Vec<String>)
    ensures
        strings_view(copy@) == strings_view(strings@),
{
    let mut copy: Vec<String> = Vec::new();
    for i in 0..strings.len()
        invariant
            copy.len() == i,
            forall|k: int| 0 <= k < i ==> copy@[k]@ == strings@[k]@,
    {
        copy.push(strings[i].clone());
    }
    assert(strings_view(copy@) =~= strings_view(strings@));
    copy
}

impl Clone for ParseError {
    fn clone(&self) -> (copy: Self)
        ensures
            copy@ == self@,
    {
        match self {
            ParseError::InvalidToken { location } => ParseError::InvalidToken {
                location: *location,
            },
            ParseError::UnrecognizedToken { token, expected } => {
                let token = match token {
                    Some(spanned) => Some(copy_spanned(spanned)),
                    None => None,
                };
                ParseError::UnrecognizedToken { token, expected: copy_strings(expected) }
            },
            ParseError::ExtraToken { token } => ParseError::ExtraToken {
                token: copy_spanned(token),
            },
            ParseError::User { error } => ParseError::User { error: *error },
        }
    }
}

impl Clone for Error {
    fn clone(&self) -> (copy: Self)
        ensures
            copy@ == self@,
    {
        match self {
            Error::InvalidToken { pos } => Error::InvalidToken { pos: *pos },
            Error::UnrecognizedToken { token, expected } => {
                let token = match token {
                    Some(spanned) => Some(copy_spanned(spanned)),
                    None => None,
                };
                Error::UnrecognizedToken { token, expected: copy_strings(expected) }
            },
            Error::ExtraToken { token } => Error::ExtraToken { token: copy_spanned(token) },
            Error::InvalidCharacter { pos, ch } => Error::InvalidCharacter { pos: *pos, ch: *ch },
        }
    }
}

/// Reporting loses nothing: two failures that are reported alike were
/// alike.
pub proof fn lemma_report_injective(first: ParseErrorView, second: ParseErrorView)
    requires
        report(first) == report(second),
    ensures
        first == second,
{
}

} // verus!
