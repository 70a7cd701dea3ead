//! The front end: scanning and parsing of Silica source text.

use vstd::prelude::*;

pub mod ast;
pub mod chars;
pub mod error;
pub mod grammar;
pub mod lexer;
pub mod parser;
pub mod spelling;
pub mod token;
pub mod trailing;
pub mod visit;

pub use crate::syntax::error::Error;

verus! {

/// Source code byte offsets, used for spans and errors.
pub type BytePos = usize;

/// The tree that a source text stands for, or the error that is reported
/// for it: what parsing makes of the items that scanning yields.
pub open spec fn parsed(text: Seq<char>) -> Result<ast::AstView, error::ErrorView> {
    match grammar::source_tree(lexer::token_stream(text)) {
        Ok(tree) => Ok(tree),
        Err(failure) => Err(error::report(failure)),
    }
}

/// The value of what [`parse_source`] returns.
pub open spec fn outcome_view(result: Result<ast::Ast, Error>) -> Result<
    ast::AstView,
    error::ErrorView,
> {
    match result {
        Ok(tree) => Ok(tree@),
        Err(error) => Err(error@),
    }
}

/// Parses source code into an AST. The tree of a source that parses is
/// well formed: its expressions are grouped as the operators bind, and the
/// bounds of its bit vectors are in order.
pub fn parse_source(source: &str) -> (result: Result<ast::Ast, Error>)
    ensures
        outcome_view(result) == parsed(source@),
        result matches Ok(tree) ==> tree@.wf(),
{
    let items = lexer::tokenize(source);
    match parser::parse_tokens(&items) {
        Ok(tree) => Ok(tree),
        Err(failure) => Err(Error::from(failure)),
    }
}

impl ast::Ast {
    /// Parses source code into an AST.
    pub fn new(input: &str) -> (result: Result<ast::Ast, Error>)
        ensures
            outcome_view(result) == parsed(input@),
            result matches Ok(tree) ==> tree@.wf(),
    {
        parse_source(input)
    }
}

/// The text from `from` on without its line comments: every character
/// but those from two slashes in a row up to the next newline, which
/// stays.
pub open spec fn uncommented(text: Seq<char>, from: int) -> Seq<char>
    decreases text.len() - from,
    via uncommented_decreases
{
    if from < 0 || from >= text.len() {
        Seq::empty()
    } else if lexer::starts_comment(text, from) {
        uncommented(text, lexer::line_end(text, from + 2))
    } else {
        seq![text[from]] + uncommented(text, from + 1)
    }
}

#[via_fn]
proof fn uncommented_decreases(text: Seq<char>, from: int) {
    if lexer::starts_comment(text, from) {
        lexer::lemma_line_end_bounds(text, from + 2);
    }
}

/// Calls `regex::Regex::new` on `pattern` and `Regex::replace_all` with the
/// empty replacement. The pattern of line comments matches two slashes and
/// every character behind them that is no newline; each match, found from
/// left to right, is cut out, and the rest of the text is kept.
#[verifier::external_body]
fn cut_out(pattern: &str, input: &str) -> (rest: String)
    requires
        pattern@ == "//.*"@,
    ensures
        rest@ == uncommented(input@, 0),
{
    regex::Regex::new(pattern).unwrap().replace_all(input, "").to_string()
}

/// A parser that holds its input with the line comments cut out. Byte
/// offsets in its errors count in that text, not in the text it was made
/// from.
pub struct Parser {
    input: String,
}

impl Parser {
    /// The text that is parsed.
    pub closed spec fn text(&self) -> Seq<char> {
        self.input@
    }

    /// A parser for `input` without its line comments.
    pub fn new(input: &str) -> (parser: Parser)
        ensures
            parser.text() == uncommented(input@, 0),
    {
        Parser { input: cut_out("//.*", input) }
    }

    /// The text that is parsed.
    pub fn source(&self) -> (text: &str)
        ensures
            text@ == self.text(),
    {
        self.input.as_str()
    }

    /// Parses the text into an AST.
    pub fn parse(&self) -> (result: Result<ast::Ast, Error>)
        ensures
            outcome_view(result) == parsed(self.text()),
            result matches Ok(tree) ==> tree@.wf(),
    {
        parse_source(self.input.as_str())
    }
}

} // verus!
