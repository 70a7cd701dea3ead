//! The scanner: from source text to tokens with byte-accurate spans.

use crate::syntax::chars::{
    byte_len, byte_offset, char_is_alphabetic, char_is_whitespace, char_width, is_digit,
    is_letter, is_whitespace, lemma_byte_offset_monotone, lemma_byte_offset_step,
    lemma_utf8_width_bounds, push_char,
};
use crate::syntax::token::{symbol_token, word_token, Token, TokenView};
use crate::syntax::BytePos;
use vstd::prelude::*;
use vstd::string::*;

verus! {

/// A character that starts no token, with the byte offset at which it stands.
#[derive(Clone, Copy, Debug, PartialEq)]
pub struct InvalidCharacterError {
    pub pos: BytePos,
    pub ch: char,
}

/// What the scanner yields: a token between its first byte and the byte
/// after its last, or a character that starts no token.
pub type LexerItem = Result<(BytePos, Token, BytePos), InvalidCharacterError>;

/// The mathematical value of a [`LexerItem`].
pub type ItemView = Result<(BytePos, TokenView, BytePos), InvalidCharacterError>;

/// A scanning error without its position.
#[derive(Clone, Copy, Debug, PartialEq)]
pub enum LexerError {
    InvalidCharacter(char),
}

/// A scanned item without its span.
pub open spec fn bare(item: ItemView) -> Result<TokenView, LexerError> {
    match item {
        Ok((start, token, end)) => Ok(token),
        Err(error) => Err(LexerError::InvalidCharacter(error.ch)),
    }
}

/// The value of one scanned item.
pub open spec fn item_view(item: LexerItem) -> ItemView {
    match item {
        Ok((start, token, end)) => Ok((start, token@, end)),
        Err(error) => Err(error),
    }
}

/// The values of a sequence of scanned items.
pub open spec fn items_view(items: Seq<LexerItem>) -> Seq<ItemView> {
    items.map_values(|item: LexerItem| item_view(item))
}

/// A piece of the source: the characters from `start` up to `end`, and the
/// token they spell or the character that spells none.
pub struct Lexeme {
    pub start: int,
    pub end: int,
    pub item: Result<TokenView, char>,
}

/// A character that may continue an identifier: a letter or a decimal
/// digit.
pub open spec fn is_word_char(c: char) -> bool {
    is_letter(c) || is_digit(c)
}

/// The first index from `from` on that holds no white space.
pub open spec fn whitespace_end(text: Seq<char>, from: int) -> int
    decreases text.len() - from,
{
    if 0 <= from < text.len() && is_whitespace(text[from]) {
        whitespace_end(text, from + 1)
    } else {
        from
    }
}

/// The first index from `from` on that holds a newline, or the length of
/// the text where none follows.
pub open spec fn line_end(text: Seq<char>, from: int) -> int
    decreases text.len() - from,
{
    if 0 <= from < text.len() && text[from] != '\n' {
        line_end(text, from + 1)
    } else {
        from
    }
}

/// The first index from `from` on that cannot continue an identifier.
pub open spec fn word_end(text: Seq<char>, from: int) -> int
    decreases text.len() - from,
{
    if 0 <= from < text.len() && is_word_char(text[from]) {
        word_end(text, from + 1)
    } else {
        from
    }
}

/// The first index from `from` on that holds no decimal digit.
pub open spec fn number_end(text: Seq<char>, from: int) -> int
    decreases text.len() - from,
{
    if 0 <= from < text.len() && is_digit(text[from]) {
        number_end(text, from + 1)
    } else {
        from
    }
}

/// A line comment starts at `at`: two slashes in a row.
pub open spec fn starts_comment(text: Seq<char>, at: int) -> bool {
    0 <= at && at + 1 < text.len() && text[at] == '/' && text[at + 1] == '/'
}

/// The first index from `from` on that is neither white space nor part of a
/// line comment. A comment runs from its two slashes to the next newline,
/// which it does not include.
pub open spec fn skip_blank(text: Seq<char>, from: int) -> int
    decreases text.len() - from,
    via skip_blank_decreases
{
    if from < 0 || from >= text.len() {
        from
    } else if is_whitespace(text[from]) {
        skip_blank(text, from + 1)
    } else if starts_comment(text, from) {
        skip_blank(text, line_end(text, from + 2))
    } else {
        from
    }
}

#[via_fn]
proof fn skip_blank_decreases(text: Seq<char>, from: int) {
    if starts_comment(text, from) {
        lemma_line_end_bounds(text, from + 2);
    }
}

/// The lexeme that starts at `at`, where `at` holds a character that is not
/// blank.
pub open spec fn lexeme_at(text: Seq<char>, at: int) -> Lexeme {
    let c = text[at];
    if symbol_token(c) is Some {
        Lexeme { start: at, end: at + 1, item: Ok(symbol_token(c)->0) }
    } else if c == '<' {
        if at + 1 < text.len() && text[at + 1] == '<' {
            Lexeme { start: at, end: at + 2, item: Ok(TokenView::ShiftLeft) }
        } else {
            Lexeme { start: at, end: at + 1, item: Err(c) }
        }
    } else if c == '>' {
        if at + 1 < text.len() && text[at + 1] == '>' {
            Lexeme { start: at, end: at + 2, item: Ok(TokenView::ShiftRight) }
        } else {
            Lexeme { start: at, end: at + 1, item: Err(c) }
        }
    } else if c == '/' {
        Lexeme { start: at, end: at + 1, item: Err(c) }
    } else if is_letter(c) {
        let end = word_end(text, at + 1);
        Lexeme { start: at, end, item: Ok(word_token(text.subrange(at, end))) }
    } else if is_digit(c) {
        let end = number_end(text, at + 1);
        Lexeme { start: at, end, item: Ok(TokenView::Litrl(text.subrange(at, end))) }
    } else {
        Lexeme { start: at, end: at + 1, item: Err(c) }
    }
}

/// The next lexeme at or after `from`, if the text holds one.
pub open spec fn next_lexeme(text: Seq<char>, from: int) -> Option<Lexeme> {
    let at = skip_blank(text, from);
    if 0 <= at < text.len() {
        Some(lexeme_at(text, at))
    } else {
        None
    }
}

/// All lexemes of the text at or after `from`, in order.
pub open spec fn lexemes(text: Seq<char>, from: int) -> Seq<Lexeme>
    decreases text.len() - from,
    via lexemes_decreases
{
    match next_lexeme(text, from) {
        Some(lexeme) => seq![lexeme] + lexemes(text, lexeme.end),
        None => Seq::empty(),
    }
}

#[via_fn]
proof fn lexemes_decreases(text: Seq<char>, from: int) {
    if next_lexeme(text, from) is Some {
        lemma_next_lexeme_bounds(text, from);
    }
}

/// A lexeme as the scanner hands it out: with the byte offsets of its ends.
pub open spec fn spanned(text: Seq<char>, lexeme: Lexeme) -> ItemView {
    match lexeme.item {
        Ok(token) => Ok(
            (
                byte_offset(text, lexeme.start) as usize,
                token,
                byte_offset(text, lexeme.end) as usize,
            ),
        ),
        Err(ch) => Err(InvalidCharacterError { pos: byte_offset(text, lexeme.start) as usize, ch }),
    }
}

/// Lexemes as the scanner hands them out.
pub open spec fn spanned_all(text: Seq<char>, lexemes: Seq<Lexeme>) -> Seq<ItemView> {
    lexemes.map_values(|lexeme: Lexeme| spanned(text, lexeme))
}

/// The items that scanning the whole text yields.
pub open spec fn token_stream(text: Seq<char>) -> Seq<ItemView> {
    spanned_all(text, lexemes(text, 0))
}

/// White space ends inside the text, in front of a character that is
/// none, and the blanks behind it end where those in front of it do.
pub proof fn lemma_whitespace_end_bounds(text: Seq<char>, from: int)
    requires
        0 <= from <= text.len(),
    ensures
        from <= whitespace_end(text, from) <= text.len(),
        whitespace_end(text, from) < text.len() ==> !is_whitespace(
            text[whitespace_end(text, from)],
        ),
        skip_blank(text, from) == skip_blank(text, whitespace_end(text, from)),
    decreases text.len() - from,
{
    if from < text.len() && is_whitespace(text[from]) {
        lemma_whitespace_end_bounds(text, from + 1);
    }
}

/// A line ends inside the text.
pub proof fn lemma_line_end_bounds(text: Seq<char>, from: int)
    requires
        0 <= from <= text.len(),
    ensures
        from <= line_end(text, from) <= text.len(),
    decreases text.len() - from,
{
    if from < text.len() && text[from] != '\n' {
        lemma_line_end_bounds(text, from + 1);
    }
}

/// A word ends inside the text.
pub proof fn lemma_word_end_bounds(text: Seq<char>, from: int)
    requires
        0 <= from <= text.len(),
    ensures
        from <= word_end(text, from) <= text.len(),
    decreases text.len() - from,
{
    if from < text.len() && is_word_char(text[from]) {
        lemma_word_end_bounds(text, from + 1);
    }
}

/// A literal ends inside the text.
pub proof fn lemma_number_end_bounds(text: Seq<char>, from: int)
    requires
        0 <= from <= text.len(),
    ensures
        from <= number_end(text, from) <= text.len(),
    decreases text.len() - from,
{
    if from < text.len() && is_digit(text[from]) {
        lemma_number_end_bounds(text, from + 1);
    }
}

/// Blanks end inside the text.
pub proof fn lemma_skip_blank_bounds(text: Seq<char>, from: int)
    requires
        0 <= from <= text.len(),
    ensures
        from <= skip_blank(text, from) <= text.len(),
    decreases text.len() - from,
{
    if from < text.len() {
        if is_whitespace(text[from]) {
            lemma_skip_blank_bounds(text, from + 1);
        } else if starts_comment(text, from) {
            lemma_line_end_bounds(text, from + 2);
            lemma_skip_blank_bounds(text, line_end(text, from + 2));
        }
    }
}

/// A word takes every character that it can: all that lie in front of its
/// end may continue an identifier, and the character at its end may not.
pub proof fn lemma_word_is_maximal(text: Seq<char>, from: int)
    requires
        0 <= from <= text.len(),
    ensures
        forall|i: int| from <= i < word_end(text, from) ==> is_word_char(#[trigger] text[i]),
        word_end(text, from) < text.len() ==> !is_word_char(text[word_end(text, from)]),
    decreases text.len() - from,
{
    if from < text.len() && is_word_char(text[from]) {
        lemma_word_is_maximal(text, from + 1);
    }
}

/// A literal takes every character that it can: all that lie in front of
/// its end are decimal digits, and the character at its end is none.
pub proof fn lemma_number_is_maximal(text: Seq<char>, from: int)
    requires
        0 <= from <= text.len(),
    ensures
        forall|i: int| from <= i < number_end(text, from) ==> is_digit(#[trigger] text[i]),
        number_end(text, from) < text.len() ==> !is_digit(text[number_end(text, from)]),
    decreases text.len() - from,
{
    if from < text.len() && is_digit(text[from]) {
        lemma_number_is_maximal(text, from + 1);
    }
}

/// A comment ends in front of the first newline behind its slashes, or at
/// the end of the text.
pub proof fn lemma_line_holds_no_newline(text: Seq<char>, from: int)
    requires
        0 <= from <= text.len(),
    ensures
        forall|i: int| from <= i < line_end(text, from) ==> #[trigger] text[i] != '\n',
        line_end(text, from) < text.len() ==> text[line_end(text, from)] == '\n',
    decreases text.len() - from,
{
    if from < text.len() && text[from] != '\n' {
        lemma_line_holds_no_newline(text, from + 1);
    }
}

/// What stands where the blanks end starts a lexeme: it is no white space
/// and no comment starts there.
pub proof fn lemma_blanks_end_at_a_lexeme(text: Seq<char>, from: int)
    requires
        0 <= from <= text.len(),
    ensures
        skip_blank(text, from) < text.len() ==> !is_whitespace(text[skip_blank(text, from)])
            && !starts_comment(text, skip_blank(text, from)),
    decreases text.len() - from,
{
    if from < text.len() {
        if is_whitespace(text[from]) {
            lemma_blanks_end_at_a_lexeme(text, from + 1);
        } else if starts_comment(text, from) {
            lemma_line_end_bounds(text, from + 2);
            lemma_blanks_end_at_a_lexeme(text, line_end(text, from + 2));
        }
    }
}

/// A lexeme is never empty and lies inside the text.
pub proof fn lemma_lexeme_at_bounds(text: Seq<char>, at: int)
    requires
        0 <= at < text.len(),
    ensures
        lexeme_at(text, at).start == at,
        at < lexeme_at(text, at).end <= text.len(),
{
    lemma_word_end_bounds(text, at + 1);
    lemma_number_end_bounds(text, at + 1);
}

/// The next lexeme starts at or after the place where the search began.
pub proof fn lemma_next_lexeme_bounds(text: Seq<char>, from: int)
    requires
        next_lexeme(text, from) is Some,
    ensures
        from <= next_lexeme(text, from)->0.start < next_lexeme(text, from)->0.end <= text.len(),
        next_lexeme(text, from)->0.start == skip_blank(text, from),
{
    if 0 <= from <= text.len() {
        lemma_skip_blank_bounds(text, from);
    }
    lemma_lexeme_at_bounds(text, skip_blank(text, from));
}

/// The scanner: the source text and the place that scanning has reached.
pub struct Lexer {
    chars: Vec<char>,
    index: usize,
    offset: usize,
}

impl Lexer {
    /// The text that is scanned.
    pub closed spec fn source(&self) -> Seq<char> {
        self.chars@
    }

    /// The index of the next character to read.
    pub closed spec fn position(&self) -> int {
        self.index as int
    }

    /// The scanner stands inside its text and knows the byte offset of
    /// the next character.
    pub closed spec fn wf(&self) -> bool {
        &&& self.index <= self.chars.len()
        &&& self.offset == byte_offset(self.chars@, self.index as int)
        &&& byte_len(self.chars@) <= usize::MAX
    }

    /// A scanner at the start of `input`.
    pub fn new(input: &str) -> (lexer: Lexer)
        ensures
            lexer.wf(),
            lexer.source() == input@,
            lexer.position() == 0,
    {
        let mut chars: Vec<char> = Vec::new();
        for c in it: input.chars()
            invariant
                it.seq() == input@,
                chars@ == input@.take(it.index()),
        {
            chars.push(c);
            assert(input@.take(it.index() + 1) =~= input@.take(it.index()).push(c));
        }
        assert(input@.take(input@.len() as int) =~= input@);
        let bytes = input.as_bytes();
        let total: usize = bytes.len();
        assert(byte_len(chars@) == total);
        assert(chars@.take(0) =~= Seq::<char>::empty());
        Lexer { chars, index: 0, offset: 0 }
    }

    /// Takes the next character, with the byte offset at which it starts.
    fn read_char(&mut self) -> (read: Option<(usize, char)>)
        requires
            old(self).wf(),
        ensures
            final(self).wf(),
            final(self).chars == old(self).chars,
            old(self).index < old(self).chars.len() ==> read == Some(
                (old(self).offset, old(self).chars[old(self).index as int]),
            ) && final(self).index == old(self).index + 1,
            old(self).index >= old(self).chars.len() ==> read is None && final(self).index == old(
                self,
            ).index,
    {
        if self.index < self.chars.len() {
            let ch = self.chars[self.index];
            let start = self.offset;
            proof {
                lemma_byte_offset_step(self.chars@, self.index as int);
            }
            self.offset = self.offset + char_width(ch);
            self.index = self.index + 1;
            Some((start, ch))
        } else {
            None
        }
    }

    /// The next character, with the byte offset at which it starts.
    fn peek_char(&self) -> (peeked: Option<(usize, char)>)
        ensures
            self.index < self.chars.len() ==> peeked == Some(
                (self.offset, self.chars[self.index as int]),
            ),
            self.index >= self.chars.len() ==> peeked is None,
    {
        if self.index < self.chars.len() {
            Some((self.offset, self.chars[self.index]))
        } else {
            None
        }
    }

    /// Whether the next character is `ch`.
    fn peek_char_eq(&self, ch: char) -> (same: bool)
        ensures
            same == (self.index < self.chars.len() && self.chars[self.index as int] == ch),
    {
        match self.peek_char() {
            Some((_, peek_ch)) => peek_ch == ch,
            None => false,
        }
    }

    /// Whether `ch` may start an identifier.
    pub fn is_letter(&self, ch: char) -> (letter: bool)
        ensures
            letter == is_letter(ch),
    {
        char_is_alphabetic(ch) || ch == '_'
    }

    /// Whether `ch` is a decimal digit, of which literals are made.
    pub fn is_number(&self, ch: char) -> (number: bool)
        ensures
            number == is_digit(ch),
    {
        '0' <= ch && ch <= '9'
    }

    /// Whether the characters from `from` up to `to` spell `word`.
    fn spells(&self, from: usize, to: usize, word: &str) -> (same: bool)
        requires
            from <= to <= self.chars.len(),
        ensures
            same == (self.chars@.subrange(from as int, to as int) == word@),
    {
        let len = word.unicode_len();
        if to - from != len {
            return false;
        }
        let mut i: usize = 0;
        while i < len
            invariant
                from <= to <= self.chars.len(),
                to - from == len,
                len == word@.len(),
                i <= len,
                forall|k: int| 0 <= k < i ==> self.chars@[from + k] == word@[k],
            decreases len - i,
        {
            if self.chars[from + i] != word.get_char(i) {
                assert(self.chars@.subrange(from as int, to as int)[i as int] != word@[i as int]);
                return false;
            }
            i = i + 1;
        }
        assert(self.chars@.subrange(from as int, to as int) =~= word@);
        true
    }

    /// Reads the rest of the identifier or keyword whose first character,
    /// `first`, was just read at byte offset `start`.
    fn read_identifier(&mut self, start: usize, first: char) -> (spanned: (usize, Token, usize))
        requires
            old(self).wf(),
            0 < old(self).index,
            old(self).chars[old(self).index - 1] == first,
        ensures
            final(self).wf(),
            final(self).chars == old(self).chars,
            final(self).index == word_end(old(self).chars@, old(self).index as int),
            spanned.0 == start,
            spanned.1@ == word_token(
                old(self).chars@.subrange(old(self).index - 1, final(self).index as int),
            ),
            spanned.2 == final(self).offset,
    {
        let mut ident = String::new();
        let from: usize = self.index - 1;
        push_char(&mut ident, first);
        let ghost text = self.chars@;
        assert(ident@ =~= text.subrange(from as int, self.index as int));
        proof {
            lemma_word_end_bounds(text, self.index as int);
        }
        loop
            invariant
                self.wf(),
                self.chars@ == text,
                self.chars == old(self).chars,
                from < self.index <= text.len(),
                from == old(self).index - 1,
                ident@ == text.subrange(from as int, self.index as int),
                word_end(text, self.index as int) == word_end(text, old(self).index as int),
            ensures
                self.index == word_end(text, old(self).index as int),
            decreases text.len() - self.index,
        {
            match self.peek_char() {
                Some((_, ch)) => {
                    if self.is_letter(ch) || self.is_number(ch) {
                        self.read_char();
                        push_char(&mut ident, ch);
                        assert(ident@ =~= text.subrange(from as int, self.index as int));
                    } else {
                        break;
                    }
                },
                None => {
                    break;
                },
            }
        }
        proof {
            reveal_strlit("mod");
            reveal_strlit("top");
            reveal_strlit("in");
            reveal_strlit("out");
            reveal_strlit("bit");
            reveal_strlit("let");
            assert("mod"@ =~= TokenView::Mod.text());
            assert("top"@ =~= TokenView::Top.text());
            assert("in"@ =~= TokenView::In.text());
            assert("out"@ =~= TokenView::Out.text());
            assert("bit"@ =~= TokenView::Bit.text());
            assert("let"@ =~= TokenView::Let.text());
        }
        let to: usize = self.index;
        let token = if self.spells(from, to, "mod") {
            Token::Mod
        } else if self.spells(from, to, "top") {
            Token::Top
        } else if self.spells(from, to, "in") {
            Token::In
        } else if self.spells(from, to, "out") {
            Token::Out
        } else if self.spells(from, to, "bit") {
            Token::Bit
        } else if self.spells(from, to, "let") {
            Token::Let
        } else {
            Token::Ident(ident)
        };
        (start, token, self.offset)
    }

    /// Reads the rest of the literal whose first character, `first`, was
    /// just read at byte offset `start`.
    fn read_number(&mut self, start: usize, first: char) -> (spanned: (usize, Token, usize))
        requires
            old(self).wf(),
            0 < old(self).index,
            old(self).chars[old(self).index - 1] == first,
        ensures
            final(self).wf(),
            final(self).chars == old(self).chars,
            final(self).index == number_end(old(self).chars@, old(self).index as int),
            spanned.0 == start,
            spanned.1@ == TokenView::Litrl(
                old(self).chars@.subrange(old(self).index - 1, final(self).index as int),
            ),
            spanned.2 == final(self).offset,
    {
        let mut number = String::new();
        let ghost from: int = self.index - 1;
        push_char(&mut number, first);
        let ghost text = self.chars@;
        assert(number@ =~= text.subrange(from, self.index as int));
        loop
            invariant
                self.wf(),
                self.chars@ == text,
                self.chars == old(self).chars,
                0 <= from < self.index <= text.len(),
                from == old(self).index - 1,
                number@ == text.subrange(from, self.index as int),
                number_end(text, self.index as int) == number_end(text, old(self).index as int),
            ensures
                self.index == number_end(text, old(self).index as int),
            decreases text.len() - self.index,
        {
            match self.peek_char() {
                Some((_, ch)) => {
                    if self.is_number(ch) {
                        self.read_char();
                        push_char(&mut number, ch);
                        assert(number@ =~= text.subrange(from, self.index as int));
                    } else {
                        break;
                    }
                },
                None => {
                    break;
                },
            }
        }
        (start, Token::Litrl(number), self.offset)
    }

    /// Passes over white space.
    fn skip_whitespace(&mut self)
        requires
            old(self).wf(),
        ensures
            final(self).wf(),
            final(self).chars == old(self).chars,
            final(self).index == whitespace_end(old(self).chars@, old(self).index as int),
    {
        let ghost text = self.chars@;
        loop
            invariant
                self.wf(),
                self.chars == old(self).chars,
                self.chars@ == text,
                whitespace_end(text, self.index as int) == whitespace_end(
                    text,
                    old(self).index as int,
                ),
            ensures
                self.index == whitespace_end(text, old(self).index as int),
            decreases text.len() - self.index,
        {
            match self.peek_char() {
                Some((_, ch)) => {
                    if !char_is_whitespace(ch) {
                        break;
                    }
                    self.read_char();
                },
                None => {
                    break;
                },
            }
        }
    }

    /// Passes over the rest of the line, up to its newline.
    fn skip_line(&mut self)
        requires
            old(self).wf(),
        ensures
            final(self).wf(),
            final(self).chars == old(self).chars,
            final(self).index == line_end(old(self).chars@, old(self).index as int),
    {
        let ghost text = self.chars@;
        while self.index < self.chars.len() && !self.peek_char_eq('\n')
            invariant
                self.wf(),
                self.chars == old(self).chars,
                self.chars@ == text,
                line_end(text, self.index as int) == line_end(text, old(self).index as int),
            decreases text.len() - self.index,
        {
            self.read_char();
        }
    }

    /// Scans the next item: a token with its span, or a character that
    /// starts no token. Scanning goes on behind such a character. `None`
    /// means that only blanks were left.
    pub fn next(&mut self) -> (item: Option<LexerItem>)
        requires
            old(self).wf(),
        ensures
            final(self).wf(),
            final(self).source() == old(self).source(),
            match next_lexeme(old(self).source(), old(self).position()) {
                Some(lexeme) => {
                    &&& item is Some
                    &&& item_view(item->0) == spanned(old(self).source(), lexeme)
                    &&& final(self).position() == lexeme.end
                },
                None => item is None && final(self).position() == old(self).source().len(),
            },
        decreases old(self).source().len() - old(self).position(),
    {
        let ghost text = self.chars@;
        let ghost from = self.index as int;
        self.skip_whitespace();
        let ghost at = self.index as int;
        proof {
            lemma_whitespace_end_bounds(text, from);
            lemma_skip_blank_bounds(text, at);
            if at < text.len() {
                lemma_byte_offset_step(text, at);
                lemma_utf8_width_bounds(text[at]);
                lemma_lexeme_at_bounds(text, at);
                lemma_byte_offset_monotone(text, at + 1, lexeme_at(text, at).end);
                if at + 1 < text.len() {
                    lemma_byte_offset_step(text, at + 1);
                    lemma_utf8_width_bounds(text[at + 1]);
                    lemma_line_end_bounds(text, at + 2);
                }
            }
        }
        match self.read_char() {
            Some((i, ch)) => {
                if ch == ',' {
                    Some(Ok((i, Token::Comma, i + 1)))
                } else if ch == ';' {
                    Some(Ok((i, Token::Semicolon, i + 1)))
                } else if ch == ':' {
                    Some(Ok((i, Token::Colon, i + 1)))
                } else if ch == '(' {
                    Some(Ok((i, Token::LeftParen, i + 1)))
                } else if ch == ')' {
                    Some(Ok((i, Token::RightParen, i + 1)))
                } else if ch == '{' {
                    Some(Ok((i, Token::LeftCurlyBrace, i + 1)))
                } else if ch == '}' {
                    Some(Ok((i, Token::RightCurlyBrace, i + 1)))
                } else if ch == '[' {
                    Some(Ok((i, Token::LeftSquareBrace, i + 1)))
                } else if ch == ']' {
                    Some(Ok((i, Token::RightSquareBrace, i + 1)))
                } else if ch == '=' {
                    Some(Ok((i, Token::Assign, i + 1)))
                } else if ch == '~' {
                    Some(Ok((i, Token::Negate, i + 1)))
                } else if ch == '&' {
                    Some(Ok((i, Token::BitAnd, i + 1)))
                } else if ch == '|' {
                    Some(Ok((i, Token::BitOr, i + 1)))
                } else if ch == '^' {
                    Some(Ok((i, Token::BitXor, i + 1)))
                } else if ch == '<' {
                    if self.peek_char_eq('<') {
                        self.read_char();
                        Some(Ok((i, Token::ShiftLeft, i + 2)))
                    } else {
                        Some(Err(InvalidCharacterError { pos: i, ch: '<' }))
                    }
                } else if ch == '>' {
                    if self.peek_char_eq('>') {
                        self.read_char();
                        Some(Ok((i, Token::ShiftRight, i + 2)))
                    } else {
                        Some(Err(InvalidCharacterError { pos: i, ch: '>' }))
                    }
                } else if ch == '/' {
                    if self.peek_char_eq('/') {
                        self.skip_line();
                        assert(line_end(text, at + 1) == line_end(text, at + 2));
                        self.next()
                    } else {
                        Some(Err(InvalidCharacterError { pos: i, ch: '/' }))
                    }
                } else if self.is_letter(ch) {
                    Some(Ok(self.read_identifier(i, ch)))
                } else if self.is_number(ch) {
                    Some(Ok(self.read_number(i, ch)))
                } else {
                    Some(Err(InvalidCharacterError { pos: i, ch }))
                }
            },
            None => None,
        }
    }
}

impl Lexer {
    /// Scans the next item as [`Lexer::next`] does, and drops its span.
    pub fn next_token(&mut self) -> (item: Option<Result<Token, LexerError>>)
        requires
            old(self).wf(),
        ensures
            final(self).wf(),
            final(self).source() == old(self).source(),
            match next_lexeme(old(self).source(), old(self).position()) {
                Some(lexeme) => {
                    &&& item is Some
                    &&& match item->0 {
                        Ok(token) => Ok::<TokenView, LexerError>(token@),
                        Err(error) => Err(error),
                    } == bare(spanned(old(self).source(), lexeme))
                    &&& final(self).position() == lexeme.end
                },
                None => item is None && final(self).position() == old(self).source().len(),
            },
    {
        match self.next() {
            Some(Ok((_, token, _))) => Some(Ok(token)),
            Some(Err(error)) => Some(Err(LexerError::InvalidCharacter(error.ch))),
            None => None,
        }
    }
}

/// Scans the whole of `input`: every token with its span, and every
/// character that starts no token, in the order of the text.
pub fn tokenize(input: &str) -> (items: Vec<LexerItem>)
    ensures
        items_view(items@) == token_stream(input@),
{
    let mut lexer = Lexer::new(input);
    let mut items: Vec<LexerItem> = Vec::new();
    let ghost text = input@;
    loop
        invariant
            lexer.wf(),
            lexer.source() == text,
            0 <= lexer.position() <= text.len(),
            token_stream(text) == items_view(items@) + spanned_all(
                text,
                lexemes(text, lexer.position()),
            ),
        ensures
            items_view(items@) == token_stream(text),
        decreases text.len() - lexer.position(),
    {
        let ghost from = lexer.position();
        proof {
            if next_lexeme(text, from) is Some {
                lemma_next_lexeme_bounds(text, from);
            }
        }
        match lexer.next() {
            Some(item) => {
                proof {
                    let lexeme = next_lexeme(text, from)->0;
                    let rest = lexemes(text, lexeme.end);
                    assert(spanned_all(text, seq![lexeme] + rest) =~= seq![
                        spanned(text, lexeme),
                    ] + spanned_all(text, rest));
                    assert(items_view(items@.push(item)) =~= items_view(items@).push(
                        item_view(item),
                    ));
                    assert(items_view(items@) + (seq![spanned(text, lexeme)] + spanned_all(
                        text,
                        rest,
                    )) =~= items_view(items@).push(item_view(item)) + spanned_all(text, rest));
                }
                items.push(item);
            },
            None => {
                assert(items_view(items@) + spanned_all(text, Seq::<Lexeme>::empty())
                    =~= items_view(items@));
                break;
            },
        }
    }
    items
}

/// The text of what a lexeme holds: the text of its token, or the
/// character that spells none.
pub open spec fn item_text(item: Result<TokenView, char>) -> Seq<char> {
    match item {
        Ok(token) => token.text(),
        Err(ch) => seq![ch],
    }
}

/// The text put together again from `from` on: in front of each lexeme the
/// blanks that were passed over, then the text of the lexeme itself, and
/// behind the last lexeme the blanks that are left.
pub open spec fn rebuilt(text: Seq<char>, from: int, lexemes: Seq<Lexeme>) -> Seq<char>
    decreases lexemes.len(),
{
    if lexemes.len() == 0 {
        text.subrange(from, text.len() as int)
    } else {
        text.subrange(from, lexemes[0].start) + item_text(lexemes[0].item) + rebuilt(
            text,
            lexemes[0].end,
            lexemes.drop_first(),
        )
    }
}

/// A word is the text of the token that it stands for.
pub proof fn lemma_word_token_text(word: Seq<char>)
    ensures
        word_token(word).text() == word,
{
}

/// A lexeme holds the text between its ends.
pub proof fn lemma_lexeme_text(text: Seq<char>, at: int)
    requires
        0 <= at < text.len(),
    ensures
        item_text(lexeme_at(text, at).item) == text.subrange(at, lexeme_at(text, at).end),
{
    let lexeme = lexeme_at(text, at);
    lemma_lexeme_at_bounds(text, at);
    let c = text[at];
    if symbol_token(c) is Some || c == '/' {
        assert(item_text(lexeme.item) =~= text.subrange(at, at + 1));
    } else if c == '<' || c == '>' {
        assert(item_text(lexeme.item) =~= text.subrange(at, lexeme.end));
    } else if is_letter(c) {
        lemma_word_token_text(text.subrange(at, lexeme.end));
    } else if is_digit(c) {
    } else {
        assert(item_text(lexeme.item) =~= text.subrange(at, at + 1));
    }
}

/// Nothing is lost and nothing is made up: the lexemes of a text, with
/// the blanks between them, are the text.
pub proof fn lemma_lexemes_rebuild_text(text: Seq<char>, from: int)
    requires
        0 <= from <= text.len(),
    ensures
        rebuilt(text, from, lexemes(text, from)) == text.subrange(from, text.len() as int),
    decreases text.len() - from,
{
    match next_lexeme(text, from) {
        Some(lexeme) => {
            lemma_next_lexeme_bounds(text, from);
            lemma_lexeme_text(text, lexeme.start);
            lemma_lexemes_rebuild_text(text, lexeme.end);
            let rest = lexemes(text, lexeme.end);
            let all = seq![lexeme] + rest;
            assert(all[0] == lexeme);
            assert(all.drop_first() =~= rest);
            assert(text.subrange(from, lexeme.start) + text.subrange(lexeme.start, lexeme.end)
                + text.subrange(lexeme.end, text.len() as int) =~= text.subrange(
                from,
                text.len() as int,
            ));
        },
        None => {},
    }
}

/// The lexemes of a text rebuild the whole of it.
pub proof fn lemma_tokens_cover_source(text: Seq<char>)
    ensures
        rebuilt(text, 0, lexemes(text, 0)) == text,
{
    lemma_lexemes_rebuild_text(text, 0);
    assert(text.subrange(0, text.len() as int) =~= text);
}

/// Lexemes follow one another: none is empty, each starts where the
/// blanks behind the one before it end, and only blanks follow the last.
pub proof fn lemma_lexemes_in_order(text: Seq<char>, from: int, k: int)
    requires
        0 <= from <= text.len(),
        0 <= k < lexemes(text, from).len(),
    ensures
        from <= lexemes(text, from)[k].start < lexemes(text, from)[k].end <= text.len(),
        k == 0 ==> lexemes(text, from)[k].start == skip_blank(text, from),
        k > 0 ==> lexemes(text, from)[k].start == skip_blank(
            text,
            lexemes(text, from)[k - 1].end,
        ),
        k + 1 == lexemes(text, from).len() ==> skip_blank(text, lexemes(text, from)[k].end)
            == text.len(),
    decreases k,
{
    lemma_next_lexeme_bounds(text, from);
    let lexeme = next_lexeme(text, from)->0;
    let rest = lexemes(text, lexeme.end);
    let all = seq![lexeme] + rest;
    assert(all[0] == lexeme);
    if k > 0 {
        assert(all[k] == rest[k - 1]);
        assert(all[k - 1] == if k == 1 {
            lexeme
        } else {
            rest[k - 2]
        });
        lemma_lexemes_in_order(text, lexeme.end, k - 1);
    } else if rest.len() == 0 {
        lemma_skip_blank_bounds(text, lexeme.end);
    }
}

/// The byte span of a piece of text names the bytes of that piece.
pub proof fn lemma_span_names_bytes(text: Seq<char>, start: int, end: int)
    requires
        0 <= start <= end <= text.len(),
    ensures
        byte_offset(text, start) <= byte_offset(text, end) <= byte_len(text),
        vstd::utf8::encode_utf8(text).subrange(
            byte_offset(text, start) as int,
            byte_offset(text, end) as int,
        ) == vstd::utf8::encode_utf8(text.subrange(start, end)),
{
    let head = text.take(start);
    let piece = text.subrange(start, end);
    let tail = text.skip(end);
    assert(text.take(end) =~= head + piece);
    assert(text =~= text.take(end) + tail);
    crate::syntax::chars::lemma_encode_concat(head, piece);
    crate::syntax::chars::lemma_encode_concat(text.take(end), tail);
    assert(vstd::utf8::encode_utf8(text).subrange(
        byte_offset(text, start) as int,
        byte_offset(text, end) as int,
    ) =~= vstd::utf8::encode_utf8(piece));
}

/// The spans of the scanned items are in order and none is empty: each
/// token ends behind its start, and the next item starts no earlier.
pub proof fn lemma_spans_in_order(text: Seq<char>, k: int)
    requires
        byte_len(text) <= usize::MAX,
        0 <= k < token_stream(text).len(),
    ensures
        match token_stream(text)[k] {
            Ok((start, token, end)) => start < end <= byte_len(text),
            Err(error) => error.pos < byte_len(text),
        },
        k + 1 < token_stream(text).len() ==> match token_stream(text)[k] {
            Ok((start, token, end)) => end,
            Err(error) => error.pos,
        } <= match token_stream(text)[k + 1] {
            Ok((start, token, end)) => start,
            Err(error) => error.pos,
        },
{
    let all = lexemes(text, 0);
    lemma_lexemes_in_order(text, 0, k);
    lemma_byte_offset_monotone(text, all[k].start, all[k].end);
    if k + 1 < all.len() {
        lemma_lexemes_in_order(text, 0, k + 1);
        lemma_skip_blank_bounds(text, all[k].end);
        lemma_byte_offset_monotone(text, all[k].end, all[k + 1].start);
        lemma_byte_offset_monotone(text, all[k].start, all[k + 1].start);
        lemma_byte_offset_monotone(text, all[k + 1].start, all[k + 1].end);
    }
}

} // verus!
