//! A comma put into the text behind the last port: what scanning makes of
//! a text with one more character in it, and why such a comma changes
//! nothing in the tree.

use crate::syntax::chars::{is_alphabetic, is_digit, is_letter, is_whitespace};
use crate::syntax::grammar::{ports_at, source_tree, token_at};
use crate::syntax::lexer::{
    is_word_char, lemma_lexeme_at_bounds, lemma_lexemes_in_order, lemma_line_end_bounds,
    lemma_next_lexeme_bounds, lemma_number_end_bounds, lemma_skip_blank_bounds,
    lemma_word_end_bounds, lexeme_at, lexemes, line_end, next_lexeme, number_end, skip_blank,
    starts_comment, token_stream, word_end, Lexeme,
};
use crate::syntax::parsed;
use crate::syntax::spelling::{
    lemma_ports_at_sound, lemma_ports_start, lemma_trailing_comma_added, moved_on, same_below,
};
use crate::syntax::token::{symbol_token, TokenView};
use vstd::prelude::*;

verus! {

/// The text with the character `c` put in front of the character at `at`.
pub open spec fn with_char(text: Seq<char>, at: int, c: char) -> Seq<char> {
    text.take(at).push(c) + text.skip(at)
}

/// A character that stands apart: it is a token of its own, and it joins
/// no word, literal, blank, comment or shift that stands next to it.
pub open spec fn apart(c: char) -> bool {
    &&& symbol_token(c) is Some
    &&& !is_word_char(c)
    &&& !is_whitespace(c)
}

/// A lexeme one place further on.
pub open spec fn moved(lexeme: Lexeme) -> Lexeme {
    Lexeme { start: lexeme.start + 1, end: lexeme.end + 1, item: lexeme.item }
}

/// Lexemes one place further on.
pub open spec fn moved_all(lexemes: Seq<Lexeme>) -> Seq<Lexeme> {
    lexemes.map_values(|lexeme: Lexeme| moved(lexeme))
}

/// What a character that was put in leaves in place and what it moves.
pub proof fn lemma_with_char(text: Seq<char>, at: int, c: char)
    requires
        0 <= at <= text.len(),
    ensures
        with_char(text, at, c).len() == text.len() + 1,
        forall|i: int| 0 <= i < at ==> #[trigger] with_char(text, at, c)[i] == text[i],
        with_char(text, at, c)[at] == c,
        forall|i: int| at < i <= text.len() ==> #[trigger] with_char(text, at, c)[i] == text[i - 1],
{
}

/// A line that ends in front of the new character ends where it did.
pub proof fn lemma_line_end_kept(text: Seq<char>, at: int, c: char, from: int)
    requires
        0 <= from,
        0 <= at,
        line_end(text, from) < at <= text.len(),
    ensures
        line_end(with_char(text, at, c), from) == line_end(text, from),
    decreases text.len() - from,
{
    lemma_with_char(text, at, c);
    if from < text.len() && text[from] != '\n' {
        lemma_line_end_bounds(text, from + 1);
        lemma_line_end_kept(text, at, c, from + 1);
    }
}

/// A word that ends at or in front of the new character ends where it did,
/// where that character continues no word.
pub proof fn lemma_word_end_kept(text: Seq<char>, at: int, c: char, from: int)
    requires
        0 <= from,
        0 <= at,
        word_end(text, from) <= at <= text.len(),
        !is_word_char(c),
    ensures
        word_end(with_char(text, at, c), from) == word_end(text, from),
    decreases text.len() - from,
{
    lemma_with_char(text, at, c);
    if from < text.len() && is_word_char(text[from]) {
        lemma_word_end_bounds(text, from + 1);
        lemma_word_end_kept(text, at, c, from + 1);
    }
}

/// A literal that ends at or in front of the new character ends where it
/// did, where that character is no digit.
pub proof fn lemma_number_end_kept(text: Seq<char>, at: int, c: char, from: int)
    requires
        0 <= from,
        0 <= at,
        number_end(text, from) <= at <= text.len(),
        !is_digit(c),
    ensures
        number_end(with_char(text, at, c), from) == number_end(text, from),
    decreases text.len() - from,
{
    lemma_with_char(text, at, c);
    if from < text.len() && is_digit(text[from]) {
        lemma_number_end_bounds(text, from + 1);
        lemma_number_end_kept(text, at, c, from + 1);
    }
}

/// Blanks that end in front of the new character end where they did,
/// where that character is no slash.
pub proof fn lemma_skip_blank_kept(text: Seq<char>, at: int, c: char, from: int)
    requires
        0 <= from,
        0 <= at,
        skip_blank(text, from) < at <= text.len(),
        c != '/',
    ensures
        skip_blank(with_char(text, at, c), from) == skip_blank(text, from),
    decreases text.len() - from,
{
    lemma_with_char(text, at, c);
    let longer = with_char(text, at, c);
    if from < text.len() {
        if is_whitespace(text[from]) {
            lemma_skip_blank_bounds(text, from + 1);
            lemma_skip_blank_kept(text, at, c, from + 1);
        } else if starts_comment(text, from) {
            let end = line_end(text, from + 2);
            lemma_line_end_bounds(text, from + 2);
            lemma_skip_blank_bounds(text, end);
            lemma_line_end_kept(text, at, c, from + 2);
            lemma_skip_blank_kept(text, at, c, end);
            assert(starts_comment(longer, from));
        } else {
            assert(!starts_comment(longer, from));
        }
    }
}

/// A lexeme that ends at or in front of the new character stays as it is,
/// where that character stands apart.
pub proof fn lemma_lexeme_at_kept(text: Seq<char>, at: int, c: char, pos: int)
    requires
        0 <= pos < text.len(),
        lexeme_at(text, pos).end <= at <= text.len(),
        apart(c),
    ensures
        lexeme_at(with_char(text, at, c), pos) == lexeme_at(text, pos),
{
    lemma_lexeme_at_bounds(text, pos);
    lemma_with_char(text, at, c);
    let longer = with_char(text, at, c);
    let first = text[pos];
    let end = lexeme_at(text, pos).end;
    if symbol_token(first) is Some {
    } else if first == '<' || first == '>' || first == '/' {
    } else if is_letter(first) {
        lemma_word_end_kept(text, at, c, pos + 1);
        assert(longer.subrange(pos, end) =~= text.subrange(pos, end));
    } else if is_digit(first) {
        lemma_number_end_kept(text, at, c, pos + 1);
        assert(longer.subrange(pos, end) =~= text.subrange(pos, end));
    }
}

/// The next lexeme stays as it is where it ends at or in front of the new
/// character, and that character stands apart.
pub proof fn lemma_next_lexeme_kept(text: Seq<char>, at: int, c: char, from: int)
    requires
        0 <= from <= text.len(),
        next_lexeme(text, from) is Some,
        next_lexeme(text, from)->0.end <= at <= text.len(),
        apart(c),
    ensures
        next_lexeme(with_char(text, at, c), from) == next_lexeme(text, from),
{
    lemma_next_lexeme_bounds(text, from);
    lemma_with_char(text, at, c);
    lemma_skip_blank_kept(text, at, c, from);
    lemma_lexeme_at_kept(text, at, c, skip_blank(text, from));
}

/// A line behind the new character ends one place further on.
pub proof fn lemma_line_end_moved(text: Seq<char>, at: int, c: char, from: int)
    requires
        0 <= at <= from,
        at <= text.len(),
    ensures
        line_end(with_char(text, at, c), from + 1) == line_end(text, from) + 1,
    decreases text.len() - from,
{
    lemma_with_char(text, at, c);
    if from < text.len() && text[from] != '\n' {
        lemma_line_end_moved(text, at, c, from + 1);
    }
}

/// A word behind the new character ends one place further on.
pub proof fn lemma_word_end_moved(text: Seq<char>, at: int, c: char, from: int)
    requires
        0 <= at <= from,
        at <= text.len(),
    ensures
        word_end(with_char(text, at, c), from + 1) == word_end(text, from) + 1,
    decreases text.len() - from,
{
    lemma_with_char(text, at, c);
    if from < text.len() && is_word_char(text[from]) {
        lemma_word_end_moved(text, at, c, from + 1);
    }
}

/// A literal behind the new character ends one place further on.
pub proof fn lemma_number_end_moved(text: Seq<char>, at: int, c: char, from: int)
    requires
        0 <= at <= from,
        at <= text.len(),
    ensures
        number_end(with_char(text, at, c), from + 1) == number_end(text, from) + 1,
    decreases text.len() - from,
{
    lemma_with_char(text, at, c);
    if from < text.len() && is_digit(text[from]) {
        lemma_number_end_moved(text, at, c, from + 1);
    }
}

/// Blanks behind the new character end one place further on.
pub proof fn lemma_skip_blank_moved(text: Seq<char>, at: int, c: char, from: int)
    requires
        0 <= at <= from,
        at <= text.len(),
    ensures
        skip_blank(with_char(text, at, c), from + 1) == skip_blank(text, from) + 1,
    decreases text.len() - from,
{
    lemma_with_char(text, at, c);
    let longer = with_char(text, at, c);
    if from < text.len() {
        if is_whitespace(text[from]) {
            lemma_skip_blank_moved(text, at, c, from + 1);
        } else if starts_comment(text, from) {
            let end = line_end(text, from + 2);
            lemma_line_end_bounds(text, from + 2);
            lemma_line_end_moved(text, at, c, from + 2);
            lemma_skip_blank_moved(text, at, c, end);
            assert(starts_comment(longer, from + 1));
        } else {
            assert(!starts_comment(longer, from + 1));
        }
    }
}

/// A lexeme behind the new character stands one place further on.
pub proof fn lemma_lexeme_at_moved(text: Seq<char>, at: int, c: char, pos: int)
    requires
        0 <= at <= pos < text.len(),
    ensures
        lexeme_at(with_char(text, at, c), pos + 1) == moved(lexeme_at(text, pos)),
{
    lemma_with_char(text, at, c);
    lemma_lexeme_at_bounds(text, pos);
    let longer = with_char(text, at, c);
    let first = text[pos];
    let end = lexeme_at(text, pos).end;
    if symbol_token(first) is Some {
    } else if first == '<' || first == '>' || first == '/' {
    } else if is_letter(first) {
        lemma_word_end_moved(text, at, c, pos + 1);
        assert(longer.subrange(pos + 1, end + 1) =~= text.subrange(pos, end));
    } else if is_digit(first) {
        lemma_number_end_moved(text, at, c, pos + 1);
        assert(longer.subrange(pos + 1, end + 1) =~= text.subrange(pos, end));
    }
}

/// The lexemes behind the new character stand one place further on.
pub proof fn lemma_lexemes_moved(text: Seq<char>, at: int, c: char, from: int)
    requires
        0 <= at <= from,
        at <= text.len(),
    ensures
        lexemes(with_char(text, at, c), from + 1) == moved_all(lexemes(text, from)),
    decreases text.len() - from,
{
    lemma_with_char(text, at, c);
    let longer = with_char(text, at, c);
    lemma_skip_blank_moved(text, at, c, from);
    if from <= text.len() {
        lemma_skip_blank_bounds(text, from);
    }
    match next_lexeme(text, from) {
        Some(lexeme) => {
            lemma_next_lexeme_bounds(text, from);
            lemma_lexeme_at_moved(text, at, c, lexeme.start);
            assert(next_lexeme(longer, from + 1) == Some(moved(lexeme)));
            lemma_lexemes_moved(text, at, c, lexeme.end);
            let rest = lexemes(text, lexeme.end);
            assert(seq![moved(lexeme)] + moved_all(rest) =~= moved_all(seq![lexeme] + rest));
        },
        None => {
            assert(next_lexeme(longer, from + 1) is None);
            assert(moved_all(Seq::<Lexeme>::empty()) =~= Seq::<Lexeme>::empty());
        },
    }
}

/// The token of a lexeme, where it holds one.
pub open spec fn lexeme_token(lexeme: Lexeme) -> Option<TokenView> {
    match lexeme.item {
        Ok(token) => Some(token),
        Err(ch) => None,
    }
}

/// The lexeme of the character `c` at `at`.
pub open spec fn char_lexeme(at: int, c: char) -> Lexeme {
    Lexeme { start: at, end: at + 1, item: Ok(symbol_token(c)->0) }
}

/// The lexemes with the lexeme of `c` at `at` behind the first `count` of
/// them, and the others one place further on.
pub open spec fn with_lexeme(lexemes: Seq<Lexeme>, count: int, at: int, c: char) -> Seq<Lexeme> {
    lexemes.take(count) + seq![char_lexeme(at, c)] + moved_all(lexemes.skip(count))
}

/// A character that stands apart is scanned as a lexeme of its own, and
/// the lexemes behind it stand one place further on.
pub proof fn lemma_char_is_scanned(text: Seq<char>, at: int, c: char)
    requires
        0 <= at <= text.len(),
        apart(c),
    ensures
        lexemes(with_char(text, at, c), at) == seq![char_lexeme(at, c)] + moved_all(
            lexemes(text, at),
        ),
{
    let longer = with_char(text, at, c);
    lemma_with_char(text, at, c);
    assert(longer[at] == c);
    assert(!starts_comment(longer, at));
    assert(skip_blank(longer, at) == at);
    assert(lexeme_at(longer, at) == char_lexeme(at, c));
    assert(next_lexeme(longer, at) == Some(char_lexeme(at, c)));
    lemma_lexemes_moved(text, at, c, at);
}

/// The lexemes of a text from `from` on are its next lexeme and the
/// lexemes behind that.
pub proof fn lemma_lexemes_unfold(text: Seq<char>, from: int)
    requires
        next_lexeme(text, from) is Some,
    ensures
        lexemes(text, from) == seq![next_lexeme(text, from)->0] + lexemes(
            text,
            next_lexeme(text, from)->0.end,
        ),
        lexemes(text, from).len() > 0,
        lexemes(text, from)[0] == next_lexeme(text, from)->0,
        lexemes(text, from).skip(1) == lexemes(text, next_lexeme(text, from)->0.end),
{
    let lexeme = next_lexeme(text, from)->0;
    let rest = lexemes(text, lexeme.end);
    assert((seq![lexeme] + rest).skip(1) =~= rest);
}

/// How lexemes with one more lexeme among them are put together from
/// their first and the others.
pub proof fn lemma_with_lexeme_unfold(all: Seq<Lexeme>, count: int, at: int, c: char)
    requires
        0 < count <= all.len(),
    ensures
        count == 1 ==> with_lexeme(all, count, at, c) == seq![all[0]] + (seq![
            char_lexeme(at, c),
        ] + moved_all(all.skip(1))),
        count > 1 ==> with_lexeme(all, count, at, c) == seq![all[0]] + with_lexeme(
            all.skip(1),
            count - 1,
            at,
            c,
        ),
{
    if count == 1 {
        assert(all.take(1) =~= seq![all[0]]);
        assert(with_lexeme(all, count, at, c) =~= seq![all[0]] + (seq![char_lexeme(at, c)]
            + moved_all(all.skip(1))));
    } else {
        let rest = all.skip(1);
        assert(all.take(count) =~= seq![all[0]] + rest.take(count - 1));
        assert(all.skip(count) =~= rest.skip(count - 1));
        assert(with_lexeme(all, count, at, c) =~= seq![all[0]] + with_lexeme(
            rest,
            count - 1,
            at,
            c,
        ));
    }
}

/// A character that stands apart, put behind a lexeme, is scanned as one
/// more lexeme there: the lexemes up to it stay, and those behind it stand
/// one place further on.
pub proof fn lemma_lexemes_with_char(text: Seq<char>, at: int, c: char, from: int, index: int)
    requires
        0 <= from <= text.len(),
        0 <= index < lexemes(text, from).len(),
        lexemes(text, from)[index].end == at,
        apart(c),
    ensures
        0 <= at <= text.len(),
        lexemes(with_char(text, at, c), from) == with_lexeme(
            lexemes(text, from),
            index + 1,
            at,
            c,
        ),
    decreases index,
{
    let longer = with_char(text, at, c);
    let all = lexemes(text, from);
    lemma_lexemes_in_order(text, from, index);
    lemma_lexemes_unfold(text, from);
    let lexeme = next_lexeme(text, from)->0;
    let rest = lexemes(text, lexeme.end);
    lemma_next_lexeme_bounds(text, from);
    if index == 0 {
        lemma_next_lexeme_kept(text, at, c, from);
        lemma_lexemes_unfold(longer, from);
        lemma_char_is_scanned(text, at, c);
        lemma_with_lexeme_unfold(all, 1, at, c);
    } else {
        assert(all[index] == rest[index - 1]);
        lemma_lexemes_in_order(text, lexeme.end, index - 1);
        lemma_next_lexeme_kept(text, at, c, from);
        lemma_lexemes_unfold(longer, from);
        lemma_lexemes_with_char(text, at, c, lexeme.end, index - 1);
        lemma_with_lexeme_unfold(all, index + 1, at, c);
    }
}

/// The tokens of the scanned items are the tokens of the lexemes.
pub proof fn lemma_stream_tokens(text: Seq<char>)
    ensures
        token_stream(text).len() == lexemes(text, 0).len(),
        forall|i: int|
            0 <= i < lexemes(text, 0).len() ==> #[trigger] token_at(token_stream(text), i)
                == lexeme_token(lexemes(text, 0)[i]),
{
}

/// The place in the text right behind the last port of a source that
/// parses: the end of the lexeme in front of the parenthesis that closes
/// the port list.
pub open spec fn behind_last_port(text: Seq<char>) -> int {
    lexemes(text, 0)[ports_at(token_stream(text), 4)->Ok_0.1 - 1].end
}

/// A character that stands apart, put behind the lexeme in front of the
/// item at `close`, gives one more item there: the tokens in front of it
/// stay, and those behind it stand one place further on.
pub proof fn lemma_stream_with_char(text: Seq<char>, c: char, close: int)
    requires
        0 < close <= lexemes(text, 0).len(),
        apart(c),
    ensures
        same_below(
            token_stream(text),
            token_stream(with_char(text, lexemes(text, 0)[close - 1].end, c)),
            close,
        ),
        token_at(token_stream(with_char(text, lexemes(text, 0)[close - 1].end, c)), close)
            == symbol_token(c),
        moved_on(
            token_stream(text),
            token_stream(with_char(text, lexemes(text, 0)[close - 1].end, c)),
            close,
        ),
        token_stream(with_char(text, lexemes(text, 0)[close - 1].end, c)).len() == token_stream(
            text,
        ).len() + 1,
{
    let all = lexemes(text, 0);
    let at = all[close - 1].end;
    let longer = with_char(text, at, c);
    let more = lexemes(longer, 0);
    let items = token_stream(text);
    let longer_items = token_stream(longer);
    lemma_lexemes_with_char(text, at, c, 0, close - 1);
    lemma_stream_tokens(text);
    lemma_stream_tokens(longer);
    assert(more.len() == all.len() + 1);
    assert forall|i: int| i < close implies #[trigger] token_at(longer_items, i) == token_at(
        items,
        i,
    ) by {
        if 0 <= i {
            assert(more[i] == all[i]);
        }
    }
    assert(more[close] == char_lexeme(at, c));
    assert forall|i: int| i > close implies #[trigger] token_at(longer_items, i) == token_at(
        items,
        i - 1,
    ) by {
        if i < more.len() {
            assert(more[i] == moved(all[i - 1]));
        }
    }
}

/// A comma behind the last port changes nothing: where a text parses, and
/// its port list is not empty and has no trailing comma yet, the text with
/// a comma put right behind the last port parses into the same tree. This
/// holds where the comma is neither a letter nor white space, which is for
/// the classes of characters to say.
pub proof fn lemma_trailing_comma_in_text(text: Seq<char>)
    requires
        source_tree(token_stream(text)) is Ok,
        ports_at(token_stream(text), 4)->Ok_0.0.len() > 0,
        token_at(token_stream(text), ports_at(token_stream(text), 4)->Ok_0.1 - 1) != Some(
            TokenView::Comma,
        ),
    ensures
        !is_alphabetic(',') && !is_whitespace(',') ==> parsed(
            with_char(text, behind_last_port(text), ','),
        ) == parsed(text),
{
    if !is_alphabetic(',') && !is_whitespace(',') {
        let items = token_stream(text);
        let close = ports_at(items, 4)->Ok_0.1;
        lemma_ports_at_sound(items, 4);
        lemma_ports_start(items, 4);
        lemma_stream_tokens(text);
        lemma_stream_with_char(text, ',', close);
        lemma_trailing_comma_added(items, token_stream(with_char(text, behind_last_port(text), ',')));
    }
}

} // verus!
