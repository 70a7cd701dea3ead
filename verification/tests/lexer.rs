use silica::syntax::chars::char_width;
use silica::syntax::lexer::{tokenize, InvalidCharacterError, Lexer, LexerError, LexerItem};
use silica::syntax::token::Token;

fn assert_lex(source: &str, expected: Vec<LexerItem>) {
    let mut lexer = Lexer::new(source);
    let mut idx = 0;
    while let Some(item) = lexer.next() {
        assert_eq!(item, expected[idx]);
        idx += 1;
    }
    assert_eq!(idx, expected.len());
    assert_eq!(tokenize(source), expected);
}

fn assert_lex_tokens(source: &str, expected: Vec<Result<Token, LexerError>>) {
    let mut lexer = Lexer::new(source);
    let mut idx = 0;
    while let Some(item) = lexer.next_token() {
        assert_eq!(item, expected[idx]);
        idx += 1;
    }
    assert_eq!(idx, expected.len());
}

#[test]
fn identifiers() {
    assert_lex(
        "id _id id123 modu mo",
        vec![
            Ok((0, Token::Ident("id".to_string()), 2)),
            Ok((3, Token::Ident("_id".to_string()), 6)),
            Ok((7, Token::Ident("id123".to_string()), 12)),
            Ok((13, Token::Ident("modu".to_string()), 17)),
            Ok((18, Token::Ident("mo".to_string()), 20)),
        ],
    );
}

#[test]
fn literal() {
    assert_lex(
        "1 0123",
        vec![
            Ok((0, Token::Litrl("1".to_string()), 1)),
            Ok((2, Token::Litrl("0123".to_string()), 6)),
        ],
    );
}

#[test]
fn comments() {
    assert_lex(
        "top // this shouldn't be seen \n mod",
        vec![Ok((0, Token::Top, 3)), Ok((32, Token::Mod, 35))],
    );
}

#[test]
fn keywords() {
    assert_lex(
        "mod top in out bit let",
        vec![
            Ok((0, Token::Mod, 3)),
            Ok((4, Token::Top, 7)),
            Ok((8, Token::In, 10)),
            Ok((11, Token::Out, 14)),
            Ok((15, Token::Bit, 18)),
            Ok((19, Token::Let, 22)),
        ],
    );
}

#[test]
fn operators() {
    assert_lex(
        "= ~ & | ^ << >>",
        vec![
            Ok((0, Token::Assign, 1)),
            Ok((2, Token::Negate, 3)),
            Ok((4, Token::BitAnd, 5)),
            Ok((6, Token::BitOr, 7)),
            Ok((8, Token::BitXor, 9)),
            Ok((10, Token::ShiftLeft, 12)),
            Ok((13, Token::ShiftRight, 15)),
        ],
    );
}

#[test]
fn punctuation() {
    assert_lex(
        ", ; : ( ) { } [ ]",
        vec![
            Ok((0, Token::Comma, 1)),
            Ok((2, Token::Semicolon, 3)),
            Ok((4, Token::Colon, 5)),
            Ok((6, Token::LeftParen, 7)),
            Ok((8, Token::RightParen, 9)),
            Ok((10, Token::LeftCurlyBrace, 11)),
            Ok((12, Token::RightCurlyBrace, 13)),
            Ok((14, Token::LeftSquareBrace, 15)),
            Ok((16, Token::RightSquareBrace, 17)),
        ],
    );
}

#[test]
fn error() {
    assert_lex(
        "= ∞ abc",
        vec![
            Ok((0, Token::Assign, 1)),
            Err(InvalidCharacterError { pos: 2, ch: '∞' }),
            Ok((6, Token::Ident("abc".to_string()), 9)),
        ],
    );
}

#[test]
fn lexer_identifiers() {
    assert_lex_tokens(
        "id _id id123 modu mo ",
        vec![
            Ok(Token::Ident("id".to_string())),
            Ok(Token::Ident("_id".to_string())),
            Ok(Token::Ident("id123".to_string())),
            Ok(Token::Ident("modu".to_string())),
            Ok(Token::Ident("mo".to_string())),
        ],
    );
}

#[test]
fn lexer_literal() {
    assert_lex_tokens(
        " 1 0123 ",
        vec![Ok(Token::Litrl("1".to_string())), Ok(Token::Litrl("0123".to_string()))],
    );
}

#[test]
fn lexer_comments() {
    assert_lex_tokens(
        " top // this shouldn't be seen \n mod ",
        vec![Ok(Token::Top), Ok(Token::Mod)],
    );
}

#[test]
fn lexer_keywords() {
    assert_lex_tokens(
        " mod top in out bit ",
        vec![Ok(Token::Mod), Ok(Token::Top), Ok(Token::In), Ok(Token::Out), Ok(Token::Bit)],
    );
}

#[test]
fn lexer_operators() {
    assert_lex_tokens(
        " = ~ & | ^ << >> ",
        vec![
            Ok(Token::Assign),
            Ok(Token::Negate),
            Ok(Token::BitAnd),
            Ok(Token::BitOr),
            Ok(Token::BitXor),
            Ok(Token::ShiftLeft),
            Ok(Token::ShiftRight),
        ],
    );
}

#[test]
fn lexer_punctuation() {
    assert_lex_tokens(
        " , ; : ( ) { } ",
        vec![
            Ok(Token::Comma),
            Ok(Token::Semicolon),
            Ok(Token::Colon),
            Ok(Token::LeftParen),
            Ok(Token::RightParen),
            Ok(Token::LeftCurlyBrace),
            Ok(Token::RightCurlyBrace),
        ],
    );
}

#[test]
fn lone_angle_brackets_and_slash_are_errors() {
    assert_lex(
        "< > / <<",
        vec![
            Err(InvalidCharacterError { pos: 0, ch: '<' }),
            Err(InvalidCharacterError { pos: 2, ch: '>' }),
            Err(InvalidCharacterError { pos: 4, ch: '/' }),
            Ok((6, Token::ShiftLeft, 8)),
        ],
    );
}

#[test]
fn comment_at_the_end_of_the_text_ends_the_stream() {
    assert_lex("let // no newline follows", vec![Ok((0, Token::Let, 3))]);
    assert_lex("// nothing else", vec![]);
    assert_lex("", vec![]);
}

#[test]
fn spans_count_bytes_of_wide_characters() {
    assert_lex(
        "é=ab // ∞\nß1",
        vec![
            Ok((0, Token::Ident("é".to_string()), 2)),
            Ok((2, Token::Assign, 3)),
            Ok((3, Token::Ident("ab".to_string()), 5)),
            Ok((13, Token::Ident("ß1".to_string()), 16)),
        ],
    );
}

#[test]
fn spans_with_gaps_rebuild_the_source() {
    let source = "top mod a ( // ports\n in x: bit[3:0], ) { y = ~x << 2; ∞ }";
    let mut rebuilt = String::new();
    let mut last = 0;
    for item in tokenize(source) {
        let (start, end) = match item {
            Ok((start, _, end)) => (start, end),
            Err(InvalidCharacterError { pos, ch }) => (pos, pos + ch.len_utf8()),
        };
        assert!(last <= start && start < end);
        rebuilt.push_str(&source[last..start]);
        rebuilt.push_str(&source[start..end]);
        last = end;
    }
    rebuilt.push_str(&source[last..]);
    assert_eq!(rebuilt, source);
}

#[test]
fn letters_follow_unicode_and_digits_are_decimal() {
    let lexer = Lexer::new("");
    assert!(lexer.is_letter('a') && lexer.is_letter('_') && lexer.is_letter('é'));
    assert!(!lexer.is_letter('1') && !lexer.is_letter('=') && !lexer.is_letter(' '));
    for ch in ['0', '1', '2', '3', '4', '5', '6', '7', '8', '9'] {
        assert!(lexer.is_number(ch));
    }
    assert!(!lexer.is_number('/') && !lexer.is_number(':'));
    assert!(!lexer.is_number('a') && !lexer.is_number('_'));
    assert!(!lexer.is_number('٣') && !lexer.is_number('²') && !lexer.is_number('½'));
    assert!(!lexer.is_number('Ⅷ') && !lexer.is_number('１'));
}

#[test]
fn literals_are_made_of_decimal_digits_only() {
    assert_lex(
        "1² a² 12½ ٣4",
        vec![
            Ok((0, Token::Litrl("1".to_string()), 1)),
            Err(InvalidCharacterError { pos: 1, ch: '²' }),
            Ok((4, Token::Ident("a".to_string()), 5)),
            Err(InvalidCharacterError { pos: 5, ch: '²' }),
            Ok((8, Token::Litrl("12".to_string()), 10)),
            Err(InvalidCharacterError { pos: 10, ch: '½' }),
            Err(InvalidCharacterError { pos: 13, ch: '٣' }),
            Ok((15, Token::Litrl("4".to_string()), 16)),
        ],
    );
}

#[test]
fn widths_of_characters_in_bytes() {
    assert_eq!(char_width('a'), 1);
    assert_eq!(char_width('\u{7f}'), 1);
    assert_eq!(char_width('\u{80}'), 2);
    assert_eq!(char_width('\u{7ff}'), 2);
    assert_eq!(char_width('\u{800}'), 3);
    assert_eq!(char_width('∞'), 3);
    assert_eq!(char_width('\u{ffff}'), 3);
    assert_eq!(char_width('\u{10000}'), 4);
    assert_eq!(char_width('\u{10ffff}'), 4);
    for ch in ['a', 'é', '∞', '😀'] {
        assert_eq!(char_width(ch), ch.len_utf8());
    }
}

#[test]
fn keywords_are_whole_words_only() {
    assert_lex(
        "let letx top_ in1 bits Mod",
        vec![
            Ok((0, Token::Let, 3)),
            Ok((4, Token::Ident("letx".to_string()), 8)),
            Ok((9, Token::Ident("top_".to_string()), 13)),
            Ok((14, Token::Ident("in1".to_string()), 17)),
            Ok((18, Token::Ident("bits".to_string()), 22)),
            Ok((23, Token::Ident("Mod".to_string()), 26)),
        ],
    );
}

#[test]
fn literals_and_words_take_as_much_as_they_can() {
    assert_lex(
        "12ab 3_4 a<<b>>1",
        vec![
            Ok((0, Token::Litrl("12".to_string()), 2)),
            Ok((2, Token::Ident("ab".to_string()), 4)),
            Ok((5, Token::Litrl("3".to_string()), 6)),
            Ok((6, Token::Ident("_4".to_string()), 8)),
            Ok((9, Token::Ident("a".to_string()), 10)),
            Ok((10, Token::ShiftLeft, 12)),
            Ok((12, Token::Ident("b".to_string()), 13)),
            Ok((13, Token::ShiftRight, 15)),
            Ok((15, Token::Litrl("1".to_string()), 16)),
        ],
    );
}

#[test]
fn tokens_are_copied_whole() {
    let token = Token::Ident("name".to_string());
    assert_eq!(token.clone(), token);
    assert_eq!(Token::ShiftRight.clone(), Token::ShiftRight);
}

#[test]
fn items_without_spans_keep_tokens_and_characters() {
    assert_lex_tokens(
        "= ∞ < abc",
        vec![
            Ok(Token::Assign),
            Err(LexerError::InvalidCharacter('∞')),
            Err(LexerError::InvalidCharacter('<')),
            Ok(Token::Ident("abc".to_string())),
        ],
    );
}

#[test]
fn scanner_stays_at_the_end_once_it_is_reached() {
    let mut lexer = Lexer::new("let  ");
    assert_eq!(lexer.next(), Some(Ok((0, Token::Let, 3))));
    assert_eq!(lexer.next(), None);
    assert_eq!(lexer.next(), None);
    assert_eq!(lexer.next_token(), None);
}
