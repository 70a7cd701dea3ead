use silica::syntax::error::ParseError;
use silica::syntax::lexer::{tokenize, InvalidCharacterError};
use silica::syntax::parser::parse_tokens;
use silica::syntax::token::Token;
use silica::syntax::{parse_source, Error, Parser};

fn names(list: &[&str]) -> Vec<String> {
    list.iter().map(|name| name.to_string()).collect()
}

fn unrecognized(source: &str) -> (Option<(usize, Token, usize)>, Vec<String>) {
    match parse_source(source) {
        Err(Error::UnrecognizedToken { token, expected }) => (token, expected),
        other => panic!("{:?}", other),
    }
}

#[test]
fn source_must_start_with_top_and_mod() {
    assert_eq!(unrecognized("mod a ( ) { }"), (Some((0, Token::Mod, 3)), names(&["top"])));
    assert_eq!(unrecognized("top a ( ) { }"), (Some((4, Token::Ident("a".to_string()), 5)), names(&["mod"])));
    assert_eq!(unrecognized("top mod ( ) { }"), (Some((8, Token::LeftParen, 9)), names(&["identifier"])));
    assert_eq!(unrecognized("top mod a { }"), (Some((10, Token::LeftCurlyBrace, 11)), names(&["("])));
    assert_eq!(unrecognized(""), (None, names(&["top"])));
}

#[test]
fn end_of_input_is_reported_without_a_token() {
    assert_eq!(unrecognized("top mod a ( ) {"), (None, names(&["identifier", "let", "}"])));
    assert_eq!(unrecognized("top mod a ( in x : bit"), (None, names(&["[", ",", ")"])));
    assert_eq!(unrecognized("top mod a ( ) { y = 1"), (None, names(&["&", "^", "|", "<<", ">>", ";"])));
}

#[test]
fn port_list_errors_name_what_was_expected() {
    assert_eq!(
        unrecognized("top mod a ( , ) { }"),
        (Some((12, Token::Comma, 13)), names(&["in", "out", ")"]))
    );
    assert_eq!(
        unrecognized("top mod a ( in : bit ) { }"),
        (Some((15, Token::Colon, 16)), names(&["identifier"]))
    );
    assert_eq!(
        unrecognized("top mod a ( in x bit ) { }"),
        (Some((17, Token::Bit, 20)), names(&[":"]))
    );
    assert_eq!(
        unrecognized("top mod a ( in x : y ) { }"),
        (Some((19, Token::Ident("y".to_string()), 20)), names(&["bit"]))
    );
    assert_eq!(
        unrecognized("top mod a ( in x : bit out y : bit ) { }"),
        (Some((23, Token::Out, 26)), names(&["[", ",", ")"]))
    );
    assert_eq!(
        unrecognized("top mod a ( in x : bit[1:0] out y : bit ) { }"),
        (Some((28, Token::Out, 31)), names(&[",", ")"]))
    );
    assert_eq!(
        unrecognized("top mod a ( in x : bit, , ) { }"),
        (Some((24, Token::Comma, 25)), names(&["in", "out", ")"]))
    );
    assert_eq!(unrecognized("top mod a ( ) }"), (Some((14, Token::RightCurlyBrace, 15)), names(&["{"])));
}

#[test]
fn bit_vector_bounds_are_checked() {
    assert_eq!(
        unrecognized("top mod a ( in x : bit[x:0] ) { }"),
        (Some((23, Token::Ident("x".to_string()), 24)), names(&["literal"]))
    );
    assert_eq!(
        unrecognized("top mod a ( in x : bit[3 0] ) { }"),
        (Some((25, Token::Litrl("0".to_string()), 26)), names(&[":"]))
    );
    assert_eq!(
        unrecognized("top mod a ( in x : bit[3:0 ) { }"),
        (Some((27, Token::RightParen, 28)), names(&["]"]))
    );
    assert_eq!(
        unrecognized("top mod a ( in x : bit[0:3] ) { }"),
        (Some((25, Token::Litrl("3".to_string()), 26)), names(&["literal"]))
    );
    assert_eq!(
        unrecognized("top mod a ( in x : bit[4294967296:0] ) { }"),
        (Some((23, Token::Litrl("4294967296".to_string()), 33)), names(&["literal"]))
    );
    assert_eq!(
        parse_source("top mod a ( in x : bit[٣:0] ) { }"),
        Err(Error::InvalidCharacter { pos: 23, ch: '٣' })
    );
    let tree = parse_source("top mod a ( in x : bit[4294967295:007] ) { }").unwrap();
    assert_eq!(
        tree.top.ports[0].ty,
        silica::syntax::ast::Type::BitVec { high: 4294967295, low: 7 }
    );
}

#[test]
fn statement_errors_name_what_was_expected() {
    assert_eq!(
        unrecognized("top mod a ( ) { ; }"),
        (Some((16, Token::Semicolon, 17)), names(&["identifier", "let", "}"]))
    );
    assert_eq!(
        unrecognized("top mod a ( ) { y 1; }"),
        (Some((18, Token::Litrl("1".to_string()), 19)), names(&["="]))
    );
    assert_eq!(
        unrecognized("top mod a ( ) { y = ; }"),
        (Some((20, Token::Semicolon, 21)), names(&["identifier", "literal", "(", "~", "&", "^", "|"]))
    );
    assert_eq!(
        unrecognized("top mod a ( ) { y = 1 2; }"),
        (Some((22, Token::Litrl("2".to_string()), 23)), names(&["&", "^", "|", "<<", ">>", ";"]))
    );
    assert_eq!(
        unrecognized("top mod a ( ) { y = ( 1 ; }"),
        (Some((24, Token::Semicolon, 25)), names(&["&", "^", "|", "<<", ">>", ")"]))
    );
    assert_eq!(
        unrecognized("top mod a ( ) { y = 1 << ; }"),
        (Some((25, Token::Semicolon, 26)), names(&["identifier", "literal", "(", "~", "&", "^", "|"]))
    );
    assert_eq!(
        unrecognized("top mod a ( ) { let = 1; }"),
        (Some((20, Token::Assign, 21)), names(&["identifier"]))
    );
    assert_eq!(
        unrecognized("top mod a ( ) { let y = 1; }"),
        (Some((22, Token::Assign, 23)), names(&[":"]))
    );
    assert_eq!(
        unrecognized("top mod a ( ) { let y : bit 1; }"),
        (Some((28, Token::Litrl("1".to_string()), 29)), names(&["[", "=", ";"]))
    );
    assert_eq!(
        unrecognized("top mod a ( ) { let y : bit[1:0] 1; }"),
        (Some((33, Token::Litrl("1".to_string()), 34)), names(&["=", ";"]))
    );
}

#[test]
fn tokens_behind_the_module_are_extra() {
    assert_eq!(
        parse_source("top mod a ( ) { } top"),
        Err(Error::ExtraToken { token: (18, Token::Top, 21) })
    );
    assert_eq!(
        parse_source("top mod a ( ) { } ∞"),
        Err(Error::InvalidCharacter { pos: 18, ch: '∞' })
    );
}

#[test]
fn first_error_in_token_order_is_reported() {
    assert_eq!(
        parse_source("top mod a ( ) { y = < ; }"),
        Err(Error::InvalidCharacter { pos: 20, ch: '<' })
    );
    assert_eq!(
        parse_source("top top a ( ) { y = < ; }"),
        Err(Error::UnrecognizedToken { token: Some((4, Token::Top, 7)), expected: names(&["mod"]) })
    );
    assert_eq!(
        parse_source("/ top mod a ( ) { }"),
        Err(Error::InvalidCharacter { pos: 0, ch: '/' })
    );
}

#[test]
fn every_failure_has_its_error() {
    assert_eq!(Error::from(ParseError::InvalidToken { location: 7 }), Error::InvalidToken { pos: 7 });
    assert_eq!(
        Error::from(ParseError::UnrecognizedToken {
            token: Some((1, Token::Ident("x".to_string()), 2)),
            expected: names(&["a", "b"]),
        }),
        Error::UnrecognizedToken {
            token: Some((1, Token::Ident("x".to_string()), 2)),
            expected: names(&["a", "b"]),
        }
    );
    assert_eq!(
        Error::from(ParseError::UnrecognizedToken { token: None, expected: names(&[]) }),
        Error::UnrecognizedToken { token: None, expected: names(&[]) }
    );
    assert_eq!(
        Error::from(ParseError::ExtraToken { token: (3, Token::Let, 6) }),
        Error::ExtraToken { token: (3, Token::Let, 6) }
    );
    assert_eq!(
        Error::from(ParseError::User { error: InvalidCharacterError { pos: 9, ch: '#' } }),
        Error::InvalidCharacter { pos: 9, ch: '#' }
    );
    let error = Error::ExtraToken { token: (3, Token::Litrl("12".to_string()), 5) };
    assert_eq!(error.clone(), error);
    let failure = ParseError::UnrecognizedToken { token: None, expected: names(&["top"]) };
    assert_eq!(failure.clone(), failure);
}

#[test]
fn parsing_tokens_reports_failures_in_the_parser_shape() {
    let items = tokenize("top mod a ( ) { } ;");
    assert_eq!(
        parse_tokens(&items),
        Err(ParseError::ExtraToken { token: (18, Token::Semicolon, 19) })
    );
    let items = tokenize("top mod a ( ) { > }");
    assert_eq!(
        parse_tokens(&items),
        Err(ParseError::User { error: InvalidCharacterError { pos: 16, ch: '>' } })
    );
    assert!(parse_tokens(&tokenize("top mod a ( ) { }")).is_ok());
    assert!(parse_tokens(&Vec::new()).is_err());
}

#[test]
fn parser_cuts_line_comments_out_before_it_parses() {
    let source = "top // the top module\nmod a ( ) { y = 1; } // done\n top";
    assert_eq!(
        Parser::new(source).parse(),
        Err(Error::ExtraToken { token: (28, Token::Top, 31) })
    );
    assert_eq!(parse_source(source), Err(Error::ExtraToken { token: (52, Token::Top, 55) }));
    let commented = "top mod a ( out y : bit ) { y = 1; /// one more slash\n}// the end";
    assert_eq!(Parser::new(commented).parse(), parse_source("top mod a ( out y : bit ) { y = 1; \n}"));
    assert!(Parser::new(commented).parse().is_ok());
}

#[test]
fn line_comments_are_cut_out_up_to_the_newline() {
    assert_eq!(Parser::new("a///b\n//\n/ /x//").source(), "a\n\n/ /x");
    assert_eq!(Parser::new("no comment / here").source(), "no comment / here");
    assert_eq!(Parser::new("// only\r\n\n//∞ wide\nlast//").source(), "\n\n\nlast");
    assert_eq!(Parser::new("").source(), "");
}

#[test]
fn hand_made_literals_that_write_no_number_are_no_bounds() {
    let source = "top mod a ( in x : bit[7:0] ) { }";
    for (text, fits) in [("7", true), ("007", true), ("", false), ("٣", false), ("7a", false), ("4294967296", false)] {
        let mut items = tokenize(source);
        let (start, end) = match &items[9] {
            Ok((start, Token::Litrl(_), end)) => (*start, *end),
            other => panic!("{:?}", other),
        };
        items[9] = Ok((start, Token::Litrl(text.to_string()), end));
        match parse_tokens(&items) {
            Ok(tree) => {
                assert!(fits);
                assert_eq!(
                    tree.top.ports[0].ty,
                    silica::syntax::ast::Type::BitVec { high: 7, low: 0 }
                );
            },
            Err(failure) => {
                assert!(!fits);
                assert_eq!(
                    failure,
                    ParseError::UnrecognizedToken {
                        token: Some((start, Token::Litrl(text.to_string()), end)),
                        expected: names(&["literal"]),
                    }
                );
            },
        }
    }
}
