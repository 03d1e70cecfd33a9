use fenixcc::lexer::Lexer;
use fenixcc::source::Source;
use fenixcc::token::{Loc, Symbol, Token, TokenError, TokenKind};

fn test_lex(code: &str, expected: Vec<Token>) {
    let s = Source::new("", code);
    let mut lexer = Lexer::new(&s);
    for t in expected.into_iter() {
        assert_eq!(t, lexer.next());
    }
}

#[test]
fn test_simple() {
    test_lex(
        "1 + 11 -\0  \n3",
        vec![
            Token::new_int(1, Loc::new(0, 1, 1)),
            Token::new_symbol(Symbol::Plus, Loc::new(2, 1, 3)),
            Token::new_int(11, Loc::new(4, 1, 5)),
            Token::new_symbol(Symbol::Minus, Loc::new(7, 1, 8)),
            Token::new_invalid_char('\0', Loc::new(8, 1, 9)),
            Token::new_int(3, Loc::new(12, 2, 1)),
            Token::new_eof(Loc::new(13, 2, 2)),
            Token::new_eof(Loc::new(13, 2, 2)),
        ],
    );
}

#[test]
fn test_symbols() {
    test_lex(
        "+-*/;=",
        vec![
            Token::new(TokenKind::Symbol(Symbol::Plus), Loc::new(0, 1, 1)),
            Token::new(TokenKind::Symbol(Symbol::Minus), Loc::new(1, 1, 2)),
            Token::new(TokenKind::Symbol(Symbol::Asterisk), Loc::new(2, 1, 3)),
            Token::new(TokenKind::Symbol(Symbol::Slash), Loc::new(3, 1, 4)),
            Token::new(TokenKind::Symbol(Symbol::Semicolon), Loc::new(4, 1, 5)),
            Token::new(TokenKind::Symbol(Symbol::Equal), Loc::new(5, 1, 6)),
            Token::new_eof(Loc::new(6, 1, 7)),
        ],
    )
}

#[test]
fn test_newline() {
    test_lex(
        "0\r0\r\n0\n\n\r0",
        vec![
            Token::new_int(0, Loc::new(0, 1, 1)),
            Token::new_int(0, Loc::new(2, 2, 1)),
            Token::new_int(0, Loc::new(5, 3, 1)),
            Token::new_int(0, Loc::new(9, 6, 1)),
            Token::new_eof(Loc::new(10, 6, 2)),
        ],
    )
}

#[test]
fn test_ident() {
    test_lex("_abc", vec![Token::new_ident("_abc".to_string(), Loc::head())])
}

#[test]
fn test_int_token_value() {
    test_lex(
        "12345",
        vec![Token::new_int(12345, Loc::new(0, 1, 1)), Token::new_eof(Loc::new(5, 1, 6))],
    )
}

#[test]
fn test_eof_stable() {
    let s = Source::new("", "");
    let mut lexer = Lexer::new(&s);
    let first = lexer.next();
    assert_eq!(first, Token::new_eof(Loc::head()));
    assert_eq!(lexer.next(), first);
    assert_eq!(lexer.next(), first);
}

#[test]
fn test_int_out_of_range() {
    test_lex(
        "99999999999999999999",
        vec![Token::new_error(
            TokenError::Message("integer literal out of range".to_string()),
            Loc::new(0, 1, 1),
        )],
    )
}

#[test]
fn test_trailing_carriage_return() {
    test_lex(
        "0\r",
        vec![Token::new_int(0, Loc::new(0, 1, 1)), Token::new_eof(Loc::new(2, 2, 1))],
    )
}

#[test]
fn test_tokenize_collects_to_eof() {
    let s = Source::new("", "1;");
    let mut lexer = Lexer::new(&s);
    let tokens = lexer.tokenize();
    assert_eq!(
        tokens,
        vec![
            Token::new_int(1, Loc::new(0, 1, 1)),
            Token::new_symbol(Symbol::Semicolon, Loc::new(1, 1, 2)),
            Token::new_eof(Loc::new(2, 1, 3)),
        ],
    );
}
