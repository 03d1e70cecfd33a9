use fenixcc::token::{Keyword, Loc, Symbol, Token, TokenError, TokenKind};

#[test]
fn test_loc_new() {
    let loc = Loc::new(1, 2, 3);
    assert_eq!(loc.offset, 1);
    assert_eq!(loc.line, 2);
    assert_eq!(loc.col, 3);
}

#[test]
fn test_token_kind_is_literal() {
    assert!(!TokenKind::Error(TokenError::Message("".to_string())).is_literal());
    assert!(!TokenKind::Symbol(Symbol::Plus).is_literal());
    assert!(TokenKind::Int(0).is_literal());
    assert!(!TokenKind::EOF.is_literal());
}

#[test]
fn test_token_new() {
    let tok = Token::new(TokenKind::Int(1), Loc::head());
    assert_eq!(tok.kind, TokenKind::Int(1));
    assert_eq!(tok.loc, Loc::head());
}

#[test]
fn test_token_constructors() {
    let loc = Loc::new(4, 2, 1);
    assert_eq!(
        Token::new_keyword(Keyword::Return, loc),
        Token::new(TokenKind::Keyword(Keyword::Return), loc),
    );
    assert_eq!(
        Token::new_unexpected_char(Some('+'), Some('?'), loc),
        Token::new(
            TokenKind::Error(TokenError::UnexpectedChar {
                actual: Some('?'),
                expected: Some('+'),
            }),
            loc,
        ),
    );
    assert_eq!(
        Token::new_invalid_char('?', loc),
        Token::new_unexpected_char(None, Some('?'), loc),
    );
}
