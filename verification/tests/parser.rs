use fenixcc::ast::AST;
use fenixcc::lexer::Lexer;
use fenixcc::parser::{Error, Parser};
use fenixcc::source::Source;
use fenixcc::token::{Loc, Symbol, Token, TokenKind};

#[test]
fn test_expr() {
    let tokens = vec![
        Token::new_int(0, Loc::new(0, 1, 1)),
        Token::new(TokenKind::Symbol(Symbol::Plus), Loc::new(1, 1, 2)),
        Token::new_int(0, Loc::new(2, 1, 3)),
        Token::new(TokenKind::Symbol(Symbol::Minus), Loc::new(3, 1, 4)),
        Token::new_int(0, Loc::new(4, 1, 5)),
        Token::new_eof(Loc::new(4, 1, 6)),
    ];
    let v = Parser::new(tokens.clone()).parse_expr().unwrap();
    assert_eq!(
        format!("{:?}", v),
        format!(
            "{:?}",
            AST::new_binary_expr(
                AST::new_binary_expr(
                    AST::new_literal(tokens[0].clone()),
                    tokens[1].clone(),
                    AST::new_literal(tokens[2].clone()),
                ),
                tokens[3].clone(),
                AST::new_literal(tokens[4].clone()),
            )
        ),
    );
}

#[test]
fn test_block() {
    let tokens = vec![
        Token::new_int(0, Loc::new(0, 1, 1)),
        Token::new(TokenKind::Symbol(Symbol::Semicolon), Loc::new(1, 1, 2)),
        Token::new_eof(Loc::new(2, 1, 3)),
    ];
    let v = Parser::new(tokens.clone()).parse().unwrap();
    assert_eq!(
        v,
        AST::new_block(vec![AST::new_expr_statement(AST::new_literal(tokens[0].clone()))]),
    );
}

#[test]
fn test_left_associativity() {
    let source = Source::new("", "1+2-3;");
    let tokens = Lexer::new(&source).tokenize();
    let parsed = Parser::new(tokens.clone()).parse().unwrap();
    let expected = AST::new_block(vec![AST::new_expr_statement(AST::new_binary_expr(
        AST::new_binary_expr(
            AST::new_literal(tokens[0].clone()),
            tokens[1].clone(),
            AST::new_literal(tokens[2].clone()),
        ),
        tokens[3].clone(),
        AST::new_literal(tokens[4].clone()),
    ))]);
    assert_eq!(parsed, expected);
}

#[test]
fn test_missing_semicolon() {
    let source = Source::new("", "1+2");
    let tokens = Lexer::new(&source).tokenize();
    let err = Parser::new(tokens).parse().unwrap_err();
    assert_eq!(
        err,
        Error::Message(Token::new_eof(Loc::new(3, 1, 4)), "Expected semicolon".to_string()),
    );
}

#[test]
fn test_unexpected_token() {
    let source = Source::new("", ";");
    let tokens = Lexer::new(&source).tokenize();
    let err = Parser::new(tokens).parse().unwrap_err();
    assert_eq!(
        err,
        Error::Message(
            Token::new_symbol(Symbol::Semicolon, Loc::new(0, 1, 1)),
            "Unexpected Token".to_string(),
        ),
    );
}

#[test]
fn test_parse_statement_consumes_semicolon() {
    let tokens = vec![
        Token::new_int(7, Loc::new(0, 1, 1)),
        Token::new(TokenKind::Symbol(Symbol::Semicolon), Loc::new(1, 1, 2)),
        Token::new_eof(Loc::new(2, 1, 3)),
    ];
    let mut parser = Parser::new(tokens.clone());
    let stmt = parser.parse_statement().unwrap();
    assert_eq!(stmt, AST::new_expr_statement(AST::new_literal(tokens[0].clone())));
    assert_eq!(parser.pos, 2);
}

#[test]
fn test_empty_program() {
    let source = Source::new("", "");
    let tokens = Lexer::new(&source).tokenize();
    let parsed = Parser::new(tokens).parse().unwrap();
    assert_eq!(parsed, AST::new_block(vec![]));
}
