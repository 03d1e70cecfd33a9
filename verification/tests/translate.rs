use fenixcc::ast::AST;
use fenixcc::ir::Instruction::{AddI, PopI, PushI, SubI};
use fenixcc::ir::IR;
use fenixcc::token::{Loc, Symbol, Token};
use fenixcc::translate::IRTranslator;

#[test]
fn test_translate() {
    let mut t = IRTranslator::new();
    let ir = t.translate(&AST::new_binary_expr(
        AST::new_binary_expr(
            AST::new_literal(Token::new_int(1, Loc::head())),
            Token::new(
                fenixcc::token::TokenKind::Symbol(Symbol::Plus),
                Loc::head(),
            ),
            AST::new_literal(Token::new_int(2, Loc::head())),
        ),
        Token::new(
            fenixcc::token::TokenKind::Symbol(Symbol::Minus),
            Loc::head(),
        ),
        AST::new_literal(Token::new_int(-3, Loc::head())),
    ));
    assert_eq!(ir, vec![PushI(1), PushI(2), AddI, PushI(-3), SubI].into());
    assert_eq!(t.buffer, vec![].into());
}

#[test]
fn test_take() {
    let mut t = IRTranslator::new();
    t.buffer = vec![PopI].into();
    assert_eq!(t.take(), vec![PopI].into());
    assert_eq!(t.buffer, vec![].into());
}

#[test]
fn test_translate_statement_block() {
    let mut t = IRTranslator::new();
    let tree = AST::new_block(vec![AST::new_expr_statement(AST::new_binary_expr(
        AST::new_literal(Token::new_int(1, Loc::head())),
        Token::new(fenixcc::token::TokenKind::Symbol(Symbol::Plus), Loc::head()),
        AST::new_literal(Token::new_int(2, Loc::head())),
    ))]);
    let ir: IR = t.translate(&tree);
    assert_eq!(ir, vec![PushI(1), PushI(2), AddI, PopI].into());
}

#[test]
fn test_translator_reuse_does_not_leak() {
    let mut t = IRTranslator::new();
    let first = t.translate(&AST::new_literal(Token::new_int(1, Loc::head())));
    assert_eq!(first, vec![PushI(1)].into());
    let second = t.translate(&AST::new_literal(Token::new_int(2, Loc::head())));
    assert_eq!(second, vec![PushI(2)].into());
    assert_eq!(t.buffer, vec![].into());
}
