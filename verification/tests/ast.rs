use fenixcc::ast::nodes::Addition;
use fenixcc::ast::{visit_ast, Visitor, AST};
use fenixcc::token::{Loc, Token};

fn zero_literal() -> AST {
    AST::new_literal(Token::new_int(0, Loc::head()))
}

#[test]
fn test_binary_eq() {
    assert_eq!(
        Addition { lhs: Box::new(zero_literal()), rhs: Box::new(zero_literal()) },
        Addition { lhs: Box::new(zero_literal()), rhs: Box::new(zero_literal()) },
    );
    assert_ne!(
        Addition { lhs: Box::new(zero_literal()), rhs: Box::new(zero_literal()) },
        Addition {
            lhs: Box::new(zero_literal()),
            rhs: Box::new(AST::new_literal(Token::new_int(1, Loc::head()))),
        },
    );
}

struct LiteralCounter {
    count: usize,
}

impl Visitor<(), ()> for LiteralCounter {
    fn visit_int_literal(&mut self, _i: &fenixcc::ast::nodes::IntLiteral) -> Result<(), ()> {
        self.count += 1;
        Ok(())
    }

    fn visit(&mut self, ast: &AST) -> Result<(), ()> {
        visit_ast(self, ast)
    }
}

#[test]
fn test_partial_visitor_counts_literals() {
    let tree = AST::new_block(vec![AST::new_expr_statement(AST::new_binary_expr(
        zero_literal(),
        Token::new_symbol(fenixcc::token::Symbol::Plus, Loc::head()),
        AST::new_binary_expr(
            zero_literal(),
            Token::new_symbol(fenixcc::token::Symbol::Minus, Loc::head()),
            zero_literal(),
        ),
    ))]);
    let mut counter = LiteralCounter { count: 0 };
    assert_eq!(counter.visit(&tree), Ok(()));
    assert_eq!(counter.count, 3);
}
