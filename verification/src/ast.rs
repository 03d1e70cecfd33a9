//! The abstract syntax tree and its generic traversal.

use vstd::prelude::*;

use crate::token::{Symbol, Token, TokenKind, TokenKindModel, TokenModel};

pub mod nodes;

use nodes::{Addition, Block, Division, ExprStatement, IntLiteral, Multiplication, Subtraction};

verus! {

broadcast use vstd::std_specs::vec::group_vec_axioms;

/// One node of the abstract syntax tree: the variant payload together with
/// the token it originated from, where there is one.
#[derive(PartialEq, Eq, Debug)]
pub struct AST {
    pub token: Option<Token>,
    pub node: Node,
}

/// The closed set of node variants.
#[derive(PartialEq, Eq, Debug)]
pub enum Node {
    Block(Block),
    ExprStatement(ExprStatement),
    Addition(Addition),
    Subtraction(Subtraction),
    Multiplication(Multiplication),
    Division(Division),
    IntLiteral(IntLiteral),
}

/// The mathematical model of an [`AST`] node.
pub struct AstModel {
    pub token: Option<TokenModel>,
    pub node: NodeModel,
}

/// The mathematical model of a [`Node`].
pub enum NodeModel {
    Block(Seq<AstModel>),
    ExprStatement(Box<AstModel>),
    Addition(Box<AstModel>, Box<AstModel>),
    Subtraction(Box<AstModel>, Box<AstModel>),
    Multiplication(Box<AstModel>, Box<AstModel>),
    Division(Box<AstModel>, Box<AstModel>),
    IntLiteral(i64),
}

impl AST {
    /// The mathematical model of this tree.
    pub open spec fn deep(&self) -> AstModel
        decreases *self,
    {
        AstModel {
            token: match &self.token {
                Some(t) => Some(t@),
                None => None,
            },
            node: match &self.node {
                Node::Block(b) => NodeModel::Block(deep_seq(b.items@)),
                Node::ExprStatement(s) => NodeModel::ExprStatement(Box::new(s.expr.deep())),
                Node::Addition(v) => NodeModel::Addition(
                    Box::new(v.lhs.deep()),
                    Box::new(v.rhs.deep()),
                ),
                Node::Subtraction(v) => NodeModel::Subtraction(
                    Box::new(v.lhs.deep()),
                    Box::new(v.rhs.deep()),
                ),
                Node::Multiplication(v) => NodeModel::Multiplication(
                    Box::new(v.lhs.deep()),
                    Box::new(v.rhs.deep()),
                ),
                Node::Division(v) => NodeModel::Division(
                    Box::new(v.lhs.deep()),
                    Box::new(v.rhs.deep()),
                ),
                Node::IntLiteral(l) => NodeModel::IntLiteral(l.value),
            },
        }
    }
}

/// The models of a sequence of trees, in order.
pub open spec fn deep_seq(s: Seq<AST>) -> Seq<AstModel>
    decreases s,
{
    if s.len() == 0 {
        Seq::empty()
    } else {
        deep_seq(s.drop_last()).push(s.last().deep())
    }
}

/// Appending a tree to a sequence appends its model to the sequence's model.
pub proof fn lemma_deep_seq_push(s: Seq<AST>, a: AST)
    ensures
        deep_seq(s.push(a)) == deep_seq(s).push(a.deep()),
{
    assert(s.push(a).drop_last() =~= s);
    assert(s.push(a).last() == a);
}

/// Whether a token kind is one of the four binary-operator symbols.
pub open spec fn is_binary_op(kind: TokenKindModel) -> bool {
    ||| kind == TokenKindModel::Symbol(Symbol::Plus)
    ||| kind == TokenKindModel::Symbol(Symbol::Minus)
    ||| kind == TokenKindModel::Symbol(Symbol::Asterisk)
    ||| kind == TokenKindModel::Symbol(Symbol::Slash)
}

/// The node variant that a binary-operator token builds from two operands.
pub open spec fn binary_node(kind: TokenKindModel, lhs: AstModel, rhs: AstModel) -> NodeModel
    recommends
        is_binary_op(kind),
{
    if kind == TokenKindModel::Symbol(Symbol::Plus) {
        NodeModel::Addition(Box::new(lhs), Box::new(rhs))
    } else if kind == TokenKindModel::Symbol(Symbol::Minus) {
        NodeModel::Subtraction(Box::new(lhs), Box::new(rhs))
    } else if kind == TokenKindModel::Symbol(Symbol::Asterisk) {
        NodeModel::Multiplication(Box::new(lhs), Box::new(rhs))
    } else {
        NodeModel::Division(Box::new(lhs), Box::new(rhs))
    }
}

impl AST {
    pub fn new(token: Option<Token>, node: Node) -> (r: Self)
        ensures
            r == (AST { token, node }),
    {
        Self { token, node }
    }

    /// Builds the binary node selected by the operator token `op`, with `lhs`
    /// and `rhs` as its children and `op` as its originating token.
    ///
    /// Handing any token other than a `+ - * /` symbol to this constructor is
    /// a contract violation of the caller, never a recoverable parse error.
    pub fn new_binary_expr(lhs: AST, op: Token, rhs: AST) -> (r: Self)
        requires
            is_binary_op(op@.kind),
        ensures
            r.deep() == (AstModel {
                token: Some(op@),
                node: binary_node(op@.kind, lhs.deep(), rhs.deep()),
            }),
    {
        let node = match &op.kind {
            TokenKind::Symbol(Symbol::Plus) => Node::Addition(
                Addition { lhs: Box::new(lhs), rhs: Box::new(rhs) },
            ),
            TokenKind::Symbol(Symbol::Minus) => Node::Subtraction(
                Subtraction { lhs: Box::new(lhs), rhs: Box::new(rhs) },
            ),
            TokenKind::Symbol(Symbol::Asterisk) => Node::Multiplication(
                Multiplication { lhs: Box::new(lhs), rhs: Box::new(rhs) },
            ),
            TokenKind::Symbol(Symbol::Slash) => Node::Division(
                Division { lhs: Box::new(lhs), rhs: Box::new(rhs) },
            ),
            _ => {
                proof {
                    assert(false);
                }
                Node::IntLiteral(IntLiteral { value: 0 })
            },
        };
        Self::new(Some(op), node)
    }

    /// Builds an integer-literal node from an `Int` token.
    ///
    /// Handing any other token kind to this constructor is a contract
    /// violation of the caller.
    pub fn new_literal(token: Token) -> (r: AST)
        requires
            token@.kind is Int,
        ensures
            r.deep() == (AstModel {
                token: Some(token@),
                node: NodeModel::IntLiteral(token@.kind->Int_0),
            }),
    {
        let value = match &token.kind {
            TokenKind::Int(v) => *v,
            _ => {
                proof {
                    assert(false);
                }
                0
            },
        };
        Self::new(Some(token), Node::IntLiteral(IntLiteral { value }))
    }

    /// Builds a block node holding `items` as its statements, in order.
    pub fn new_block(items: Vec<AST>) -> (r: Self)
        ensures
            r.deep() == (AstModel { token: None, node: NodeModel::Block(deep_seq(items@)) }),
    {
        Self::new(None, Node::Block(Block { items }))
    }

    /// Wraps an expression in an expression-statement node.
    pub fn new_expr_statement(expr: AST) -> (r: Self)
        ensures
            r.deep() == (AstModel {
                token: None,
                node: NodeModel::ExprStatement(Box::new(expr.deep())),
            }),
    {
        Self::new(None, Node::ExprStatement(ExprStatement { expr: Box::new(expr) }))
    }
}

/// A generic depth-first traversal of an [`AST`].
///
/// `visit` recurses structurally, always left child before right child and in
/// statement order, and combines results through the per-variant hooks. Every
/// hook defaults to a no-op returning `R::default()`, so a partial visitor
/// that only cares about some variants is valid. A hook that fails stops the
/// traversal at once and its error is handed back unchanged.
pub trait Visitor<R: Default, E>: Sized {
    /// Called when an expression statement is entered, before its expression.
    fn visit_expr_statement_left(&mut self) -> (r: Result<R, E>) {
        Ok(R::default())
    }

    /// Called when an expression statement is left; `item` is the result of
    /// its expression.
    fn visit_expr_statement_right(&mut self, _item: R) -> (r: Result<R, E>) {
        Ok(R::default())
    }

    /// Called on each integer literal.
    fn visit_int_literal(&mut self, _i: &IntLiteral) -> (r: Result<R, E>) {
        Ok(R::default())
    }

    /// Combines the two operand results of an addition.
    fn visit_addition(&mut self, _lhs: R, _rhs: R) -> (r: Result<R, E>) {
        Ok(R::default())
    }

    /// Combines the two operand results of a subtraction.
    fn visit_subtraction(&mut self, _lhs: R, _rhs: R) -> (r: Result<R, E>) {
        Ok(R::default())
    }

    /// Combines the two operand results of a multiplication.
    fn visit_multiplication(&mut self, _lhs: R, _rhs: R) -> (r: Result<R, E>) {
        Ok(R::default())
    }

    /// Combines the two operand results of a division.
    fn visit_division(&mut self, _lhs: R, _rhs: R) -> (r: Result<R, E>) {
        Ok(R::default())
    }

    /// Drives the traversal: recurses into children in order, dispatching to
    /// the hooks, and fails fast on the first hook error. An implementation
    /// that wants the standard traversal delegates to [`visit_ast`].
    fn visit(&mut self, ast: &AST) -> (r: Result<R, E>);
}

/// The traversal behind [`Visitor::visit`]: depth-first, left child before
/// right child, statement order preserved, failing fast on the first hook
/// error.
#[verifier::loop_isolation(false)]
pub fn visit_ast<R: Default, E, V: Visitor<R, E>>(visitor: &mut V, ast: &AST) -> (r: Result<R, E>)
    decreases *ast,
{
    match &ast.node {
        Node::Block(block) => {
            let mut idx: usize = 0;
            while idx < block.items.len()
                invariant
                    idx <= block.items.len(),
                decreases block.items.len() - idx,
            {
                visit_ast(visitor, &block.items[idx])?;
                idx += 1;
            }
            Ok(R::default())
        },
        Node::ExprStatement(stmt) => {
            visitor.visit_expr_statement_left()?;
            let v = visit_ast(visitor, &stmt.expr)?;
            visitor.visit_expr_statement_right(v)
        },
        Node::IntLiteral(lit) => visitor.visit_int_literal(lit),
        Node::Addition(v) => {
            let l = visit_ast(visitor, &v.lhs)?;
            let r = visit_ast(visitor, &v.rhs)?;
            visitor.visit_addition(l, r)
        },
        Node::Subtraction(v) => {
            let l = visit_ast(visitor, &v.lhs)?;
            let r = visit_ast(visitor, &v.rhs)?;
            visitor.visit_subtraction(l, r)
        },
        Node::Multiplication(v) => {
            let l = visit_ast(visitor, &v.lhs)?;
            let r = visit_ast(visitor, &v.rhs)?;
            visitor.visit_multiplication(l, r)
        },
        Node::Division(v) => {
            let l = visit_ast(visitor, &v.lhs)?;
            let r = visit_ast(visitor, &v.rhs)?;
            visitor.visit_division(l, r)
        },
    }
}

} // verus!
