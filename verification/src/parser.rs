//! Recursive-descent parsing of a token stream into an [`AST`].

use vstd::prelude::*;

use crate::ast::{binary_node, deep_seq, lemma_deep_seq_push, AstModel, NodeModel, AST};
use crate::token::{
    deep_tokens, Symbol, Token, TokenKind, TokenKindModel, TokenModel,
};

verus! {

broadcast use vstd::std_specs::vec::group_vec_axioms;

/// A syntax error: the offending token with a human-readable message, or an
/// unexpected end of input.
#[derive(PartialEq, Eq, Debug, Clone)]
pub enum Error {
    Message(Token, String),
    EOF,
}

/// The mathematical model of an [`Error`].
pub enum ErrorModel {
    Message(TokenModel, Seq<char>),
    EOF,
}

impl View for Error {
    type V = ErrorModel;

    open spec fn view(&self) -> ErrorModel {
        match self {
            Error::Message(t, s) => ErrorModel::Message(t@, s@),
            Error::EOF => ErrorModel::EOF,
        }
    }
}

/// The message of an error issued where a token cannot begin a value or
/// continue an expression.
pub open spec fn unexpected_token_message() -> Seq<char> {
    "Unexpected Token"@
}

/// The message of an error issued where a statement lacks its terminating
/// semicolon.
pub open spec fn expected_semicolon_message() -> Seq<char> {
    "Expected semicolon"@
}

/// A well-formed token stream: nonempty, with `EOF` as its last token.
/// The lexer always delivers such a stream.
pub open spec fn wf_tokens(toks: Seq<TokenModel>) -> bool {
    toks.len() >= 1 && toks.last().kind is EOF
}

/// Whether a token kind may extend an expression: the two additive
/// operator symbols.
pub open spec fn is_additive_op(kind: TokenKindModel) -> bool {
    kind == TokenKindModel::Symbol(Symbol::Plus) || kind == TokenKindModel::Symbol(Symbol::Minus)
}

/// Parsing one value at `p`: a single `Int` token, consumed either way;
/// any other token is the offending token of an error.
pub open spec fn spec_parse_value(toks: Seq<TokenModel>, p: int) -> Result<
    (AstModel, int),
    ErrorModel,
> {
    let t = toks[p];
    if t.kind is Int {
        Ok((AstModel { token: Some(t), node: NodeModel::IntLiteral(t.kind->Int_0) }, p + 1))
    } else {
        Err(ErrorModel::Message(t, unexpected_token_message()))
    }
}

/// Parsing the rest of an expression after a first value `acc`: as long as
/// a `+` or `-` follows, it and the next value extend the tree on the left,
/// so that `a + b - c` parses as `(a + b) - c`.
pub open spec fn spec_parse_expr_rest(toks: Seq<TokenModel>, acc: AstModel, p: int) -> Result<
    (AstModel, int),
    ErrorModel,
>
    decreases toks.len() - p,
    when wf_tokens(toks) && 0 <= p < toks.len()
    via spec_parse_expr_rest_decreases
{
    let t = toks[p];
    if is_additive_op(t.kind) {
        match spec_parse_value(toks, p + 1) {
            Ok((rhs, p2)) => spec_parse_expr_rest(
                toks,
                AstModel { token: Some(t), node: binary_node(t.kind, acc, rhs) },
                p2,
            ),
            Err(e) => Err(e),
        }
    } else {
        Ok((acc, p))
    }
}

#[via_fn]
proof fn spec_parse_expr_rest_decreases(toks: Seq<TokenModel>, acc: AstModel, p: int) {
    let t = toks[p];
    if is_additive_op(t.kind) {
        if spec_parse_value(toks, p + 1) is Ok {
            assert(p + 1 < toks.len()) by {
                if p + 1 == toks.len() {
                    assert(!(toks[p + 1].kind is Int));
                }
            }
            assert(toks[p + 1].kind is Int);
            assert(p + 2 < toks.len()) by {
                if p + 2 == toks.len() {
                    assert(toks[p + 1] == toks.last());
                }
            }
        }
    }
}

/// Parsing one expression at `p`: a first value, then any number of
/// additive extensions, left-associatively.
pub open spec fn spec_parse_expr(toks: Seq<TokenModel>, p: int) -> Result<
    (AstModel, int),
    ErrorModel,
> {
    match spec_parse_value(toks, p) {
        Ok((ast, p1)) => spec_parse_expr_rest(toks, ast, p1),
        Err(e) => Err(e),
    }
}

/// Parsing one statement at `p`: an expression, which must be followed by a
/// semicolon; the token found in its place is the offending token
/// otherwise.
pub open spec fn spec_parse_statement(toks: Seq<TokenModel>, p: int) -> Result<
    (AstModel, int),
    ErrorModel,
> {
    match spec_parse_expr(toks, p) {
        Ok((expr, p1)) => {
            let stmt = AstModel { token: None, node: NodeModel::ExprStatement(Box::new(expr)) };
            if toks[p1].kind == TokenKindModel::Symbol(Symbol::Semicolon) {
                Ok((stmt, p1 + 1))
            } else {
                Err(ErrorModel::Message(toks[p1], expected_semicolon_message()))
            }
        },
        Err(e) => Err(e),
    }
}

/// A value parse that succeeds stays inside the stream.
pub proof fn lemma_spec_parse_value_pos(toks: Seq<TokenModel>, p: int)
    requires
        wf_tokens(toks),
        0 <= p < toks.len(),
        spec_parse_value(toks, p) is Ok,
    ensures
        spec_parse_value(toks, p)->Ok_0.1 == p + 1,
        p + 1 < toks.len(),
{
    if p + 1 == toks.len() {
        assert(toks[p] == toks.last());
    }
}

/// An expression parse that succeeds consumes at least one token and stays
/// inside the stream.
pub proof fn lemma_spec_parse_expr_rest_pos(toks: Seq<TokenModel>, acc: AstModel, p: int)
    requires
        wf_tokens(toks),
        0 <= p < toks.len(),
        spec_parse_expr_rest(toks, acc, p) is Ok,
    ensures
        p <= spec_parse_expr_rest(toks, acc, p)->Ok_0.1 < toks.len(),
    decreases toks.len() - p,
{
    let t = toks[p];
    if is_additive_op(t.kind) {
        if spec_parse_value(toks, p + 1) is Ok {
            assert(p + 1 < toks.len()) by {
                if p + 1 == toks.len() {
                    assert(!(toks[p + 1].kind is Int));
                }
            }
            lemma_spec_parse_value_pos(toks, p + 1);
            let rhs = spec_parse_value(toks, p + 1)->Ok_0.0;
            lemma_spec_parse_expr_rest_pos(
                toks,
                AstModel { token: Some(t), node: binary_node(t.kind, acc, rhs) },
                p + 2,
            );
        }
    }
}

/// An expression parse that succeeds consumes at least one token and stays
/// inside the stream.
pub proof fn lemma_spec_parse_expr_pos(toks: Seq<TokenModel>, p: int)
    requires
        wf_tokens(toks),
        0 <= p < toks.len(),
        spec_parse_expr(toks, p) is Ok,
    ensures
        p < spec_parse_expr(toks, p)->Ok_0.1 < toks.len(),
{
    lemma_spec_parse_value_pos(toks, p);
    let v = spec_parse_value(toks, p)->Ok_0;
    lemma_spec_parse_expr_rest_pos(toks, v.0, v.1);
}

/// A statement parse that succeeds consumes at least one token and stays
/// inside the stream.
pub proof fn lemma_spec_parse_statement_pos(toks: Seq<TokenModel>, p: int)
    requires
        wf_tokens(toks),
        0 <= p < toks.len(),
        spec_parse_statement(toks, p) is Ok,
    ensures
        p < spec_parse_statement(toks, p)->Ok_0.1 < toks.len(),
{
    lemma_spec_parse_expr_pos(toks, p);
    let p1 = spec_parse_expr(toks, p)->Ok_0.1;
    if p1 + 1 == toks.len() {
        assert(toks[p1] == toks.last());
    }
}

/// Parsing statements at `p` until `EOF`: their models in order, and the
/// position of the `EOF` that stopped the parse.
pub open spec fn spec_parse_program(toks: Seq<TokenModel>, p: int) -> Result<
    (Seq<AstModel>, int),
    ErrorModel,
>
    decreases toks.len() - p,
    when wf_tokens(toks) && 0 <= p < toks.len()
    via spec_parse_program_decreases
{
    if toks[p].kind is EOF {
        Ok((Seq::empty(), p))
    } else {
        match spec_parse_statement(toks, p) {
            Ok((stmt, p1)) => match spec_parse_program(toks, p1) {
                Ok((stmts, p2)) => Ok((seq![stmt] + stmts, p2)),
                Err(e) => Err(e),
            },
            Err(e) => Err(e),
        }
    }
}

#[via_fn]
proof fn spec_parse_program_decreases(toks: Seq<TokenModel>, p: int) {
    if !(toks[p].kind is EOF) && spec_parse_statement(toks, p) is Ok {
        lemma_spec_parse_statement_pos(toks, p);
    }
}

/// Parsing a whole program at `p`: a block of the statements up to `EOF`,
/// or the first syntax error.
pub open spec fn spec_parse(toks: Seq<TokenModel>, p: int) -> Result<(AstModel, int), ErrorModel> {
    match spec_parse_program(toks, p) {
        Ok((stmts, p1)) => Ok((AstModel { token: None, node: NodeModel::Block(stmts) }, p1)),
        Err(e) => Err(e),
    }
}

/// A one-token-lookahead recursive-descent parser over a pre-lexed token
/// stream. The stream must be well formed ([`wf_tokens`]): the lexer always
/// ends it with an `EOF` token, so the parser never looks past the end.
pub struct Parser {
    pub tokens: Vec<Token>,
    pub pos: usize,
}

impl Parser {
    /// The models of the parser's tokens, in order.
    pub open spec fn toks(&self) -> Seq<TokenModel> {
        deep_tokens(self.tokens@)
    }

    /// The stream ends in `EOF` and the cursor is inside it.
    pub open spec fn wf(&self) -> bool {
        wf_tokens(self.toks()) && self.pos < self.tokens@.len()
    }

    /// A parser at the head of `tokens`.
    pub fn new(tokens: Vec<Token>) -> (r: Self)
        ensures
            r.tokens == tokens,
            r.pos == 0,
    {
        Self { tokens, pos: 0 }
    }

    /// The token under the cursor, without consuming it.
    fn peek_token(&self) -> (t: &Token)
        requires
            self.pos < self.tokens@.len(),
        ensures
            t@ == self.toks()[self.pos as int],
    {
        &self.tokens[self.pos]
    }

    /// Consumes and returns the token under the cursor.
    fn next_token(&mut self) -> (t: Token)
        requires
            old(self).pos < old(self).tokens@.len(),
        ensures
            final(self).tokens == old(self).tokens,
            final(self).pos == old(self).pos + 1,
            t@ == old(self).toks()[old(self).pos as int],
    {
        let t = self.tokens[self.pos].clone();
        proof {
            assert(self.tokens.len() == self.tokens@.len());
        }
        self.pos = self.pos + 1;
        t
    }

    /// Whether the cursor has reached the `EOF` token.
    fn eof(&self) -> (r: bool)
        requires
            self.pos < self.tokens@.len(),
        ensures
            r == (self.toks()[self.pos as int].kind is EOF),
    {
        matches!(self.tokens[self.pos].kind, TokenKind::EOF)
    }

    /// Consumes one token and hands it back if it is any symbol; otherwise
    /// it is the offending token of an error.
    fn read_symbol(&mut self) -> (r: Result<Token, Error>)
        requires
            old(self).pos < old(self).tokens@.len(),
        ensures
            final(self).tokens == old(self).tokens,
            final(self).pos == old(self).pos + 1,
            ({
                let t = old(self).toks()[old(self).pos as int];
                &&& (t.kind is Symbol ==> r is Ok && r->Ok_0@ == t)
                &&& (!(t.kind is Symbol) ==> r is Err && r->Err_0@ == ErrorModel::Message(
                    t,
                    unexpected_token_message(),
                ))
            }),
    {
        let tok = self.next_token();
        if matches!(tok.kind, TokenKind::Symbol(_)) {
            Ok(tok)
        } else {
            Err(Error::Message(tok, String::from_str("Unexpected Token")))
        }
    }

    /// Parses a single integer literal, consuming exactly one token; any
    /// other token is the offending token of an error.
    fn parse_int(&mut self) -> (r: Result<AST, Error>)
        requires
            old(self).wf(),
        ensures
            final(self).tokens == old(self).tokens,
            ({
                let s = spec_parse_value(old(self).toks(), old(self).pos as int);
                &&& (r is Ok <==> s is Ok)
                &&& (r is Ok ==> r->Ok_0.deep() == s->Ok_0.0 && final(self).pos == s->Ok_0.1
                    && final(self).wf())
                &&& (r is Err ==> r->Err_0@ == s->Err_0)
            }),
    {
        let tok = self.next_token();
        if tok.kind.is_literal() {
            proof {
                lemma_spec_parse_value_pos(old(self).toks(), old(self).pos as int);
            }
            Ok(AST::new_literal(tok))
        } else {
            Err(Error::Message(tok, String::from_str("Unexpected Token")))
        }
    }

    /// Parses one value; the grammar knows integer literals alone so far.
    fn parse_value(&mut self) -> (r: Result<AST, Error>)
        requires
            old(self).wf(),
        ensures
            final(self).tokens == old(self).tokens,
            ({
                let s = spec_parse_value(old(self).toks(), old(self).pos as int);
                &&& (r is Ok <==> s is Ok)
                &&& (r is Ok ==> r->Ok_0.deep() == s->Ok_0.0 && final(self).pos == s->Ok_0.1
                    && final(self).wf())
                &&& (r is Err ==> r->Err_0@ == s->Err_0)
            }),
    {
        self.parse_int()
    }

    /// Parses one expression: a value, extended left-associatively as long
    /// as a `+` or `-` follows, so that `a + b - c` parses as `(a + b) - c`.
    #[verifier::loop_isolation(false)]
    pub fn parse_expr(&mut self) -> (r: Result<AST, Error>)
        requires
            old(self).wf(),
        ensures
            final(self).tokens == old(self).tokens,
            ({
                let s = spec_parse_expr(old(self).toks(), old(self).pos as int);
                &&& (r is Ok <==> s is Ok)
                &&& (r is Ok ==> r->Ok_0.deep() == s->Ok_0.0 && final(self).pos == s->Ok_0.1
                    && final(self).wf())
                &&& (r is Err ==> r->Err_0@ == s->Err_0)
            }),
    {
        let ghost toks = self.toks();
        let ghost goal = spec_parse_expr(toks, self.pos as int);
        let first = self.parse_value();
        let mut ast = match first {
            Ok(a) => a,
            Err(e) => {
                return Err(e);
            },
        };
        while matches!(
            self.peek_token().kind,
            TokenKind::Symbol(Symbol::Plus) | TokenKind::Symbol(Symbol::Minus)
        )
            invariant
                self.tokens == old(self).tokens,
                self.wf(),
                spec_parse_expr_rest(toks, ast.deep(), self.pos as int) == goal,
            decreases self.tokens@.len() - self.pos,
        {
            let ghost p = self.pos as int;
            proof {
                assert(is_additive_op(toks[p].kind));
                if p + 1 == toks.len() {
                    assert(toks[p] == toks.last());
                }
            }
            let op = match self.read_symbol() {
                Ok(t) => t,
                Err(e) => {
                    proof {
                        assert(false);
                    }
                    return Err(e);
                },
            };
            let rhs = match self.parse_value() {
                Ok(a) => a,
                Err(e) => {
                    return Err(e);
                },
            };
            proof {
                lemma_spec_parse_value_pos(toks, p + 1);
            }
            ast = AST::new_binary_expr(ast, op, rhs);
        }
        Ok(ast)
    }

    /// Parses one statement: an expression that a semicolon must close; the
    /// token standing in the semicolon's place is the offending token
    /// otherwise.
    pub fn parse_statement(&mut self) -> (r: Result<AST, Error>)
        requires
            old(self).wf(),
        ensures
            final(self).tokens == old(self).tokens,
            ({
                let s = spec_parse_statement(old(self).toks(), old(self).pos as int);
                &&& (r is Ok <==> s is Ok)
                &&& (r is Ok ==> r->Ok_0.deep() == s->Ok_0.0 && final(self).pos == s->Ok_0.1
                    && final(self).wf())
                &&& (r is Err ==> r->Err_0@ == s->Err_0)
            }),
    {
        let ghost toks = self.toks();
        let expr = match self.parse_expr() {
            Ok(a) => a,
            Err(e) => {
                return Err(e);
            },
        };
        let ast = AST::new_expr_statement(expr);
        if !matches!(self.peek_token().kind, TokenKind::Symbol(Symbol::Semicolon)) {
            return Err(
                Error::Message(self.peek_token().clone(), String::from_str("Expected semicolon")),
            );
        }
        proof {
            if self.pos + 1 == self.tokens@.len() {
                assert(toks[self.pos as int] == toks.last());
            }
        }
        let _ = self.next_token();
        Ok(ast)
    }

    /// Parses a whole program: statements until `EOF`, gathered into a
    /// block, or the first syntax error.
    #[verifier::loop_isolation(false)]
    pub fn parse(&mut self) -> (r: Result<AST, Error>)
        requires
            old(self).wf(),
        ensures
            final(self).tokens == old(self).tokens,
            ({
                let s = spec_parse(old(self).toks(), old(self).pos as int);
                &&& (r is Ok <==> s is Ok)
                &&& (r is Ok ==> r->Ok_0.deep() == s->Ok_0.0 && final(self).pos == s->Ok_0.1
                    && final(self).wf())
                &&& (r is Err ==> r->Err_0@ == s->Err_0)
            }),
    {
        let ghost toks = self.toks();
        let ghost goal = spec_parse_program(toks, self.pos as int);
        let mut items: Vec<AST> = Vec::new();
        while !self.eof()
            invariant
                self.tokens == old(self).tokens,
                self.wf(),
                goal == match spec_parse_program(toks, self.pos as int) {
                    Ok(sp) => Ok::<(Seq<AstModel>, int), ErrorModel>(
                        (deep_seq(items@) + sp.0, sp.1),
                    ),
                    Err(e) => Err(e),
                },
            decreases self.tokens@.len() - self.pos,
        {
            let ghost p = self.pos as int;
            let ghost items_pre = items@;
            let stmt = match self.parse_statement() {
                Ok(a) => a,
                Err(e) => {
                    return Err(e);
                },
            };
            proof {
                lemma_spec_parse_statement_pos(toks, p);
            }
            items.push(stmt);
            proof {
                lemma_deep_seq_push(items_pre, stmt);
                let stmt_m = spec_parse_statement(toks, p)->Ok_0.0;
                let rem = spec_parse_program(toks, self.pos as int);
                if rem is Ok {
                    assert(deep_seq(items_pre) + (seq![stmt_m] + rem->Ok_0.0) =~= deep_seq(items@)
                        + rem->Ok_0.0);
                }
            }
        }
        proof {
            assert(deep_seq(items@) + Seq::<AstModel>::empty() =~= deep_seq(items@));
        }
        Ok(AST::new_block(items))
    }
}

} // verus!
