//! Lowering of an abstract syntax tree into stack-machine instructions.

use vstd::prelude::*;

use crate::ast::{deep_seq, lemma_deep_seq_push, AstModel, Node, NodeModel, Visitor, AST};
use crate::ir::{Instruction, IR};

verus! {

/// The instruction sequence that lowering a tree yields: operands in
/// traversal order (left child before right child), each binary node
/// followed by its opcode, each expression statement closed by a `PopI`
/// that discards the statement's value.
pub open spec fn translation_of(a: AstModel) -> Seq<Instruction>
    decreases a,
{
    match a.node {
        NodeModel::Block(items) => translation_of_seq(items),
        NodeModel::ExprStatement(e) => translation_of(*e).push(Instruction::PopI),
        NodeModel::Addition(l, r) => translation_of(*l) + translation_of(*r)
            + seq![Instruction::AddI],
        NodeModel::Subtraction(l, r) => translation_of(*l) + translation_of(*r)
            + seq![Instruction::SubI],
        NodeModel::Multiplication(l, r) => translation_of(*l) + translation_of(*r)
            + seq![Instruction::MulI],
        NodeModel::Division(l, r) => translation_of(*l) + translation_of(*r)
            + seq![Instruction::DivI],
        NodeModel::IntLiteral(v) => seq![Instruction::PushI(v)],
    }
}

/// The concatenation, in order, of the translations of a sequence of trees.
pub open spec fn translation_of_seq(items: Seq<AstModel>) -> Seq<Instruction>
    decreases items,
{
    if items.len() == 0 {
        Seq::empty()
    } else {
        translation_of_seq(items.drop_last()) + translation_of(items.last())
    }
}

/// Appending a tree to a sequence appends its translation to the
/// sequence's translation.
pub proof fn lemma_translation_of_seq_push(items: Seq<AstModel>, a: AstModel)
    ensures
        translation_of_seq(items.push(a)) == translation_of_seq(items) + translation_of(a),
{
    assert(items.push(a).drop_last() =~= items);
    assert(items.push(a).last() == a);
}

/// A visitor that accumulates the stack-machine translation of the trees it
/// is driven over.
pub struct IRTranslator {
    pub buffer: IR,
}

impl IRTranslator {
    /// A translator with an empty instruction buffer.
    pub fn new() -> (r: Self)
        ensures
            r.buffer@ == Seq::<Instruction>::empty(),
    {
        Self { buffer: IR::new() }
    }

    /// Lowers `ast`, appending its translation to the internal buffer, and
    /// hands the whole buffer out, leaving the translator empty.
    ///
    /// The result depends on `ast` and the instructions already buffered
    /// alone, and the buffer is always empty afterwards: reusing one
    /// translator instance for several trees never leaks instructions from
    /// one run into the next.
    pub fn translate(&mut self, ast: &AST) -> (r: IR)
        ensures
            r@ == old(self).buffer@ + translation_of(ast.deep()),
            final(self).buffer@ == Seq::<Instruction>::empty(),
    {
        let res: Result<(), ()> = self.visit(ast);
        proof {
            assert(res is Ok);
        }
        self.take()
    }

    /// Hands the buffered instructions out, leaving the buffer empty.
    pub fn take(&mut self) -> (r: IR)
        ensures
            r@ == old(self).buffer@,
            final(self).buffer@ == Seq::<Instruction>::empty(),
    {
        let mut out = IR::new();
        core::mem::swap(&mut out, &mut self.buffer);
        out
    }
}

impl Visitor<(), ()> for IRTranslator {
    fn visit_expr_statement_left(&mut self) -> (r: Result<(), ()>)
        ensures
            r is Ok,
            final(self).buffer@ == old(self).buffer@,
    {
        Ok(())
    }

    fn visit_expr_statement_right(&mut self, _item: ()) -> (r: Result<(), ()>)
        ensures
            r is Ok,
            final(self).buffer@ == old(self).buffer@.push(Instruction::PopI),
    {
        self.buffer.push(Instruction::PopI);
        Ok(())
    }

    fn visit_int_literal(&mut self, i: &crate::ast::nodes::IntLiteral) -> (r: Result<(), ()>)
        ensures
            r is Ok,
            final(self).buffer@ == old(self).buffer@.push(Instruction::PushI(i.value)),
    {
        self.buffer.push(Instruction::PushI(i.value));
        Ok(())
    }

    fn visit_addition(&mut self, _lhs: (), _rhs: ()) -> (r: Result<(), ()>)
        ensures
            r is Ok,
            final(self).buffer@ == old(self).buffer@.push(Instruction::AddI),
    {
        self.buffer.push(Instruction::AddI);
        Ok(())
    }

    fn visit_subtraction(&mut self, _lhs: (), _rhs: ()) -> (r: Result<(), ()>)
        ensures
            r is Ok,
            final(self).buffer@ == old(self).buffer@.push(Instruction::SubI),
    {
        self.buffer.push(Instruction::SubI);
        Ok(())
    }

    fn visit_multiplication(&mut self, _lhs: (), _rhs: ()) -> (r: Result<(), ()>)
        ensures
            r is Ok,
            final(self).buffer@ == old(self).buffer@.push(Instruction::MulI),
    {
        self.buffer.push(Instruction::MulI);
        Ok(())
    }

    fn visit_division(&mut self, _lhs: (), _rhs: ()) -> (r: Result<(), ()>)
        ensures
            r is Ok,
            final(self).buffer@ == old(self).buffer@.push(Instruction::DivI),
    {
        self.buffer.push(Instruction::DivI);
        Ok(())
    }

    /// The standard traversal, specialised: on return the buffer has grown
    /// by exactly the translation of `ast`.
    #[verifier::loop_isolation(false)]
    fn visit(&mut self, ast: &AST) -> (r: Result<(), ()>)
        ensures
            r is Ok,
            final(self).buffer@ == old(self).buffer@ + translation_of(ast.deep()),
        decreases *ast,
    {
        match &ast.node {
            Node::Block(block) => {
                let ghost base = self.buffer@;
                let mut idx: usize = 0;
                while idx < block.items.len()
                    invariant
                        idx <= block.items.len(),
                        self.buffer@ == base + translation_of_seq(
                            deep_seq(block.items@.subrange(0, idx as int)),
                        ),
                    decreases block.items.len() - idx,
                {
                    let res = self.visit(&block.items[idx]);
                    proof {
                        let pre = block.items@.subrange(0, idx as int);
                        assert(block.items@.subrange(0, idx + 1 as int) =~= pre.push(
                            block.items@[idx as int],
                        ));
                        lemma_deep_seq_push(pre, block.items@[idx as int]);
                        lemma_translation_of_seq_push(
                            deep_seq(pre),
                            block.items@[idx as int].deep(),
                        );
                        assert(self.buffer@ == base + translation_of_seq(
                            deep_seq(block.items@.subrange(0, idx + 1 as int)),
                        ));
                    }
                    idx += 1;
                }
                proof {
                    assert(block.items@.subrange(0, block.items@.len() as int) =~= block.items@);
                }
                Ok(())
            },
            Node::ExprStatement(stmt) => {
                self.visit_expr_statement_left()?;
                let v = self.visit(&stmt.expr)?;
                let r = self.visit_expr_statement_right(v);
                proof {
                    assert(self.buffer@ =~= old(self).buffer@ + translation_of(ast.deep()));
                }
                r
            },
            Node::IntLiteral(lit) => {
                let r = self.visit_int_literal(lit);
                proof {
                    assert(self.buffer@ =~= old(self).buffer@ + translation_of(ast.deep()));
                }
                r
            },
            Node::Addition(v) => {
                let l = self.visit(&v.lhs)?;
                let rr = self.visit(&v.rhs)?;
                let r = self.visit_addition(l, rr);
                proof {
                    assert(self.buffer@ =~= old(self).buffer@ + translation_of(ast.deep()));
                }
                r
            },
            Node::Subtraction(v) => {
                let l = self.visit(&v.lhs)?;
                let rr = self.visit(&v.rhs)?;
                let r = self.visit_subtraction(l, rr);
                proof {
                    assert(self.buffer@ =~= old(self).buffer@ + translation_of(ast.deep()));
                }
                r
            },
            Node::Multiplication(v) => {
                let l = self.visit(&v.lhs)?;
                let rr = self.visit(&v.rhs)?;
                let r = self.visit_multiplication(l, rr);
                proof {
                    assert(self.buffer@ =~= old(self).buffer@ + translation_of(ast.deep()));
                }
                r
            },
            Node::Division(v) => {
                let l = self.visit(&v.lhs)?;
                let rr = self.visit(&v.rhs)?;
                let r = self.visit_division(l, rr);
                proof {
                    assert(self.buffer@ =~= old(self).buffer@ + translation_of(ast.deep()));
                }
                r
            },
        }
    }
}

} // verus!
