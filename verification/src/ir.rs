//! The stack-machine intermediate representation.

use vstd::prelude::*;

verus! {

/// One stack-machine instruction. Operands live on an implicit operand
/// stack; every binary instruction pops its two operands and pushes the
/// result.
#[derive(PartialEq, Eq, Debug, Clone, Copy)]
pub enum Instruction {
    PushI(i64),
    PopI,
    AddI,
    SubI,
    MulI,
    DivI,
}

/// An ordered sequence of instructions, append-only while it is built and
/// consumed in order afterwards.
#[derive(PartialEq, Eq, Debug, Clone)]
pub struct IR {
    pub instructions: Vec<Instruction>,
}

impl Default for IR {
    /// The default instruction sequence is empty.
    fn default() -> (r: Self)
        ensures
            r@ == Seq::<Instruction>::empty(),
    {
        IR { instructions: Vec::new() }
    }
}

impl View for IR {
    type V = Seq<Instruction>;

    open spec fn view(&self) -> Seq<Instruction> {
        self.instructions@
    }
}

impl IR {
    /// An empty instruction sequence.
    pub fn new() -> (r: Self)
        ensures
            r@ == Seq::<Instruction>::empty(),
    {
        Self::default()
    }

    /// Appends one instruction.
    pub fn push(&mut self, v: Instruction)
        ensures
            final(self)@ == old(self)@.push(v),
    {
        self.instructions.push(v)
    }

    /// Removes and returns the last instruction, or `None` when empty.
    pub fn pop(&mut self) -> (r: Option<Instruction>)
        ensures
            old(self)@.len() == 0 ==> r is None && final(self)@ == old(self)@,
            old(self)@.len() > 0 ==> r == Some(old(self)@.last())
                && final(self)@ == old(self)@.drop_last(),
    {
        self.instructions.pop()
    }

    /// Removes every instruction.
    pub fn clear(&mut self)
        ensures
            final(self)@ == Seq::<Instruction>::empty(),
    {
        self.instructions.clear()
    }
}

impl From<Vec<Instruction>> for IR {
    fn from(instructions: Vec<Instruction>) -> (r: IR) {
        Self { instructions }
    }
}

impl vstd::std_specs::convert::FromSpecImpl<Vec<Instruction>> for IR {
    open spec fn obeys_from_spec() -> bool {
        true
    }

    open spec fn from_spec(instructions: Vec<Instruction>) -> IR {
        IR { instructions }
    }
}

} // verus!
