//! Textual x86-64 (Intel syntax) code generation from an instruction
//! sequence.
//!
//! The operand stack of the intermediate representation is materialised
//! directly as the machine stack: a push becomes a machine push, every
//! binary instruction pops its right then its left operand, applies the
//! operation with the left as destination, and pushes the result.

use vstd::prelude::*;

use crate::ir::{Instruction, IR};

verus! {

/// The decimal digit character for a value below ten.
pub open spec fn digit_char(d: int) -> char
    recommends
        0 <= d < 10,
{
    ((0x30 + d) as u8) as char
}

/// The decimal digits of a nonnegative number, most significant first.
pub open spec fn dec_str(n: int) -> Seq<char>
    recommends
        n >= 0,
    decreases n,
{
    if n < 10 {
        seq![digit_char(n)]
    } else {
        dec_str(n / 10).push(digit_char(n % 10))
    }
}

/// The decimal spelling of an integer: a minus sign for negative values,
/// then the digits.
pub open spec fn int_str(i: int) -> Seq<char> {
    if i < 0 {
        seq!['-'] + dec_str(-i)
    } else {
        dec_str(i)
    }
}

/// The assembly text of one binary stack operation with mnemonic `op`:
/// pop right, pop left, apply with the left as destination, push the
/// result.
pub open spec fn binary_operation_text(op: Seq<char>) -> Seq<char> {
    "\tpop rdi\n\tpop rax\n\t"@ + op + " rax, rdi\n\tpush rax\n"@
}

/// The assembly text of one instruction.
pub open spec fn instruction_text(inst: Instruction) -> Seq<char> {
    match inst {
        Instruction::PushI(i) => "\tpush "@ + int_str(i as int) + "\n"@,
        Instruction::PopI => "\tpop rax\n"@,
        Instruction::AddI => binary_operation_text("add"@),
        Instruction::SubI => binary_operation_text("sub"@),
        Instruction::MulI => binary_operation_text("imul"@),
        Instruction::DivI => "\tpop rdi\n\tpop rax\n\tcqo\n\tidiv rdi\n\tpush rax\n"@,
    }
}

/// The assembly text of an instruction sequence, in order.
pub open spec fn body_text(ir: Seq<Instruction>) -> Seq<char>
    decreases ir,
{
    if ir.len() == 0 {
        Seq::empty()
    } else {
        body_text(ir.drop_last()) + instruction_text(ir.last())
    }
}

/// The complete translation unit for an instruction sequence: a fixed
/// preamble (syntax directive, global symbol, label), the body, and a fixed
/// epilogue returning from `main`.
pub open spec fn assembly_text(ir: Seq<Instruction>) -> Seq<char> {
    ".intel_syntax noprefix\n.global main\nmain: \n"@ + body_text(ir) + "\n\tret\n"@
}

/// The one-character string spelling a decimal digit.
fn digit_str(d: u64) -> (r: &'static str)
    requires
        d < 10,
    ensures
        r@ == seq![digit_char(d as int)],
{
    proof {
        reveal_strlit("0");
        reveal_strlit("1");
        reveal_strlit("2");
        reveal_strlit("3");
        reveal_strlit("4");
        reveal_strlit("5");
        reveal_strlit("6");
        reveal_strlit("7");
        reveal_strlit("8");
        reveal_strlit("9");
    }
    match d {
        0 => "0",
        1 => "1",
        2 => "2",
        3 => "3",
        4 => "4",
        5 => "5",
        6 => "6",
        7 => "7",
        8 => "8",
        _ => "9",
    }
}

/// Appends the decimal digits of `n` to `s`.
fn push_u64(s: &mut String, n: u64)
    ensures
        final(s)@ == old(s)@ + dec_str(n as int),
    decreases n,
{
    if n < 10 {
        s.append(digit_str(n));
    } else {
        push_u64(s, n / 10);
        s.append(digit_str(n % 10));
        proof {
            assert(old(s)@ + dec_str((n / 10) as int) + seq![digit_char((n % 10) as int)] =~= old(
                s,
            )@ + dec_str(n as int));
        }
    }
}

/// Appends the decimal spelling of `i` to `s`.
fn push_i64(s: &mut String, i: i64)
    ensures
        final(s)@ == old(s)@ + int_str(i as int),
{
    if i >= 0 {
        push_u64(s, i as u64);
    } else {
        s.append("-");
        let m: u64 = ((-(i + 1)) as u64) + 1;
        proof {
            assert(m as int == -(i as int));
            assert(old(s)@ + "-"@ + dec_str(m as int) =~= old(s)@ + int_str(i as int)) by {
                reveal_strlit("-");
            }
        }
        push_u64(s, m);
    }
}

/// The assembly text of one binary stack operation.
pub fn compile_binary_operation(op: &str) -> (s: String)
    ensures
        s@ == binary_operation_text(op@),
{
    let mut s = String::from_str("\tpop rdi\n\tpop rax\n\t");
    s.append(op);
    s.append(" rax, rdi\n\tpush rax\n");
    s
}

/// The assembly text of one instruction.
pub fn compile_instruction(inst: &Instruction) -> (s: String)
    ensures
        s@ == instruction_text(*inst),
{
    match inst {
        Instruction::PushI(i) => {
            let mut s = String::from_str("\tpush ");
            push_i64(&mut s, *i);
            s.append("\n");
            s
        },
        Instruction::PopI => String::from_str("\tpop rax\n"),
        Instruction::AddI => compile_binary_operation("add"),
        Instruction::SubI => compile_binary_operation("sub"),
        Instruction::MulI => compile_binary_operation("imul"),
        Instruction::DivI => String::from_str("\tpop rdi\n\tpop rax\n\tcqo\n\tidiv rdi\n\tpush rax\n"),
    }
}

/// Maps an instruction sequence to a complete, assemblable translation
/// unit with a single `main` entry point. The mapping is pure: the same
/// instructions always yield the same text.
#[verifier::loop_isolation(false)]
pub fn compile(ir: &IR) -> (s: String)
    ensures
        s@ == assembly_text(ir@),
{
    let mut s = String::from_str(".intel_syntax noprefix\n.global main\nmain: \n");
    let mut idx: usize = 0;
    while idx < ir.instructions.len()
        invariant
            idx <= ir.instructions.len(),
            s@ == ".intel_syntax noprefix\n.global main\nmain: \n"@ + body_text(
                ir@.subrange(0, idx as int),
            ),
        decreases ir.instructions.len() - idx,
    {
        let line = compile_instruction(&ir.instructions[idx]);
        s.append(line.as_str());
        proof {
            assert(ir@.subrange(0, idx + 1 as int).drop_last() =~= ir@.subrange(0, idx as int));
            assert(ir@.subrange(0, idx + 1 as int).last() == ir@[idx as int]);
        }
        idx += 1;
    }
    proof {
        assert(ir@.subrange(0, ir@.len() as int) =~= ir@);
    }
    s.append("\n\tret\n");
    s
}

} // verus!
