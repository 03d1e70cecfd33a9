use fenixcc::ir::Instruction::{AddI, PopI, PushI, SubI};
use fenixcc::ir::IR;
use fenixcc::x86_64::{compile, compile_instruction};

#[test]
fn test_pushi() {
    let s = compile_instruction(&PushI(9));
    assert_eq!(1, s.lines().count());
    assert!(s.contains("push"));
    assert!(s.contains('9'));
}

#[test]
fn test_popi() {
    let s = compile_instruction(&PopI);
    assert_eq!(1, s.lines().count());
    assert!(s.contains("pop"));
}

#[test]
fn test_addi() {
    let s = compile_instruction(&AddI);
    assert_eq!(4, s.lines().count());
    assert!(s.contains("push"));
    assert!(s.contains("add"));
}

#[test]
fn test_subi() {
    let s = compile_instruction(&SubI);
    assert_eq!(4, s.lines().count());
    assert!(s.contains("push"));
    assert!(s.contains("sub"));
}

#[test]
fn test_negative_literal() {
    let s = compile_instruction(&PushI(-42));
    assert_eq!(s, "\tpush -42\n");
}

#[test]
fn test_min_literal() {
    let s = compile_instruction(&PushI(i64::MIN));
    assert_eq!(s, "\tpush -9223372036854775808\n");
}

#[test]
fn test_framing() {
    let ir: IR = vec![PushI(1), PushI(2), AddI].into();
    let s = compile(&ir);
    assert!(s.starts_with(".intel_syntax noprefix\n.global main\nmain: \n"));
    assert!(s.ends_with("\n\tret\n"));
    assert!(s.contains("\tpush 1\n\tpush 2\n\tpop rdi\n\tpop rax\n\tadd rax, rdi\n\tpush rax\n"));
    assert_eq!(s.matches("push").count(), 3);
}
