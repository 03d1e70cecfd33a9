use fenixcc::compile;
use fenixcc::parser::Error;
use fenixcc::token::{Loc, Token};

#[test]
fn test_compile_program() {
    let text = compile("demo", "1+2;").unwrap();
    assert_eq!(
        text,
        ".intel_syntax noprefix\n.global main\nmain: \n\tpush 1\n\tpush 2\n\tpop rdi\n\tpop rax\n\tadd rax, rdi\n\tpush rax\n\tpop rax\n\n\tret\n",
    );
}

#[test]
fn test_compile_empty_program() {
    let text = compile("demo", "").unwrap();
    assert_eq!(text, ".intel_syntax noprefix\n.global main\nmain: \n\n\tret\n");
}

#[test]
fn test_compile_error() {
    let err = compile("demo", "1+2").unwrap_err();
    assert_eq!(
        err,
        Error::Message(Token::new_eof(Loc::new(3, 1, 4)), "Expected semicolon".to_string()),
    );
}
