//! A small ahead-of-time compiler for an arithmetic statement language.
//!
//! The pipeline is: lexical analysis ([`lexer`]), recursive-descent parsing
//! ([`parser`]) into an abstract syntax tree ([`ast`]), lowering of the tree
//! into a stack-machine intermediate representation ([`ir`], [`translate`]),
//! and textual x86-64 code generation ([`codegen`]).

use vstd::prelude::*;

pub mod token;
pub mod ast;
pub mod source;
pub mod lexer;
pub mod parser;
pub mod ir;
pub mod translate;
pub mod codegen;

pub use ast::{Node, Visitor, AST};
pub use codegen::x86_64;
pub use ir::{Instruction, IR};
pub use lexer::Lexer;
pub use parser::{Error, Parser};
pub use source::Source;
pub use token::{Keyword, Loc, Symbol, Token, TokenError, TokenKind};
pub use translate::IRTranslator;

use crate::codegen::x86_64::assembly_text;
use crate::lexer::{head_loc, lemma_tokens_from, tokens_from};
use crate::parser::{spec_parse, ErrorModel};
use crate::translate::translation_of;

verus! {

/// The result of compiling a source text: the assembly translation unit of
/// the program it spells, or the first syntax error.
pub open spec fn compiled(code: Seq<char>) -> Result<Seq<char>, ErrorModel> {
    let toks = tokens_from(code, head_loc());
    match spec_parse(toks, 0) {
        Ok(parsed) => Ok(assembly_text(translation_of(parsed.0))),
        Err(e) => Err(e),
    }
}

/// Compiles the source text `code`, read from `filename`, into x86-64
/// assembly: lexes it, parses it, lowers the tree to stack-machine
/// instructions, and renders those as text.
///
/// The length bound is a machine limit: it keeps the lexer's line and
/// column counters within `usize`.
pub fn compile(filename: &str, code: &str) -> (r: Result<String, Error>)
    requires
        code@.len() < usize::MAX,
    ensures
        (r is Ok <==> compiled(code@) is Ok),
        r is Ok ==> r->Ok_0@ == compiled(code@)->Ok_0,
        r is Err ==> r->Err_0@ == compiled(code@)->Err_0,
{
    let source = Source::new(filename, code);
    let mut lexer = Lexer::new(&source);
    let tokens = lexer.tokenize();
    proof {
        lemma_tokens_from(code@, head_loc());
    }
    let mut parser = Parser::new(tokens);
    match parser.parse() {
        Ok(ast) => {
            let mut translator = IRTranslator::new();
            let ir = translator.translate(&ast);
            proof {
                assert(Seq::<Instruction>::empty() + translation_of(ast.deep())
                    =~= translation_of(ast.deep()));
            }
            Ok(x86_64::compile(&ir))
        },
        Err(e) => Err(e),
    }
}

} // verus!
