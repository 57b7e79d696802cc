//! A translator from Krait, a small language of functions and HTTP routes,
//! to Rust source text.
//!
//! A program goes through three stages: the scanner turns the text into
//! tokens, the parser turns the tokens into a syntax tree, and the generator
//! writes the tree out as Rust. Scanning and generating never fail; parsing
//! stops at the first token that does not fit.

use vstd::prelude::*;

pub mod api;
pub mod cli;
pub mod emit;
pub mod gen;
pub mod grammar;
pub mod laws;
pub mod lexer;
pub mod libs;
pub mod messages;
pub mod parser;
pub mod precedence;
pub mod spelling;
pub mod syntax;
pub mod text;
pub mod token;

pub use crate::gen::CodeGenerator;
pub use crate::lexer::Lexer;
pub use crate::parser::Parser;
pub use crate::syntax::DataType;
pub use crate::syntax::Expr;
pub use crate::syntax::FunctionDef;
pub use crate::syntax::RouteDef;
pub use crate::syntax::Statement;
pub use crate::syntax::TopLevel;
pub use crate::token::Token;
pub use crate::token::TokenType;

use crate::emit::program_text;
use crate::grammar::program;
use crate::lexer::tokens_of;
use crate::libs::default_libraries;
use crate::messages::lemma_every_error_has_a_message;
use crate::token::kinds_of;
use crate::token::TokenKind;
use crate::token::TokenModel;

verus! {

/// The version of the translator.
pub const VERSION: &'static str = "0.2.0";

/// The kinds of the tokens of a source text.
pub open spec fn source_kinds(source: Seq<char>) -> Seq<TokenKind> {
    tokens_of(source).map_values(|t: TokenModel| t.kind)
}

/// The translation of a source text: the program emitted for what the text
/// spells, or the message of the first error in it.
pub open spec fn translation(source: Seq<char>) -> Result<Seq<char>, Seq<char>> {
    match program(source_kinds(source)) {
        Ok(items) => Ok(program_text(items, Seq::empty(), default_libraries())),
        Err(m) => Err(m),
    }
}

/// Translates a Krait program to Rust.
///
/// Returns the emitted program, or the message of the first token that does
/// not fit the grammar; in that case no text is produced.
pub fn translate(source: &str) -> (r: Result<String, String>)
    ensures
        match translation(source@) {
            Ok(code) => r is Ok && r->Ok_0@ == code,
            Err(m) => r is Err && r->Err_0@ == m,
        },
        r is Err ==> r->Err_0@.len() > 0,
{
    proof {
        lemma_every_error_has_a_message(source_kinds(source@), source@);
    }
    let mut lexer = Lexer::new(source);
    let tokens = lexer.tokenize();
    proof {
        assert(kinds_of(tokens@) =~= source_kinds(source@));
    }
    let mut parser = Parser::new(tokens);
    let ast = match parser.parse() {
        Ok(ast) => ast,
        Err(m) => {
            return Err(m);
        },
    };
    let mut codegen = CodeGenerator::new();
    let code = codegen.generate(ast.as_slice());
    proof {
        assert(Seq::<char>::empty() + code@ =~= code@);
    }
    Ok(code)
}

} // verus!
