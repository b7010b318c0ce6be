pub mod ast;
pub mod grammar;
pub mod laws;
pub mod parser;

use vstd::prelude::*;

use crate::lexer::scanner::token_views;
use crate::lexer::token::Token;
use ast::Program;
use parser::Parser;

verus! {

/// Parses tokens into a program; the error is the message of the first parse error.
pub fn parse(tokens: Vec<Token>) -> (r: Result<Program, String>)
    ensures
        match (r, grammar::program(token_views(tokens@))) {
            (Ok(p), Ok(sp)) => p@ == sp,
            (Err(e), Err(pe)) => e@ == pe.message,
            _ => false,
        },
{
    Parser::new(tokens).parse()
}

} // verus!
