pub mod builtin;
pub mod c_codegen;
pub mod emit;
pub mod laws;

use vstd::prelude::*;

use crate::parser::ast::Program;
use c_codegen::CCodeGenerator;

verus! {

/// Translates a program to C (see `emit::program_c`), or gives the message of the first thing
/// that cannot be translated.
pub fn generate(program: &Program) -> (r: Result<String, String>)
    ensures
        match (r, emit::program_c(program@)) {
            (Ok(t), Ok(x)) => t@ == x,
            (Err(m), Err(x)) => m@ == x,
            _ => false,
        },
{
    let generator = CCodeGenerator::new();
    generator.generate(program)
}

} // verus!
