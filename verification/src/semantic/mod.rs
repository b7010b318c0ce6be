pub mod laws;
pub mod rules;
pub mod type_checker;

use vstd::prelude::*;

use crate::helper::text::string_from;
use crate::helper::types::{CompileError, ErrorType};
use crate::parser::ast::Program;
use type_checker::TypeChecker;

verus! {

/// Checks a program's types and names, recording inferred variable types in it. When there are
/// errors the result is the first one found, as a type error with no location.
pub fn analyze(program: &mut Program, _source: &str, filename: &str) -> (r: Result<(), CompileError>)
    ensures
        final(program)@ == rules::analysis(filename@, old(program)@).1,
        match r {
            Ok(()) => rules::analysis(filename@, old(program)@).0.len() == 0,
            Err(e) => {
                let errors = rules::analysis(filename@, old(program)@).0;
                &&& errors.len() > 0
                &&& e.message@ == errors[0]
                &&& e.span is None
                &&& e.error_type == ErrorType::TypeError
            },
        },
{
    let mut checker = TypeChecker::new(string_from(filename));
    match checker.check_program(program) {
        Ok(()) => Ok(()),
        Err(m) => Err(CompileError::new(m, None, ErrorType::TypeError)),
    }
}

} // verus!
