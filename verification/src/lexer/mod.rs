use vstd::prelude::*;

pub mod scanner;
pub mod token;

use scanner::{lex, token_views, Scanner};
use token::Token;

verus! {

/// Tokenizes source text: the tokens that `lex` describes, ending with the end-of-input
/// token, or the message of the first lexical error.
pub fn tokenize(source: &str) -> (r: Result<Vec<Token>, String>)
    requires
        source@.len() < usize::MAX,
    ensures
        match (r, lex(source@)) {
            (Ok(ts), Ok(vs)) => token_views(ts@) == vs,
            (Err(e), Err(m)) => e@ == m,
            _ => false,
        },
{
    let scanner = Scanner::new(source);
    scanner.scan_tokens()
}

} // verus!
