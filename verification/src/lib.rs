use vstd::prelude::*;

pub mod generator;
pub mod helper;
pub mod lexer;
pub mod parser;
pub mod semantic;

use helper::text::string_from;
use lexer::scanner::{lex, token_views};
use helper::types::{CompileError, ErrorType};
use parser::grammar;
use parser::parser::Parser;
use semantic::rules::analysis;
use semantic::type_checker::TypeChecker;

verus! {

/// Compilation options.
#[derive(Debug, Clone)]
pub struct CompileOptions {
    /// Show progress and details.
    pub verbose: bool,
    /// Only check types; generate no code.
    pub check_only: bool,
    /// Where to write the C file, in place of the default.
    pub output_path: Option<String>,
    /// Show warnings (there are none yet).
    pub warnings: bool,
    /// Write the C file under `build/`.
    pub use_build_dir: bool,
}

impl Default for CompileOptions {
    /// Verbose, with code generation, into `build/`, without warnings.
    fn default() -> (o: CompileOptions)
        ensures
            o.verbose,
            !o.check_only,
            o.output_path is None,
            !o.warnings,
            o.use_build_dir,
    {
        CompileOptions { verbose: true, check_only: false, output_path: None, warnings: false, use_build_dir: true }
    }
}

/// The stem of the last component of a path: the file name without its extension, as
/// `std::path::Path::file_stem` gives it (none for a path without a file name). Components are
/// split at the separators of the target the library is built for ('/', and also '\\' on
/// Windows).
pub uninterp spec fn path_file_stem(path: Seq<char>) -> Option<Seq<char>>;

/// Calls `Path::file_stem` on `path` (and `OsStr::to_str` on the stem). Trusted: the result is
/// `path_file_stem(path)`. What the stem is for a given path is left to the name.
#[verifier::external_body]
fn file_stem(path: &str) -> (r: Option<String>)
    ensures
        match r {
            Some(s) => path_file_stem(path@) == Some(s@),
            None => path_file_stem(path@) is None,
        },
{
    match std::path::Path::new(path).file_stem() {
        Some(s) => match s.to_str() {
            Some(t) => Some(t.to_string()),
            None => None,
        },
        None => None,
    }
}

/// The C file for an input file: `build/<stem>.c` or `<stem>.c`.
pub open spec fn default_output(input: Seq<char>, use_build_dir: bool) -> Option<Seq<char>> {
    match path_file_stem(input) {
        Some(stem) => Some(if use_build_dir { "build/"@ + stem + ".c"@ } else { stem + ".c"@ }),
        None => None,
    }
}

/// The C file under `build/` for an input file with a file name.
pub fn get_output_path_build(input_file: &str) -> (r: String)
    requires
        path_file_stem(input_file@) is Some,
    ensures
        Some(r@) == default_output(input_file@, true),
{
    let stem = match file_stem(input_file) {
        Some(s) => s,
        None => String::new(),
    };
    let mut r = string_from("build/");
    r.append(stem.as_str());
    r.append(".c");
    r
}

/// The C file beside the current directory for an input file with a file name.
pub fn get_output_path_current(input_file: &str) -> (r: String)
    requires
        path_file_stem(input_file@) is Some,
    ensures
        Some(r@) == default_output(input_file@, false),
{
    let stem = match file_stem(input_file) {
        Some(s) => s,
        None => String::new(),
    };
    let mut r = stem;
    r.append(".c");
    r
}

/// Where the C file for `input_file` goes: the path the options name, else the default one.
/// None when there is no such path (the input has no file name).
pub fn output_path(input_file: &str, options: &CompileOptions) -> (r: Option<String>)
    ensures
        match options.output_path {
            Some(p) => r == Some(p),
            None => match (r, default_output(input_file@, options.use_build_dir)) {
                (Some(x), Some(y)) => x@ == y,
                (None, None) => true,
                _ => false,
            },
        },
{
    match &options.output_path {
        Some(p) => Some(p.clone()),
        None => {
            if file_stem(input_file).is_none() {
                None
            } else if options.use_build_dir {
                Some(get_output_path_build(input_file))
            } else {
                Some(get_output_path_current(input_file))
            }
        },
    }
}

/// What compiling a source text gives, as mathematical values: the number of tokens travels
/// with every stage after lexing.
pub enum OutcomeView {
    LexError(Seq<char>),
    ParseError(nat, grammar::PErr),
    TypeErrors(nat, Seq<Seq<char>>),
    Checked(nat),
    GenerateError(nat, Seq<char>),
    Generated(nat, Seq<char>),
}

/// How far compiling a source text got, and what it produced.
#[derive(Debug)]
pub enum CompileOutcome {
    /// Lexing failed, with this message.
    LexError(String),
    /// The tokens (this many) do not form a program; the first parse error, with the location
    /// of the token where it arose when there is one.
    ParseError(usize, CompileError),
    /// Type checking found errors: all of them, in the order found.
    TypeErrors(usize, Vec<String>),
    /// Only checking was asked for, and the program passed.
    Checked(usize),
    /// The program passed, but the C generator cannot translate it; the message.
    GenerateError(usize, String),
    /// The C translation of the program.
    Generated(usize, String),
}

impl View for CompileOutcome {
    type V = OutcomeView;

    open spec fn view(&self) -> OutcomeView {
        match self {
            CompileOutcome::LexError(m) => OutcomeView::LexError(m@),
            CompileOutcome::ParseError(n, e) => OutcomeView::ParseError(*n as nat, grammar::PErr { message: e.message@, span: e.span }),
            CompileOutcome::TypeErrors(n, es) => OutcomeView::TypeErrors(*n as nat, es@.map_values(|e: String| e@)),
            CompileOutcome::Checked(n) => OutcomeView::Checked(*n as nat),
            CompileOutcome::GenerateError(n, m) => OutcomeView::GenerateError(*n as nat, m@),
            CompileOutcome::Generated(n, c) => OutcomeView::Generated(*n as nat, c@),
        }
    }
}

/// The stages of compilation, one after the other: lexing, parsing, type checking of the file
/// `filename`, then (unless only checking) translation to C. The first stage that fails decides.
pub open spec fn compilation(source: Seq<char>, filename: Seq<char>, check_only: bool) -> OutcomeView {
    match lex(source) {
        Err(m) => OutcomeView::LexError(m),
        Ok(vs) => match grammar::program(vs) {
            Err(e) => OutcomeView::ParseError(vs.len(), e),
            Ok(p) => {
                let (errors, checked) = analysis(filename, p);
                if errors.len() > 0 {
                    OutcomeView::TypeErrors(vs.len(), errors)
                } else if check_only {
                    OutcomeView::Checked(vs.len())
                } else {
                    match generator::emit::program_c(checked) {
                        Err(m) => OutcomeView::GenerateError(vs.len(), m),
                        Ok(c) => OutcomeView::Generated(vs.len(), c),
                    }
                }
            },
        },
    }
}

/// A copy of a list of messages.
fn copy_messages(v: &Vec<String>) -> (r: Vec<String>)
    ensures
        r@.map_values(|e: String| e@) == v@.map_values(|e: String| e@),
{
    let mut r: Vec<String> = Vec::new();
    let mut i: usize = 0;
    while i < v.len()
        invariant
            i <= v.len(),
            r@.map_values(|e: String| e@) == v@.take(i as int).map_values(|e: String| e@),
        decreases v.len() - i,
    {
        let e = string_from(v[i].as_str());
        r.push(e);
        assert(v@.take(i + 1).map_values(|e: String| e@) =~= v@.take(i as int).map_values(|e: String| e@).push(v@[i as int]@));
        assert(r@.map_values(|e: String| e@) =~= v@.take(i + 1).map_values(|e: String| e@));
        i += 1;
    }
    assert(v@.take(v.len() as int) =~= v@);
    r
}

/// Compiles the source text of the file `input_file`: tokens, syntax tree, type checking and,
/// unless the options ask only for checking, the C code. Reading the file, reporting and
/// writing the C file are left to the caller.
pub fn compile_source(source: &str, input_file: &str, options: &CompileOptions) -> (r: CompileOutcome)
    requires
        source@.len() < usize::MAX,
    ensures
        r@ == compilation(source@, input_file@, options.check_only),
        r matches CompileOutcome::ParseError(_, e) ==> e.error_type == ErrorType::ParseError,
{
    let tokens = match lexer::tokenize(source) {
        Ok(t) => t,
        Err(m) => return CompileOutcome::LexError(m),
    };
    let n = tokens.len();
    proof {
        assert(token_views(tokens@).len() == n);
    }
    let mut ast = match Parser::new(tokens).parse_program() {
        Ok(p) => p,
        Err(e) => return CompileOutcome::ParseError(n, e),
    };
    let mut checker = TypeChecker::new(string_from(input_file));
    let _ = checker.check_program(&mut ast);
    let errors = checker.get_errors();
    if errors.len() > 0 {
        return CompileOutcome::TypeErrors(n, copy_messages(errors));
    }
    if options.check_only {
        return CompileOutcome::Checked(n);
    }
    match generator::generate(&ast) {
        Ok(c) => CompileOutcome::Generated(n, c),
        Err(m) => CompileOutcome::GenerateError(n, m),
    }
}

/// Of a source text that passes type checking, compiling gives C code that begins with the
/// standard headers, or stops in the C generator only on a construct the generator does not
/// support (never on a variable without a type).
pub proof fn lemma_compilation_after_checking(source: Seq<char>, filename: Seq<char>, check_only: bool)
    ensures
        compilation(source, filename, check_only) matches OutcomeView::Generated(_, c) ==> generator::laws::c_preamble().is_prefix_of(c),
        compilation(source, filename, check_only) matches OutcomeView::GenerateError(_, m) ==> generator::laws::unsupported_feature(m),
{
    if let Ok(vs) = lex(source) {
        if let Ok(p) = grammar::program(vs) {
            let (errors, checked) = analysis(filename, p);
            generator::laws::lemma_output_starts_with_headers(checked);
            if errors.len() == 0 {
                generator::laws::lemma_checked_program_generates(filename, p);
            }
        }
    }
}

/// Type errors stop compilation whether or not only checking is asked for: a check-only
/// compilation reports a checked program only when the source lexes, parses and has no type
/// errors, it succeeds exactly when a full compilation gets past type checking, and both report
/// the same type errors.
pub proof fn lemma_checking_only(source: Seq<char>, filename: Seq<char>)
    ensures
        compilation(source, filename, true) is Checked ==> (lex(source) matches Ok(vs) && grammar::program(vs) matches Ok(p)
            && analysis(filename, p).0.len() == 0),
        (compilation(source, filename, true) is Checked) <==> (compilation(source, filename, false) is Generated
            || compilation(source, filename, false) is GenerateError),
        match lex(source) {
            Ok(vs) => match grammar::program(vs) {
                Ok(p) => analysis(filename, p).0.len() > 0 ==> compilation(source, filename, true) == compilation(
                    source,
                    filename,
                    false,
                ) && compilation(source, filename, true) == OutcomeView::TypeErrors(vs.len(), analysis(filename, p).0),
                Err(_) => true,
            },
            Err(_) => true,
        },
{
}

} // verus!
