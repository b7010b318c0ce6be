use vstd::prelude::*;

verus! {

/// A location in source code: 1-based line and column.
#[derive(Debug, Clone, Copy, PartialEq, Eq)]
pub struct Span {
    pub line: usize,
    pub column: usize,
}

impl Span {
    pub fn new(line: usize, column: usize) -> (s: Span)
        ensures
            s.line == line,
            s.column == column,
    {
        Span { line, column }
    }
}

/// The stage of compilation that produced an error.
#[derive(Debug, Clone, Copy, PartialEq, Eq)]
pub enum ErrorType {
    LexerError,
    ParseError,
    TypeError,
    NameError,
    GeneratorError,
}

/// A compilation error with an optional source location.
#[derive(Debug, Clone)]
pub struct CompileError {
    pub message: String,
    pub span: Option<Span>,
    pub error_type: ErrorType,
}

impl CompileError {
    pub fn new(message: String, span: Option<Span>, error_type: ErrorType) -> (e: CompileError)
        ensures
            e.message == message,
            e.span == span,
            e.error_type == error_type,
    {
        CompileError { message, span, error_type }
    }

    pub fn lexer_error(message: String, line: usize, column: usize) -> (e: CompileError)
        ensures
            e.message == message,
            e.span == Some(Span { line, column }),
            e.error_type == ErrorType::LexerError,
    {
        CompileError { message, span: Some(Span::new(line, column)), error_type: ErrorType::LexerError }
    }

    pub fn parse_error(message: String, line: usize, column: usize) -> (e: CompileError)
        ensures
            e.message == message,
            e.span == Some(Span { line, column }),
            e.error_type == ErrorType::ParseError,
    {
        CompileError { message, span: Some(Span::new(line, column)), error_type: ErrorType::ParseError }
    }

    pub fn type_error(message: String, line: usize, column: usize) -> (e: CompileError)
        ensures
            e.message == message,
            e.span == Some(Span { line, column }),
            e.error_type == ErrorType::TypeError,
    {
        CompileError { message, span: Some(Span::new(line, column)), error_type: ErrorType::TypeError }
    }

    pub fn name_error(message: String, line: usize, column: usize) -> (e: CompileError)
        ensures
            e.message == message,
            e.span == Some(Span { line, column }),
            e.error_type == ErrorType::NameError,
    {
        CompileError { message, span: Some(Span::new(line, column)), error_type: ErrorType::NameError }
    }
}

} // verus!
