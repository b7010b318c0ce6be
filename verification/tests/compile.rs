use peach::helper::types::ErrorType;
use peach::{compile_source, CompileOptions, CompileOutcome};

fn options(check_only: bool) -> CompileOptions {
    let mut o = CompileOptions::default();
    o.check_only = check_only;
    o
}

#[test]
fn a_lexical_error_stops_compilation() {
    match compile_source("def main() -> i32 { return 0 @ }", "t.peach", &options(false)) {
        CompileOutcome::LexError(m) => assert_eq!(m, "Unexpected character '@' at line 1 column 31"),
        other => panic!("{:?}", other),
    }
}

#[test]
fn a_syntax_error_stops_compilation() {
    match compile_source("def main() -> i32 { return 0 }", "t.peach", &options(false)) {
        CompileOutcome::ParseError(n, e) => {
            assert_eq!(n, 11);
            assert_eq!(e.message, "Expected ';' after return");
            assert_eq!(e.error_type, ErrorType::ParseError);
            let span = e.span.unwrap();
            assert_eq!(span.line, 1);
        }
        other => panic!("{:?}", other),
    }
}

#[test]
fn all_type_errors_are_given() {
    let r = compile_source("def main() -> i32 { val a = b; val c = d; return 0; }", "t.peach", &options(false));
    match r {
        CompileOutcome::TypeErrors(n, errors) => {
            assert_eq!(n, 22);
            assert_eq!(errors.len(), 2);
            assert!(errors[0].contains("Undefined variable 'b'"));
            assert!(errors[1].contains("Undefined variable 'd'"));
        }
        other => panic!("{:?}", other),
    }
}

#[test]
fn checking_only_generates_nothing() {
    match compile_source("def main() -> i32 { return 0; }", "t.peach", &options(true)) {
        CompileOutcome::Checked(n) => assert_eq!(n, 12),
        other => panic!("{:?}", other),
    }
}

#[test]
fn a_checked_program_is_translated() {
    match compile_source("def main() -> i32 { return 0; }", "t.peach", &options(false)) {
        CompileOutcome::Generated(n, c) => {
            assert_eq!(n, 12);
            assert!(c.ends_with("int32_t main(void)\n{\n    return 0;\n}\n"), "{}", c);
        }
        other => panic!("{:?}", other),
    }
}

#[test]
fn a_loop_over_a_slice_cannot_be_translated() {
    let src = "def f(a: []i32) -> i32 { for x in a { } return 0; }\ndef main() -> i32 { return 0; }";
    match compile_source(src, "t.peach", &options(false)) {
        CompileOutcome::GenerateError(_, m) => assert_eq!(m, "Cannot determine size of array 'a'"),
        other => panic!("{:?}", other),
    }
}
