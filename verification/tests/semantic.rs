use peach::helper::types::ErrorType;
use peach::lexer::tokenize;
use peach::parser::ast::{Statement, Type};
use peach::parser::parse;
use peach::semantic::analyze;
use peach::semantic::type_checker::{levenshtein_distance, TypeChecker};

fn check(source: &str) -> Vec<String> {
    let mut program = parse(tokenize(source).unwrap()).unwrap();
    let mut checker = TypeChecker::new("test.peach".to_string());
    let _ = checker.check_program(&mut program);
    checker.get_errors().clone()
}

#[test]
fn test_type_check_simple_vars() {
    let source = r#"
def main() -> i32 {
    val x: i32 = 42;
    val y: i32 = 10;
    val z = x + y;
    return z;
}
"#;

    let tokens = tokenize(source).unwrap();
    let mut program = parse(tokens).unwrap();
    let result = analyze(&mut program, source, "test.peach");

    assert!(result.is_ok());
}

#[test]
fn test_type_check_undefined_variable() {
    let source = r#"
def main() -> i32 {
    val x = y + 1;
    return x;
}
"#;

    let tokens = tokenize(source).unwrap();
    let mut program = parse(tokens).unwrap();
    let result = analyze(&mut program, source, "test.peach");

    assert!(result.is_err());
    assert!(result.unwrap_err().message.contains("Undefined variable"));
}

#[test]
fn test_type_check_type_mismatch() {
    let source = r#"
def main() -> i32 {
    val x: i32 = 42;
    val y: bool = true;
    val z = x + y;
    return z;
}
"#;

    let tokens = tokenize(source).unwrap();
    let mut program = parse(tokens).unwrap();
    let result = analyze(&mut program, source, "test.peach");

    assert!(result.is_err());
    assert!(result.unwrap_err().message.contains("Type mismatch"));
}

#[test]
fn analyze_records_inferred_types() {
    let source = "def main() -> i32 { val a = 1; val b = true; return a; }";
    let mut program = parse(tokenize(source).unwrap()).unwrap();
    assert!(analyze(&mut program, source, "t.peach").is_ok());
    match &program.functions[0].body.statements[1] {
        Statement::VarDecl(d) => assert_eq!(d.var_type, Some(Type::Bool)),
        other => panic!("unexpected {:?}", other),
    }
}

#[test]
fn analyze_error_is_a_type_error_without_location() {
    let source = "def main() -> i32 { return q; }";
    let mut program = parse(tokenize(source).unwrap()).unwrap();
    let e = analyze(&mut program, source, "t.peach").unwrap_err();
    assert_eq!(e.message, "Undefined variable 'q'");
    assert_eq!(e.span, None);
    assert_eq!(e.error_type, ErrorType::TypeError);
}

#[test]
fn exact_mismatch_message() {
    let errors = check("def main() -> i32 { val x: i32 = 42; val y: bool = true; val z = x + y; return z; }");
    assert_eq!(errors, vec!["Type mismatch in binary expression: 'i32' + 'bool'".to_string()]);
}

#[test]
fn suggestion_for_a_misspelled_variable() {
    let errors = check("def main() -> i32 { val count = 1; return coutn; }");
    assert_eq!(errors, vec!["Undefined variable 'coutn', did you mean 'count'?".to_string()]);
}

#[test]
fn all_errors_are_collected_in_order() {
    let errors = check("def main() -> i32 { val x = 1; x = 2; break; return true; }");
    assert_eq!(
        errors,
        vec![
            "Cannot assign to immutable variable 'x'".to_string(),
            "'break' statement outside of loop".to_string(),
        ]
    );
}

#[test]
fn redeclaration_is_an_error() {
    let errors = check("def main() -> i32 { val x = 1; var x = 2; return x; }");
    assert_eq!(errors, vec!["Variable 'x' is already declared in this scope".to_string()]);
}

#[test]
fn declared_type_must_match_initializer() {
    let errors = check("def main() -> i32 { val x: bool = 3; return 0; }");
    assert_eq!(errors, vec!["Type mismatch: variable 'x' declared as 'bool' but initialized with 'i32'".to_string()]);
}

#[test]
fn conditions_must_be_boolean() {
    let errors = check("def main() -> i32 { if 1 { } while 2 { } return 0; }");
    assert_eq!(
        errors,
        vec![
            "If condition must be boolean, found 'i32'".to_string(),
            "While condition must be boolean, found 'i32'".to_string(),
        ]
    );
}

#[test]
fn calls_are_checked_against_signatures() {
    let errors = check("def f(a: i32, b: bool) -> i32 { return a; }\ndef main() -> i32 { f(1); f(true, true); g(); return 0; }");
    assert_eq!(
        errors,
        vec![
            "Function 'f' expects 2 arguments, but 1 were provided".to_string(),
            "Type mismatch in argument 1 of function 'f': expected 'i32', found 'bool'".to_string(),
            "Undefined function 'g'".to_string(),
        ]
    );
}

#[test]
fn structs_methods_and_mutability() {
    let src = "struct P { x: i32 }\nimpl P {\n def new(a: i32) -> P { return P { x: a }; }\n def bump(&mut self) -> void { self.x = self.x + 1; }\n def peek(&self) -> void { self.x = 0; }\n}\ndef main() -> i32 { val p = P::new(1); p.bump(); return p.x; }";
    let errors = check(src);
    assert_eq!(errors.len(), 2);
    assert!(errors[0].starts_with("test.peach:5:"));
    assert!(errors[0].ends_with(": error: Cannot assign to field of '&self' in method with immutable self reference. Use '&mut self' instead."));
    assert!(errors[1].starts_with("test.peach:7:"));
    assert!(errors[1].ends_with(": error: Cannot call mutable method 'P.bump' on immutable variable 'p'. Consider using 'var' instead of 'val'."));
}

#[test]
fn duplicate_definitions() {
    let errors = check("struct A { x: i32 }\nstruct A { y: i32 }\nimpl B { }\ndef f() -> void { }\ndef f() -> void { }");
    assert_eq!(
        errors,
        vec![
            "Struct 'A' is already defined".to_string(),
            "Cannot implement methods for undefined struct 'B'".to_string(),
            "Function 'f' is already defined".to_string(),
        ]
    );
}

#[test]
fn unknown_macro_is_located() {
    let errors = check("def main() -> i32 { len!(1); return 0; }");
    assert_eq!(errors.len(), 1);
    assert!(errors[0].starts_with("test.peach:1:"));
    assert!(errors[0].ends_with(": error: Unknown builtin macro 'len'"));
}

#[test]
fn loop_variable_is_scoped_to_the_loop() {
    let errors = check("def main() -> i32 { for i in 0..3 { val y = i; } return i; }");
    assert_eq!(errors, vec!["Undefined variable 'i'".to_string()]);
}

#[test]
fn levenshtein_values() {
    assert_eq!(levenshtein_distance("kitten", "sitting"), 3);
    assert_eq!(levenshtein_distance("", "abc"), 3);
    assert_eq!(levenshtein_distance("abc", "abc"), 0);
    assert_eq!(levenshtein_distance("flaw", "lawn"), 2);
    assert_eq!(levenshtein_distance("lawn", "flaw"), 2);
}
