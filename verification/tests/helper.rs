use peach::helper::msg::MessageFormatter;
use peach::helper::types::{CompileError, ErrorType, Span};
use peach::{get_output_path_build, get_output_path_current, output_path, CompileOptions};

const MISMATCH_SOURCE: &str = "\ndef main() -> i32 {\n    val x: i32 = 42;\n    val y: bool = true;\n    val z = x + y;\n    return z;\n}\n";

fn formatter(source: &str) -> MessageFormatter {
    MessageFormatter::new(source.to_string(), "test.peach".to_string())
}

#[test]
fn highlight_covers_the_expression() {
    let f = formatter("");
    assert_eq!(f.get_error_highlight("    val z = x + y;", 13), "^~~~~");
    assert_eq!(f.get_error_highlight("return q;", 8), "^");
    assert_eq!(f.get_error_highlight("abc", 0), "^");
    assert_eq!(f.get_error_highlight("abc", 4), "^");
}

#[test]
fn binary_mismatch_is_located_at_the_declaration() {
    let f = formatter(MISMATCH_SOURCE);
    let s = f.find_error_location("Type mismatch in binary expression: 'i32' + 'bool'").unwrap();
    assert_eq!((s.line, s.column), (5, 13));
}

#[test]
fn undefined_variable_is_located_at_its_use() {
    let f = formatter("\ndef main() -> i32 {\n    val x = y + 1;\n    return x;\n}\n");
    let s = f.find_error_location("Undefined variable 'y'").unwrap();
    assert_eq!((s.line, s.column), (3, 13));
}

#[test]
fn immutable_assignment_is_located() {
    let f = formatter("def main() -> i32 {\n    val x = 1;\n    x = 2;\n    return x;\n}");
    let s = f.find_error_location("Cannot assign to immutable variable 'x'").unwrap();
    assert_eq!((s.line, s.column), (3, 5));
}

#[test]
fn second_declaration_is_located() {
    let f = formatter("def main() -> i32 {\n    val a = 1;\n    // val a = 9;\n    var a = 2;\n    return a;\n}");
    let s = f.find_error_location("Variable 'a' is already declared in this scope").unwrap();
    // The first 'a' of the line is the one in "var".
    assert_eq!((s.line, s.column), (4, 6));
}

#[test]
fn other_messages_are_not_located() {
    let f = formatter(MISMATCH_SOURCE);
    assert_eq!(f.find_error_location("Undefined function 'g'"), None);
}

#[test]
fn locate_prefers_the_error_own_location() {
    let f = formatter(MISMATCH_SOURCE);
    let e = CompileError::parse_error("Expected ';'".to_string(), 2, 7);
    assert_eq!(f.locate(&e), Some(Span { line: 2, column: 7 }));
    let e = CompileError::new("Type mismatch in binary expression: 'i32' + 'bool'".to_string(), None, ErrorType::TypeError);
    assert_eq!(f.locate(&e), Some(Span { line: 5, column: 13 }));
    assert_eq!(f.get_error_label(&e.error_type), "error");
}

#[test]
fn source_context_shows_the_neighbours() {
    let f = formatter(MISMATCH_SOURCE);
    let c = f.show_source_context(Span { line: 5, column: 13 }).unwrap();
    assert_eq!(c.width, 3);
    assert_eq!(c.previous, Some((4, "    val y: bool = true;".to_string())));
    assert_eq!(c.line_number, 5);
    assert_eq!(c.line, "    val z = x + y;");
    assert_eq!(c.indent, 12);
    assert_eq!(c.marker, "^~~~~");
    assert_eq!(c.next, Some((6, "    return z;".to_string())));
    assert!(f.show_source_context(Span { line: 0, column: 1 }).is_none());
    assert!(f.show_source_context(Span { line: 8, column: 1 }).is_none());
}

#[test]
fn source_context_at_the_edges() {
    let f = formatter("a\r\nb");
    let c = f.show_source_context(Span { line: 1, column: 1 }).unwrap();
    assert_eq!(c.previous, None);
    assert_eq!(c.line, "a");
    assert_eq!(c.next, Some((2, "b".to_string())));
    let c = f.show_source_context(Span { line: 2, column: 1 }).unwrap();
    assert_eq!(c.next, None);
}

#[test]
fn output_paths() {
    assert_eq!(get_output_path_build("examples/hello.peach"), "build/hello.c");
    assert_eq!(get_output_path_current("examples/hello.peach"), "hello.c");
    let mut o = CompileOptions::default();
    assert_eq!(output_path("a/b/prog.peach", &o), Some("build/prog.c".to_string()));
    o.use_build_dir = false;
    assert_eq!(output_path("a/b/prog.peach", &o), Some("prog.c".to_string()));
    o.output_path = Some("out/x.c".to_string());
    assert_eq!(output_path("a/b/prog.peach", &o), Some("out/x.c".to_string()));
    o.output_path = None;
    assert_eq!(output_path("", &o), None);
}

#[test]
fn default_options() {
    let o = CompileOptions::default();
    assert!(o.verbose);
    assert!(!o.check_only);
    assert_eq!(o.output_path, None);
    assert!(!o.warnings);
    assert!(o.use_build_dir);
}

#[test]
fn located_errors_point_into_their_lines() {
    let sources = [
        MISMATCH_SOURCE,
        "def main() -> i32 {\n    val x = y + 1;\n    return x;\n}",
        "def main() -> i32 {\n    val x = 1;\n    x = 2;\n}\n",
        "val a = 1;\nvar a = 2;",
    ];
    let messages = [
        "Type mismatch in binary expression: 'i32' + 'bool'",
        "Undefined variable 'y'",
        "Cannot assign to immutable variable 'x'",
        "Variable 'a' is already declared in this scope",
    ];
    let mut found = 0;
    for src in sources.iter() {
        let f = formatter(src);
        for m in messages.iter() {
            if let Some(span) = f.find_error_location(m) {
                found += 1;
                let c = f.show_source_context(span).unwrap();
                assert!(span.column >= 1 && span.column <= c.line.chars().count() + 1);
            }
        }
    }
    assert!(found >= 4);
}

#[test]
fn columns_count_bytes() {
    let f = formatter("def main() -> i32 {\n    val \u{fc} = 1; val x = y + 1;\n}");
    let s = f.find_error_location("Undefined variable 'y'").unwrap();
    assert_eq!((s.line, s.column), (2, 25));
    let g = formatter("val \u{e9} = \u{e9} + w;");
    let s = g.find_error_location("Type mismatch in binary expression: 'i32' + 'bool'").unwrap();
    assert_eq!((s.line, s.column), (1, 11));
}

#[test]
fn highlight_compares_the_column_with_bytes() {
    let f = formatter("");
    assert_eq!(f.get_error_highlight("\u{e9}\u{e9}", 3), "^~");
    assert_eq!(f.get_error_highlight("\u{e9}\u{e9}", 5), "^");
    let g = formatter("\u{e9}\u{e9}\u{e9}");
    assert!(g.marker_fits_at(Span { line: 1, column: 4 }));
    assert!(!g.marker_fits_at(Span { line: 1, column: 5 }));
    assert!(g.marker_fits_at(Span { line: 1, column: 7 }));
}
