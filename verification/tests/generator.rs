use peach::generator::c_codegen::CCodeGenerator;
use peach::generator::generate;
use peach::lexer::tokenize;
use peach::parser::ast::{
    Block, Expression, Function, Impl, MacroCallExpression, Method, Program, ReturnStatement, SelfParam, Statement, Struct, Type,
};
use peach::parser::parse;
use peach::semantic::analyze;

fn compile_to_c(source: &str) -> Result<String, String> {
    let mut program = parse(tokenize(source).unwrap()).unwrap();
    analyze(&mut program, source, "test.peach").map_err(|e| e.message)?;
    generate(&program)
}

#[test]
fn test_generate_simple_main() {
    let source = r#"
def main() -> i32 {
    return 0;
}
"#;

    let tokens = tokenize(source).unwrap();
    let program = parse(tokens).unwrap();
    let c_code = generate(&program).unwrap();

    assert!(c_code.contains("#include <stdint.h>"));
    assert!(c_code.contains("int32_t main(void)"));
    assert!(c_code.contains("return 0;"));
}

#[test]
fn whole_output_of_a_small_program() {
    let c = compile_to_c("def main() -> i32 {\n    var x: i32 = 1;\n    x = x + 2;\n    return x;\n}\n").unwrap();
    let expected = "#include <stdio.h>\n#include <stdlib.h>\n#include <stdint.h>\n#include <stdbool.h>\n#include <string.h>\n\nint32_t main(void)\n{\n    int32_t x = 1;\n    x = (x + 2);\n    return x;\n}\n";
    assert_eq!(c, expected);
}

#[test]
fn immutable_variables_are_const() {
    let c = compile_to_c("def main() -> i32 { val y = 5; return y; }").unwrap();
    assert!(c.contains("    const int32_t y = 5;\n"));
}

#[test]
fn structs_and_methods() {
    let src = "struct P { x: i32, y: i32 }\nimpl P {\n def new(a: i32) -> P { return P { x: a, y: a }; }\n def sum(&self) -> i32 { return self.x + self.y; }\n}\ndef main() -> i32 { val p = P::new(1); return p.sum(); }";
    let c = compile_to_c(src).unwrap();
    assert!(c.contains("typedef struct {\n    int32_t x;\n    int32_t y;\n} P;\n\n"));
    assert!(c.contains("P P_new(int32_t a);\nint32_t P_sum(const P* self);\n\n"));
    assert!(c.contains("    const P p = P_new(1);\n"));
    assert!(c.contains("    return P_sum(&p);\n"));
    assert!(c.contains("    return (P){.x = a, .y = a};\n"));
    assert!(c.contains("    return (self->x + self->y);\n"));
}

#[test]
fn println_of_a_string_and_an_integer() {
    let c = compile_to_c("def main() -> i32 { val n = 3; println!(n); print!(n); return 0; }").unwrap();
    assert!(c.contains("    printf(\"%d\\n\", n);\n"));
    assert!(c.contains("    printf(\"%d\", n);\n"));
}

#[test]
fn for_loops_over_ranges_and_arrays() {
    let c = compile_to_c("def main() -> i32 { for i in 0..3 { } val a: [2]i32 = [1, 2]; for x in a { } return 0; }").unwrap();
    assert!(c.contains("    for (int32_t i = 0; i < 3; i++)\n    {\n    }\n"));
    assert!(c.contains("    const int32_t a[2] = {1, 2};\n"));
    assert!(c.contains("    for (size_t __i_x = 0; __i_x < 2; __i_x++)\n    {\n        int32_t x = a[__i_x];\n    }\n"));
}

#[test]
fn loops_and_conditionals() {
    let c = compile_to_c("def main() -> i32 { var i = 0; while i < 3 { i = i + 1; } loop { break; } if i == 3 { return 1; } else { return 2; } }").unwrap();
    assert!(c.contains("    while ((i < 3))\n    {\n        i = (i + 1);\n    }\n"));
    assert!(c.contains("    while (1)\n    {\n        break;\n    }\n"));
    assert!(c.contains("    if ((i == 3))\n    {\n        return 1;\n    }\n    else\n    {\n        return 2;\n    }\n"));
}

#[test]
fn missing_type_is_an_internal_error() {
    let program = parse(tokenize("def main() -> i32 { val a = 1; return a; }").unwrap()).unwrap();
    let e = generate(&program).unwrap_err();
    assert_eq!(e, "Internal error: Variable 'a' has no type after semantic analysis");
}

#[test]
fn generator_object_matches_generate() {
    let mut program = parse(tokenize("def main() -> i32 { return 7; }").unwrap()).unwrap();
    analyze(&mut program, "", "t.peach").unwrap();
    let a = CCodeGenerator::new().generate(&program).unwrap();
    let b = generate(&program).unwrap();
    assert_eq!(a, b);
}

const PREAMBLE: &str = "#include <stdio.h>\n#include <stdlib.h>\n#include <stdint.h>\n#include <stdbool.h>\n#include <string.h>\n\n";

#[test]
fn every_output_begins_with_the_headers() {
    let sources = [
        "def main() -> i32 { return 0; }",
        "struct P { x: i32 }\nimpl P { def get(&self) -> i32 { return self.x; } }\ndef main() -> i32 { val p = P { x: 1 }; return p.get(); }",
        "def sum(xs: []i32) -> i32 { return 0; }\ndef main() -> i32 { val a: [2]i32 = [1, 2]; return sum(&a); }",
    ];
    for src in sources.iter() {
        let c = compile_to_c(src).unwrap();
        assert!(c.starts_with(PREAMBLE), "{}", c);
    }
}

fn macro_call(name: &str, arguments: Vec<Expression>) -> Statement {
    Statement::Expression(Expression::MacroCall(MacroCallExpression { macro_name: name.to_string(), arguments, span: None }))
}

fn text(s: &str) -> Expression {
    Expression::StringLiteral(s.to_string())
}

fn main_with(statements: Vec<Statement>) -> Program {
    Program {
        structs: vec![],
        impls: vec![],
        functions: vec![Function {
            name: "main".to_string(),
            parameters: vec![],
            return_type: Type::I32,
            body: Block { statements },
        }],
    }
}

#[test]
fn print_macros_with_literals() {
    let program = main_with(vec![
        macro_call("println", vec![text("hi")]),
        macro_call("print", vec![text("x")]),
        macro_call("println", vec![]),
        macro_call("print", vec![]),
        macro_call("println", vec![text("%d"), Expression::IntLiteral(5)]),
        macro_call("print", vec![text("%d %d"), Expression::IntLiteral(1), Expression::IntLiteral(2)]),
        macro_call("format", vec![text("a")]),
        macro_call("println", vec![Expression::BoolLiteral(true)]),
    ]);
    let c = generate(&program).unwrap();
    assert!(c.contains("    printf(\"hi\\n\");\n"));
    assert!(c.contains("    printf(\"x\");\n"));
    assert!(c.contains("    printf(\"\\n\");\n"));
    assert!(c.contains("    printf(\"\");\n"));
    assert!(c.contains("    printf(\"%d\\n\", 5);\n"));
    assert!(c.contains("    printf(\"%d %d\", 1, 2);\n"));
    assert!(c.contains("    \"\";\n"));
    assert!(c.contains("    printf(\"%d\\n\", true);\n"));
}

#[test]
fn panic_macro_forms() {
    let program = main_with(vec![
        macro_call("panic", vec![text("bad")]),
        macro_call("panic", vec![]),
        macro_call("panic", vec![Expression::Variable("m".to_string())]),
        macro_call("panic", vec![text("%d"), Expression::IntLiteral(3)]),
    ]);
    let c = generate(&program).unwrap();
    assert!(c.contains("    (fprintf(stderr, \"bad\\n\"), exit(1));\n"));
    assert!(c.contains("    (fprintf(stderr, \"panic\\n\"), exit(1));\n"));
    assert!(c.contains("    (fprintf(stderr, \"%s\\n\", m), exit(1));\n"));
    assert!(c.contains("    (fprintf(stderr, \"%d\", 3), exit(1));\n"));
}

#[test]
fn len_copy_and_unknown_macros() {
    let program = parse(
        tokenize("def f(a: [3]i32, b: [3]i32) -> i32 { len!(a); copy!(a, b); copy!(a); foo!(1); return 0; }").unwrap(),
    )
    .unwrap();
    let c = generate(&program).unwrap();
    assert!(c.contains("    3;\n"));
    assert!(c.contains("    memcpy(a, b, sizeof(b));\n"));
    assert!(c.contains("    /* copy! expects 2 arguments */;\n"));
    assert!(c.contains("    /* Unknown macro: foo */;\n"));
}

#[test]
fn checked_programs_fail_only_on_unsupported_features() {
    let mut program = main_with(vec![Statement::Return(ReturnStatement { value: Some(Expression::IntLiteral(0)) })]);
    program.structs.push(Struct { name: "P".to_string(), fields: vec![] });
    program.impls.push(Impl {
        struct_name: "P".to_string(),
        methods: vec![Method {
            name: "take".to_string(),
            self_param: Some(SelfParam::Owned),
            parameters: vec![],
            return_type: Type::I32,
            body: Block { statements: vec![Statement::Return(ReturnStatement { value: Some(Expression::IntLiteral(1)) })] },
        }],
    });
    analyze(&mut program, "", "test.peach").unwrap();
    assert_eq!(generate(&program).unwrap_err(), "Owned self parameter not yet implemented");
    let c = compile_to_c("def main() -> i32 { var s = 0; for i in 0..4 { s = s + i; } return s; }").unwrap();
    assert!(c.starts_with(PREAMBLE));
}
