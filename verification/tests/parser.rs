use peach::lexer::tokenize;
use peach::parser::ast::{
    BinaryOperator, Expression, ForIterable, SelfParam, Statement, Type,
};
use peach::parser::parse;
use peach::parser::parser::Parser;

fn parse_source(source: &str) -> Result<peach::parser::ast::Program, String> {
    parse(tokenize(source).unwrap())
}

#[test]
fn test_parse_simple_main() {
    let source = r#"
def main() -> i32 {
    return 0;
}
"#;

    let tokens = tokenize(source).unwrap();
    let program = parse(tokens).unwrap();

    assert_eq!(program.functions.len(), 1);
    assert_eq!(program.functions[0].name, "main");
    assert_eq!(program.functions[0].return_type, Type::I32);
    assert_eq!(program.functions[0].body.statements.len(), 1);
}

#[test]
fn precedence_of_binary_operators() {
    let p = parse_source("def f() -> i32 { return 1 + 2 * 3; }").unwrap();
    match &p.functions[0].body.statements[0] {
        Statement::Return(r) => match r.value.as_ref().unwrap() {
            Expression::Binary(b) => {
                assert_eq!(b.operator, BinaryOperator::Add);
                assert_eq!(*b.left, Expression::IntLiteral(1));
                match &*b.right {
                    Expression::Binary(m) => assert_eq!(m.operator, BinaryOperator::Multiply),
                    other => panic!("unexpected {:?}", other),
                }
            },
            other => panic!("unexpected {:?}", other),
        },
        other => panic!("unexpected {:?}", other),
    }
}

#[test]
fn structs_impls_and_methods() {
    let src = "struct P { x: i32, y: i32 }\nimpl P {\n def new(a: i32) -> P { return P { x: a, y: a }; }\n def sum(&self) -> i32 { return self.x + self.y; }\n def bump(&mut self, d: i32) -> void { self.x = self.x + d; }\n}\ndef main() -> i32 { val p = P::new(1); return p.sum(); }";
    let p = parse_source(src).unwrap();
    assert_eq!(p.structs.len(), 1);
    assert_eq!(p.structs[0].fields.len(), 2);
    assert_eq!(p.impls[0].methods.len(), 3);
    assert_eq!(p.impls[0].methods[0].self_param, None);
    assert_eq!(p.impls[0].methods[1].self_param, Some(SelfParam::Ref));
    assert_eq!(p.impls[0].methods[2].self_param, Some(SelfParam::MutRef));
    assert_eq!(p.impls[0].methods[2].parameters.len(), 1);
    assert_eq!(p.functions.len(), 1);
}

#[test]
fn array_types_and_for_loops() {
    let src = "def main() -> i32 { val a: [3]i32 = [1, 2, 3]; for x in a { } for i in 0..3 { } return 0; }";
    let p = parse_source(src).unwrap();
    let body = &p.functions[0].body.statements;
    match &body[0] {
        Statement::VarDecl(d) => assert_eq!(
            d.var_type,
            Some(Type::Array { element_type: Box::new(Type::I32), size: Some(3) })
        ),
        other => panic!("unexpected {:?}", other),
    }
    match &body[1] {
        Statement::For(f) => assert!(matches!(f.iterable, ForIterable::Expression(_))),
        other => panic!("unexpected {:?}", other),
    }
    match &body[2] {
        Statement::For(f) => assert!(matches!(f.iterable, ForIterable::Range(_, _))),
        other => panic!("unexpected {:?}", other),
    }
}

#[test]
fn missing_semicolon_is_reported() {
    let e = parse_source("def main() -> i32 { return 0 }").unwrap_err();
    assert_eq!(e, "Expected ';' after return");
}

#[test]
fn top_level_junk_is_rejected() {
    let e = parse_source("val x = 1;").unwrap_err();
    assert_eq!(e, "Expected struct, impl, or function definition");
}

#[test]
fn owned_self_is_not_supported() {
    let e = parse_source("struct P { x: i32 }\nimpl P { def f(self) -> i32 { return 0; } }").unwrap_err();
    assert_eq!(e, "Owned 'self' parameter is not yet implemented. Use '&self' or '&mut self'.");
}

#[test]
fn parse_program_reports_the_location() {
    let tokens = tokenize("def main() -> i32 {\n  return 0\n}").unwrap();
    let e = Parser::new(tokens).parse_program().unwrap_err();
    assert_eq!(e.message, "Expected ';' after return");
    let span = e.span.unwrap();
    assert_eq!((span.line, span.column), (3, 2));
}

#[test]
fn empty_program_is_fine() {
    let p = parse_source("").unwrap();
    assert!(p.structs.is_empty() && p.impls.is_empty() && p.functions.is_empty());
}

#[test]
fn an_expression_statement_is_the_expression_a_return_gives() {
    let p = parse_source("def f() -> void { a + b * c == d || e; return a + b * c == d || e; }").unwrap();
    let stmts = &p.functions[0].body.statements;
    match (&stmts[0], &stmts[1]) {
        (Statement::Expression(e1), Statement::Return(r)) => assert_eq!(Some(e1), r.value.as_ref()),
        other => panic!("{:?}", other),
    }
}

#[test]
fn written_types_parse_back() {
    let types = vec![
        Type::I32,
        Type::U64,
        Type::Bool,
        Type::Struct("Point".to_string()),
        Type::Array { element_type: Box::new(Type::I8), size: Some(4) },
        Type::Array { element_type: Box::new(Type::Array { element_type: Box::new(Type::F64), size: Some(12) }), size: None },
    ];
    for t in types {
        let src = format!("def f() -> void {{ val a: {} = x; }}", t.to_string());
        let p = parse_source(&src).unwrap();
        match &p.functions[0].body.statements[0] {
            Statement::VarDecl(d) => assert_eq!(d.var_type, Some(t)),
            other => panic!("{:?}", other),
        }
    }
}

#[test]
fn syntax_trees_clone() {
    let p = parse_source(
        "struct P { x: i32 }\nimpl P { def get(&self) -> i32 { return self.x; } }\ndef main() -> i32 { val a: [2]i32 = [1, 2]; for v in a { if v > 1 { break; } else { continue; } } var p = P { x: 1 }; p.x = -a[0]; while true { loop { break; } } return p.get() + f(1, 2); }",
    )
    .unwrap();
    let q = p.clone();
    assert_eq!(p, q);
    let t = Type::Array { element_type: Box::new(Type::Struct("P".to_string())), size: Some(3) };
    assert_eq!(t.clone(), t);
}
