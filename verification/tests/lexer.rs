use peach::lexer::scanner::Scanner;
use peach::lexer::token::TokenType;
use peach::lexer::tokenize;

#[test]
fn test_simple_main() {
    let source = r#"
def main() -> i32 {
    return 0;
}
"#;

    let tokens = tokenize(source).unwrap();

    assert_eq!(tokens[0].token_type, TokenType::Def);
    assert_eq!(tokens[1].token_type, TokenType::Identifier("main".to_string()));
    assert_eq!(tokens[2].token_type, TokenType::LeftParen);
    assert_eq!(tokens[3].token_type, TokenType::RightParen);
    assert_eq!(tokens[4].token_type, TokenType::Arrow);
    assert_eq!(tokens[5].token_type, TokenType::I32);
    assert_eq!(tokens[6].token_type, TokenType::LeftBrace);
    assert_eq!(tokens[7].token_type, TokenType::Return);
    assert_eq!(tokens[8].token_type, TokenType::IntLiteral("0".to_string()));
    assert_eq!(tokens[9].token_type, TokenType::Semicolon);
    assert_eq!(tokens[10].token_type, TokenType::RightBrace);
    assert_eq!(tokens[11].token_type, TokenType::Eof);
}

#[test]
fn token_positions_follow_the_token() {
    // The column is the one just after the token's last character.
    let tokens = tokenize("val x\n  = 1;").unwrap();
    assert_eq!(tokens[0].token_type, TokenType::Val);
    assert_eq!((tokens[0].line, tokens[0].column), (1, 4));
    assert_eq!((tokens[1].line, tokens[1].column), (1, 6));
    assert_eq!((tokens[2].line, tokens[2].column), (2, 4));
}

#[test]
fn empty_source_gives_only_end_of_input() {
    let tokens = tokenize("").unwrap();
    assert_eq!(tokens.len(), 1);
    assert_eq!(tokens[0].token_type, TokenType::Eof);
}

#[test]
fn exactly_one_end_of_input_token_at_the_end() {
    let tokens = tokenize("def f() -> void { x = 1 + 2.5; } // done\n/* block */").unwrap();
    let eofs = tokens.iter().filter(|t| t.token_type == TokenType::Eof).count();
    assert_eq!(eofs, 1);
    assert_eq!(tokens.last().unwrap().token_type, TokenType::Eof);
}

#[test]
fn comments_are_skipped() {
    let tokens = tokenize("// line\n/* block\n comment */ loop").unwrap();
    assert_eq!(tokens[0].token_type, TokenType::Loop);
    assert_eq!(tokens[0].line, 3);
}

#[test]
fn two_character_operators() {
    let tokens = tokenize("== != <= >= && || -> .. ::").unwrap();
    let kinds: Vec<TokenType> = tokens.into_iter().map(|t| t.token_type).collect();
    assert_eq!(
        kinds,
        vec![
            TokenType::EqualEqual,
            TokenType::BangEqual,
            TokenType::LessEqual,
            TokenType::GreaterEqual,
            TokenType::AmpAmp,
            TokenType::PipePipe,
            TokenType::Arrow,
            TokenType::DotDot,
            TokenType::ColonColon,
            TokenType::Eof,
        ]
    );
}

#[test]
fn float_literal_keeps_its_text() {
    let tokens = tokenize("3.25 7").unwrap();
    assert_eq!(tokens[0].token_type, TokenType::FloatLiteral("3.25".to_string()));
    assert_eq!(tokens[1].token_type, TokenType::IntLiteral("7".to_string()));
}

#[test]
fn unexpected_character_is_an_error() {
    let e = tokenize("val x = 1 @ 2;").unwrap_err();
    assert!(e.starts_with("Unexpected character '@' at line 1 column "));
}

#[test]
fn a_lone_pipe_is_an_error() {
    assert_eq!(tokenize("a | b").unwrap_err(), "Unexpected character '|' at line 1");
}

#[test]
fn unterminated_block_comment_is_an_error() {
    let e = tokenize("/* never closed\n").unwrap_err();
    assert!(e.starts_with("Unterminated block comment at line "));
}

#[test]
fn scanner_gives_the_same_tokens() {
    let a = Scanner::new("def f() -> i32 { return 1; }").scan_tokens().unwrap();
    let b = tokenize("def f() -> i32 { return 1; }").unwrap();
    assert_eq!(a.len(), b.len());
    for (x, y) in a.iter().zip(b.iter()) {
        assert_eq!(x.token_type, y.token_type);
    }
}

#[test]
fn tokens_follow_the_source_order() {
    let source = "def f() -> i32 {\n  /* a\n comment */ val x = 1;\n\n  return x; // done\n}\n";
    let tokens = tokenize(source).unwrap();
    for pair in tokens.windows(2) {
        assert!(pair[0].line <= pair[1].line);
    }
    for t in &tokens[..tokens.len() - 1] {
        assert!(!t.lexeme.is_empty());
    }
    let lines: Vec<usize> = tokens.iter().map(|t| t.line).collect();
    assert_eq!(lines, vec![1, 1, 1, 1, 1, 1, 1, 3, 3, 3, 3, 3, 5, 5, 5, 6, 7]);
}

#[test]
fn ascii_and_unicode_words() {
    let tokens = tokenize("main _x1 \u{e9}t\u{e9} i32").unwrap();
    assert_eq!(tokens[0].token_type, TokenType::Identifier("main".to_string()));
    assert_eq!(tokens[1].token_type, TokenType::Identifier("_x1".to_string()));
    assert_eq!(tokens[2].token_type, TokenType::Identifier("\u{e9}t\u{e9}".to_string()));
    assert_eq!(tokens[3].token_type, TokenType::I32);
}
