use langscript::lexer::{LexErrorKind, Lexer};
use langscript::token::{get_keywords_hashmap, keyword, LiteralValue, Token, TokenType};

fn kinds(source: &str) -> Vec<TokenType> {
    let mut lexer = Lexer::new(source);
    let _ = lexer.scan_tokens();
    lexer.tokens().iter().map(|t| t.token_type).collect()
}

#[test]
fn handle_one_char_tokens() {
    let source: &str = "(( ))";
    let mut lexer: Lexer = Lexer::new(source);

    let _ = lexer.scan_tokens().unwrap();

    assert_eq!(lexer.tokens().len(), 5);
    assert_eq!(lexer.tokens()[0].token_type, TokenType::LeftParen);
    assert_eq!(lexer.tokens()[1].token_type, TokenType::LeftParen);
    assert_eq!(lexer.tokens()[2].token_type, TokenType::RightParen);
    assert_eq!(lexer.tokens()[3].token_type, TokenType::RightParen);
    assert_eq!(lexer.tokens()[4].token_type, TokenType::EOF);
}

#[test]
fn handle_two_char_tokens() {
    let source: &str = "! != = == > >= < <= //";
    let mut lexer: Lexer = Lexer::new(source);

    let _ = lexer.scan_tokens().unwrap();

    assert_eq!(lexer.tokens().len(), 9);
    assert_eq!(lexer.tokens()[0].token_type, TokenType::Bang);
    assert_eq!(lexer.tokens()[1].token_type, TokenType::BangEqual);
    assert_eq!(lexer.tokens()[2].token_type, TokenType::Equal);
    assert_eq!(lexer.tokens()[3].token_type, TokenType::EqualEqual);
    assert_eq!(lexer.tokens()[4].token_type, TokenType::Greater);
    assert_eq!(lexer.tokens()[5].token_type, TokenType::GreaterEqual);
    assert_eq!(lexer.tokens()[6].token_type, TokenType::Less);
    assert_eq!(lexer.tokens()[7].token_type, TokenType::LessEqual);
    assert_eq!(lexer.tokens()[8].token_type, TokenType::EOF);
}

#[test]
fn handle_multi_line_comment() {
    let source: &str = "/* this\n is\n a\n multi\n line\n comment\n */";
    let mut lexer: Lexer = Lexer::new(source);

    let _ = lexer.scan_tokens();

    assert_eq!(lexer.tokens().len(), 1);
    assert_eq!(lexer.line(), 7);
    assert_eq!(lexer.tokens()[0].token_type, TokenType::EOF)
}

#[test]
fn handle_string_lit() {
    let source: &str = r#""this is a string""#;
    let mut lexer: Lexer = Lexer::new(source);

    let _ = lexer.scan_tokens().unwrap();

    assert_eq!(lexer.tokens().len(), 2);
    assert_eq!(lexer.tokens()[0].token_type, TokenType::String);

    match lexer.tokens()[0].literal.as_ref().unwrap() {
        LiteralValue::StringValue(val) => assert_eq!(val, "this is a string"),
        _ => panic!("Incorrect literal type"),
    };
}

#[test]
fn handle_string_lit_unterminated() {
    let source: &str = r#""this is a unterminated string"#;
    let mut lexer: Lexer = Lexer::new(source);
    let result: Result<Vec<Token>, String> = lexer.scan_tokens();

    match result {
        Err(msg) => assert!(msg.contains("Unterminated string")),
        _ => panic!("Should have failed with an unterminated string error"),
    }
}

#[test]
fn handle_string_lit_multiline() {
    let source: &str = "\"this is a\n multi line string\"";
    let mut lexer: Lexer = Lexer::new(source);

    let _ = lexer.scan_tokens().unwrap();

    assert_eq!(lexer.tokens().len(), 2);
    assert_eq!(lexer.tokens()[0].token_type, TokenType::String);

    match lexer.tokens()[0].literal.as_ref().unwrap() {
        LiteralValue::StringValue(val) => assert_eq!(val, "this is a\n multi line string"),
        _ => panic!("Incorrect literal type"),
    }
}

#[test]
fn handle_literals() {
    let source: &str = "123.123\n123.0\n5";
    let mut lexer: Lexer = Lexer::new(source);

    let _ = lexer.scan_tokens().unwrap();

    assert_eq!(lexer.tokens().len(), 4);

    for i in 0..3 {
        assert_eq!(lexer.tokens()[i].token_type, TokenType::Number);
    }

    // numbers are held in millionths
    match lexer.tokens()[0].literal.as_ref().unwrap() {
        LiteralValue::Number(val) => assert_eq!(*val, 123_123_000),
        _ => panic!("Incorect number"),
    }
    match lexer.tokens()[1].literal.as_ref().unwrap() {
        LiteralValue::Number(val) => assert_eq!(*val, 123_000_000),
        _ => panic!("Incorect number"),
    }
    match lexer.tokens()[2].literal.as_ref().unwrap() {
        LiteralValue::Number(val) => assert_eq!(*val, 5_000_000),
        _ => panic!("Incorect number"),
    }
}

#[test]
fn handle_identifier() {
    let source: &str = "t = 1;";
    let mut lexer: Lexer = Lexer::new(source);

    let _ = lexer.scan_tokens().unwrap();
    assert_eq!(lexer.tokens().len(), 5);

    assert_eq!(lexer.tokens()[0].token_type, TokenType::Identifier);
    assert_eq!(lexer.tokens()[1].token_type, TokenType::Equal);
    assert_eq!(lexer.tokens()[2].token_type, TokenType::Number);
    assert_eq!(lexer.tokens()[3].token_type, TokenType::Semicolon);
    assert_eq!(lexer.tokens()[4].token_type, TokenType::EOF);
}

#[test]
fn get_keywords() {
    let source: &str = "let x = 1; \n while ! true { print 10 };";
    let mut lexer: Lexer = Lexer::new(source);

    let _ = lexer.scan_tokens().unwrap();

    assert_eq!(lexer.tokens().len(), 14);

    assert_eq!(lexer.tokens()[0].token_type, TokenType::Let);
    assert_eq!(lexer.tokens()[1].token_type, TokenType::Identifier);
    assert_eq!(lexer.tokens()[2].token_type, TokenType::Equal);
    assert_eq!(lexer.tokens()[3].token_type, TokenType::Number);
    assert_eq!(lexer.tokens()[4].token_type, TokenType::Semicolon);
    assert_eq!(lexer.tokens()[5].token_type, TokenType::While);
    assert_eq!(lexer.tokens()[6].token_type, TokenType::Bang);
    assert_eq!(lexer.tokens()[7].token_type, TokenType::True);
    assert_eq!(lexer.tokens()[8].token_type, TokenType::LeftBrace);
    assert_eq!(lexer.tokens()[9].token_type, TokenType::Print);
    assert_eq!(lexer.tokens()[10].token_type, TokenType::Number);
    assert_eq!(lexer.tokens()[11].token_type, TokenType::RightBrace);
    assert_eq!(lexer.tokens()[12].token_type, TokenType::Semicolon);
    assert_eq!(lexer.tokens()[13].token_type, TokenType::EOF);
}

#[test]
fn unterminated_comment_is_reported_with_its_line() {
    let mut lexer = Lexer::new("1;\n/* open /* nested */ still open");
    let result = lexer.scan_tokens();
    match result {
        Err(msg) => assert!(msg.contains("Unterminated multi line comment in line 2")),
        _ => panic!("should fail"),
    }
    assert_eq!(lexer.errors()[0].kind, LexErrorKind::UnterminatedComment);
}

#[test]
fn nested_block_comments_are_skipped() {
    assert_eq!(
        kinds("1 /* a /* b */ c */ 2"),
        vec![TokenType::Number, TokenType::Number, TokenType::EOF]
    );
}

#[test]
fn two_char_operators_merge() {
    assert_eq!(
        kinds("=> .. . ="),
        vec![TokenType::Arrow, TokenType::DotDot, TokenType::Dot, TokenType::Equal, TokenType::EOF]
    );
}

#[test]
fn a_trailing_dot_is_not_a_fraction() {
    let mut lexer = Lexer::new("1.");
    let ts = lexer.scan_tokens().unwrap();
    assert_eq!(ts.len(), 3);
    assert_eq!(ts[0].token_type, TokenType::Number);
    assert_eq!(ts[0].literal, Some(LiteralValue::Number(1_000_000)));
    assert_eq!(ts[1].token_type, TokenType::Dot);
}

#[test]
fn escapes_in_strings() {
    let mut lexer = Lexer::new(r#""a\nb\t\"q\"\\\x""#);
    let ts = lexer.scan_tokens().unwrap();
    assert_eq!(ts[0].literal, Some(LiteralValue::StringValue("a\nb\t\"q\"\\x".to_string())));
}

#[test]
fn unknown_characters_become_error_tokens_and_all_errors_are_kept() {
    let mut lexer = Lexer::new("1 @ 2 # 3");
    let result = lexer.scan_tokens();
    let msg = result.unwrap_err();
    assert_eq!(msg.lines().count(), 2);
    assert!(msg.contains("Unrecognized char: @"));
    assert!(msg.contains("Unrecognized char: #"));
    let ks: Vec<TokenType> = lexer.tokens().iter().map(|t| t.token_type).collect();
    assert_eq!(
        ks,
        vec![
            TokenType::Number,
            TokenType::Error,
            TokenType::Number,
            TokenType::Error,
            TokenType::Number,
            TokenType::EOF
        ]
    );
}

#[test]
fn positions_are_tracked() {
    let mut lexer = Lexer::new("let\n  abc = 10;");
    let ts = lexer.scan_tokens().unwrap();
    assert_eq!(ts[1].lexeme, "abc");
    assert_eq!(ts[1].span.line, 2);
    assert_eq!(ts[1].span.column, 3);
    assert_eq!(ts[1].span.start, 6);
    assert_eq!(ts[1].span.end, 9);
    assert_eq!(ts[1].line_number, 2);
}

#[test]
fn too_many_fraction_digits_is_an_error() {
    let mut lexer = Lexer::new("1.1234567");
    assert!(lexer.scan_tokens().is_err());
    assert_eq!(lexer.errors()[0].kind, LexErrorKind::TooManyFractionDigits);
}

#[test]
fn keyword_table_matches_lookup() {
    let table = get_keywords_hashmap();
    assert_eq!(table.len(), 18);
    for (word, kind) in table {
        let chars: Vec<char> = word.chars().collect();
        assert_eq!(keyword(&chars), Some(kind));
    }
    let fun: Vec<char> = "fun".chars().collect();
    assert_eq!(keyword(&fun), None);
}

#[test]
fn tokenize_keeps_error_tokens() {
    let mut lexer = Lexer::new("a $ b");
    let ts = lexer.tokenize();
    let ks: Vec<TokenType> = ts.iter().map(|t| t.token_type).collect();
    assert_eq!(ks, vec![TokenType::Identifier, TokenType::Error, TokenType::Identifier, TokenType::EOF]);
    assert_eq!(lexer.errors().len(), 1);
}
