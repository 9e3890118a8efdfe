use heimdall::lexer::Lexer;
use heimdall::token::{Token, TokenKind};

fn lex_one(input: &str) -> Token {
    let lexer = Lexer::new(input);
    let (token, _next) = lexer.lex_token(0).expect("expected a token");
    token
}

#[test]
fn test_operator() {
    // Test AND operator
    let token = lex_one("&&");
    assert!(token.kind == TokenKind::OperatorAnd);

    // Test OR operator
    let token = lex_one("||");
    assert!(token.kind == TokenKind::OperatorOr);

    // Test NOT operator
    let token = lex_one("!");
    assert!(token.kind == TokenKind::OperatorNot);

    // Test ASSIGN operator
    let token = lex_one("=");
    assert!(token.kind == TokenKind::OperatorAssign);

    // Test ARROW operator
    let token = lex_one("=>");
    assert!(token.kind == TokenKind::OperatorAssign);

    // Test DOT operator
    let token = lex_one(".");
    assert!(token.kind == TokenKind::OperatorDot);

    // Test COLON operator
    let token = lex_one(":");
    assert!(token.kind == TokenKind::OperatorColon);

    // Test COMMA operator
    let token = lex_one(",");
    assert!(token.kind == TokenKind::OperatorComma);
}

#[test]
fn test_misc() {
    // Test semicolon
    let token = lex_one(";");
    assert!(token.kind == TokenKind::SemiColon);

    // Test pipe (type union)
    let token = lex_one("|");
    assert!(token.kind == TokenKind::TypeUnion);
}

#[test]
fn test_bracket() {
    // Test all bracket types
    let brackets = [
        ("(", TokenKind::ParenLeft),
        (")", TokenKind::ParenRight),
        ("{", TokenKind::BraceLeft),
        ("}", TokenKind::BraceRight),
        ("[", TokenKind::BracketLeft),
        ("]", TokenKind::BracketRight),
        ("<", TokenKind::AngledLeft),
        (">", TokenKind::AngledRight),
    ];

    for (bracket, expected_kind) in brackets {
        let token = lex_one(bracket);
        assert!(token.kind == expected_kind);
    }
}

#[test]
fn test_identifier() {
    // Test basic identifier
    let token = lex_one("foo");
    assert!(token.kind == TokenKind::Identifier);

    // Test identifier with underscore
    let token = lex_one("foo_bar");
    assert!(token.kind == TokenKind::Identifier);

    // Test identifier with numbers
    let token = lex_one("foo123");
    assert!(token.kind == TokenKind::Identifier);
}

#[test]
fn test_string_literal() {
    // Test single quoted string
    let token = lex_one("'hello'");
    assert!(token.kind == TokenKind::StringLiteral);

    // Test double quoted string
    let token = lex_one("\"world\"");
    assert!(token.kind == TokenKind::StringLiteral);
}

#[test]
fn test_comment() {
    // Test block comment
    let token = lex_one("/* this is a comment */");
    assert!(token.kind == TokenKind::Comment);
}

#[test]
fn test_lex_token() {
    // Test comment detection
    let token = lex_one("/* comment */");
    assert!(token.kind == TokenKind::Comment);

    // Test keyword detection
    let token = lex_one("class");
    assert!(token.kind == TokenKind::KeywordClass);

    // Test identifier detection
    let token = lex_one("identifier123");
    assert!(token.kind == TokenKind::Identifier);

    // Test string literal detection
    let token = lex_one("\"string\"");
    assert!(token.kind == TokenKind::StringLiteral);

    // Test operator detection
    let token = lex_one("&&");
    assert!(token.kind == TokenKind::OperatorAnd);

    // Test bracket detection
    let token = lex_one("{");
    assert!(token.kind == TokenKind::BraceLeft);

    // Test misc token detection
    let token = lex_one(";");
    assert!(token.kind == TokenKind::SemiColon);
}

#[test]
fn test_tokenize() {
    // Test empty input
    let lex = Lexer::new("");
    let tokens = lex.tokenize();
    assert!(tokens.is_empty());

    // Test simple class declaration
    let source = "class Foo {}";
    let lex = Lexer::new(source);
    let tokens = lex.tokenize();

    assert_eq!(tokens.len(), 4);
    assert!(tokens[0].kind == TokenKind::KeywordClass);
    assert!(tokens[1].kind == TokenKind::Identifier);
    assert!(tokens[2].kind == TokenKind::BraceLeft);
    assert!(tokens[3].kind == TokenKind::BraceRight);

    // Test with comments (should be filtered out)
    let source = "class Foo { /* comment */ }";
    let lex = Lexer::new(source);
    let tokens = lex.tokenize();

    assert_eq!(tokens.len(), 4); // Comment should be filtered out
    assert!(tokens[0].kind == TokenKind::KeywordClass);
    assert!(tokens[1].kind == TokenKind::Identifier);
    assert!(tokens[2].kind == TokenKind::BraceLeft);
    assert!(tokens[3].kind == TokenKind::BraceRight);

    // Test more complex example
    let source = "class Foo implements Bar { this.x = 'hello'; }";
    let lex = Lexer::new(source);
    let tokens = lex.tokenize();

    assert_eq!(tokens.len(), 12);
    assert!(tokens[0].kind == TokenKind::KeywordClass);
    assert!(tokens[1].kind == TokenKind::Identifier); // Foo
    assert!(tokens[2].kind == TokenKind::KeywordImplements);
    assert!(tokens[3].kind == TokenKind::Identifier); // Bar
    assert!(tokens[4].kind == TokenKind::BraceLeft);
    assert!(tokens[5].kind == TokenKind::KeywordThis);
    assert!(tokens[6].kind == TokenKind::OperatorDot);
    assert!(tokens[7].kind == TokenKind::Identifier); // x
    assert!(tokens[8].kind == TokenKind::OperatorAssign);
    assert!(tokens[9].kind == TokenKind::StringLiteral); // 'hello'
    assert!(tokens[10].kind == TokenKind::SemiColon);
    assert!(tokens[11].kind == TokenKind::BraceRight);
}

#[test]
fn test_token_positions_are_one_based() {
    let source = "class Foo {\n  related: {}\n}";
    let tokens = Lexer::new(source).tokenize();
    for t in tokens.iter() {
        assert!(t.line.unwrap() >= 1);
        assert!(t.column.unwrap() >= 1);
        assert!(t.kind != TokenKind::Comment);
    }
    // Exact positions of the first tokens.
    assert_eq!(tokens[0].line, Some(1));
    assert_eq!(tokens[0].column, Some(1));
    assert_eq!(tokens[1].column, Some(7)); // Foo
    assert_eq!(tokens[2].column, Some(11)); // {
    assert_eq!(tokens[3].line, Some(2)); // related
    assert_eq!(tokens[3].column, Some(3));
    assert_eq!(tokens[7].line, Some(3)); // closing brace of the class
    assert_eq!(tokens[7].column, Some(1));
}

#[test]
fn test_keyword_values_and_namespace_keyword() {
    let tokens = Lexer::new("class User implements Namespace related permits this ctx").tokenize();
    let kinds: Vec<TokenKind> = tokens.iter().map(|t| t.kind).collect();
    assert_eq!(
        kinds,
        vec![
            TokenKind::KeywordClass,
            TokenKind::Identifier,
            TokenKind::KeywordImplements,
            TokenKind::KeywordNamespace,
            TokenKind::KeywordRelated,
            TokenKind::KeywordPermits,
            TokenKind::KeywordThis,
            TokenKind::KeywordCtx,
        ]
    );
    assert_eq!(tokens[0].value, "class");
    assert_eq!(tokens[3].value, "Namespace");
}

#[test]
fn test_string_literal_value_excludes_delimiters() {
    let tokens = Lexer::new("\"members\" 'also members'").tokenize();
    assert_eq!(tokens.len(), 2);
    assert_eq!(tokens[0].value, "members");
    assert_eq!(tokens[1].value, "also members");
}

#[test]
fn test_unterminated_string_is_error_with_rest_of_line() {
    let tokens = Lexer::new("owner: 'oops\nnext").tokenize();
    // owner, :, error token for the unterminated literal, then `next`.
    assert_eq!(tokens.len(), 4);
    assert!(tokens[2].kind == TokenKind::Error);
    assert_eq!(tokens[2].value, "'oops");
    assert!(tokens[3].kind == TokenKind::Identifier);
    assert_eq!(tokens[3].line, Some(2));
}

#[test]
fn test_unrecognised_input_resyncs() {
    let tokens = Lexer::new("@@@ (ok)").tokenize();
    assert!(tokens[0].kind == TokenKind::Error);
    assert_eq!(tokens[0].value, "@@@");
    assert!(tokens[1].kind == TokenKind::ParenLeft);
    assert!(tokens[2].kind == TokenKind::Identifier);
    assert!(tokens[3].kind == TokenKind::ParenRight);
}

#[test]
fn test_line_comment_dropped() {
    let tokens = Lexer::new("owner // to end of line\nviewer").tokenize();
    assert_eq!(tokens.len(), 2);
    assert_eq!(tokens[0].value, "owner");
    assert_eq!(tokens[1].value, "viewer");
    assert_eq!(tokens[1].line, Some(2));
}
