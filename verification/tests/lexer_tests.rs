use crustty::parser::lexer::{Lexer, Token};

#[test]
fn test_simple_tokens() {
    let mut lexer = Lexer::new("int main() { return 0; }");
    let tokens = lexer.tokenize().unwrap();

    assert!(matches!(tokens[0], Token::Int(_)));
    assert!(matches!(tokens[1], Token::Ident(ref s, _) if s == "main"));
    assert!(matches!(tokens[2], Token::LParen(_)));
    assert!(matches!(tokens[3], Token::RParen(_)));
    assert!(matches!(tokens[4], Token::LBrace(_)));
    assert!(matches!(tokens[5], Token::Return(_)));
    assert!(matches!(tokens[6], Token::IntLiteral(0, _)));
    assert!(matches!(tokens[7], Token::Semicolon(_)));
    assert!(matches!(tokens[8], Token::RBrace(_)));
    assert!(matches!(tokens[9], Token::Eof(_)));
}

#[test]
fn test_operators() {
    let mut lexer = Lexer::new("++ -- += -= == != && ||");
    let tokens = lexer.tokenize().unwrap();

    assert!(matches!(tokens[0], Token::PlusPlus(_)));
    assert!(matches!(tokens[1], Token::MinusMinus(_)));
    assert!(matches!(tokens[2], Token::PlusEq(_)));
    assert!(matches!(tokens[3], Token::MinusEq(_)));
    assert!(matches!(tokens[4], Token::EqEq(_)));
    assert!(matches!(tokens[5], Token::NotEq(_)));
    assert!(matches!(tokens[6], Token::AndAnd(_)));
    assert!(matches!(tokens[7], Token::OrOr(_)));
}

#[test]
fn test_comments() {
    let mut lexer = Lexer::new("int x; // comment\nint y; /* block\ncomment */ int z;");
    let tokens = lexer.tokenize().unwrap();

    // Should skip comments
    assert!(matches!(tokens[0], Token::Int(_)));
    assert!(matches!(tokens[1], Token::Ident(ref s, _) if s == "x"));
    assert!(matches!(tokens[2], Token::Semicolon(_)));
    assert!(matches!(tokens[3], Token::Int(_)));
    assert!(matches!(tokens[4], Token::Ident(ref s, _) if s == "y"));
    assert!(matches!(tokens[5], Token::Semicolon(_)));
    assert!(matches!(tokens[6], Token::Int(_)));
    assert!(matches!(tokens[7], Token::Ident(ref s, _) if s == "z"));
}

#[test]
fn test_string_literal() {
    let mut lexer = Lexer::new(r#""hello\nworld""#);
    let tokens = lexer.tokenize().unwrap();

    match &tokens[0] {
        Token::StringLiteral(s, _) => {
            assert_eq!(s, "hello\nworld");
        }
        _ => panic!("Expected string literal"),
    }
}

#[test]
fn test_preprocessor_skip() {
    let mut lexer = Lexer::new("#include <stdio.h>\nint x;");
    let tokens = lexer.tokenize().unwrap();

    // Should skip #include line
    assert!(matches!(tokens[0], Token::Int(_)));
    assert!(matches!(tokens[1], Token::Ident(ref s, _) if s == "x"));
}
