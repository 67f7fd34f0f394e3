use crustty::parser::ast::{AstNode, BaseType, SourceLocation};
use crustty::parser::parser::Parser;

#[test]
fn parser_test_parse_simple_function() {
    let source = "int main() { return 0; }";
    let mut parser = Parser::new(source).unwrap();
    let program = parser.parse_program().unwrap();

    assert_eq!(program.nodes.len(), 1);
    match &program.nodes[0] {
        AstNode::FunctionDef { name, params, return_type, body, .. } => {
            assert_eq!(name, "main");
            assert_eq!(params.len(), 0);
            assert_eq!(return_type.base, BaseType::Int);
            assert_eq!(body.len(), 1);
        }
        _ => panic!("Expected function definition"),
    }
}

#[test]
fn parser_test_parse_expression() {
    let source = "int main() { int x = 1 + 2 * 3; }";
    let mut parser = Parser::new(source).unwrap();
    let program = parser.parse_program().unwrap();

    // Just check it parses without error
    assert_eq!(program.nodes.len(), 1);
}

#[test]
fn parser_test_parse_if_statement() {
    let source = "int main() { if (x > 0) return 1; else return 0; }";
    let mut parser = Parser::new(source).unwrap();
    let program = parser.parse_program().unwrap();

    assert_eq!(program.nodes.len(), 1);
}

#[test]
fn parser_test_parse_struct() {
    let source = "struct Point { int x; int y; };";
    let mut parser = Parser::new(source).unwrap();
    let program = parser.parse_program().unwrap();

    assert_eq!(program.nodes.len(), 1);
    match &program.nodes[0] {
        AstNode::StructDef { name, fields, .. } => {
            assert_eq!(name, "Point");
            assert_eq!(fields.len(), 2);
        }
        _ => panic!("Expected struct definition"),
    }
}

#[test]
fn parse_test_parse_simple_function() {
    let source = "int main() { return 0; }";
    let mut parser = Parser::new(source).unwrap();
    let program = parser.parse_program().unwrap();

    assert_eq!(program.nodes.len(), 1);
    match &program.nodes[0] {
        AstNode::FunctionDef { name, params, return_type, body, .. } => {
            assert_eq!(name, "main");
            assert_eq!(params.len(), 0);
            assert_eq!(return_type.base, BaseType::Int);
            assert_eq!(body.len(), 1);
        }
        _ => panic!("Expected function definition"),
    }
}

#[test]
fn parse_test_parse_expression() {
    let source = "int main() { int x = 1 + 2 * 3; }";
    let mut parser = Parser::new(source).unwrap();
    let program = parser.parse_program().unwrap();

    // Just check it parses without error
    assert_eq!(program.nodes.len(), 1);
}

#[test]
fn parse_test_parse_if_statement() {
    let source = "int main() { if (x > 0) return 1; else return 0; }";
    let mut parser = Parser::new(source).unwrap();
    let program = parser.parse_program().unwrap();

    assert_eq!(program.nodes.len(), 1);
}

#[test]
fn parse_test_parse_struct() {
    let source = "struct Point { int x; int y; };";
    let mut parser = Parser::new(source).unwrap();
    let program = parser.parse_program().unwrap();

    assert_eq!(program.nodes.len(), 1);
    match &program.nodes[0] {
        AstNode::StructDef { name, fields, .. } => {
            assert_eq!(name, "Point");
            assert_eq!(fields.len(), 2);
        }
        _ => panic!("Expected struct definition"),
    }
}

#[test]
fn empty_program_and_program_not_starting_with_a_type() {
    let p = Parser::new("  // nothing here\n").unwrap().parse_program().unwrap();
    assert_eq!(p.nodes.len(), 0);
    let e = Parser::new("x = 1;").unwrap().parse_program().unwrap_err();
    assert_eq!(e.location, SourceLocation::new(1, 1));
}
