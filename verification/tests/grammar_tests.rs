use crustty::parser::ast::{AstNode, SourceLocation};
use crustty::parser::parser::Parser;

/// A compact rendering of a tree, without locations.
fn show(n: &AstNode) -> String {
    match n {
        AstNode::FunctionDef { name, params, body, return_type, .. } => {
            format!("fn {:?} {} {:?} [{}]", return_type.base, name, params.len(), shows(body))
        },
        AstNode::StructDef { name, fields, .. } => {
            let fs: Vec<String> = fields.iter().map(|f| format!("{:?} {}", f.field_type.base, f.name)).collect();
            format!("struct {} [{}]", name, fs.join(", "))
        },
        AstNode::VarDecl { name, var_type, init, .. } => match init {
            Some(e) => format!("let {:?} {} = {}", var_type.base, name, show(e)),
            None => format!("let {:?} {}", var_type.base, name),
        },
        AstNode::Assignment { lhs, rhs, .. } => format!("({} = {})", show(lhs), show(rhs)),
        AstNode::Return { expr, .. } => match expr {
            Some(e) => format!("return {}", show(e)),
            None => "return".to_string(),
        },
        AstNode::If { condition, then_branch, else_branch, .. } => match else_branch {
            Some(e) => format!("if {} [{}] else [{}]", show(condition), shows(then_branch), shows(e)),
            None => format!("if {} [{}]", show(condition), shows(then_branch)),
        },
        AstNode::ExpressionStatement { expr, .. } => format!("{};", show(expr)),
        AstNode::IntLiteral(v, _) => v.to_string(),
        AstNode::Variable(name, _) => name.clone(),
        AstNode::BinaryOp { op, left, right, .. } => format!("({} {:?} {})", show(left), op, show(right)),
        other => format!("{:?}", other),
    }
}

fn shows(ns: &[AstNode]) -> String {
    ns.iter().map(show).collect::<Vec<_>>().join("; ")
}

fn parsed(source: &str) -> String {
    shows(&Parser::new(source).unwrap().parse_program().unwrap().nodes)
}

#[test]
fn grammar_simple_function() {
    assert_eq!(parsed("int main() { return 0; }"), "fn Int main 0 [return 0]");
}

#[test]
fn grammar_precedence() {
    assert_eq!(parsed("int main() { int x = 1 + 2 * 3; }"), "fn Int main 0 [let Int x = (1 Add (2 Mul 3))]");
}

#[test]
fn grammar_if_else() {
    assert_eq!(
        parsed("int main() { if (x > 0) return 1; else return 0; }"),
        "fn Int main 0 [if (x Gt 0) [return 1] else [return 0]]"
    );
}

#[test]
fn grammar_struct() {
    assert_eq!(parsed("struct Point { int x; int y; };"), "struct Point [Int x, Int y]");
}

#[test]
fn grammar_associativity() {
    assert_eq!(
        parsed("int main() { x = y = 10 - 4 - 3; }"),
        "fn Int main 0 [(x = (y = ((10 Sub 4) Sub 3)));]"
    );
}

#[test]
fn grammar_missing_semicolon_after_return() {
    let e = Parser::new("int main() { return 0 }").unwrap().parse_program().unwrap_err();
    assert_eq!(e.message, "Expected ';' after return, found '}'");
    assert_eq!(e.location, SourceLocation::new(1, 23));
}
