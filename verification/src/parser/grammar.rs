//! The grammar of the C subset as spec functions over the token stream: the
//! tree each construct parses to, where parsing it ends, and the error it
//! reports when the tokens do not fit.
use vstd::prelude::*;
use super::ast::{AstNode, BinOp, CaseNode, Field, Param, SourceLocation, TypeView, BaseView, UnOp};
use super::parser::{binary_op_at, compound_op, ends_case, is_type_start};
use super::token::{describe_token, SpecToken, Token};

verus! {

/// A syntax tree node as a value: texts as character sequences, children
/// as sequences.
pub enum NodeView {
    FunctionDef {
        name: Seq<char>,
        params: Seq<(Seq<char>, TypeView)>,
        body: Seq<NodeView>,
        return_type: TypeView,
        location: SourceLocation,
    },
    StructDef { name: Seq<char>, fields: Seq<(Seq<char>, TypeView)>, location: SourceLocation },
    VarDecl { name: Seq<char>, var_type: TypeView, init: Option<Box<NodeView>>, location: SourceLocation },
    Assignment { lhs: Box<NodeView>, rhs: Box<NodeView>, location: SourceLocation },
    CompoundAssignment { lhs: Box<NodeView>, op: BinOp, rhs: Box<NodeView>, location: SourceLocation },
    Return { expr: Option<Box<NodeView>>, location: SourceLocation },
    If {
        condition: Box<NodeView>,
        then_branch: Seq<NodeView>,
        else_branch: Option<Seq<NodeView>>,
        location: SourceLocation,
    },
    While { condition: Box<NodeView>, body: Seq<NodeView>, location: SourceLocation },
    DoWhile { body: Seq<NodeView>, condition: Box<NodeView>, location: SourceLocation },
    For {
        init: Option<Box<NodeView>>,
        condition: Option<Box<NodeView>>,
        increment: Option<Box<NodeView>>,
        body: Seq<NodeView>,
        location: SourceLocation,
    },
    Switch { expr: Box<NodeView>, cases: Seq<CaseView>, location: SourceLocation },
    Break { location: SourceLocation },
    Continue { location: SourceLocation },
    Goto { label: Seq<char>, location: SourceLocation },
    Label { name: Seq<char>, location: SourceLocation },
    ExpressionStatement { expr: Box<NodeView>, location: SourceLocation },
    IntLiteral(i32, SourceLocation),
    CharLiteral(i8, SourceLocation),
    StringLiteral(Seq<char>, SourceLocation),
    Null { location: SourceLocation },
    Variable(Seq<char>, SourceLocation),
    BinaryOp { op: BinOp, left: Box<NodeView>, right: Box<NodeView>, location: SourceLocation },
    UnaryOp { op: UnOp, operand: Box<NodeView>, location: SourceLocation },
    TernaryOp {
        condition: Box<NodeView>,
        true_expr: Box<NodeView>,
        false_expr: Box<NodeView>,
        location: SourceLocation,
    },
    FunctionCall { name: Seq<char>, args: Seq<NodeView>, location: SourceLocation },
    ArrayAccess { array: Box<NodeView>, index: Box<NodeView>, location: SourceLocation },
    MemberAccess { object: Box<NodeView>, member: Seq<char>, location: SourceLocation },
    PointerMemberAccess { object: Box<NodeView>, member: Seq<char>, location: SourceLocation },
    Cast { target_type: TypeView, expr: Box<NodeView>, location: SourceLocation },
    SizeofType { target_type: TypeView, location: SourceLocation },
    SizeofExpr { expr: Box<NodeView>, location: SourceLocation },
}

/// A switch case as a value.
pub enum CaseView {
    Case { value: Box<NodeView>, statements: Seq<NodeView>, location: SourceLocation },
    Default { statements: Seq<NodeView>, location: SourceLocation },
}

/// The parameters of a function as names and types.
pub open spec fn params_view(ps: Seq<Param>) -> Seq<(Seq<char>, TypeView)> {
    ps.map_values(|p: Param| (p.name@, p.param_type@))
}

/// The fields of a struct as names and types.
pub open spec fn fields_view(fs: Seq<Field>) -> Seq<(Seq<char>, TypeView)> {
    fs.map_values(|f: Field| (f.name@, f.field_type@))
}

/// A node as a value.
pub open spec fn node_view(n: AstNode) -> NodeView
    decreases n, 1nat,
{
    match n {
        AstNode::FunctionDef { name, params, body, return_type, location } => NodeView::FunctionDef {
            name: name@,
            params: params_view(params@),
            body: nodes_view(body@),
            return_type: return_type@,
            location,
        },
        AstNode::StructDef { name, fields, location } => NodeView::StructDef {
            name: name@,
            fields: fields_view(fields@),
            location,
        },
        AstNode::VarDecl { name, var_type, init, location } => NodeView::VarDecl {
            name: name@,
            var_type: var_type@,
            init: match init {
                Some(b) => Some(Box::new(node_view(*b))),
                None => None,
            },
            location,
        },
        AstNode::Assignment { lhs, rhs, location } => NodeView::Assignment {
            lhs: Box::new(node_view(*lhs)),
            rhs: Box::new(node_view(*rhs)),
            location,
        },
        AstNode::CompoundAssignment { lhs, op, rhs, location } => NodeView::CompoundAssignment {
            lhs: Box::new(node_view(*lhs)),
            op,
            rhs: Box::new(node_view(*rhs)),
            location,
        },
        AstNode::Return { expr, location } => NodeView::Return {
            expr: match expr {
                Some(b) => Some(Box::new(node_view(*b))),
                None => None,
            },
            location,
        },
        AstNode::If { condition, then_branch, else_branch, location } => NodeView::If {
            condition: Box::new(node_view(*condition)),
            then_branch: nodes_view(then_branch@),
            else_branch: match else_branch {
                Some(v) => Some(nodes_view(v@)),
                None => None,
            },
            location,
        },
        AstNode::While { condition, body, location } => NodeView::While {
            condition: Box::new(node_view(*condition)),
            body: nodes_view(body@),
            location,
        },
        AstNode::DoWhile { body, condition, location } => NodeView::DoWhile {
            body: nodes_view(body@),
            condition: Box::new(node_view(*condition)),
            location,
        },
        AstNode::For { init, condition, increment, body, location } => NodeView::For {
            init: match init {
                Some(b) => Some(Box::new(node_view(*b))),
                None => None,
            },
            condition: match condition {
                Some(b) => Some(Box::new(node_view(*b))),
                None => None,
            },
            increment: match increment {
                Some(b) => Some(Box::new(node_view(*b))),
                None => None,
            },
            body: nodes_view(body@),
            location,
        },
        AstNode::Switch { expr, cases, location } => NodeView::Switch {
            expr: Box::new(node_view(*expr)),
            cases: cases_view(cases@),
            location,
        },
        AstNode::Break { location } => NodeView::Break { location },
        AstNode::Continue { location } => NodeView::Continue { location },
        AstNode::Goto { label, location } => NodeView::Goto { label: label@, location },
        AstNode::Label { name, location } => NodeView::Label { name: name@, location },
        AstNode::ExpressionStatement { expr, location } => NodeView::ExpressionStatement {
            expr: Box::new(node_view(*expr)),
            location,
        },
        AstNode::IntLiteral(n, l) => NodeView::IntLiteral(n, l),
        AstNode::CharLiteral(c, l) => NodeView::CharLiteral(c, l),
        AstNode::StringLiteral(s, l) => NodeView::StringLiteral(s@, l),
        AstNode::Null { location } => NodeView::Null { location },
        AstNode::Variable(s, l) => NodeView::Variable(s@, l),
        AstNode::BinaryOp { op, left, right, location } => NodeView::BinaryOp {
            op,
            left: Box::new(node_view(*left)),
            right: Box::new(node_view(*right)),
            location,
        },
        AstNode::UnaryOp { op, operand, location } => NodeView::UnaryOp {
            op,
            operand: Box::new(node_view(*operand)),
            location,
        },
        AstNode::TernaryOp { condition, true_expr, false_expr, location } => NodeView::TernaryOp {
            condition: Box::new(node_view(*condition)),
            true_expr: Box::new(node_view(*true_expr)),
            false_expr: Box::new(node_view(*false_expr)),
            location,
        },
        AstNode::FunctionCall { name, args, location } => NodeView::FunctionCall {
            name: name@,
            args: nodes_view(args@),
            location,
        },
        AstNode::ArrayAccess { array, index, location } => NodeView::ArrayAccess {
            array: Box::new(node_view(*array)),
            index: Box::new(node_view(*index)),
            location,
        },
        AstNode::MemberAccess { object, member, location } => NodeView::MemberAccess {
            object: Box::new(node_view(*object)),
            member: member@,
            location,
        },
        AstNode::PointerMemberAccess { object, member, location } => NodeView::PointerMemberAccess {
            object: Box::new(node_view(*object)),
            member: member@,
            location,
        },
        AstNode::Cast { target_type, expr, location } => NodeView::Cast {
            target_type: target_type@,
            expr: Box::new(node_view(*expr)),
            location,
        },
        AstNode::SizeofType { target_type, location } => NodeView::SizeofType {
            target_type: target_type@,
            location,
        },
        AstNode::SizeofExpr { expr, location } => NodeView::SizeofExpr {
            expr: Box::new(node_view(*expr)),
            location,
        },
    }
}

/// A sequence of nodes as values.
pub open spec fn nodes_view(s: Seq<AstNode>) -> Seq<NodeView>
    decreases s, 0nat,
{
    if s.len() == 0 {
        Seq::empty()
    } else {
        nodes_view(s.subrange(0, s.len() - 1)).push(node_view(s[s.len() - 1]))
    }
}

/// A switch case as a value.
pub open spec fn case_view(c: CaseNode) -> CaseView
    decreases c, 1nat,
{
    match c {
        CaseNode::Case { value, statements, location } => CaseView::Case {
            value: Box::new(node_view(*value)),
            statements: nodes_view(statements@),
            location,
        },
        CaseNode::Default { statements, location } => CaseView::Default {
            statements: nodes_view(statements@),
            location,
        },
    }
}

/// Switch cases as values.
pub open spec fn cases_view(s: Seq<CaseNode>) -> Seq<CaseView>
    decreases s, 0nat,
{
    if s.len() == 0 {
        Seq::empty()
    } else {
        cases_view(s.subrange(0, s.len() - 1)).push(case_view(s[s.len() - 1]))
    }
}

pub proof fn lemma_nodes_view_push(s: Seq<AstNode>, n: AstNode)
    ensures
        nodes_view(s.push(n)) == nodes_view(s).push(node_view(n)),
{
    assert(s.push(n).subrange(0, s.len() as int) =~= s);
}

pub proof fn lemma_cases_view_push(s: Seq<CaseNode>, c: CaseNode)
    ensures
        cases_view(s.push(c)) == cases_view(s).push(case_view(c)),
{
    assert(s.push(c).subrange(0, s.len() as int) =~= s);
}

/// A parse error as its message and location.
pub type ErrV = (Seq<char>, SourceLocation);

/// What parsing a construct gives: its value and the position after it, or
/// an error.
pub type Parsed<T> = Result<(T, int), ErrV>;

/// Whether `q` is a position of the stream at or after `p`.
pub open spec fn ahead(toks: Seq<SpecToken>, p: int, q: int) -> bool {
    0 <= p <= q < toks.len()
}

/// Whether `q` is a position of the stream strictly after `p`.
pub open spec fn past(toks: Seq<SpecToken>, p: int, q: int) -> bool {
    0 <= p < q < toks.len()
}

/// The token at `p` must be of the kind `ok` tells; the error names what
/// was found instead.
pub open spec fn expect_at(toks: Seq<SpecToken>, p: int, ok: bool, msg: Seq<char>) -> Result<int, ErrV> {
    if ok {
        Ok(p + 1)
    } else {
        Err((msg + ", found "@ + describe_token(toks[p]), toks[p].loc()))
    }
}

/// An identifier at `p`: its text.
pub open spec fn ident_at(toks: Seq<SpecToken>, p: int) -> Parsed<Seq<char>> {
    match toks[p] {
        Token::Ident(s, _) => Ok((s, p + 1)),
        t => Err(("Expected identifier, found "@ + describe_token(t), t.loc())),
    }
}

/// Where a run of `*` from `q` ends.
pub open spec fn stars_end(toks: Seq<SpecToken>, q: int) -> int
    decreases toks.len() - q,
{
    if 0 <= q < toks.len() && toks[q] is Star {
        stars_end(toks, q + 1)
    } else {
        q
    }
}

/// The base of a type at `p`: a keyword, or `struct` and a name.
pub open spec fn base_at(toks: Seq<SpecToken>, p: int) -> Parsed<BaseView> {
    if toks[p] is Int {
        Ok((BaseView::Int, p + 1))
    } else if toks[p] is Char {
        Ok((BaseView::Char, p + 1))
    } else if toks[p] is Void {
        Ok((BaseView::Void, p + 1))
    } else if toks[p] is Struct {
        match ident_at(toks, p + 1) {
            Ok((n, q)) => Ok((BaseView::Struct(n), q)),
            Err(e) => Err(e),
        }
    } else {
        Err(("Expected type, found "@ + describe_token(toks[p]), toks[p].loc()))
    }
}

/// A type from its base, constness, pointer depth and parsed dimensions.
pub open spec fn with_dims(b: BaseView, is_const: bool, depth: nat, d: Parsed<Seq<Option<usize>>>) -> Parsed<TypeView> {
    match d {
        Err(e) => Err(e),
        Ok((dims, q3)) => Ok((TypeView { base: b, is_const, pointer_depth: depth, array_dims: dims }, q3)),
    }
}

/// A type at `p`: `const`, a base, stars and array dimensions.
pub closed spec fn type_spec(toks: Seq<SpecToken>, p: int) -> Parsed<TypeView>
    decreases toks.len() - p, 30int,
{
    if !(0 <= p < toks.len()) {
        Err(arbitrary())
    } else {
        let is_const = toks[p] is Const;
        let p1 = if is_const { p + 1 } else { p };
        match base_at(toks, p1) {
            Err(e) => Err(e),
            Ok((b, q)) => {
                let q2 = stars_end(toks, q);
                if !past(toks, p, q2) {
                    Err(arbitrary())
                } else {
                    with_dims(b, is_const, (q2 - q) as nat, dims_rest(toks, q2, Seq::empty()))
                }
            },
        }
    }
}

/// Array dimensions from `q`, after those in `acc`: `[]` or `[N]` with `N`
/// an integer literal.
pub closed spec fn dims_rest(toks: Seq<SpecToken>, q: int, acc: Seq<Option<usize>>) -> Parsed<Seq<Option<usize>>>
    decreases toks.len() - q, 30int,
{
    if !(0 <= q < toks.len()) {
        Err(arbitrary())
    } else if !(toks[q] is LBracket) {
        Ok((acc, q))
    } else if toks[q + 1] is RBracket {
        if !past(toks, q, q + 2) {
            Err(arbitrary())
        } else {
            dims_rest(toks, q + 2, acc.push(None))
        }
    } else {
        match expression_spec(toks, q + 1) {
            Err(e) => Err(e),
            Ok((n, q2)) => match n {
                NodeView::IntLiteral(v, _) => match expect_at(
                    toks,
                    q2,
                    toks[q2] is RBracket,
                    "Expected ']' after array size"@,
                ) {
                    Err(e) => Err(e),
                    Ok(q3) => if past(toks, q, q3) {
                        dims_rest(toks, q3, acc.push(Some(v as usize)))
                    } else {
                        Err(arbitrary())
                    },
                },
                _ => Err(("Array size must be a constant integer"@, toks[q2].loc())),
            },
        }
    }
}

/// An expression at `p`.
pub closed spec fn expression_spec(toks: Seq<SpecToken>, p: int) -> Parsed<NodeView>
    decreases toks.len() - p, 24int,
{
    assignment_spec(toks, p)
}

/// An assignment (right-associative) or a conditional expression.
pub closed spec fn assignment_spec(toks: Seq<SpecToken>, p: int) -> Parsed<NodeView>
    decreases toks.len() - p, 23int,
{
    match ternary_spec(toks, p) {
        Err(e) => Err(e),
        Ok((e, q)) => if !ahead(toks, p, q) {
            Err(arbitrary())
        } else if toks[q] is Eq {
            match assignment_spec(toks, q + 1) {
                Err(x) => Err(x),
                Ok((r, q2)) => Ok((
                    NodeView::Assignment { lhs: Box::new(e), rhs: Box::new(r), location: toks[q].loc() },
                    q2,
                )),
            }
        } else {
            match compound_op(toks[q]) {
                Some(op) => match assignment_spec(toks, q + 1) {
                    Err(x) => Err(x),
                    Ok((r, q2)) => Ok((
                        NodeView::CompoundAssignment {
                            lhs: Box::new(e),
                            op,
                            rhs: Box::new(r),
                            location: toks[q].loc(),
                        },
                        q2,
                    )),
                },
                None => Ok((e, q)),
            }
        },
    }
}

/// A conditional expression `c ? a : b` (right-associative), or a binary
/// expression.
pub closed spec fn ternary_spec(toks: Seq<SpecToken>, p: int) -> Parsed<NodeView>
    decreases toks.len() - p, 22int,
{
    match binary_spec(toks, p, 10) {
        Err(e) => Err(e),
        Ok((c, q)) => if !ahead(toks, p, q) {
            Err(arbitrary())
        } else if toks[q] is Question {
            match expression_spec(toks, q + 1) {
                Err(e) => Err(e),
                Ok((a, q2)) => match expect_at(toks, q2, toks[q2] is Colon, "Expected ':' in ternary expression"@) {
                    Err(e) => Err(e),
                    Ok(q3) => if !past(toks, p, q3) {
                        Err(arbitrary())
                    } else {
                        match ternary_spec(toks, q3) {
                            Err(e) => Err(e),
                            Ok((b, q4)) => Ok((
                                NodeView::TernaryOp {
                                    condition: Box::new(c),
                                    true_expr: Box::new(a),
                                    false_expr: Box::new(b),
                                    location: toks[q].loc(),
                                },
                                q4,
                            )),
                        }
                    },
                },
            }
        } else {
            Ok((c, q))
        },
    }
}

/// An operand of a binary operator of `level`: a cast expression at the
/// lowest level, else a chain of the level below.
pub closed spec fn operand_spec(toks: Seq<SpecToken>, p: int, level: int) -> Parsed<NodeView>
    decreases toks.len() - p, 10 + level, 0int,
{
    if !(1 <= level <= 10) {
        Err(arbitrary())
    } else if level == 1 {
        cast_spec(toks, p)
    } else {
        binary_spec(toks, p, level - 1)
    }
}

/// A left-associative chain of binary operators of `level` (see
/// [`binary_op_at`]) over operands of the level below.
pub closed spec fn binary_spec(toks: Seq<SpecToken>, p: int, level: int) -> Parsed<NodeView>
    decreases toks.len() - p, 10 + level, 1int,
{
    if !(1 <= level <= 10) {
        Err(arbitrary())
    } else {
        match operand_spec(toks, p, level) {
            Err(e) => Err(e),
            Ok((left, q)) => if past(toks, p, q) {
                binary_rest(toks, q, level, left)
            } else {
                Err(arbitrary())
            },
        }
    }
}

/// The rest of a chain of binary operators of `level` after `left`.
pub closed spec fn binary_rest(toks: Seq<SpecToken>, q: int, level: int, left: NodeView) -> Parsed<NodeView>
    decreases toks.len() - q, 10 + level, 1int,
{
    if !(0 <= q < toks.len()) || !(1 <= level <= 10) {
        Err(arbitrary())
    } else {
        match binary_op_at(level as u8, toks[q]) {
            None => Ok((left, q)),
            Some(op) => match operand_spec(toks, q + 1, level) {
                Err(e) => Err(e),
                Ok((right, q2)) => if past(toks, q, q2) {
                    binary_rest(
                        toks,
                        q2,
                        level,
                        NodeView::BinaryOp {
                            op,
                            left: Box::new(left),
                            right: Box::new(right),
                            location: toks[q].loc(),
                        },
                    )
                } else {
                    Err(arbitrary())
                },
            },
        }
    }
}

/// Whether a cast `( type )` stands at `p`: the position after it, or why
/// not.
pub closed spec fn try_cast_spec(toks: Seq<SpecToken>, p: int) -> Result<int, ErrV>
    decreases toks.len() - p, 7int,
{
    if !(0 <= p < toks.len()) {
        Err(arbitrary())
    } else if !(toks[p] is LParen) {
        Err(("Not a cast"@, toks[p].loc()))
    } else {
        match type_spec(toks, p + 1) {
            Err(e) => Err(e),
            Ok((_, q)) => if toks[q] is RParen {
                Ok(q + 1)
            } else {
                Err(("Not a cast"@, toks[q].loc()))
            },
        }
    }
}

/// A cast `( type ) expr`, or a unary expression.
pub closed spec fn cast_spec(toks: Seq<SpecToken>, p: int) -> Parsed<NodeView>
    decreases toks.len() - p, 8int,
{
    if !(0 <= p < toks.len()) {
        Err(arbitrary())
    } else if toks[p] is LParen && try_cast_spec(toks, p) is Ok {
        match type_spec(toks, p + 1) {
            Err(e) => Err(e),
            Ok((t, q)) => match expect_at(toks, q, toks[q] is RParen, "Expected ')' after cast type"@) {
                Err(e) => Err(e),
                Ok(q2) => if past(toks, p, q2) {
                    match cast_spec(toks, q2) {
                        Err(e) => Err(e),
                        Ok((x, q3)) => Ok((
                            NodeView::Cast { target_type: t, expr: Box::new(x), location: toks[q].loc() },
                            q3,
                        )),
                    }
                } else {
                    Err(arbitrary())
                },
            },
        }
    } else {
        unary_spec(toks, p)
    }
}

/// A prefix operator, at `loc`, applied to the unary expression at `p`.
pub closed spec fn prefix_spec(toks: Seq<SpecToken>, p: int, op: UnOp, loc: SourceLocation) -> Parsed<NodeView>
    decreases toks.len() - p, 6int,
{
    match unary_spec(toks, p) {
        Err(e) => Err(e),
        Ok((x, q)) => Ok((NodeView::UnaryOp { op, operand: Box::new(x), location: loc }, q)),
    }
}

/// The prefix operator a token denotes, unary plus aside.
pub open spec fn prefix_op(t: SpecToken) -> Option<UnOp> {
    if t is Bang {
        Some(UnOp::Not)
    } else if t is Tilde {
        Some(UnOp::BitNot)
    } else if t is Minus {
        Some(UnOp::Neg)
    } else if t is Amp {
        Some(UnOp::AddrOf)
    } else if t is Star {
        Some(UnOp::Deref)
    } else if t is PlusPlus {
        Some(UnOp::PreInc)
    } else if t is MinusMinus {
        Some(UnOp::PreDec)
    } else {
        None
    }
}

/// A unary expression: prefix operators, `sizeof ( type )`,
/// `sizeof ( expr )`, or a postfix expression.
pub closed spec fn unary_spec(toks: Seq<SpecToken>, p: int) -> Parsed<NodeView>
    decreases toks.len() - p, 5int,
{
    if !(0 <= p < toks.len()) {
        Err(arbitrary())
    } else {
        let loc = toks[p].loc();
        if toks[p] is Plus {
            unary_spec(toks, p + 1)
        } else if toks[p] is Sizeof {
            match expect_at(toks, p + 1, toks[p + 1] is LParen, "Expected '(' after 'sizeof'"@) {
                Err(e) => Err(e),
                Ok(q) => if !past(toks, p, q) {
                    Err(arbitrary())
                } else {
                    let as_type = if is_type_start(toks[q]) {
                        match type_spec(toks, q) {
                            Err(e) => Some(Err(e)),
                            Ok((t, q2)) => if toks[q2] is RParen {
                                Some(Ok((NodeView::SizeofType { target_type: t, location: loc }, q2 + 1)))
                            } else {
                                None
                            },
                        }
                    } else {
                        None
                    };
                    match as_type {
                        Some(r) => r,
                        None => match expression_spec(toks, q) {
                            Err(e) => Err(e),
                            Ok((x, q2)) => match expect_at(
                                toks,
                                q2,
                                toks[q2] is RParen,
                                "Expected ')' after sizeof expression"@,
                            ) {
                                Err(e) => Err(e),
                                Ok(q3) => Ok((NodeView::SizeofExpr { expr: Box::new(x), location: loc }, q3)),
                            },
                        },
                    }
                },
            }
        } else {
            match prefix_op(toks[p]) {
                Some(op) => prefix_spec(toks, p + 1, op, loc),
                None => postfix_spec(toks, p),
            }
        }
    }
}

/// A primary expression followed by postfix operators.
pub closed spec fn postfix_spec(toks: Seq<SpecToken>, p: int) -> Parsed<NodeView>
    decreases toks.len() - p, 4int,
{
    match primary_spec(toks, p) {
        Err(e) => Err(e),
        Ok((x, q)) => if past(toks, p, q) {
            postfix_rest(toks, q, x)
        } else {
            Err(arbitrary())
        },
    }
}

/// The postfix operators from `q` applied to `x`: `++`, `--`, indexing,
/// member access and calls.
pub closed spec fn postfix_rest(toks: Seq<SpecToken>, q: int, x: NodeView) -> Parsed<NodeView>
    decreases toks.len() - q, 4int,
{
    if !(0 <= q < toks.len()) {
        Err(arbitrary())
    } else {
        let loc = toks[q].loc();
        if toks[q] is PlusPlus {
            postfix_rest(toks, q + 1, NodeView::UnaryOp { op: UnOp::PostInc, operand: Box::new(x), location: loc })
        } else if toks[q] is MinusMinus {
            postfix_rest(toks, q + 1, NodeView::UnaryOp { op: UnOp::PostDec, operand: Box::new(x), location: loc })
        } else if toks[q] is LBracket {
            match expression_spec(toks, q + 1) {
                Err(e) => Err(e),
                Ok((i, q2)) => match expect_at(toks, q2, toks[q2] is RBracket, "Expected ']' after array index"@) {
                    Err(e) => Err(e),
                    Ok(q3) => if past(toks, q, q3) {
                        postfix_rest(
                            toks,
                            q3,
                            NodeView::ArrayAccess { array: Box::new(x), index: Box::new(i), location: loc },
                        )
                    } else {
                        Err(arbitrary())
                    },
                },
            }
        } else if toks[q] is Dot || toks[q] is Arrow {
            match ident_at(toks, q + 1) {
                Err(e) => Err(e),
                Ok((m, q2)) => if past(toks, q, q2) {
                    postfix_rest(
                        toks,
                        q2,
                        if toks[q] is Dot {
                            NodeView::MemberAccess { object: Box::new(x), member: m, location: loc }
                        } else {
                            NodeView::PointerMemberAccess { object: Box::new(x), member: m, location: loc }
                        },
                    )
                } else {
                    Err(arbitrary())
                },
            }
        } else if toks[q] is LParen {
            match arguments_spec(toks, q + 1) {
                Err(e) => Err(e),
                Ok((args, q2)) => match expect_at(
                    toks,
                    q2,
                    toks[q2] is RParen,
                    "Expected ')' after function arguments"@,
                ) {
                    Err(e) => Err(e),
                    Ok(q3) => match x {
                        NodeView::Variable(n, _) => if past(toks, q, q3) {
                            postfix_rest(toks, q3, NodeView::FunctionCall { name: n, args, location: loc })
                        } else {
                            Err(arbitrary())
                        },
                        _ => Err(("Function call must be on identifier"@, loc)),
                    },
                },
            }
        } else {
            Ok((x, q))
        }
    }
}

/// The arguments of a call from `p`, up to the closing parenthesis.
pub closed spec fn arguments_spec(toks: Seq<SpecToken>, p: int) -> Parsed<Seq<NodeView>>
    decreases toks.len() - p, 27int,
{
    if !(0 <= p < toks.len()) {
        Err(arbitrary())
    } else if toks[p] is RParen {
        Ok((Seq::empty(), p))
    } else {
        arguments_rest(toks, p, Seq::empty())
    }
}

/// Arguments separated by commas from `q`, after those in `acc`.
pub closed spec fn arguments_rest(toks: Seq<SpecToken>, q: int, acc: Seq<NodeView>) -> Parsed<Seq<NodeView>>
    decreases toks.len() - q, 26int,
{
    match expression_spec(toks, q) {
        Err(e) => Err(e),
        Ok((a, q2)) => if !ahead(toks, q, q2) {
            Err(arbitrary())
        } else if toks[q2] is Comma {
            arguments_rest(toks, q2 + 1, acc.push(a))
        } else {
            Ok((acc.push(a), q2))
        },
    }
}

/// A primary expression: a literal, a variable, `NULL`, or a parenthesized
/// expression.
pub closed spec fn primary_spec(toks: Seq<SpecToken>, p: int) -> Parsed<NodeView>
    decreases toks.len() - p, 2int,
{
    if !(0 <= p < toks.len()) {
        Err(arbitrary())
    } else {
        match toks[p] {
            Token::IntLiteral(n, l) => Ok((NodeView::IntLiteral(n, l), p + 1)),
            Token::CharLiteral(c, l) => Ok((NodeView::CharLiteral(c, l), p + 1)),
            Token::StringLiteral(s, l) => Ok((NodeView::StringLiteral(s, l), p + 1)),
            Token::Ident(s, l) => Ok((NodeView::Variable(s, l), p + 1)),
            Token::Null(l) => Ok((NodeView::Null { location: l }, p + 1)),
            Token::LParen(_) => match expression_spec(toks, p + 1) {
                Err(e) => Err(e),
                Ok((x, q)) => match expect_at(toks, q, toks[q] is RParen, "Expected ')' after expression"@) {
                    Err(e) => Err(e),
                    Ok(q2) => Ok((x, q2)),
                },
            },
            t => Err(("Unexpected token: "@ + describe_token(t), t.loc())),
        }
    }
}

/// One unfolding of [`type_spec`].
pub proof fn unfold_type_spec(toks: Seq<SpecToken>, p: int)
    ensures
        type_spec(toks, p) == ({
    if !(0 <= p < toks.len()) {
        Err(arbitrary())
    } else {
        let is_const = toks[p] is Const;
        let p1 = if is_const { p + 1 } else { p };
        match base_at(toks, p1) {
            Err(e) => Err(e),
            Ok((b, q)) => {
                let q2 = stars_end(toks, q);
                if !past(toks, p, q2) {
                    Err(arbitrary())
                } else {
                    with_dims(b, is_const, (q2 - q) as nat, dims_rest(toks, q2, Seq::empty()))
                }
            },
        }
    }
        }),
{
}

/// One unfolding of [`dims_rest`].
pub proof fn unfold_dims_rest(toks: Seq<SpecToken>, q: int, acc: Seq<Option<usize>>)
    ensures
        dims_rest(toks, q, acc) == ({
    if !(0 <= q < toks.len()) {
        Err(arbitrary())
    } else if !(toks[q] is LBracket) {
        Ok((acc, q))
    } else if toks[q + 1] is RBracket {
        if !past(toks, q, q + 2) {
            Err(arbitrary())
        } else {
            dims_rest(toks, q + 2, acc.push(None))
        }
    } else {
        match expression_spec(toks, q + 1) {
            Err(e) => Err(e),
            Ok((n, q2)) => match n {
                NodeView::IntLiteral(v, _) => match expect_at(
                    toks,
                    q2,
                    toks[q2] is RBracket,
                    "Expected ']' after array size"@,
                ) {
                    Err(e) => Err(e),
                    Ok(q3) => if past(toks, q, q3) {
                        dims_rest(toks, q3, acc.push(Some(v as usize)))
                    } else {
                        Err(arbitrary())
                    },
                },
                _ => Err(("Array size must be a constant integer"@, toks[q2].loc())),
            },
        }
    }
        }),
{
}

/// One unfolding of [`expression_spec`].
pub proof fn unfold_expression_spec(toks: Seq<SpecToken>, p: int)
    ensures
        expression_spec(toks, p) == ({
    assignment_spec(toks, p)
        }),
{
}

/// One unfolding of [`assignment_spec`].
pub proof fn unfold_assignment_spec(toks: Seq<SpecToken>, p: int)
    ensures
        assignment_spec(toks, p) == ({
    match ternary_spec(toks, p) {
        Err(e) => Err(e),
        Ok((e, q)) => if !ahead(toks, p, q) {
            Err(arbitrary())
        } else if toks[q] is Eq {
            match assignment_spec(toks, q + 1) {
                Err(x) => Err(x),
                Ok((r, q2)) => Ok((
                    NodeView::Assignment { lhs: Box::new(e), rhs: Box::new(r), location: toks[q].loc() },
                    q2,
                )),
            }
        } else {
            match compound_op(toks[q]) {
                Some(op) => match assignment_spec(toks, q + 1) {
                    Err(x) => Err(x),
                    Ok((r, q2)) => Ok((
                        NodeView::CompoundAssignment {
                            lhs: Box::new(e),
                            op,
                            rhs: Box::new(r),
                            location: toks[q].loc(),
                        },
                        q2,
                    )),
                },
                None => Ok((e, q)),
            }
        },
    }
        }),
{
}

/// One unfolding of [`ternary_spec`].
pub proof fn unfold_ternary_spec(toks: Seq<SpecToken>, p: int)
    ensures
        ternary_spec(toks, p) == ({
    match binary_spec(toks, p, 10) {
        Err(e) => Err(e),
        Ok((c, q)) => if !ahead(toks, p, q) {
            Err(arbitrary())
        } else if toks[q] is Question {
            match expression_spec(toks, q + 1) {
                Err(e) => Err(e),
                Ok((a, q2)) => match expect_at(toks, q2, toks[q2] is Colon, "Expected ':' in ternary expression"@) {
                    Err(e) => Err(e),
                    Ok(q3) => if !past(toks, p, q3) {
                        Err(arbitrary())
                    } else {
                        match ternary_spec(toks, q3) {
                            Err(e) => Err(e),
                            Ok((b, q4)) => Ok((
                                NodeView::TernaryOp {
                                    condition: Box::new(c),
                                    true_expr: Box::new(a),
                                    false_expr: Box::new(b),
                                    location: toks[q].loc(),
                                },
                                q4,
                            )),
                        }
                    },
                },
            }
        } else {
            Ok((c, q))
        },
    }
        }),
{
}

/// One unfolding of [`operand_spec`].
pub proof fn unfold_operand_spec(toks: Seq<SpecToken>, p: int, level: int)
    ensures
        operand_spec(toks, p, level) == ({
    if !(1 <= level <= 10) {
        Err(arbitrary())
    } else if level == 1 {
        cast_spec(toks, p)
    } else {
        binary_spec(toks, p, level - 1)
    }
        }),
{
}

/// One unfolding of [`binary_spec`].
pub proof fn unfold_binary_spec(toks: Seq<SpecToken>, p: int, level: int)
    ensures
        binary_spec(toks, p, level) == ({
    if !(1 <= level <= 10) {
        Err(arbitrary())
    } else {
        match operand_spec(toks, p, level) {
            Err(e) => Err(e),
            Ok((left, q)) => if past(toks, p, q) {
                binary_rest(toks, q, level, left)
            } else {
                Err(arbitrary())
            },
        }
    }
        }),
{
}

/// One unfolding of [`binary_rest`].
pub proof fn unfold_binary_rest(toks: Seq<SpecToken>, q: int, level: int, left: NodeView)
    ensures
        binary_rest(toks, q, level, left) == ({
    if !(0 <= q < toks.len()) || !(1 <= level <= 10) {
        Err(arbitrary())
    } else {
        match binary_op_at(level as u8, toks[q]) {
            None => Ok((left, q)),
            Some(op) => match operand_spec(toks, q + 1, level) {
                Err(e) => Err(e),
                Ok((right, q2)) => if past(toks, q, q2) {
                    binary_rest(
                        toks,
                        q2,
                        level,
                        NodeView::BinaryOp {
                            op,
                            left: Box::new(left),
                            right: Box::new(right),
                            location: toks[q].loc(),
                        },
                    )
                } else {
                    Err(arbitrary())
                },
            },
        }
    }
        }),
{
}

/// One unfolding of [`try_cast_spec`].
pub proof fn unfold_try_cast_spec(toks: Seq<SpecToken>, p: int)
    ensures
        try_cast_spec(toks, p) == ({
    if !(0 <= p < toks.len()) {
        Err(arbitrary())
    } else if !(toks[p] is LParen) {
        Err(("Not a cast"@, toks[p].loc()))
    } else {
        match type_spec(toks, p + 1) {
            Err(e) => Err(e),
            Ok((_, q)) => if toks[q] is RParen {
                Ok(q + 1)
            } else {
                Err(("Not a cast"@, toks[q].loc()))
            },
        }
    }
        }),
{
}

/// One unfolding of [`cast_spec`].
pub proof fn unfold_cast_spec(toks: Seq<SpecToken>, p: int)
    ensures
        cast_spec(toks, p) == ({
    if !(0 <= p < toks.len()) {
        Err(arbitrary())
    } else if toks[p] is LParen && try_cast_spec(toks, p) is Ok {
        match type_spec(toks, p + 1) {
            Err(e) => Err(e),
            Ok((t, q)) => match expect_at(toks, q, toks[q] is RParen, "Expected ')' after cast type"@) {
                Err(e) => Err(e),
                Ok(q2) => if past(toks, p, q2) {
                    match cast_spec(toks, q2) {
                        Err(e) => Err(e),
                        Ok((x, q3)) => Ok((
                            NodeView::Cast { target_type: t, expr: Box::new(x), location: toks[q].loc() },
                            q3,
                        )),
                    }
                } else {
                    Err(arbitrary())
                },
            },
        }
    } else {
        unary_spec(toks, p)
    }
        }),
{
}

/// One unfolding of [`prefix_spec`].
pub proof fn unfold_prefix_spec(toks: Seq<SpecToken>, p: int, op: UnOp, loc: SourceLocation)
    ensures
        prefix_spec(toks, p, op, loc) == ({
    match unary_spec(toks, p) {
        Err(e) => Err(e),
        Ok((x, q)) => Ok((NodeView::UnaryOp { op, operand: Box::new(x), location: loc }, q)),
    }
        }),
{
}

/// One unfolding of [`unary_spec`].
pub proof fn unfold_unary_spec(toks: Seq<SpecToken>, p: int)
    ensures
        unary_spec(toks, p) == ({
    if !(0 <= p < toks.len()) {
        Err(arbitrary())
    } else {
        let loc = toks[p].loc();
        if toks[p] is Plus {
            unary_spec(toks, p + 1)
        } else if toks[p] is Sizeof {
            match expect_at(toks, p + 1, toks[p + 1] is LParen, "Expected '(' after 'sizeof'"@) {
                Err(e) => Err(e),
                Ok(q) => if !past(toks, p, q) {
                    Err(arbitrary())
                } else {
                    let as_type = if is_type_start(toks[q]) {
                        match type_spec(toks, q) {
                            Err(e) => Some(Err(e)),
                            Ok((t, q2)) => if toks[q2] is RParen {
                                Some(Ok((NodeView::SizeofType { target_type: t, location: loc }, q2 + 1)))
                            } else {
                                None
                            },
                        }
                    } else {
                        None
                    };
                    match as_type {
                        Some(r) => r,
                        None => match expression_spec(toks, q) {
                            Err(e) => Err(e),
                            Ok((x, q2)) => match expect_at(
                                toks,
                                q2,
                                toks[q2] is RParen,
                                "Expected ')' after sizeof expression"@,
                            ) {
                                Err(e) => Err(e),
                                Ok(q3) => Ok((NodeView::SizeofExpr { expr: Box::new(x), location: loc }, q3)),
                            },
                        },
                    }
                },
            }
        } else {
            match prefix_op(toks[p]) {
                Some(op) => prefix_spec(toks, p + 1, op, loc),
                None => postfix_spec(toks, p),
            }
        }
    }
        }),
{
}

/// One unfolding of [`postfix_spec`].
pub proof fn unfold_postfix_spec(toks: Seq<SpecToken>, p: int)
    ensures
        postfix_spec(toks, p) == ({
    match primary_spec(toks, p) {
        Err(e) => Err(e),
        Ok((x, q)) => if past(toks, p, q) {
            postfix_rest(toks, q, x)
        } else {
            Err(arbitrary())
        },
    }
        }),
{
}

/// One unfolding of [`postfix_rest`].
pub proof fn unfold_postfix_rest(toks: Seq<SpecToken>, q: int, x: NodeView)
    ensures
        postfix_rest(toks, q, x) == ({
    if !(0 <= q < toks.len()) {
        Err(arbitrary())
    } else {
        let loc = toks[q].loc();
        if toks[q] is PlusPlus {
            postfix_rest(toks, q + 1, NodeView::UnaryOp { op: UnOp::PostInc, operand: Box::new(x), location: loc })
        } else if toks[q] is MinusMinus {
            postfix_rest(toks, q + 1, NodeView::UnaryOp { op: UnOp::PostDec, operand: Box::new(x), location: loc })
        } else if toks[q] is LBracket {
            match expression_spec(toks, q + 1) {
                Err(e) => Err(e),
                Ok((i, q2)) => match expect_at(toks, q2, toks[q2] is RBracket, "Expected ']' after array index"@) {
                    Err(e) => Err(e),
                    Ok(q3) => if past(toks, q, q3) {
                        postfix_rest(
                            toks,
                            q3,
                            NodeView::ArrayAccess { array: Box::new(x), index: Box::new(i), location: loc },
                        )
                    } else {
                        Err(arbitrary())
                    },
                },
            }
        } else if toks[q] is Dot || toks[q] is Arrow {
            match ident_at(toks, q + 1) {
                Err(e) => Err(e),
                Ok((m, q2)) => if past(toks, q, q2) {
                    postfix_rest(
                        toks,
                        q2,
                        if toks[q] is Dot {
                            NodeView::MemberAccess { object: Box::new(x), member: m, location: loc }
                        } else {
                            NodeView::PointerMemberAccess { object: Box::new(x), member: m, location: loc }
                        },
                    )
                } else {
                    Err(arbitrary())
                },
            }
        } else if toks[q] is LParen {
            match arguments_spec(toks, q + 1) {
                Err(e) => Err(e),
                Ok((args, q2)) => match expect_at(
                    toks,
                    q2,
                    toks[q2] is RParen,
                    "Expected ')' after function arguments"@,
                ) {
                    Err(e) => Err(e),
                    Ok(q3) => match x {
                        NodeView::Variable(n, _) => if past(toks, q, q3) {
                            postfix_rest(toks, q3, NodeView::FunctionCall { name: n, args, location: loc })
                        } else {
                            Err(arbitrary())
                        },
                        _ => Err(("Function call must be on identifier"@, loc)),
                    },
                },
            }
        } else {
            Ok((x, q))
        }
    }
        }),
{
}

/// One unfolding of [`arguments_spec`].
pub proof fn unfold_arguments_spec(toks: Seq<SpecToken>, p: int)
    ensures
        arguments_spec(toks, p) == ({
    if !(0 <= p < toks.len()) {
        Err(arbitrary())
    } else if toks[p] is RParen {
        Ok((Seq::empty(), p))
    } else {
        arguments_rest(toks, p, Seq::empty())
    }
        }),
{
}

/// One unfolding of [`arguments_rest`].
pub proof fn unfold_arguments_rest(toks: Seq<SpecToken>, q: int, acc: Seq<NodeView>)
    ensures
        arguments_rest(toks, q, acc) == ({
    match expression_spec(toks, q) {
        Err(e) => Err(e),
        Ok((a, q2)) => if !ahead(toks, q, q2) {
            Err(arbitrary())
        } else if toks[q2] is Comma {
            arguments_rest(toks, q2 + 1, acc.push(a))
        } else {
            Ok((acc.push(a), q2))
        },
    }
        }),
{
}

/// One unfolding of [`primary_spec`].
pub proof fn unfold_primary_spec(toks: Seq<SpecToken>, p: int)
    ensures
        primary_spec(toks, p) == ({
    if !(0 <= p < toks.len()) {
        Err(arbitrary())
    } else {
        match toks[p] {
            Token::IntLiteral(n, l) => Ok((NodeView::IntLiteral(n, l), p + 1)),
            Token::CharLiteral(c, l) => Ok((NodeView::CharLiteral(c, l), p + 1)),
            Token::StringLiteral(s, l) => Ok((NodeView::StringLiteral(s, l), p + 1)),
            Token::Ident(s, l) => Ok((NodeView::Variable(s, l), p + 1)),
            Token::Null(l) => Ok((NodeView::Null { location: l }, p + 1)),
            Token::LParen(_) => match expression_spec(toks, p + 1) {
                Err(e) => Err(e),
                Ok((x, q)) => match expect_at(toks, q, toks[q] is RParen, "Expected ')' after expression"@) {
                    Err(e) => Err(e),
                    Ok(q2) => Ok((x, q2)),
                },
            },
            t => Err(("Unexpected token: "@ + describe_token(t), t.loc())),
        }
    }
        }),
{
}

/// A statement at `p`.
pub closed spec fn statement_spec(toks: Seq<SpecToken>, p: int) -> Parsed<NodeView>
    decreases toks.len() - p, 32int,
{
    if !(0 <= p < toks.len()) {
        Err(arbitrary())
    } else {
        let t = toks[p];
        let loc = t.loc();
        if t is Return {
            return_spec(toks, p + 1)
        } else if t is If {
            if_spec(toks, p + 1)
        } else if t is While {
            while_spec(toks, p + 1)
        } else if t is Do {
            do_while_spec(toks, p + 1)
        } else if t is For {
            for_spec(toks, p + 1)
        } else if t is Switch {
            switch_spec(toks, p + 1)
        } else if t is Break {
            match expect_at(toks, p + 1, toks[p + 1] is Semicolon, "Expected ';' after 'break'"@) {
                Err(e) => Err(e),
                Ok(q) => Ok((NodeView::Break { location: loc }, q)),
            }
        } else if t is Continue {
            match expect_at(toks, p + 1, toks[p + 1] is Semicolon, "Expected ';' after 'continue'"@) {
                Err(e) => Err(e),
                Ok(q) => Ok((NodeView::Continue { location: loc }, q)),
            }
        } else if t is Goto {
            match ident_at(toks, p + 1) {
                Err(e) => Err(e),
                Ok((label, q)) => match expect_at(toks, q, toks[q] is Semicolon, "Expected ';' after 'goto'"@) {
                    Err(e) => Err(e),
                    Ok(q2) => Ok((NodeView::Goto { label, location: loc }, q2)),
                },
            }
        } else if t is Ident && p + 1 < toks.len() && toks[p + 1] is Colon {
            match ident_at(toks, p) {
                Err(e) => Err(e),
                Ok((name, q)) => match expect_at(toks, q, toks[q] is Colon, "Expected ':' after label"@) {
                    Err(e) => Err(e),
                    Ok(q2) => Ok((NodeView::Label { name, location: loc }, q2)),
                },
            }
        } else if is_type_start(t) {
            var_decl_spec(toks, p)
        } else {
            match expression_spec(toks, p) {
                Err(e) => Err(e),
                Ok((e, q)) => match expect_at(toks, q, toks[q] is Semicolon, "Expected ';' after expression"@) {
                    Err(x) => Err(x),
                    Ok(q2) => Ok((NodeView::ExpressionStatement { expr: Box::new(e), location: loc }, q2)),
                },
            }
        }
    }
}

/// A `return` statement whose keyword is just before `p`.
pub closed spec fn return_spec(toks: Seq<SpecToken>, p: int) -> Parsed<NodeView>
    decreases toks.len() - p, 30int,
{
    if !(0 < p < toks.len()) {
        Err(arbitrary())
    } else {
        let loc = toks[p - 1].loc();
        if toks[p] is Semicolon {
            Ok((NodeView::Return { expr: None, location: loc }, p + 1))
        } else {
            match expression_spec(toks, p) {
                Err(e) => Err(e),
                Ok((e, q)) => match expect_at(toks, q, toks[q] is Semicolon, "Expected ';' after return"@) {
                    Err(x) => Err(x),
                    Ok(q2) => Ok((NodeView::Return { expr: Some(Box::new(e)), location: loc }, q2)),
                },
            }
        }
    }
}

/// An `if` statement whose keyword is just before `p`; an `else` belongs
/// to the nearest `if`.
pub closed spec fn if_spec(toks: Seq<SpecToken>, p: int) -> Parsed<NodeView>
    decreases toks.len() - p, 30int,
{
    if !(0 < p < toks.len()) {
        Err(arbitrary())
    } else {
        let loc = toks[p - 1].loc();
        match expect_at(toks, p, toks[p] is LParen, "Expected '(' after 'if'"@) {
            Err(e) => Err(e),
            Ok(p1) => match expression_spec(toks, p1) {
                Err(e) => Err(e),
                Ok((c, p2)) => match expect_at(toks, p2, toks[p2] is RParen, "Expected ')' after if condition"@) {
                    Err(e) => Err(e),
                    Ok(p3) => if !past(toks, p, p3) {
                        Err(arbitrary())
                    } else {
                        match stmt_or_block_spec(toks, p3) {
                            Err(e) => Err(e),
                            Ok((th, p4)) => if !past(toks, p3, p4) {
                                Err(arbitrary())
                            } else if toks[p4] is Else {
                                match stmt_or_block_spec(toks, p4 + 1) {
                                    Err(e) => Err(e),
                                    Ok((el, p5)) => Ok((
                                        NodeView::If {
                                            condition: Box::new(c),
                                            then_branch: th,
                                            else_branch: Some(el),
                                            location: loc,
                                        },
                                        p5,
                                    )),
                                }
                            } else {
                                Ok((
                                    NodeView::If {
                                        condition: Box::new(c),
                                        then_branch: th,
                                        else_branch: None,
                                        location: loc,
                                    },
                                    p4,
                                ))
                            },
                        }
                    },
                },
            },
        }
    }
}

/// A `while` statement whose keyword is just before `p`.
pub closed spec fn while_spec(toks: Seq<SpecToken>, p: int) -> Parsed<NodeView>
    decreases toks.len() - p, 30int,
{
    if !(0 < p < toks.len()) {
        Err(arbitrary())
    } else {
        let loc = toks[p - 1].loc();
        match expect_at(toks, p, toks[p] is LParen, "Expected '(' after 'while'"@) {
            Err(e) => Err(e),
            Ok(p1) => match expression_spec(toks, p1) {
                Err(e) => Err(e),
                Ok((c, p2)) => match expect_at(toks, p2, toks[p2] is RParen, "Expected ')' after while condition"@) {
                    Err(e) => Err(e),
                    Ok(p3) => if !past(toks, p, p3) {
                        Err(arbitrary())
                    } else {
                        match stmt_or_block_spec(toks, p3) {
                            Err(e) => Err(e),
                            Ok((body, p4)) => Ok((NodeView::While { condition: Box::new(c), body, location: loc }, p4)),
                        }
                    },
                },
            },
        }
    }
}

/// A `do ... while (...);` statement whose keyword is just before `p`.
pub closed spec fn do_while_spec(toks: Seq<SpecToken>, p: int) -> Parsed<NodeView>
    decreases toks.len() - p, 35int,
{
    if !(0 < p < toks.len()) {
        Err(arbitrary())
    } else {
        let loc = toks[p - 1].loc();
        match stmt_or_block_spec(toks, p) {
            Err(e) => Err(e),
            Ok((body, p1)) => match expect_at(toks, p1, toks[p1] is While, "Expected 'while' after do body"@) {
                Err(e) => Err(e),
                Ok(p2) => match expect_at(toks, p2, toks[p2] is LParen, "Expected '(' after 'while'"@) {
                    Err(e) => Err(e),
                    Ok(p3) => if !past(toks, p, p3) {
                        Err(arbitrary())
                    } else {
                        match expression_spec(toks, p3) {
                            Err(e) => Err(e),
                            Ok((c, p4)) => match expect_at(
                                toks,
                                p4,
                                toks[p4] is RParen,
                                "Expected ')' after do-while condition"@,
                            ) {
                                Err(e) => Err(e),
                                Ok(p5) => match expect_at(toks, p5, toks[p5] is Semicolon, "Expected ';' after do-while"@) {
                                    Err(e) => Err(e),
                                    Ok(p6) => Ok((NodeView::DoWhile { body, condition: Box::new(c), location: loc }, p6)),
                                },
                            },
                        }
                    },
                },
            },
        }
    }
}

/// The initialisation of a `for` at `p`: nothing, a declaration, or an
/// expression, with its `;`.
pub closed spec fn for_init_spec(toks: Seq<SpecToken>, p: int) -> Parsed<Option<NodeView>>
    decreases toks.len() - p, 32int,
{
    if !(0 <= p < toks.len()) {
        Err(arbitrary())
    } else if toks[p] is Semicolon {
        Ok((None, p + 1))
    } else if is_type_start(toks[p]) {
        match var_decl_spec(toks, p) {
            Err(e) => Err(e),
            Ok((d, q)) => Ok((Some(d), q)),
        }
    } else {
        match expression_spec(toks, p) {
            Err(e) => Err(e),
            Ok((e, q)) => match expect_at(toks, q, toks[q] is Semicolon, "Expected ';' after for init"@) {
                Err(x) => Err(x),
                Ok(q2) => Ok((Some(e), q2)),
            },
        }
    }
}

/// An optional expression at `p`, absent when the token there is `stop`.
pub closed spec fn optional_expr_spec(toks: Seq<SpecToken>, p: int, absent: bool) -> Parsed<Option<NodeView>>
    decreases toks.len() - p, 25int,
{
    if absent {
        Ok((None, p))
    } else {
        match expression_spec(toks, p) {
            Err(e) => Err(e),
            Ok((e, q)) => Ok((Some(e), q)),
        }
    }
}

/// A `for` statement whose keyword is just before `p`.
pub closed spec fn for_spec(toks: Seq<SpecToken>, p: int) -> Parsed<NodeView>
    decreases toks.len() - p, 33int,
{
    if !(0 < p < toks.len()) {
        Err(arbitrary())
    } else {
        let loc = toks[p - 1].loc();
        match expect_at(toks, p, toks[p] is LParen, "Expected '(' after 'for'"@) {
            Err(e) => Err(e),
            Ok(p1) => match for_init_spec(toks, p1) {
                Err(e) => Err(e),
                Ok((init, p2)) => if !ahead(toks, p1, p2) {
                    Err(arbitrary())
                } else {
                    match optional_expr_spec(toks, p2, toks[p2] is Semicolon) {
                        Err(e) => Err(e),
                        Ok((cond, p3)) => match expect_at(
                            toks,
                            p3,
                            toks[p3] is Semicolon,
                            "Expected ';' after for condition"@,
                        ) {
                            Err(e) => Err(e),
                            Ok(p4) => if !ahead(toks, p2, p4) {
                                Err(arbitrary())
                            } else {
                                match optional_expr_spec(toks, p4, toks[p4] is RParen) {
                                    Err(e) => Err(e),
                                    Ok((inc, p5)) => match expect_at(
                                        toks,
                                        p5,
                                        toks[p5] is RParen,
                                        "Expected ')' after for clauses"@,
                                    ) {
                                        Err(e) => Err(e),
                                        Ok(p6) => if !past(toks, p4, p6) {
                                            Err(arbitrary())
                                        } else {
                                            match stmt_or_block_spec(toks, p6) {
                                                Err(e) => Err(e),
                                                Ok((body, p7)) => Ok((
                                                    NodeView::For {
                                                        init: boxed(init),
                                                        condition: boxed(cond),
                                                        increment: boxed(inc),
                                                        body,
                                                        location: loc,
                                                    },
                                                    p7,
                                                )),
                                            }
                                        },
                                    },
                                }
                            },
                        },
                    }
                },
            },
        }
    }
}

/// An optional node, boxed.
pub open spec fn boxed(n: Option<NodeView>) -> Option<Box<NodeView>> {
    match n {
        Some(v) => Some(Box::new(v)),
        None => None,
    }
}

/// The statements of a case from `q`, after those in `acc`: up to the next
/// `case`, `default`, `}` or the end.
pub closed spec fn case_rest(toks: Seq<SpecToken>, q: int, acc: Seq<NodeView>) -> Parsed<Seq<NodeView>>
    decreases toks.len() - q, 36int,
{
    if !(0 <= q < toks.len()) {
        Err(arbitrary())
    } else if ends_case(toks[q]) {
        Ok((acc, q))
    } else {
        match statement_spec(toks, q) {
            Err(e) => Err(e),
            Ok((s, q2)) => if past(toks, q, q2) {
                case_rest(toks, q2, acc.push(s))
            } else {
                Err(arbitrary())
            },
        }
    }
}

/// The cases of a switch from `q`, after those in `acc`, up to `}` or the
/// end.
pub closed spec fn cases_rest(toks: Seq<SpecToken>, q: int, acc: Seq<CaseView>) -> Parsed<Seq<CaseView>>
    decreases toks.len() - q, 37int,
{
    if !(0 <= q < toks.len()) {
        Err(arbitrary())
    } else if toks[q] is RBrace || toks[q] is Eof {
        Ok((acc, q))
    } else if toks[q] is Case {
        let cl = toks[q].loc();
        match expression_spec(toks, q + 1) {
            Err(e) => Err(e),
            Ok((v, q1)) => match expect_at(toks, q1, toks[q1] is Colon, "Expected ':' after case value"@) {
                Err(e) => Err(e),
                Ok(q2) => if !past(toks, q, q2) {
                    Err(arbitrary())
                } else {
                    match case_rest(toks, q2, Seq::empty()) {
                        Err(e) => Err(e),
                        Ok((ss, q3)) => if ahead(toks, q2, q3) {
                            cases_rest(
                                toks,
                                q3,
                                acc.push(CaseView::Case { value: Box::new(v), statements: ss, location: cl }),
                            )
                        } else {
                            Err(arbitrary())
                        },
                    }
                },
            },
        }
    } else if toks[q] is Default {
        let dl = toks[q].loc();
        match expect_at(toks, q + 1, toks[q + 1] is Colon, "Expected ':' after 'default'"@) {
            Err(e) => Err(e),
            Ok(q2) => if !past(toks, q, q2) {
                Err(arbitrary())
            } else {
                match case_rest(toks, q2, Seq::empty()) {
                    Err(e) => Err(e),
                    Ok((ss, q3)) => if ahead(toks, q2, q3) {
                        cases_rest(toks, q3, acc.push(CaseView::Default { statements: ss, location: dl }))
                    } else {
                        Err(arbitrary())
                    },
                }
            },
        }
    } else {
        Err(("Expected 'case' or 'default' in switch body"@, toks[q].loc()))
    }
}

/// A `switch` statement whose keyword is just before `p`.
pub closed spec fn switch_spec(toks: Seq<SpecToken>, p: int) -> Parsed<NodeView>
    decreases toks.len() - p, 38int,
{
    if !(0 < p < toks.len()) {
        Err(arbitrary())
    } else {
        let loc = toks[p - 1].loc();
        match expect_at(toks, p, toks[p] is LParen, "Expected '(' after 'switch'"@) {
            Err(e) => Err(e),
            Ok(p1) => match expression_spec(toks, p1) {
                Err(e) => Err(e),
                Ok((x, p2)) => match expect_at(toks, p2, toks[p2] is RParen, "Expected ')' after switch expression"@) {
                    Err(e) => Err(e),
                    Ok(p3) => match expect_at(toks, p3, toks[p3] is LBrace, "Expected '{' before switch body"@) {
                        Err(e) => Err(e),
                        Ok(p4) => if !past(toks, p, p4) {
                            Err(arbitrary())
                        } else {
                            switch_tail(toks, x, loc, cases_rest(toks, p4, Seq::empty()))
                        },
                    },
                },
            },
        }
    }
}

/// A variable declaration at `p`: a type, a name, array dimensions, an
/// optional initialiser and `;`.
pub closed spec fn var_decl_spec(toks: Seq<SpecToken>, p: int) -> Parsed<NodeView>
    decreases toks.len() - p, 31int,
{
    match type_spec(toks, p) {
        Err(e) => Err(e),
        Ok((t, q)) => if !ahead(toks, p, q) {
            Err(arbitrary())
        } else {
            match ident_at(toks, q) {
                Err(e) => Err(e),
                Ok((name, q1)) => if !past(toks, p, q1) {
                    Err(arbitrary())
                } else {
                    let loc = toks[q].loc();
                    var_decl_tail(toks, q1, name, t, loc, dims_rest(toks, q1, t.array_dims))
                },
            }
        },
    }
}

/// The rest of a variable declaration once its array dimensions `d`,
/// parsed from `q1`, are known: an optional initialiser and `;`.
pub open spec fn var_decl_tail(
    toks: Seq<SpecToken>,
    q1: int,
    name: Seq<char>,
    t: TypeView,
    loc: SourceLocation,
    d: Parsed<Seq<Option<usize>>>,
) -> Parsed<NodeView> {
    match d {
        Err(e) => Err(e),
        Ok((dims, q2)) => if !ahead(toks, q1, q2) {
            Err(arbitrary())
        } else {
            let vt = TypeView { array_dims: dims, ..t };
            if toks[q2] is Eq {
                match expression_spec(toks, q2 + 1) {
                    Err(e) => Err(e),
                    Ok((e, q3)) => match expect_at(
                        toks,
                        q3,
                        toks[q3] is Semicolon,
                        "Expected ';' after variable declaration"@,
                    ) {
                        Err(x) => Err(x),
                        Ok(q4) => Ok((
                            NodeView::VarDecl { name, var_type: vt, init: Some(Box::new(e)), location: loc },
                            q4,
                        )),
                    },
                }
            } else {
                match expect_at(toks, q2, toks[q2] is Semicolon, "Expected ';' after variable declaration"@) {
                    Err(x) => Err(x),
                    Ok(q4) => Ok((NodeView::VarDecl { name, var_type: vt, init: None, location: loc }, q4)),
                }
            }
        },
    }
}

/// The end of a switch once its cases `d` are known: `}`.
pub open spec fn switch_tail(toks: Seq<SpecToken>, x: NodeView, loc: SourceLocation, d: Parsed<Seq<CaseView>>) -> Parsed<
    NodeView,
> {
    match d {
        Err(e) => Err(e),
        Ok((cases, p5)) => match expect_at(toks, p5, toks[p5] is RBrace, "Expected '}' after switch body"@) {
            Err(e) => Err(e),
            Ok(p6) => Ok((NodeView::Switch { expr: Box::new(x), cases, location: loc }, p6)),
        },
    }
}

/// The end of a struct definition once its fields `d` are known: `}` and
/// `;`.
pub open spec fn struct_tail(
    toks: Seq<SpecToken>,
    name: Seq<char>,
    loc: SourceLocation,
    d: Parsed<Seq<(Seq<char>, TypeView)>>,
) -> Parsed<NodeView> {
    match d {
        Err(e) => Err(e),
        Ok((fields, q2)) => match expect_at(toks, q2, toks[q2] is RBrace, "Expected '}' after struct fields"@) {
            Err(e) => Err(e),
            Ok(q3) => match expect_at(toks, q3, toks[q3] is Semicolon, "Expected ';' after struct definition"@) {
                Err(e) => Err(e),
                Ok(q4) => Ok((NodeView::StructDef { name, fields, location: loc }, q4)),
            },
        },
    }
}

/// The statements of a block from `q`, after those in `acc`, up to `}` or
/// the end.
pub closed spec fn block_rest(toks: Seq<SpecToken>, q: int, acc: Seq<NodeView>) -> Parsed<Seq<NodeView>>
    decreases toks.len() - q, 33int,
{
    if !(0 <= q < toks.len()) {
        Err(arbitrary())
    } else if toks[q] is RBrace || toks[q] is Eof {
        Ok((acc, q))
    } else {
        match statement_spec(toks, q) {
            Err(e) => Err(e),
            Ok((s, q2)) => if past(toks, q, q2) {
                block_rest(toks, q2, acc.push(s))
            } else {
                Err(arbitrary())
            },
        }
    }
}

/// A braced block or a single statement at `p`.
pub closed spec fn stmt_or_block_spec(toks: Seq<SpecToken>, p: int) -> Parsed<Seq<NodeView>>
    decreases toks.len() - p, 34int,
{
    if !(0 <= p < toks.len()) {
        Err(arbitrary())
    } else if toks[p] is LBrace {
        match block_rest(toks, p + 1, Seq::empty()) {
            Err(e) => Err(e),
            Ok((ss, q)) => match expect_at(toks, q, toks[q] is RBrace, "Expected '}' after block"@) {
                Err(e) => Err(e),
                Ok(q2) => Ok((ss, q2)),
            },
        }
    } else {
        match statement_spec(toks, p) {
            Err(e) => Err(e),
            Ok((s, q)) => Ok((seq![s], q)),
        }
    }
}

/// Struct fields from `q`, after those in `acc`, up to `}`.
pub closed spec fn fields_rest(toks: Seq<SpecToken>, q: int, acc: Seq<(Seq<char>, TypeView)>) -> Parsed<
    Seq<(Seq<char>, TypeView)>,
>
    decreases toks.len() - q, 40int,
{
    if !(0 <= q < toks.len()) {
        Err(arbitrary())
    } else if toks[q] is RBrace {
        Ok((acc, q))
    } else {
        match type_spec(toks, q) {
            Err(e) => Err(e),
            Ok((t, q1)) => match ident_at(toks, q1) {
                Err(e) => Err(e),
                Ok((n, q2)) => match expect_at(toks, q2, toks[q2] is Semicolon, "Expected ';' after struct field"@) {
                    Err(e) => Err(e),
                    Ok(q3) => if past(toks, q, q3) {
                        fields_rest(toks, q3, acc.push((n, t)))
                    } else {
                        Err(arbitrary())
                    },
                },
            },
        }
    }
}

/// A struct definition whose `struct` keyword is just before `p`.
pub closed spec fn struct_def_spec(toks: Seq<SpecToken>, p: int) -> Parsed<NodeView>
    decreases toks.len() - p, 41int,
{
    if !(0 < p < toks.len()) {
        Err(arbitrary())
    } else {
        let loc = toks[p - 1].loc();
        match ident_at(toks, p) {
            Err(e) => Err(e),
            Ok((name, q)) => match expect_at(toks, q, toks[q] is LBrace, "Expected '{' after struct name"@) {
                Err(e) => Err(e),
                Ok(q1) => if !past(toks, p, q1) {
                    Err(arbitrary())
                } else {
                    struct_tail(toks, name, loc, fields_rest(toks, q1, Seq::empty()))
                },
            },
        }
    }
}

/// Parameters from `q`, after those in `acc`: a type and a name each,
/// separated by commas.
pub closed spec fn params_rest(toks: Seq<SpecToken>, q: int, acc: Seq<(Seq<char>, TypeView)>) -> Parsed<
    Seq<(Seq<char>, TypeView)>,
>
    decreases toks.len() - q, 39int,
{
    if !(0 <= q < toks.len()) {
        Err(arbitrary())
    } else {
        match type_spec(toks, q) {
            Err(e) => Err(e),
            Ok((t, q1)) => match ident_at(toks, q1) {
                Err(e) => Err(e),
                Ok((n, q2)) => if !past(toks, q, q2) {
                    Err(arbitrary())
                } else if toks[q2] is Comma {
                    params_rest(toks, q2 + 1, acc.push((n, t)))
                } else {
                    Ok((acc.push((n, t)), q2))
                },
            },
        }
    }
}

/// A parameter list at `p`: empty before `)`, `void`, or parameters.
pub closed spec fn params_spec(toks: Seq<SpecToken>, p: int) -> Parsed<Seq<(Seq<char>, TypeView)>>
    decreases toks.len() - p, 40int,
{
    if !(0 <= p < toks.len()) {
        Err(arbitrary())
    } else if toks[p] is RParen {
        Ok((Seq::empty(), p))
    } else if toks[p] is Void {
        Ok((Seq::empty(), p + 1))
    } else {
        params_rest(toks, p, Seq::empty())
    }
}

/// A function definition at `p`.
pub closed spec fn function_def_spec(toks: Seq<SpecToken>, p: int) -> Parsed<NodeView>
    decreases toks.len() - p, 42int,
{
    match type_spec(toks, p) {
        Err(e) => Err(e),
        Ok((rt, q)) => if !ahead(toks, p, q) {
            Err(arbitrary())
        } else {
            match ident_at(toks, q) {
                Err(e) => Err(e),
                Ok((name, q1)) => {
                    let loc = toks[q].loc();
                    match expect_at(toks, q1, toks[q1] is LParen, "Expected '(' after function name"@) {
                        Err(e) => Err(e),
                        Ok(q2) => if !past(toks, p, q2) {
                            Err(arbitrary())
                        } else {
                            match params_spec(toks, q2) {
                                Err(e) => Err(e),
                                Ok((params, q3)) => match expect_at(
                                    toks,
                                    q3,
                                    toks[q3] is RParen,
                                    "Expected ')' after parameters"@,
                                ) {
                                    Err(e) => Err(e),
                                    Ok(q4) => match expect_at(
                                        toks,
                                        q4,
                                        toks[q4] is LBrace,
                                        "Expected '{' before function body"@,
                                    ) {
                                        Err(e) => Err(e),
                                        Ok(q5) => if !past(toks, p, q5) {
                                            Err(arbitrary())
                                        } else {
                                            match block_rest(toks, q5, Seq::empty()) {
                                                Err(e) => Err(e),
                                                Ok((body, q6)) => match expect_at(
                                                    toks,
                                                    q6,
                                                    toks[q6] is RBrace,
                                                    "Expected '}' after function body"@,
                                                ) {
                                                    Err(e) => Err(e),
                                                    Ok(q7) => Ok((
                                                        NodeView::FunctionDef {
                                                            name,
                                                            params,
                                                            body,
                                                            return_type: rt,
                                                            location: loc,
                                                        },
                                                        q7,
                                                    )),
                                                },
                                            }
                                        },
                                    },
                                },
                            }
                        },
                    }
                },
            }
        },
    }
}

/// A top-level declaration at `p`: a struct definition (`struct`, a name
/// and `{`) or a function definition.
pub closed spec fn top_level_spec(toks: Seq<SpecToken>, p: int) -> Parsed<NodeView>
    decreases toks.len() - p, 43int,
{
    if !(0 <= p && p + 2 < toks.len()) {
        function_def_spec(toks, p)
    } else if toks[p] is Struct && toks[p + 1] is Ident && toks[p + 2] is LBrace {
        struct_def_spec(toks, p + 1)
    } else {
        function_def_spec(toks, p)
    }
}

/// The declarations of a program from `q`, after those in `acc`, up to the
/// end.
pub closed spec fn program_rest(toks: Seq<SpecToken>, q: int, acc: Seq<NodeView>) -> Parsed<Seq<NodeView>>
    decreases toks.len() - q, 44int,
{
    if !(0 <= q < toks.len()) {
        Err(arbitrary())
    } else if toks[q] is Eof {
        Ok((acc, q))
    } else {
        match top_level_spec(toks, q) {
            Err(e) => Err(e),
            Ok((d, q2)) => if past(toks, q, q2) {
                program_rest(toks, q2, acc.push(d))
            } else {
                Err(arbitrary())
            },
        }
    }
}

/// A whole program from `p`.
pub open spec fn program_spec(toks: Seq<SpecToken>, p: int) -> Result<Seq<NodeView>, ErrV> {
    match program_rest(toks, p, Seq::empty()) {
        Ok((ds, _)) => Ok(ds),
        Err(e) => Err(e),
    }
}

/// One unfolding of [`statement_spec`].
pub proof fn unfold_statement_spec(toks: Seq<SpecToken>, p: int)
    ensures
        statement_spec(toks, p) == ({
    if !(0 <= p < toks.len()) {
        Err(arbitrary())
    } else {
        let t = toks[p];
        let loc = t.loc();
        if t is Return {
            return_spec(toks, p + 1)
        } else if t is If {
            if_spec(toks, p + 1)
        } else if t is While {
            while_spec(toks, p + 1)
        } else if t is Do {
            do_while_spec(toks, p + 1)
        } else if t is For {
            for_spec(toks, p + 1)
        } else if t is Switch {
            switch_spec(toks, p + 1)
        } else if t is Break {
            match expect_at(toks, p + 1, toks[p + 1] is Semicolon, "Expected ';' after 'break'"@) {
                Err(e) => Err(e),
                Ok(q) => Ok((NodeView::Break { location: loc }, q)),
            }
        } else if t is Continue {
            match expect_at(toks, p + 1, toks[p + 1] is Semicolon, "Expected ';' after 'continue'"@) {
                Err(e) => Err(e),
                Ok(q) => Ok((NodeView::Continue { location: loc }, q)),
            }
        } else if t is Goto {
            match ident_at(toks, p + 1) {
                Err(e) => Err(e),
                Ok((label, q)) => match expect_at(toks, q, toks[q] is Semicolon, "Expected ';' after 'goto'"@) {
                    Err(e) => Err(e),
                    Ok(q2) => Ok((NodeView::Goto { label, location: loc }, q2)),
                },
            }
        } else if t is Ident && p + 1 < toks.len() && toks[p + 1] is Colon {
            match ident_at(toks, p) {
                Err(e) => Err(e),
                Ok((name, q)) => match expect_at(toks, q, toks[q] is Colon, "Expected ':' after label"@) {
                    Err(e) => Err(e),
                    Ok(q2) => Ok((NodeView::Label { name, location: loc }, q2)),
                },
            }
        } else if is_type_start(t) {
            var_decl_spec(toks, p)
        } else {
            match expression_spec(toks, p) {
                Err(e) => Err(e),
                Ok((e, q)) => match expect_at(toks, q, toks[q] is Semicolon, "Expected ';' after expression"@) {
                    Err(x) => Err(x),
                    Ok(q2) => Ok((NodeView::ExpressionStatement { expr: Box::new(e), location: loc }, q2)),
                },
            }
        }
    }
        }),
{
}

/// One unfolding of [`return_spec`].
pub proof fn unfold_return_spec(toks: Seq<SpecToken>, p: int)
    ensures
        return_spec(toks, p) == ({
    if !(0 < p < toks.len()) {
        Err(arbitrary())
    } else {
        let loc = toks[p - 1].loc();
        if toks[p] is Semicolon {
            Ok((NodeView::Return { expr: None, location: loc }, p + 1))
        } else {
            match expression_spec(toks, p) {
                Err(e) => Err(e),
                Ok((e, q)) => match expect_at(toks, q, toks[q] is Semicolon, "Expected ';' after return"@) {
                    Err(x) => Err(x),
                    Ok(q2) => Ok((NodeView::Return { expr: Some(Box::new(e)), location: loc }, q2)),
                },
            }
        }
    }
        }),
{
}

/// One unfolding of [`if_spec`].
pub proof fn unfold_if_spec(toks: Seq<SpecToken>, p: int)
    ensures
        if_spec(toks, p) == ({
    if !(0 < p < toks.len()) {
        Err(arbitrary())
    } else {
        let loc = toks[p - 1].loc();
        match expect_at(toks, p, toks[p] is LParen, "Expected '(' after 'if'"@) {
            Err(e) => Err(e),
            Ok(p1) => match expression_spec(toks, p1) {
                Err(e) => Err(e),
                Ok((c, p2)) => match expect_at(toks, p2, toks[p2] is RParen, "Expected ')' after if condition"@) {
                    Err(e) => Err(e),
                    Ok(p3) => if !past(toks, p, p3) {
                        Err(arbitrary())
                    } else {
                        match stmt_or_block_spec(toks, p3) {
                            Err(e) => Err(e),
                            Ok((th, p4)) => if !past(toks, p3, p4) {
                                Err(arbitrary())
                            } else if toks[p4] is Else {
                                match stmt_or_block_spec(toks, p4 + 1) {
                                    Err(e) => Err(e),
                                    Ok((el, p5)) => Ok((
                                        NodeView::If {
                                            condition: Box::new(c),
                                            then_branch: th,
                                            else_branch: Some(el),
                                            location: loc,
                                        },
                                        p5,
                                    )),
                                }
                            } else {
                                Ok((
                                    NodeView::If {
                                        condition: Box::new(c),
                                        then_branch: th,
                                        else_branch: None,
                                        location: loc,
                                    },
                                    p4,
                                ))
                            },
                        }
                    },
                },
            },
        }
    }
        }),
{
}

/// One unfolding of [`while_spec`].
pub proof fn unfold_while_spec(toks: Seq<SpecToken>, p: int)
    ensures
        while_spec(toks, p) == ({
    if !(0 < p < toks.len()) {
        Err(arbitrary())
    } else {
        let loc = toks[p - 1].loc();
        match expect_at(toks, p, toks[p] is LParen, "Expected '(' after 'while'"@) {
            Err(e) => Err(e),
            Ok(p1) => match expression_spec(toks, p1) {
                Err(e) => Err(e),
                Ok((c, p2)) => match expect_at(toks, p2, toks[p2] is RParen, "Expected ')' after while condition"@) {
                    Err(e) => Err(e),
                    Ok(p3) => if !past(toks, p, p3) {
                        Err(arbitrary())
                    } else {
                        match stmt_or_block_spec(toks, p3) {
                            Err(e) => Err(e),
                            Ok((body, p4)) => Ok((NodeView::While { condition: Box::new(c), body, location: loc }, p4)),
                        }
                    },
                },
            },
        }
    }
        }),
{
}

/// One unfolding of [`do_while_spec`].
pub proof fn unfold_do_while_spec(toks: Seq<SpecToken>, p: int)
    ensures
        do_while_spec(toks, p) == ({
    if !(0 < p < toks.len()) {
        Err(arbitrary())
    } else {
        let loc = toks[p - 1].loc();
        match stmt_or_block_spec(toks, p) {
            Err(e) => Err(e),
            Ok((body, p1)) => match expect_at(toks, p1, toks[p1] is While, "Expected 'while' after do body"@) {
                Err(e) => Err(e),
                Ok(p2) => match expect_at(toks, p2, toks[p2] is LParen, "Expected '(' after 'while'"@) {
                    Err(e) => Err(e),
                    Ok(p3) => if !past(toks, p, p3) {
                        Err(arbitrary())
                    } else {
                        match expression_spec(toks, p3) {
                            Err(e) => Err(e),
                            Ok((c, p4)) => match expect_at(
                                toks,
                                p4,
                                toks[p4] is RParen,
                                "Expected ')' after do-while condition"@,
                            ) {
                                Err(e) => Err(e),
                                Ok(p5) => match expect_at(toks, p5, toks[p5] is Semicolon, "Expected ';' after do-while"@) {
                                    Err(e) => Err(e),
                                    Ok(p6) => Ok((NodeView::DoWhile { body, condition: Box::new(c), location: loc }, p6)),
                                },
                            },
                        }
                    },
                },
            },
        }
    }
        }),
{
}

/// One unfolding of [`for_init_spec`].
pub proof fn unfold_for_init_spec(toks: Seq<SpecToken>, p: int)
    ensures
        for_init_spec(toks, p) == ({
    if !(0 <= p < toks.len()) {
        Err(arbitrary())
    } else if toks[p] is Semicolon {
        Ok((None, p + 1))
    } else if is_type_start(toks[p]) {
        match var_decl_spec(toks, p) {
            Err(e) => Err(e),
            Ok((d, q)) => Ok((Some(d), q)),
        }
    } else {
        match expression_spec(toks, p) {
            Err(e) => Err(e),
            Ok((e, q)) => match expect_at(toks, q, toks[q] is Semicolon, "Expected ';' after for init"@) {
                Err(x) => Err(x),
                Ok(q2) => Ok((Some(e), q2)),
            },
        }
    }
        }),
{
}

/// One unfolding of [`optional_expr_spec`].
pub proof fn unfold_optional_expr_spec(toks: Seq<SpecToken>, p: int, absent: bool)
    ensures
        optional_expr_spec(toks, p, absent) == ({
    if absent {
        Ok((None, p))
    } else {
        match expression_spec(toks, p) {
            Err(e) => Err(e),
            Ok((e, q)) => Ok((Some(e), q)),
        }
    }
        }),
{
}

/// One unfolding of [`for_spec`].
pub proof fn unfold_for_spec(toks: Seq<SpecToken>, p: int)
    ensures
        for_spec(toks, p) == ({
    if !(0 < p < toks.len()) {
        Err(arbitrary())
    } else {
        let loc = toks[p - 1].loc();
        match expect_at(toks, p, toks[p] is LParen, "Expected '(' after 'for'"@) {
            Err(e) => Err(e),
            Ok(p1) => match for_init_spec(toks, p1) {
                Err(e) => Err(e),
                Ok((init, p2)) => if !ahead(toks, p1, p2) {
                    Err(arbitrary())
                } else {
                    match optional_expr_spec(toks, p2, toks[p2] is Semicolon) {
                        Err(e) => Err(e),
                        Ok((cond, p3)) => match expect_at(
                            toks,
                            p3,
                            toks[p3] is Semicolon,
                            "Expected ';' after for condition"@,
                        ) {
                            Err(e) => Err(e),
                            Ok(p4) => if !ahead(toks, p2, p4) {
                                Err(arbitrary())
                            } else {
                                match optional_expr_spec(toks, p4, toks[p4] is RParen) {
                                    Err(e) => Err(e),
                                    Ok((inc, p5)) => match expect_at(
                                        toks,
                                        p5,
                                        toks[p5] is RParen,
                                        "Expected ')' after for clauses"@,
                                    ) {
                                        Err(e) => Err(e),
                                        Ok(p6) => if !past(toks, p4, p6) {
                                            Err(arbitrary())
                                        } else {
                                            match stmt_or_block_spec(toks, p6) {
                                                Err(e) => Err(e),
                                                Ok((body, p7)) => Ok((
                                                    NodeView::For {
                                                        init: boxed(init),
                                                        condition: boxed(cond),
                                                        increment: boxed(inc),
                                                        body,
                                                        location: loc,
                                                    },
                                                    p7,
                                                )),
                                            }
                                        },
                                    },
                                }
                            },
                        },
                    }
                },
            },
        }
    }
        }),
{
}

/// One unfolding of [`case_rest`].
pub proof fn unfold_case_rest(toks: Seq<SpecToken>, q: int, acc: Seq<NodeView>)
    ensures
        case_rest(toks, q, acc) == ({
    if !(0 <= q < toks.len()) {
        Err(arbitrary())
    } else if ends_case(toks[q]) {
        Ok((acc, q))
    } else {
        match statement_spec(toks, q) {
            Err(e) => Err(e),
            Ok((s, q2)) => if past(toks, q, q2) {
                case_rest(toks, q2, acc.push(s))
            } else {
                Err(arbitrary())
            },
        }
    }
        }),
{
}

/// One unfolding of [`cases_rest`].
pub proof fn unfold_cases_rest(toks: Seq<SpecToken>, q: int, acc: Seq<CaseView>)
    ensures
        cases_rest(toks, q, acc) == ({
    if !(0 <= q < toks.len()) {
        Err(arbitrary())
    } else if toks[q] is RBrace || toks[q] is Eof {
        Ok((acc, q))
    } else if toks[q] is Case {
        let cl = toks[q].loc();
        match expression_spec(toks, q + 1) {
            Err(e) => Err(e),
            Ok((v, q1)) => match expect_at(toks, q1, toks[q1] is Colon, "Expected ':' after case value"@) {
                Err(e) => Err(e),
                Ok(q2) => if !past(toks, q, q2) {
                    Err(arbitrary())
                } else {
                    match case_rest(toks, q2, Seq::empty()) {
                        Err(e) => Err(e),
                        Ok((ss, q3)) => if ahead(toks, q2, q3) {
                            cases_rest(
                                toks,
                                q3,
                                acc.push(CaseView::Case { value: Box::new(v), statements: ss, location: cl }),
                            )
                        } else {
                            Err(arbitrary())
                        },
                    }
                },
            },
        }
    } else if toks[q] is Default {
        let dl = toks[q].loc();
        match expect_at(toks, q + 1, toks[q + 1] is Colon, "Expected ':' after 'default'"@) {
            Err(e) => Err(e),
            Ok(q2) => if !past(toks, q, q2) {
                Err(arbitrary())
            } else {
                match case_rest(toks, q2, Seq::empty()) {
                    Err(e) => Err(e),
                    Ok((ss, q3)) => if ahead(toks, q2, q3) {
                        cases_rest(toks, q3, acc.push(CaseView::Default { statements: ss, location: dl }))
                    } else {
                        Err(arbitrary())
                    },
                }
            },
        }
    } else {
        Err(("Expected 'case' or 'default' in switch body"@, toks[q].loc()))
    }
        }),
{
}

/// One unfolding of [`switch_spec`].
pub proof fn unfold_switch_spec(toks: Seq<SpecToken>, p: int)
    ensures
        switch_spec(toks, p) == ({
    if !(0 < p < toks.len()) {
        Err(arbitrary())
    } else {
        let loc = toks[p - 1].loc();
        match expect_at(toks, p, toks[p] is LParen, "Expected '(' after 'switch'"@) {
            Err(e) => Err(e),
            Ok(p1) => match expression_spec(toks, p1) {
                Err(e) => Err(e),
                Ok((x, p2)) => match expect_at(toks, p2, toks[p2] is RParen, "Expected ')' after switch expression"@) {
                    Err(e) => Err(e),
                    Ok(p3) => match expect_at(toks, p3, toks[p3] is LBrace, "Expected '{' before switch body"@) {
                        Err(e) => Err(e),
                        Ok(p4) => if !past(toks, p, p4) {
                            Err(arbitrary())
                        } else {
                            switch_tail(toks, x, loc, cases_rest(toks, p4, Seq::empty()))
                        },
                    },
                },
            },
        }
    }
        }),
{
}

/// One unfolding of [`var_decl_spec`].
pub proof fn unfold_var_decl_spec(toks: Seq<SpecToken>, p: int)
    ensures
        var_decl_spec(toks, p) == ({
    match type_spec(toks, p) {
        Err(e) => Err(e),
        Ok((t, q)) => if !ahead(toks, p, q) {
            Err(arbitrary())
        } else {
            match ident_at(toks, q) {
                Err(e) => Err(e),
                Ok((name, q1)) => if !past(toks, p, q1) {
                    Err(arbitrary())
                } else {
                    let loc = toks[q].loc();
                    var_decl_tail(toks, q1, name, t, loc, dims_rest(toks, q1, t.array_dims))
                },
            }
        },
    }
        }),
{
}

/// One unfolding of [`block_rest`].
pub proof fn unfold_block_rest(toks: Seq<SpecToken>, q: int, acc: Seq<NodeView>)
    ensures
        block_rest(toks, q, acc) == ({
    if !(0 <= q < toks.len()) {
        Err(arbitrary())
    } else if toks[q] is RBrace || toks[q] is Eof {
        Ok((acc, q))
    } else {
        match statement_spec(toks, q) {
            Err(e) => Err(e),
            Ok((s, q2)) => if past(toks, q, q2) {
                block_rest(toks, q2, acc.push(s))
            } else {
                Err(arbitrary())
            },
        }
    }
        }),
{
}

/// One unfolding of [`stmt_or_block_spec`].
pub proof fn unfold_stmt_or_block_spec(toks: Seq<SpecToken>, p: int)
    ensures
        stmt_or_block_spec(toks, p) == ({
    if !(0 <= p < toks.len()) {
        Err(arbitrary())
    } else if toks[p] is LBrace {
        match block_rest(toks, p + 1, Seq::empty()) {
            Err(e) => Err(e),
            Ok((ss, q)) => match expect_at(toks, q, toks[q] is RBrace, "Expected '}' after block"@) {
                Err(e) => Err(e),
                Ok(q2) => Ok((ss, q2)),
            },
        }
    } else {
        match statement_spec(toks, p) {
            Err(e) => Err(e),
            Ok((s, q)) => Ok((seq![s], q)),
        }
    }
        }),
{
}

/// One unfolding of [`fields_rest`].
pub proof fn unfold_fields_rest(toks: Seq<SpecToken>, q: int, acc: Seq<(Seq<char>, TypeView)>)
    ensures
        fields_rest(toks, q, acc) == ({
    if !(0 <= q < toks.len()) {
        Err(arbitrary())
    } else if toks[q] is RBrace {
        Ok((acc, q))
    } else {
        match type_spec(toks, q) {
            Err(e) => Err(e),
            Ok((t, q1)) => match ident_at(toks, q1) {
                Err(e) => Err(e),
                Ok((n, q2)) => match expect_at(toks, q2, toks[q2] is Semicolon, "Expected ';' after struct field"@) {
                    Err(e) => Err(e),
                    Ok(q3) => if past(toks, q, q3) {
                        fields_rest(toks, q3, acc.push((n, t)))
                    } else {
                        Err(arbitrary())
                    },
                },
            },
        }
    }
        }),
{
}

/// One unfolding of [`struct_def_spec`].
pub proof fn unfold_struct_def_spec(toks: Seq<SpecToken>, p: int)
    ensures
        struct_def_spec(toks, p) == ({
    if !(0 < p < toks.len()) {
        Err(arbitrary())
    } else {
        let loc = toks[p - 1].loc();
        match ident_at(toks, p) {
            Err(e) => Err(e),
            Ok((name, q)) => match expect_at(toks, q, toks[q] is LBrace, "Expected '{' after struct name"@) {
                Err(e) => Err(e),
                Ok(q1) => if !past(toks, p, q1) {
                    Err(arbitrary())
                } else {
                    struct_tail(toks, name, loc, fields_rest(toks, q1, Seq::empty()))
                },
            },
        }
    }
        }),
{
}

/// One unfolding of [`params_rest`].
pub proof fn unfold_params_rest(toks: Seq<SpecToken>, q: int, acc: Seq<(Seq<char>, TypeView)>)
    ensures
        params_rest(toks, q, acc) == ({
    if !(0 <= q < toks.len()) {
        Err(arbitrary())
    } else {
        match type_spec(toks, q) {
            Err(e) => Err(e),
            Ok((t, q1)) => match ident_at(toks, q1) {
                Err(e) => Err(e),
                Ok((n, q2)) => if !past(toks, q, q2) {
                    Err(arbitrary())
                } else if toks[q2] is Comma {
                    params_rest(toks, q2 + 1, acc.push((n, t)))
                } else {
                    Ok((acc.push((n, t)), q2))
                },
            },
        }
    }
        }),
{
}

/// One unfolding of [`params_spec`].
pub proof fn unfold_params_spec(toks: Seq<SpecToken>, p: int)
    ensures
        params_spec(toks, p) == ({
    if !(0 <= p < toks.len()) {
        Err(arbitrary())
    } else if toks[p] is RParen {
        Ok((Seq::empty(), p))
    } else if toks[p] is Void {
        Ok((Seq::empty(), p + 1))
    } else {
        params_rest(toks, p, Seq::empty())
    }
        }),
{
}

/// One unfolding of [`function_def_spec`].
pub proof fn unfold_function_def_spec(toks: Seq<SpecToken>, p: int)
    ensures
        function_def_spec(toks, p) == ({
    match type_spec(toks, p) {
        Err(e) => Err(e),
        Ok((rt, q)) => if !ahead(toks, p, q) {
            Err(arbitrary())
        } else {
            match ident_at(toks, q) {
                Err(e) => Err(e),
                Ok((name, q1)) => {
                    let loc = toks[q].loc();
                    match expect_at(toks, q1, toks[q1] is LParen, "Expected '(' after function name"@) {
                        Err(e) => Err(e),
                        Ok(q2) => if !past(toks, p, q2) {
                            Err(arbitrary())
                        } else {
                            match params_spec(toks, q2) {
                                Err(e) => Err(e),
                                Ok((params, q3)) => match expect_at(
                                    toks,
                                    q3,
                                    toks[q3] is RParen,
                                    "Expected ')' after parameters"@,
                                ) {
                                    Err(e) => Err(e),
                                    Ok(q4) => match expect_at(
                                        toks,
                                        q4,
                                        toks[q4] is LBrace,
                                        "Expected '{' before function body"@,
                                    ) {
                                        Err(e) => Err(e),
                                        Ok(q5) => if !past(toks, p, q5) {
                                            Err(arbitrary())
                                        } else {
                                            match block_rest(toks, q5, Seq::empty()) {
                                                Err(e) => Err(e),
                                                Ok((body, q6)) => match expect_at(
                                                    toks,
                                                    q6,
                                                    toks[q6] is RBrace,
                                                    "Expected '}' after function body"@,
                                                ) {
                                                    Err(e) => Err(e),
                                                    Ok(q7) => Ok((
                                                        NodeView::FunctionDef {
                                                            name,
                                                            params,
                                                            body,
                                                            return_type: rt,
                                                            location: loc,
                                                        },
                                                        q7,
                                                    )),
                                                },
                                            }
                                        },
                                    },
                                },
                            }
                        },
                    }
                },
            }
        },
    }
        }),
{
}

/// One unfolding of [`top_level_spec`].
pub proof fn unfold_top_level_spec(toks: Seq<SpecToken>, p: int)
    ensures
        top_level_spec(toks, p) == ({
    if !(0 <= p && p + 2 < toks.len()) {
        function_def_spec(toks, p)
    } else if toks[p] is Struct && toks[p + 1] is Ident && toks[p + 2] is LBrace {
        struct_def_spec(toks, p + 1)
    } else {
        function_def_spec(toks, p)
    }
        }),
{
}

/// One unfolding of [`program_rest`].
pub proof fn unfold_program_rest(toks: Seq<SpecToken>, q: int, acc: Seq<NodeView>)
    ensures
        program_rest(toks, q, acc) == ({
    if !(0 <= q < toks.len()) {
        Err(arbitrary())
    } else if toks[q] is Eof {
        Ok((acc, q))
    } else {
        match top_level_spec(toks, q) {
            Err(e) => Err(e),
            Ok((d, q2)) => if past(toks, q, q2) {
                program_rest(toks, q2, acc.push(d))
            } else {
                Err(arbitrary())
            },
        }
    }
        }),
{
}

} // verus!
