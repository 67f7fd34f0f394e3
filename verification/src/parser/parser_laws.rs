//! Laws of the operators the parser reads: each operator token stands for
//! the operator with the same spelling in C.
use vstd::prelude::*;
use super::ast::{BinOp, UnOp};
use super::grammar::prefix_op;
use super::parser::{binary_op_at, compound_op};
use super::token::{describe_token, SpecToken};

verus! {

/// How a binary operator is written in C.
pub open spec fn c_spelling(op: BinOp) -> Seq<char> {
    match op {
        BinOp::Add => seq!['+'],
        BinOp::Sub => seq!['-'],
        BinOp::Mul => seq!['*'],
        BinOp::Div => seq!['/'],
        BinOp::Mod => seq!['%'],
        BinOp::Eq => seq!['=', '='],
        BinOp::Ne => seq!['!', '='],
        BinOp::Lt => seq!['<'],
        BinOp::Le => seq!['<', '='],
        BinOp::Gt => seq!['>'],
        BinOp::Ge => seq!['>', '='],
        BinOp::And => seq!['&', '&'],
        BinOp::Or => seq!['|', '|'],
        BinOp::BitAnd => seq!['&'],
        BinOp::BitOr => seq!['|'],
        BinOp::BitXor => seq!['^'],
        BinOp::BitShl => seq!['<', '<'],
        BinOp::BitShr => seq!['>', '>'],
        BinOp::AddAssign => seq!['+', '='],
        BinOp::SubAssign => seq!['-', '='],
        BinOp::MulAssign => seq!['*', '='],
        BinOp::DivAssign => seq!['/', '='],
        BinOp::ModAssign => seq!['%', '='],
    }
}

/// At every precedence level, the operator a token is read as is the one
/// spelled as the token is: the token is described as that spelling in
/// quotes (so `<=` is read as `<=`, never as `<`).
pub proof fn law_operator_tokens_keep_their_spelling(level: u8, t: SpecToken)
    requires
        binary_op_at(level, t) is Some,
    ensures
        describe_token(t) == seq!['\''] + c_spelling(binary_op_at(level, t)->Some_0) + seq!['\''],
{
    reveal_strlit("'*'");
    reveal_strlit("'/'");
    reveal_strlit("'%'");
    reveal_strlit("'+'");
    reveal_strlit("'-'");
    reveal_strlit("'<<'");
    reveal_strlit("'>>'");
    reveal_strlit("'<'");
    reveal_strlit("'<='");
    reveal_strlit("'>'");
    reveal_strlit("'>='");
    reveal_strlit("'=='");
    reveal_strlit("'!='");
    reveal_strlit("'&'");
    reveal_strlit("'^'");
    reveal_strlit("'|'");
    reveal_strlit("'&&'");
    reveal_strlit("'||'");
    let op = binary_op_at(level, t)->Some_0;
    assert(describe_token(t) =~= seq!['\''] + c_spelling(op) + seq!['\'']);
}

/// Different operator tokens at one level are read as different operators.
pub proof fn law_operator_tokens_are_distinct(level: u8, t: SpecToken, u: SpecToken)
    requires
        binary_op_at(level, t) is Some,
        binary_op_at(level, t) == binary_op_at(level, u),
    ensures
        describe_token(t) == describe_token(u),
{
    law_operator_tokens_keep_their_spelling(level, t);
    law_operator_tokens_keep_their_spelling(level, u);
}


/// The compound assignment a token is read as is the one spelled as the
/// token is.
pub proof fn law_compound_tokens_keep_their_spelling(t: SpecToken)
    requires
        compound_op(t) is Some,
    ensures
        describe_token(t) == seq!['\''] + c_spelling(compound_op(t)->Some_0) + seq!['\''],
{
    reveal_strlit("'+='");
    reveal_strlit("'-='");
    reveal_strlit("'*='");
    reveal_strlit("'/='");
    reveal_strlit("'%='");
    assert(describe_token(t) =~= seq!['\''] + c_spelling(compound_op(t)->Some_0) + seq!['\'']);
}

/// How a prefix operator is written in C.
pub open spec fn prefix_spelling(op: UnOp) -> Seq<char> {
    match op {
        UnOp::Neg => seq!['-'],
        UnOp::Not => seq!['!'],
        UnOp::BitNot => seq!['~'],
        UnOp::PreInc => seq!['+', '+'],
        UnOp::PreDec => seq!['-', '-'],
        UnOp::Deref => seq!['*'],
        UnOp::AddrOf => seq!['&'],
        UnOp::PostInc => seq!['+', '+'],
        UnOp::PostDec => seq!['-', '-'],
    }
}

/// The prefix operator a token is read as is the one spelled as the token
/// is, and it is never a postfix one.
pub proof fn law_prefix_tokens_keep_their_spelling(t: SpecToken)
    requires
        prefix_op(t) is Some,
    ensures
        describe_token(t) == seq!['\''] + prefix_spelling(prefix_op(t)->Some_0) + seq!['\''],
        !(prefix_op(t)->Some_0 is PostInc),
        !(prefix_op(t)->Some_0 is PostDec),
{
    reveal_strlit("'-'");
    reveal_strlit("'!'");
    reveal_strlit("'~'");
    reveal_strlit("'++'");
    reveal_strlit("'--'");
    reveal_strlit("'*'");
    reveal_strlit("'&'");
    assert(describe_token(t) =~= seq!['\''] + prefix_spelling(prefix_op(t)->Some_0) + seq!['\'']);
}


/// The precedence class of a binary operator in C, from the tightest
/// (1: `* / %`) to the loosest (10: `||`); assignments have none here.
pub open spec fn c_precedence(op: BinOp) -> int {
    match op {
        BinOp::Mul | BinOp::Div | BinOp::Mod => 1,
        BinOp::Add | BinOp::Sub => 2,
        BinOp::BitShl | BinOp::BitShr => 3,
        BinOp::Lt | BinOp::Le | BinOp::Gt | BinOp::Ge => 4,
        BinOp::Eq | BinOp::Ne => 5,
        BinOp::BitAnd => 6,
        BinOp::BitXor => 7,
        BinOp::BitOr => 8,
        BinOp::And => 9,
        BinOp::Or => 10,
        _ => 0,
    }
}

/// A token is read as a binary operator only at the level of that
/// operator's precedence in C.
pub proof fn law_operators_sit_at_their_precedence(level: u8, t: SpecToken)
    ensures
        binary_op_at(level, t) matches Some(op) ==> level == c_precedence(op),
{
}

} // verus!
