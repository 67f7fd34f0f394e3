//! Laws of the types of expressions: what taking an address and
//! dereferencing do to a type.
use vstd::prelude::*;
use crate::interpreter::engine::FunctionDef;
use crate::interpreter::type_system::{expr_type, InferFailure};
use crate::memory::stack::LocalVar;
use crate::parser::ast::{AstNode, BaseView, BinOp, SourceLocation, StructDef, TypeView, UnOp};

verus! {

/// `op` applied to `e`.
pub open spec fn unary(op: UnOp, e: AstNode, loc: SourceLocation) -> AstNode {
    AstNode::UnaryOp { op, operand: Box::new(e), location: loc }
}

/// Dereferencing an expression of a pointer type takes one level of
/// pointer away and keeps the rest of the type.
pub proof fn law_deref_removes_one_pointer(
    frame: Option<Map<Seq<char>, LocalVar>>,
    defs: Seq<StructDef>,
    funcs: Map<Seq<char>, FunctionDef>,
    e: AstNode,
    loc: SourceLocation,
    t: TypeView,
)
    requires
        expr_type(frame, defs, funcs, e) == Ok::<TypeView, InferFailure>(t),
        t.pointer_depth > 0,
    ensures
        expr_type(frame, defs, funcs, unary(UnOp::Deref, e, loc)) matches Ok(d) && d.pointer_depth + 1
            == t.pointer_depth && d.base == t.base && d.is_const == t.is_const && d.array_dims
            == t.array_dims,
{
}

/// Dereferencing an expression of a type that is no pointer fails.
pub proof fn law_deref_needs_a_pointer(
    frame: Option<Map<Seq<char>, LocalVar>>,
    defs: Seq<StructDef>,
    funcs: Map<Seq<char>, FunctionDef>,
    e: AstNode,
    loc: SourceLocation,
    t: TypeView,
)
    requires
        expr_type(frame, defs, funcs, e) == Ok::<TypeView, InferFailure>(t),
        t.pointer_depth == 0,
    ensures
        expr_type(frame, defs, funcs, unary(UnOp::Deref, e, loc)) is Err,
{
}

/// Taking an address adds one level of pointer and keeps the rest of the
/// type.
pub proof fn law_address_adds_one_pointer(
    frame: Option<Map<Seq<char>, LocalVar>>,
    defs: Seq<StructDef>,
    funcs: Map<Seq<char>, FunctionDef>,
    e: AstNode,
    loc: SourceLocation,
    t: TypeView,
)
    requires
        expr_type(frame, defs, funcs, e) == Ok::<TypeView, InferFailure>(t),
        t.pointer_depth < usize::MAX,
    ensures
        expr_type(frame, defs, funcs, unary(UnOp::AddrOf, e, loc)) matches Ok(a) && a.pointer_depth
            == t.pointer_depth + 1 && a.base == t.base && a.is_const == t.is_const && a.array_dims
            == t.array_dims,
{
}

/// `*&e` has the type of `e`.
pub proof fn law_deref_undoes_address(
    frame: Option<Map<Seq<char>, LocalVar>>,
    defs: Seq<StructDef>,
    funcs: Map<Seq<char>, FunctionDef>,
    e: AstNode,
    l1: SourceLocation,
    l2: SourceLocation,
)
    requires
        expr_type(frame, defs, funcs, e) matches Ok(t) && t.pointer_depth < usize::MAX,
    ensures
        expr_type(frame, defs, funcs, unary(UnOp::Deref, unary(UnOp::AddrOf, e, l1), l2)) == expr_type(
            frame,
            defs,
            funcs,
            e,
        ),
{
    let t = expr_type(frame, defs, funcs, e)->Ok_0;
    assert(expr_type(frame, defs, funcs, unary(UnOp::AddrOf, e, l1)) == Ok::<TypeView, InferFailure>(
        TypeView { pointer_depth: t.pointer_depth + 1, ..t },
    ));
    assert(TypeView { pointer_depth: t.pointer_depth, ..t } == t);
}


/// `l op r`.
pub open spec fn binary(op: BinOp, l: AstNode, r: AstNode, loc: SourceLocation) -> AstNode {
    AstNode::BinaryOp { op, left: Box::new(l), right: Box::new(r), location: loc }
}

/// Adding an integer to a pointer, on either side, or subtracting one from
/// it, gives the pointer's type.
pub proof fn law_pointer_arithmetic_keeps_the_pointer_type(
    frame: Option<Map<Seq<char>, LocalVar>>,
    defs: Seq<StructDef>,
    funcs: Map<Seq<char>, FunctionDef>,
    p: AstNode,
    n: AstNode,
    loc: SourceLocation,
    pt: TypeView,
    nt: TypeView,
)
    requires
        expr_type(frame, defs, funcs, p) == Ok::<TypeView, InferFailure>(pt),
        expr_type(frame, defs, funcs, n) == Ok::<TypeView, InferFailure>(nt),
        pt.pointer_depth > 0,
        nt.pointer_depth == 0,
    ensures
        expr_type(frame, defs, funcs, binary(BinOp::Add, p, n, loc)) == Ok::<TypeView, InferFailure>(pt),
        expr_type(frame, defs, funcs, binary(BinOp::Add, n, p, loc)) == Ok::<TypeView, InferFailure>(pt),
        expr_type(frame, defs, funcs, binary(BinOp::Sub, p, n, loc)) == Ok::<TypeView, InferFailure>(pt),
{
}

/// Indexing a pointer that is no array has the type of dereferencing it.
pub proof fn law_index_of_pointer_is_deref(
    frame: Option<Map<Seq<char>, LocalVar>>,
    defs: Seq<StructDef>,
    funcs: Map<Seq<char>, FunctionDef>,
    e: AstNode,
    i: AstNode,
    l1: SourceLocation,
    l2: SourceLocation,
)
    requires
        expr_type(frame, defs, funcs, e) matches Ok(t) && t.array_dims.len() == 0 && t.pointer_depth > 0,
    ensures
        expr_type(
            frame,
            defs,
            funcs,
            AstNode::ArrayAccess { array: Box::new(e), index: Box::new(i), location: l1 },
        ) == expr_type(frame, defs, funcs, unary(UnOp::Deref, e, l2)),
{
}

/// Comparisons and logical operators give an `int`, whatever their
/// operands.
pub proof fn law_comparisons_give_int(
    frame: Option<Map<Seq<char>, LocalVar>>,
    defs: Seq<StructDef>,
    funcs: Map<Seq<char>, FunctionDef>,
    op: BinOp,
    l: AstNode,
    r: AstNode,
    loc: SourceLocation,
)
    requires
        op is Eq || op is Ne || op is Lt || op is Le || op is Gt || op is Ge || op is And || op is Or,
    ensures
        expr_type(frame, defs, funcs, binary(op, l, r, loc)) matches Ok(t) && t.base == BaseView::Int
            && t.pointer_depth == 0 && t.array_dims.len() == 0,
{
}

/// An integer literal is an `int`, a character literal a `char`, a string
/// literal a `char *` and `NULL` a `void *`.
pub proof fn law_literal_types(
    frame: Option<Map<Seq<char>, LocalVar>>,
    defs: Seq<StructDef>,
    funcs: Map<Seq<char>, FunctionDef>,
    n: i32,
    c: i8,
    s: String,
    loc: SourceLocation,
)
    ensures
        expr_type(frame, defs, funcs, AstNode::IntLiteral(n, loc)) matches Ok(t) && t.base == BaseView::Int
            && t.pointer_depth == 0,
        expr_type(frame, defs, funcs, AstNode::CharLiteral(c, loc)) matches Ok(t) && t.base == BaseView::Char
            && t.pointer_depth == 0,
        expr_type(frame, defs, funcs, AstNode::StringLiteral(s, loc)) matches Ok(t) && t.base
            == BaseView::Char && t.pointer_depth == 1,
        expr_type(frame, defs, funcs, AstNode::Null { location: loc }) matches Ok(t) && t.base
            == BaseView::Void && t.pointer_depth == 1,
{
}

} // verus!
