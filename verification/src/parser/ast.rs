//! Abstract syntax tree of the C subset.
use vstd::prelude::*;

verus! {

/// Source location information for error reporting
#[derive(Debug, Clone, Copy, PartialEq, Eq)]
pub struct SourceLocation {
    pub line: usize,
    pub column: usize,
}

impl SourceLocation {
    pub fn new(line: usize, column: usize) -> (r: Self)
        ensures
            r.line == line,
            r.column == column,
    {
        SourceLocation { line, column }
    }
}

/// Base types supported by the interpreter
#[derive(Debug, Clone, PartialEq, Eq)]
pub enum BaseType {
    Int,
    Char,
    Void,
    Struct(String),  // Struct name
}

/// Type representation with const qualifier, pointers, and arrays
#[derive(Debug, Clone, PartialEq, Eq)]
pub struct Type {
    pub base: BaseType,
    pub is_const: bool,
    pub pointer_depth: usize,  // 0 = not pointer, 1 = *, 2 = **, etc.
    pub array_dims: Vec<Option<usize>>,  // None for unsized dimension (function params)
}

impl Type {
    pub fn new(base: BaseType) -> (r: Self)
        ensures
            r.base == base,
            !r.is_const,
            r.pointer_depth == 0,
            r.array_dims@ == Seq::<Option<usize>>::empty(),
    {
        Type { base, is_const: false, pointer_depth: 0, array_dims: Vec::new() }
    }

    pub fn with_const(self) -> (r: Self)
        ensures
            r.base == self.base,
            r.is_const,
            r.pointer_depth == self.pointer_depth,
            r.array_dims@ == self.array_dims@,
    {
        let mut t = self;
        t.is_const = true;
        t
    }

    pub fn with_pointer(self) -> (r: Self)
        requires
            self.pointer_depth < usize::MAX,
        ensures
            r.base == self.base,
            r.is_const == self.is_const,
            r.pointer_depth == self.pointer_depth + 1,
            r.array_dims@ == self.array_dims@,
    {
        let mut t = self;
        t.pointer_depth = t.pointer_depth + 1;
        t
    }

    pub fn with_array(self, size: Option<usize>) -> (r: Self)
        ensures
            r.base == self.base,
            r.is_const == self.is_const,
            r.pointer_depth == self.pointer_depth,
            r.array_dims@ == self.array_dims@.push(size),
    {
        let mut t = self;
        t.array_dims.push(size);
        t
    }
}

/// Whether two types are the same: the same base (struct names compared by
/// their text), qualifier, pointer depth and array dimensions.
pub open spec fn same_type(a: Type, b: Type) -> bool {
    &&& match (a.base, b.base) {
        (BaseType::Struct(x), BaseType::Struct(y)) => x@ == y@,
        (x, y) => x == y,
    }
    &&& a.is_const == b.is_const
    &&& a.pointer_depth == b.pointer_depth
    &&& a.array_dims@ == b.array_dims@
}

/// A base type as a value, a struct named by its text.
pub enum BaseView {
    Int,
    Char,
    Void,
    Struct(Seq<char>),
}

/// A type as a value.
pub struct TypeView {
    pub base: BaseView,
    pub is_const: bool,
    pub pointer_depth: nat,
    pub array_dims: Seq<Option<usize>>,
}

pub open spec fn base_view(b: BaseType) -> BaseView {
    match b {
        BaseType::Int => BaseView::Int,
        BaseType::Char => BaseView::Char,
        BaseType::Void => BaseView::Void,
        BaseType::Struct(name) => BaseView::Struct(name@),
    }
}

impl View for Type {
    type V = TypeView;

    open spec fn view(&self) -> TypeView {
        TypeView {
            base: base_view(self.base),
            is_const: self.is_const,
            pointer_depth: self.pointer_depth as nat,
            array_dims: self.array_dims@,
        }
    }
}

impl Type {
    /// A copy of this type.
    pub fn duplicate(&self) -> (r: Type)
        ensures
            same_type(r, *self),
            r@ == self@,
    {
        let base = match &self.base {
            BaseType::Int => BaseType::Int,
            BaseType::Char => BaseType::Char,
            BaseType::Void => BaseType::Void,
            BaseType::Struct(name) => BaseType::Struct(name.clone()),
        };
        let mut dims: Vec<Option<usize>> = Vec::new();
        let mut i: usize = 0;
        while i < self.array_dims.len()
            invariant
                0 <= i <= self.array_dims@.len(),
                dims@ == self.array_dims@.take(i as int),
            decreases self.array_dims@.len() - i,
        {
            dims.push(self.array_dims[i]);
            assert(dims@ =~= self.array_dims@.take(i + 1));
            i = i + 1;
        }
        assert(dims@ =~= self.array_dims@);
        Type { base, is_const: self.is_const, pointer_depth: self.pointer_depth, array_dims: dims }
    }
}

/// Binary operators
#[derive(Debug, Clone, Copy, PartialEq, Eq)]
pub enum BinOp {
    // Arithmetic
    Add,
    Sub,
    Mul,
    Div,
    Mod,
    // Comparison
    Eq,
    Ne,
    Lt,
    Le,
    Gt,
    Ge,
    // Logical
    And,
    Or,
    // Bitwise
    BitAnd,
    BitOr,
    BitXor,
    BitShl,
    BitShr,
    // Compound assignment
    AddAssign,
    SubAssign,
    MulAssign,
    DivAssign,
    ModAssign,
}

/// Unary operators
#[derive(Debug, Clone, Copy, PartialEq, Eq)]
pub enum UnOp {
    Neg,  // -x
    Not,  // !x
    BitNot,  // ~x
    PreInc,  // ++x
    PreDec,  // --x
    PostInc,  // x++
    PostDec,  // x--
    Deref,  // *x
    AddrOf,  // &x
}

/// Function parameter
#[derive(Debug, Clone)]
pub struct Param {
    pub name: String,
    pub param_type: Type,
}

/// Struct field
#[derive(Debug, Clone)]
pub struct Field {
    pub name: String,
    pub field_type: Type,
}

/// Struct definition
#[derive(Debug, Clone)]
pub struct StructDef {
    pub name: String,
    pub fields: Vec<Field>,
}

/// Switch case
#[derive(Debug)]
pub enum CaseNode {
    Case { value: Box<AstNode>, statements: Vec<AstNode>, location: SourceLocation },
    Default { statements: Vec<AstNode>, location: SourceLocation },
}

/// AST nodes representing statements and expressions
#[derive(Debug)]
pub enum AstNode {
    FunctionDef {
        name: String,
        params: Vec<Param>,
        body: Vec<AstNode>,
        return_type: Type,
        location: SourceLocation,
    },
    StructDef {
        name: String,
        fields: Vec<Field>,
        location: SourceLocation,
    },
    VarDecl {
        name: String,
        var_type: Type,
        init: Option<Box<AstNode>>,
        location: SourceLocation,
    },
    Assignment {
        lhs: Box<AstNode>,
        rhs: Box<AstNode>,
        location: SourceLocation,
    },
    CompoundAssignment {
        lhs: Box<AstNode>,
        op: BinOp,
        rhs: Box<AstNode>,
        location: SourceLocation,
    },
    Return {
        expr: Option<Box<AstNode>>,
        location: SourceLocation,
    },
    If {
        condition: Box<AstNode>,
        then_branch: Vec<AstNode>,
        else_branch: Option<Vec<AstNode>>,
        location: SourceLocation,
    },
    While {
        condition: Box<AstNode>,
        body: Vec<AstNode>,
        location: SourceLocation,
    },
    DoWhile {
        body: Vec<AstNode>,
        condition: Box<AstNode>,
        location: SourceLocation,
    },
    For {
        init: Option<Box<AstNode>>,
        condition: Option<Box<AstNode>>,
        increment: Option<Box<AstNode>>,
        body: Vec<AstNode>,
        location: SourceLocation,
    },
    Switch {
        expr: Box<AstNode>,
        cases: Vec<CaseNode>,
        location: SourceLocation,
    },
    Break {
        location: SourceLocation,
    },
    Continue {
        location: SourceLocation,
    },
    Goto {
        label: String,
        location: SourceLocation,
    },
    Label {
        name: String,
        location: SourceLocation,
    },
    ExpressionStatement {
        expr: Box<AstNode>,
        location: SourceLocation,
    },
    IntLiteral(i32, SourceLocation),
    CharLiteral(i8, SourceLocation),
    StringLiteral(String, SourceLocation),
    Null {
        location: SourceLocation,
    },
    Variable(String, SourceLocation),
    BinaryOp {
        op: BinOp,
        left: Box<AstNode>,
        right: Box<AstNode>,
        location: SourceLocation,
    },
    UnaryOp {
        op: UnOp,
        operand: Box<AstNode>,
        location: SourceLocation,
    },
    TernaryOp {
        condition: Box<AstNode>,
        true_expr: Box<AstNode>,
        false_expr: Box<AstNode>,
        location: SourceLocation,
    },
    FunctionCall {
        name: String,
        args: Vec<AstNode>,
        location: SourceLocation,
    },
    ArrayAccess {
        array: Box<AstNode>,
        index: Box<AstNode>,
        location: SourceLocation,
    },
    MemberAccess {
        object: Box<AstNode>,
        member: String,
        location: SourceLocation,
    },
    PointerMemberAccess {
        object: Box<AstNode>,
        member: String,
        location: SourceLocation,
    },
    Cast {
        target_type: Type,
        expr: Box<AstNode>,
        location: SourceLocation,
    },
    SizeofType {
        target_type: Type,
        location: SourceLocation,
    },
    SizeofExpr {
        expr: Box<AstNode>,
        location: SourceLocation,
    },
}

impl AstNode {
    /// The source location recorded in a node.
    pub open spec fn loc(self) -> SourceLocation {
        match self {
            AstNode::FunctionDef { location, .. } => location,
            AstNode::StructDef { location, .. } => location,
            AstNode::VarDecl { location, .. } => location,
            AstNode::Assignment { location, .. } => location,
            AstNode::CompoundAssignment { location, .. } => location,
            AstNode::Return { location, .. } => location,
            AstNode::If { location, .. } => location,
            AstNode::While { location, .. } => location,
            AstNode::DoWhile { location, .. } => location,
            AstNode::For { location, .. } => location,
            AstNode::Switch { location, .. } => location,
            AstNode::Break { location, .. } => location,
            AstNode::Continue { location, .. } => location,
            AstNode::Goto { location, .. } => location,
            AstNode::Label { location, .. } => location,
            AstNode::ExpressionStatement { location, .. } => location,
            AstNode::IntLiteral(_, loc) => loc,
            AstNode::CharLiteral(_, loc) => loc,
            AstNode::StringLiteral(_, loc) => loc,
            AstNode::Null { location, .. } => location,
            AstNode::Variable(_, loc) => loc,
            AstNode::BinaryOp { location, .. } => location,
            AstNode::UnaryOp { location, .. } => location,
            AstNode::TernaryOp { location, .. } => location,
            AstNode::FunctionCall { location, .. } => location,
            AstNode::ArrayAccess { location, .. } => location,
            AstNode::MemberAccess { location, .. } => location,
            AstNode::PointerMemberAccess { location, .. } => location,
            AstNode::Cast { location, .. } => location,
            AstNode::SizeofType { location, .. } => location,
            AstNode::SizeofExpr { location, .. } => location,
        }
    }

    /// Get the source location of this node
    pub fn location(&self) -> (r: &SourceLocation)
        ensures
            *r == self.loc(),
    {
        match self {
            AstNode::FunctionDef { location, .. } => location,
            AstNode::StructDef { location, .. } => location,
            AstNode::VarDecl { location, .. } => location,
            AstNode::Assignment { location, .. } => location,
            AstNode::CompoundAssignment { location, .. } => location,
            AstNode::Return { location, .. } => location,
            AstNode::If { location, .. } => location,
            AstNode::While { location, .. } => location,
            AstNode::DoWhile { location, .. } => location,
            AstNode::For { location, .. } => location,
            AstNode::Switch { location, .. } => location,
            AstNode::Break { location, .. } => location,
            AstNode::Continue { location, .. } => location,
            AstNode::Goto { location, .. } => location,
            AstNode::Label { location, .. } => location,
            AstNode::ExpressionStatement { location, .. } => location,
            AstNode::IntLiteral(_, loc) => loc,
            AstNode::CharLiteral(_, loc) => loc,
            AstNode::StringLiteral(_, loc) => loc,
            AstNode::Null { location, .. } => location,
            AstNode::Variable(_, loc) => loc,
            AstNode::BinaryOp { location, .. } => location,
            AstNode::UnaryOp { location, .. } => location,
            AstNode::TernaryOp { location, .. } => location,
            AstNode::FunctionCall { location, .. } => location,
            AstNode::ArrayAccess { location, .. } => location,
            AstNode::MemberAccess { location, .. } => location,
            AstNode::PointerMemberAccess { location, .. } => location,
            AstNode::Cast { location, .. } => location,
            AstNode::SizeofType { location, .. } => location,
            AstNode::SizeofExpr { location, .. } => location,
        }
    }
}

/// Top-level program structure
#[derive(Debug)]
pub struct Program {
    pub nodes: Vec<AstNode>,  // All top-level declarations (FunctionDef, StructDef)
}

impl Program {
    pub fn new() -> (r: Self)
        ensures
            r.nodes@ == Seq::<AstNode>::empty(),
    {
        Program { nodes: Vec::new() }
    }
}

} // verus!
