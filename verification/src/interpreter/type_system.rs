//! Type inference for expressions, struct field lookup and value equality.
//!
//! The type of an expression is needed for `sizeof(expr)` and for the scale
//! of pointer arithmetic:
//!
//! - literals have their natural type (`int`, `char`, `char *` for strings,
//!   `void *` for `NULL`);
//! - variables have the type they were declared with in the current frame;
//! - `+` and `-` give the pointer type of a pointer operand, other binary
//!   operators `int`;
//! - dereferencing removes a pointer level, taking an address adds one;
//! - indexing removes an array dimension, or else a pointer level;
//! - member access gives the field's declared type.
use vstd::prelude::*;
use crate::interpreter::engine::FunctionDef;
use crate::interpreter::errors::RuntimeError;
use crate::interpreter::heap_serial::{base_type_debug, dims_debug, type_debug, type_string};
use crate::memory::names::NameMap;
use crate::memory::stack::{LocalVar, Stack, StackFrame};
use crate::memory::value::Value;
use crate::memory::{
    def_index, find_struct_def, lemma_offset_monotone, offset_of, size_known, sizeof_type,
};
use crate::parser::ast::{
    base_view, AstNode, BaseType, BaseView, BinOp, Field, SourceLocation, StructDef, Type,
    TypeView, UnOp,
};
use crate::text::decimal_digits;

verus! {

/// Whether two values are equal as `switch` compares them: integers,
/// characters and addresses by their value, `NULL` equal to itself and to
/// address zero.
pub open spec fn values_match(a: Value, b: Value) -> bool {
    match (a, b) {
        (Value::Int(x), Value::Int(y)) => x == y,
        (Value::Char(x), Value::Char(y)) => x == y,
        (Value::Pointer(x), Value::Pointer(y)) => x == y,
        (Value::Null, Value::Null) => true,
        (Value::Null, Value::Pointer(y)) => y == 0,
        (Value::Pointer(x), Value::Null) => x == 0,
        _ => false,
    }
}

/// Compare two values for equality
pub fn values_equal(a: &Value, b: &Value) -> (r: bool)
    ensures
        r == values_match(*a, *b),
{
    match (a, b) {
        (Value::Int(x), Value::Int(y)) => *x == *y,
        (Value::Char(x), Value::Char(y)) => *x == *y,
        (Value::Pointer(x), Value::Pointer(y)) => *x == *y,
        (Value::Null, Value::Null) => true,
        (Value::Null, Value::Pointer(y)) => *y == 0,
        (Value::Pointer(x), Value::Null) => *x == 0,
        _ => false,
    }
}

/// The index of the first field named `name`, if any.
pub open spec fn field_position(fields: Seq<Field>, name: Seq<char>) -> Option<int> {
    if exists|i: int|
        0 <= i < fields.len() && (#[trigger] fields[i]).name@ == name && forall|j: int|
            0 <= j < i ==> (#[trigger] fields[j]).name@ != name {
        Some(
            choose|i: int|
                0 <= i < fields.len() && (#[trigger] fields[i]).name@ == name && forall|j: int|
                    0 <= j < i ==> (#[trigger] fields[j]).name@ != name,
        )
    } else {
        None
    }
}

/// Why the type of an expression or field could not be found.
pub enum InferFailure {
    /// A variable looked up with no frame on the stack
    NoFrame(SourceLocation),
    /// A variable the current frame does not have
    Undefined(Seq<char>, SourceLocation),
    /// An operand of another kind of type than expected (described by the
    /// text), with the type it has
    Mismatch(Seq<char>, TypeView, SourceLocation),
    /// A call of a function that is not defined
    UnknownFunction(Seq<char>, SourceLocation),
    /// A struct with no definition
    UnknownStruct(Seq<char>, SourceLocation),
    /// A struct without the field
    MissingField(Seq<char>, Seq<char>, SourceLocation),
    /// A node that is no expression
    NotExpression,
    /// An address taken of a value whose pointer depth is already the
    /// largest a `usize` holds
    TooDeep,
}

/// How a base type is written in messages.
pub open spec fn base_view_text(b: BaseView) -> Seq<char> {
    match b {
        BaseView::Int => "Int"@,
        BaseView::Char => "Char"@,
        BaseView::Void => "Void"@,
        BaseView::Struct(name) => "Struct(\""@ + name + "\")"@,
    }
}

/// How a type is written in messages, field by field.
pub open spec fn type_view_text(t: TypeView) -> Seq<char> {
    "Type { base: "@ + base_view_text(t.base) + ", is_const: "@ + (if t.is_const {
        "true"@
    } else {
        "false"@
    }) + ", pointer_depth: "@ + decimal_digits(t.pointer_depth) + ", array_dims: ["@ + dims_debug(
        t.array_dims,
    ) + "] }"@
}

proof fn lemma_type_text(t: Type)
    ensures
        type_debug(t) == type_view_text(t@),
{
    assert(base_type_debug(t.base) == base_view_text(base_view(t.base)));
}

/// Whether a runtime error stands for a failed type lookup.
pub open spec fn is_infer_error(r: RuntimeError, f: InferFailure) -> bool {
    match f {
        InferFailure::NoFrame(l) => r == (RuntimeError::NoStackFrame { location: l }),
        InferFailure::Undefined(n, l) => r matches RuntimeError::UndefinedVariable {
            name,
            location,
        } && name@ == n && location == l,
        InferFailure::Mismatch(x, t, l) => r matches RuntimeError::TypeError {
            expected,
            got,
            location,
        } && expected@ == x && got@ == type_view_text(t) && location == l,
        InferFailure::UnknownFunction(n, l) => r matches RuntimeError::UndefinedFunction {
            name,
            location,
        } && name@ == n && location == l,
        InferFailure::UnknownStruct(n, l) => r matches RuntimeError::StructNotDefined {
            name,
            location,
        } && name@ == n && location == l,
        InferFailure::MissingField(s, n, l) => r matches RuntimeError::MissingStructField {
            struct_name,
            field_name,
            location,
        } && struct_name@ == s && field_name@ == n && location == l,
        InferFailure::NotExpression => r matches RuntimeError::UnsupportedOperation {
            message,
            location,
        } && "Cannot infer type of expression: "@.is_prefix_of(message@) && location == (
        SourceLocation { line: 1, column: 1 }),
        InferFailure::TooDeep => false,
    }
}

/// The declared type of the field `field` of the struct `s`.
pub open spec fn field_type_of(
    defs: Seq<StructDef>,
    s: Seq<char>,
    field: Seq<char>,
    location: SourceLocation,
) -> Result<TypeView, InferFailure> {
    match def_index(defs, s) {
        None => Err(InferFailure::UnknownStruct(s, location)),
        Some(d) => match field_position(defs[d].fields@, field) {
            Some(q) => Ok(defs[d].fields@[q].field_type@),
            None => Err(InferFailure::MissingField(s, field, location)),
        },
    }
}

/// The position of the first field named `field` in a list of fields, found
/// by looking at each in turn.
fn find_field(fields: &Vec<Field>, field: &String) -> (r: Option<usize>)
    ensures
        match field_position(fields@, field@) {
            None => r is None,
            Some(q) => r matches Some(i) && i == q,
        },
{
    let mut i: usize = 0;
    while i < fields.len()
        invariant
            0 <= i <= fields@.len(),
            forall|j: int| 0 <= j < i ==> (#[trigger] fields@[j]).name@ != field@,
        decreases fields@.len() - i,
    {
        if fields[i].name == *field {
            proof {
                let k = choose|k: int|
                    0 <= k < fields@.len() && (#[trigger] fields@[k]).name@ == field@ && forall|
                        j: int,
                    | 0 <= j < k ==> (#[trigger] fields@[j]).name@ != field@;
                assert(fields@[i as int].name@ == field@);
                if k < i {
                    assert(fields@[k].name@ != field@);
                } else if k > i {
                    assert(fields@[i as int].name@ != field@);
                }
            }
            return Some(i);
        }
        i = i + 1;
    }
    None
}

/// Get the type of a specific field within a struct
pub fn get_field_type(
    struct_defs: &[StructDef],
    struct_name: &String,
    field_name: &String,
    location: SourceLocation,
) -> (r: Result<Type, RuntimeError>)
    ensures
        match field_type_of(struct_defs@, struct_name@, field_name@, location) {
            Ok(t) => r matches Ok(ty) && ty@ == t,
            Err(f) => r matches Err(e) && is_infer_error(e, f),
        },
{
    let def = match find_struct_def(struct_defs, struct_name) {
        Some(d) => d,
        None => {
            return Err(RuntimeError::StructNotDefined { name: struct_name.clone(), location });
        },
    };
    let ghost d = def_index(struct_defs@, struct_name@)->Some_0;
    assert(*def == struct_defs@[d]);
    match find_field(&def.fields, field_name) {
        Some(q) => {
            let t = def.fields[q].field_type.duplicate();
            assert(t@ == struct_defs@[d].fields@[q as int].field_type@);
            Ok(t)
        },
        None => Err(
            RuntimeError::MissingStructField {
                struct_name: struct_name.clone(),
                field_name: field_name.clone(),
                location,
            },
        ),
    }
}

/// The number of fields laid out before the field `field` of a struct:
/// those before it, or all of them where there is no such field.
pub open spec fn fields_before(fields: Seq<Field>, field: Seq<char>) -> int {
    match field_position(fields, field) {
        Some(q) => q,
        None => fields.len() as int,
    }
}

/// Whether the sizes of the fields laid out before `field` in the struct `s`
/// are known and add up to a `usize`.
pub open spec fn offset_fits(defs: Seq<StructDef>, s: Seq<char>, field: Seq<char>) -> bool {
    match def_index(defs, s) {
        None => true,
        Some(d) => {
            let fields = defs[d].fields@;
            &&& forall|j: int|
                0 <= j < fields_before(fields, field) ==> size_known(
                    #[trigger] fields[j].field_type,
                    defs,
                )
            &&& offset_of(fields, defs, fields_before(fields, field)) <= usize::MAX
        },
    }
}

/// Calculate the byte offset of a field within a struct
/// Uses sequential packing (no padding/alignment)
pub fn calculate_field_offset(
    struct_defs: &[StructDef],
    struct_name: &String,
    field_name: &String,
    location: SourceLocation,
) -> (r: Result<usize, RuntimeError>)
    requires
        offset_fits(struct_defs@, struct_name@, field_name@),
    ensures
        match def_index(struct_defs@, struct_name@) {
            None => r matches Err(RuntimeError::StructNotDefined { name, location: l })
                && name@ == struct_name@ && l == location,
            Some(d) => match field_position(struct_defs@[d].fields@, field_name@) {
                Some(q) => r == Ok::<usize, RuntimeError>(
                    offset_of(struct_defs@[d].fields@, struct_defs@, q) as usize,
                ),
                None => r matches Err(
                    RuntimeError::MissingStructField { struct_name: s, field_name: f, location: l },
                ) && s@ == struct_name@ && f@ == field_name@ && l == location,
            },
        },
{
    let def = match find_struct_def(struct_defs, struct_name) {
        Some(d) => d,
        None => {
            return Err(RuntimeError::StructNotDefined { name: struct_name.clone(), location });
        },
    };
    let ghost d = def_index(struct_defs@, struct_name@)->Some_0;
    let ghost fields = def.fields@;
    let ghost stop = fields_before(fields, field_name@);
    let mut offset: usize = 0;
    let mut i: usize = 0;
    while i < def.fields.len()
        invariant
            0 <= i <= fields.len(),
            fields == def.fields@,
            *def == struct_defs@[d],
            def_index(struct_defs@, struct_name@) == Some(d),
            offset_fits(struct_defs@, struct_name@, field_name@),
            stop == fields_before(fields, field_name@),
            i <= stop,
            offset == offset_of(fields, struct_defs@, i as int),
            forall|j: int| 0 <= j < i ==> (#[trigger] fields[j]).name@ != field_name@,
        decreases fields.len() - i,
    {
        if def.fields[i].name == *field_name {
            proof {
                let k = choose|k: int|
                    0 <= k < fields.len() && (#[trigger] fields[k]).name@ == field_name@ && forall|
                        j: int,
                    | 0 <= j < k ==> (#[trigger] fields[j]).name@ != field_name@;
                assert(fields[i as int].name@ == field_name@);
                if k < i {
                    assert(fields[k].name@ != field_name@);
                } else if k > i {
                    assert(fields[i as int].name@ != field_name@);
                }
            }
            return Ok(offset);
        }
        proof {
            if field_position(fields, field_name@) == Some(i as int) {
                assert(fields[i as int].name@ == field_name@);
            }
            assert(i < stop) by {
                if let Some(q) = field_position(fields, field_name@) {
                    assert(fields[q].name@ == field_name@);
                    if q < i {
                        assert(fields[q].name@ != field_name@);
                    }
                }
            }
            assert(size_known(fields[i as int].field_type, struct_defs@));
            lemma_offset_monotone(fields, struct_defs@, i + 1, stop);
        }
        let size = sizeof_type(&def.fields[i].field_type, struct_defs);
        offset = offset + size;
        i = i + 1;
    }
    proof {
        if let Some(q) = field_position(fields, field_name@) {
            assert(fields[q].name@ == field_name@);
            assert(false);
        }
    }
    Err(
        RuntimeError::MissingStructField {
            struct_name: struct_name.clone(),
            field_name: field_name.clone(),
            location,
        },
    )
}

/// A type with no qualifier, pointer or array dimension.
pub open spec fn plain(b: BaseView) -> TypeView {
    TypeView { base: b, is_const: false, pointer_depth: 0, array_dims: Seq::empty() }
}

/// A type with its pointer depth changed to `d`.
pub open spec fn with_depth(t: TypeView, d: nat) -> TypeView {
    TypeView { pointer_depth: d, ..t }
}

/// The variables of the current (innermost) frame, if there is one.
pub open spec fn current_locals(frames: Seq<StackFrame>) -> Option<Map<Seq<char>, LocalVar>> {
    if frames.len() == 0 {
        None
    } else {
        Some(frames.last()@.locals)
    }
}

/// The type of an expression, given the variables of the current frame, the
/// struct definitions and the functions by name.
pub open spec fn expr_type(
    frame: Option<Map<Seq<char>, LocalVar>>,
    defs: Seq<StructDef>,
    funcs: Map<Seq<char>, FunctionDef>,
    e: AstNode,
) -> Result<TypeView, InferFailure>
    decreases e,
{
    match e {
        AstNode::IntLiteral(_, _) => Ok(plain(BaseView::Int)),
        AstNode::CharLiteral(_, _) => Ok(plain(BaseView::Char)),
        AstNode::StringLiteral(_, _) => Ok(with_depth(plain(BaseView::Char), 1)),
        AstNode::Null { .. } => Ok(with_depth(plain(BaseView::Void), 1)),
        AstNode::Variable(name, location) => match frame {
            None => Err(InferFailure::NoFrame(location)),
            Some(locals) => if locals.contains_key(name@) {
                Ok(locals[name@].var_type@)
            } else {
                Err(InferFailure::Undefined(name@, location))
            },
        },
        AstNode::BinaryOp { op, left, right, .. } => if op == BinOp::Add || op == BinOp::Sub {
            match expr_type(frame, defs, funcs, *left) {
                Err(f) => Err(f),
                Ok(lt) => match expr_type(frame, defs, funcs, *right) {
                    Err(f) => Err(f),
                    Ok(rt) => if lt.pointer_depth > 0 {
                        Ok(lt)
                    } else if rt.pointer_depth > 0 {
                        Ok(rt)
                    } else {
                        Ok(plain(BaseView::Int))
                    },
                },
            }
        } else {
            Ok(plain(BaseView::Int))
        },
        AstNode::UnaryOp { op, operand, location } => match op {
            UnOp::Deref => match expr_type(frame, defs, funcs, *operand) {
                Err(f) => Err(f),
                Ok(t) => if t.pointer_depth == 0 {
                    Err(InferFailure::Mismatch("pointer"@, t, location))
                } else {
                    Ok(with_depth(t, (t.pointer_depth - 1) as nat))
                },
            },
            UnOp::AddrOf => match expr_type(frame, defs, funcs, *operand) {
                Err(f) => Err(f),
                Ok(t) => if t.pointer_depth >= usize::MAX {
                    Err(InferFailure::TooDeep)
                } else {
                    Ok(with_depth(t, t.pointer_depth + 1))
                },
            },
            UnOp::Neg | UnOp::BitNot | UnOp::Not => Ok(plain(BaseView::Int)),
            _ => expr_type(frame, defs, funcs, *operand),
        },
        AstNode::TernaryOp { true_expr, .. } => expr_type(frame, defs, funcs, *true_expr),
        AstNode::FunctionCall { name, location, .. } => if funcs.contains_key(name@) {
            Ok(funcs[name@].return_type@)
        } else {
            Err(InferFailure::UnknownFunction(name@, location))
        },
        AstNode::ArrayAccess { array, location, .. } => match expr_type(frame, defs, funcs, *array) {
            Err(f) => Err(f),
            Ok(t) => if t.array_dims.len() > 0 {
                Ok(TypeView { array_dims: t.array_dims.drop_first(), ..t })
            } else if t.pointer_depth > 0 {
                Ok(with_depth(t, (t.pointer_depth - 1) as nat))
            } else {
                Err(InferFailure::Mismatch("array or pointer"@, t, location))
            },
        },
        AstNode::MemberAccess { object, member, location } => match expr_type(
            frame,
            defs,
            funcs,
            *object,
        ) {
            Err(f) => Err(f),
            Ok(t) => match t.base {
                BaseView::Struct(s) => field_type_of(defs, s, member@, location),
                _ => Err(InferFailure::Mismatch("struct"@, t, location)),
            },
        },
        AstNode::PointerMemberAccess { object, member, location } => match expr_type(
            frame,
            defs,
            funcs,
            *object,
        ) {
            Err(f) => Err(f),
            Ok(t) => if t.pointer_depth == 0 {
                Err(InferFailure::Mismatch("pointer"@, t, location))
            } else {
                match t.base {
                    BaseView::Struct(s) => field_type_of(defs, s, member@, location),
                    _ => Err(InferFailure::Mismatch("struct pointer"@, t, location)),
                }
            },
        },
        AstNode::Cast { target_type, .. } => Ok(target_type@),
        AstNode::SizeofType { .. } | AstNode::SizeofExpr { .. } => Ok(plain(BaseView::Int)),
        _ => Err(InferFailure::NotExpression),
    }
}

/// The message for a node that has no type, with the node written by its
/// `Debug` rendering (std's `format!` on the impl `derive` writes). Only the
/// fixed text it starts with is stated.
#[verifier::external_body]
fn no_type_message(expr: &AstNode) -> (r: String)
    ensures
        "Cannot infer type of expression: "@.is_prefix_of(r@),
{
    format!("Cannot infer type of expression: {:?}", expr)
}

fn mismatch(expected: &str, t: &Type, location: SourceLocation) -> (e: RuntimeError)
    ensures
        is_infer_error(e, InferFailure::Mismatch(expected@, t@, location)),
{
    proof {
        lemma_type_text(*t);
    }
    RuntimeError::TypeError { expected: String::from_str(expected), got: type_string(t), location }
}

/// Infer the type of an expression
/// This is needed for sizeof(expr) to work properly
pub fn infer_expr_type(
    stack: &Stack,
    struct_defs: &[StructDef],
    functions: &NameMap<FunctionDef>,
    expr: &AstNode,
) -> (r: Result<Type, RuntimeError>)
    requires
        stack.wf(),
        functions.wf(),
        !(expr_type(current_locals(stack@), struct_defs@, functions@, *expr) matches Err(
            InferFailure::TooDeep,
        )),
    ensures
        match expr_type(current_locals(stack@), struct_defs@, functions@, *expr) {
            Ok(t) => r matches Ok(ty) && ty@ == t,
            Err(f) => r matches Err(e) && is_infer_error(e, f),
        },
    decreases expr,
{
    match expr {
        AstNode::IntLiteral(_, _) => Ok(Type::new(BaseType::Int)),
        AstNode::CharLiteral(_, _) => Ok(Type::new(BaseType::Char)),
        AstNode::StringLiteral(_, _) => Ok(Type::new(BaseType::Char).with_pointer()),
        AstNode::Null { .. } => Ok(Type::new(BaseType::Void).with_pointer()),
        AstNode::Variable(name, location) => {
            let frame = match stack.current_frame() {
                Some(f) => f,
                None => {
                    return Err(RuntimeError::NoStackFrame { location: *location });
                },
            };
            match frame.get_var(name.as_str()) {
                Some(var) => Ok(var.var_type.duplicate()),
                None => Err(RuntimeError::UndefinedVariable { name: name.clone(), location: *location }),
            }
        },
        AstNode::BinaryOp { op, left, right, .. } => {
            match op {
                BinOp::Add | BinOp::Sub => {
                    let left_type = infer_expr_type(stack, struct_defs, functions, left)?;
                    let right_type = infer_expr_type(stack, struct_defs, functions, right)?;
                    if left_type.pointer_depth > 0 {
                        Ok(left_type)
                    } else if right_type.pointer_depth > 0 {
                        Ok(right_type)
                    } else {
                        Ok(Type::new(BaseType::Int))
                    }
                },
                _ => Ok(Type::new(BaseType::Int)),
            }
        },
        AstNode::UnaryOp { op, operand, location } => {
            match op {
                UnOp::Deref => {
                    let operand_type = infer_expr_type(stack, struct_defs, functions, operand)?;
                    if operand_type.pointer_depth == 0 {
                        return Err(mismatch("pointer", &operand_type, *location));
                    }
                    let mut result_type = operand_type;
                    result_type.pointer_depth = result_type.pointer_depth - 1;
                    Ok(result_type)
                },
                UnOp::AddrOf => {
                    let operand_type = infer_expr_type(stack, struct_defs, functions, operand)?;
                    let mut result_type = operand_type;
                    result_type.pointer_depth = result_type.pointer_depth + 1;
                    Ok(result_type)
                },
                UnOp::Neg | UnOp::BitNot | UnOp::Not => Ok(Type::new(BaseType::Int)),
                _ => infer_expr_type(stack, struct_defs, functions, operand),
            }
        },
        AstNode::TernaryOp { true_expr, .. } => infer_expr_type(
            stack,
            struct_defs,
            functions,
            true_expr,
        ),
        AstNode::FunctionCall { name, location, .. } => {
            match functions.get(name.as_str()) {
                Some(func_def) => Ok(func_def.return_type.duplicate()),
                None => Err(RuntimeError::UndefinedFunction { name: name.clone(), location: *location }),
            }
        },
        AstNode::ArrayAccess { array, location, .. } => {
            let array_type = infer_expr_type(stack, struct_defs, functions, array)?;
            if array_type.array_dims.len() > 0 {
                let mut result_type = array_type;
                result_type.array_dims.remove(0);
                Ok(result_type)
            } else if array_type.pointer_depth > 0 {
                let mut result_type = array_type;
                result_type.pointer_depth = result_type.pointer_depth - 1;
                Ok(result_type)
            } else {
                Err(mismatch("array or pointer", &array_type, *location))
            }
        },
        AstNode::MemberAccess { object, member, location } => {
            let object_type = infer_expr_type(stack, struct_defs, functions, object)?;
            match &object_type.base {
                BaseType::Struct(name) => get_field_type(struct_defs, name, member, *location),
                _ => Err(mismatch("struct", &object_type, *location)),
            }
        },
        AstNode::PointerMemberAccess { object, member, location } => {
            let pointer_type = infer_expr_type(stack, struct_defs, functions, object)?;
            if pointer_type.pointer_depth == 0 {
                return Err(mismatch("pointer", &pointer_type, *location));
            }
            match &pointer_type.base {
                BaseType::Struct(name) => get_field_type(struct_defs, name, member, *location),
                _ => Err(mismatch("struct pointer", &pointer_type, *location)),
            }
        },
        AstNode::Cast { target_type, .. } => Ok(target_type.duplicate()),
        AstNode::SizeofType { .. } | AstNode::SizeofExpr { .. } => Ok(Type::new(BaseType::Int)),
        _ => Err(
            RuntimeError::UnsupportedOperation {
                message: no_type_message(expr),
                location: SourceLocation::new(1, 1),
            },
        ),
    }
}

} // verus!
