//! Runtime value representation
//!
//! This module defines the [`Value`] enum, which represents all possible runtime values
//! in the C interpreter. Unlike C's raw memory model, values are tagged and type-safe.
//!
//! # Value Types
//!
//! - [`Value::Int`]: 32-bit signed integer
//! - [`Value::Char`]: 8-bit signed character
//! - [`Value::Pointer`]: 64-bit memory address
//! - [`Value::Null`]: Null pointer (address 0)
//! - [`Value::Struct`]: Struct with named fields, in declaration order
//! - [`Value::Array`]: Fixed-size array of values
//! - [`Value::Uninitialized`]: Marker for uninitialized memory
//!
//! # Initialization Tracking
//!
//! The `Uninitialized` variant enables detection of reads from uninitialized memory,
//! a common source of undefined behavior in C.
use vstd::prelude::*;
use crate::text::{decimal_digits, int_text, push_decimal, push_int};

verus! {

/// Memory address type (64-bit)
pub type Address = u64;

/// Runtime values in the interpreter
#[derive(Debug)]
pub enum Value {
    Int(i32),
    Char(i8),
    Pointer(Address),
    Null,
    Struct(Vec<(String, Value)>),  // Field name -> field value, one entry per field
    Array(Vec<Value>),
    Uninitialized,  // Special marker for uninitialized memory
}

impl Default for Value {
    fn default() -> (r: Self)
        ensures
            r is Uninitialized,
    {
        Value::Uninitialized
    }
}

/// The mathematical value of a runtime value.
pub enum ValueView {
    Int(i32),
    Char(i8),
    Pointer(u64),
    Null,
    Struct(Seq<(Seq<char>, ValueView)>),
    Array(Seq<ValueView>),
    Uninitialized,
}

pub open spec fn value_view(v: Value) -> ValueView
    decreases v, 0nat,
{
    match v {
        Value::Int(n) => ValueView::Int(n),
        Value::Char(c) => ValueView::Char(c),
        Value::Pointer(a) => ValueView::Pointer(a),
        Value::Null => ValueView::Null,
        Value::Struct(fs) => ValueView::Struct(fields_view(fs@)),
        Value::Array(vs) => ValueView::Array(elements_view(vs@)),
        Value::Uninitialized => ValueView::Uninitialized,
    }
}

/// The fields of a struct value by their names' text, in order.
pub open spec fn fields_view(fs: Seq<(String, Value)>) -> Seq<(Seq<char>, ValueView)>
    decreases fs, 1nat,
{
    if fs.len() == 0 {
        Seq::empty()
    } else {
        fields_view(fs.subrange(0, fs.len() - 1)).push(
            (fs[fs.len() - 1].0@, value_view(fs[fs.len() - 1].1)),
        )
    }
}

/// The elements of an array value, in order.
pub open spec fn elements_view(vs: Seq<Value>) -> Seq<ValueView>
    decreases vs, 1nat,
{
    if vs.len() == 0 {
        Seq::empty()
    } else {
        elements_view(vs.subrange(0, vs.len() - 1)).push(value_view(vs[vs.len() - 1]))
    }
}

impl View for Value {
    type V = ValueView;

    open spec fn view(&self) -> ValueView {
        value_view(*self)
    }
}

/// How a value is written in messages, variant name first:
/// `Int(3)`, `Struct({"x": Int(1)})`, `Array([Char(65)])`.
pub open spec fn value_text(v: Value) -> Seq<char>
    decreases v, 0nat,
{
    match v {
        Value::Int(n) => "Int("@ + int_text(n as int) + ")"@,
        Value::Char(c) => "Char("@ + int_text(c as int) + ")"@,
        Value::Pointer(a) => "Pointer("@ + decimal_digits(a as nat) + ")"@,
        Value::Null => "Null"@,
        Value::Struct(fs) => "Struct({"@ + fields_text(fs@) + "})"@,
        Value::Array(vs) => "Array(["@ + elements_text(vs@) + "])"@,
        Value::Uninitialized => "Uninitialized"@,
    }
}

/// `"name": value` for each field, separated by `, `.
pub open spec fn fields_text(fs: Seq<(String, Value)>) -> Seq<char>
    decreases fs, 1nat,
{
    if fs.len() == 0 {
        Seq::empty()
    } else {
        let last = fs[fs.len() - 1];
        let init = fs.subrange(0, fs.len() - 1);
        let entry = "\""@ + last.0@ + "\": "@ + value_text(last.1);
        if fs.len() == 1 {
            entry
        } else {
            fields_text(init) + ", "@ + entry
        }
    }
}

/// Each element's text, separated by `, `.
pub open spec fn elements_text(vs: Seq<Value>) -> Seq<char>
    decreases vs, 1nat,
{
    if vs.len() == 0 {
        Seq::empty()
    } else {
        let last = vs[vs.len() - 1];
        let init = vs.subrange(0, vs.len() - 1);
        if vs.len() == 1 {
            value_text(last)
        } else {
            elements_text(init) + ", "@ + value_text(last)
        }
    }
}

impl Value {
    /// Check if this value is initialized
    pub fn is_initialized(&self) -> (r: bool)
        ensures
            r == !(*self is Uninitialized),
    {
        match self {
            Value::Uninitialized => false,
            _ => true,
        }
    }

    /// Get the integer value, returns None if not an Int
    pub fn as_int(&self) -> (r: Option<i32>)
        ensures
            r == match *self {
                Value::Int(n) => Some(n),
                _ => None,
            },
    {
        match self {
            Value::Int(n) => Some(*n),
            _ => None,
        }
    }

    /// Get the char value, returns None if not a Char
    pub fn as_char(&self) -> (r: Option<i8>)
        ensures
            r == match *self {
                Value::Char(c) => Some(c),
                _ => None,
            },
    {
        match self {
            Value::Char(c) => Some(*c),
            _ => None,
        }
    }

    /// Get the pointer value, returns None if not a Pointer or Null
    pub fn as_pointer(&self) -> (r: Option<Address>)
        ensures
            r == match *self {
                Value::Pointer(a) => Some(a),
                Value::Null => Some(0u64),
                _ => None,
            },
    {
        match self {
            Value::Pointer(addr) => Some(*addr),
            Value::Null => Some(0),
            _ => None,
        }
    }

    /// Expect an integer value, returns error message if not an Int
    pub fn expect_int(&self) -> (r: Result<i32, String>)
        ensures
            match *self {
                Value::Int(n) => r == Ok::<i32, String>(n),
                _ => r matches Err(e) && e@ == "Expected Int, got "@ + value_text(*self),
            },
    {
        match self.as_int() {
            Some(n) => Ok(n),
            None => {
                let mut e = String::from_str("Expected Int, got ");
                let t = self.to_text();
                e.append(t.as_str());
                Err(e)
            },
        }
    }

    /// Expect a char value, returns error message if not a Char
    pub fn expect_char(&self) -> (r: Result<i8, String>)
        ensures
            match *self {
                Value::Char(c) => r == Ok::<i8, String>(c),
                _ => r matches Err(e) && e@ == "Expected Char, got "@ + value_text(*self),
            },
    {
        match self.as_char() {
            Some(c) => Ok(c),
            None => {
                let mut e = String::from_str("Expected Char, got ");
                let t = self.to_text();
                e.append(t.as_str());
                Err(e)
            },
        }
    }

    /// Expect a pointer value, returns error message if not a Pointer
    pub fn expect_pointer(&self) -> (r: Result<Address, String>)
        ensures
            match *self {
                Value::Pointer(a) => r == Ok::<u64, String>(a),
                Value::Null => r == Ok::<u64, String>(0),
                _ => r matches Err(e) && e@ == "Expected Pointer, got "@ + value_text(*self),
            },
    {
        match self.as_pointer() {
            Some(a) => Ok(a),
            None => {
                let mut e = String::from_str("Expected Pointer, got ");
                let t = self.to_text();
                e.append(t.as_str());
                Err(e)
            },
        }
    }

    /// Check if this value is null
    pub fn is_null(&self) -> (r: bool)
        ensures
            r == *self is Null,
    {
        match self {
            Value::Null => true,
            _ => false,
        }
    }

    /// Check if this value is a pointer (including null)
    pub fn is_pointer(&self) -> (r: bool)
        ensures
            r == (*self is Pointer || *self is Null),
    {
        match self {
            Value::Pointer(_) | Value::Null => true,
            _ => false,
        }
    }

    /// The value as messages write it.
    pub fn to_text(&self) -> (r: String)
        ensures
            r@ == value_text(*self),
        decreases *self,
    {
        let mut s = String::new();
        match self {
            Value::Int(n) => {
                s.append("Int(");
                push_int(&mut s, *n as i64);
                s.append(")");
            },
            Value::Char(c) => {
                s.append("Char(");
                push_int(&mut s, *c as i64);
                s.append(")");
            },
            Value::Pointer(a) => {
                s.append("Pointer(");
                push_decimal(&mut s, *a);
                s.append(")");
            },
            Value::Null => {
                s.append("Null");
            },
            Value::Struct(fs) => {
                s.append("Struct({");
                let mut i: usize = 0;
                let ghost head = s@;
                proof {
                    assert(fs@.subrange(0, 0) =~= Seq::<(String, Value)>::empty());
                }
                while i < fs.len()
                    invariant
                        0 <= i <= fs@.len(),
                        s@ == head + fields_text(fs@.subrange(0, i as int)),
                        *self == Value::Struct(*fs),
                    decreases fs@.len() - i,
                {
                    let ghost pre = fs@.subrange(0, i as int);
                    proof {
                        assert(fs@.subrange(0, i + 1).subrange(0, i as int) =~= pre);
                        assert(decreases_to!(*self => (*self)->Struct_0));
                        assert(decreases_to!(*fs => fs@));
                        assert(decreases_to!(fs@ => fs@[i as int]));
                        assert(decreases_to!(fs@[i as int] => fs@[i as int].1));
                        assert(decreases_to!(*self => fs@[i as int].1));
                    }
                    if i > 0 {
                        s.append(", ");
                    }
                    s.append("\"");
                    s.append(fs[i].0.as_str());
                    s.append("\": ");
                    let t = fs[i].1.to_text();
                    s.append(t.as_str());
                    assert(s@ =~= head + fields_text(fs@.subrange(0, i + 1)));
                    i = i + 1;
                }
                assert(fs@.subrange(0, i as int) =~= fs@);
                s.append("})");
            },
            Value::Array(vs) => {
                s.append("Array([");
                let mut i: usize = 0;
                let ghost head = s@;
                proof {
                    assert(vs@.subrange(0, 0) =~= Seq::<Value>::empty());
                }
                while i < vs.len()
                    invariant
                        0 <= i <= vs@.len(),
                        s@ == head + elements_text(vs@.subrange(0, i as int)),
                        *self == Value::Array(*vs),
                    decreases vs@.len() - i,
                {
                    let ghost pre = vs@.subrange(0, i as int);
                    proof {
                        assert(vs@.subrange(0, i + 1).subrange(0, i as int) =~= pre);
                        assert(decreases_to!(*self => (*self)->Array_0));
                        assert(decreases_to!(*vs => vs@));
                        assert(decreases_to!(vs@ => vs@[i as int]));
                        assert(decreases_to!(*self => vs@[i as int]));
                    }
                    if i > 0 {
                        s.append(", ");
                    }
                    let t = vs[i].to_text();
                    s.append(t.as_str());
                    assert(s@ =~= head + elements_text(vs@.subrange(0, i + 1)));
                    i = i + 1;
                }
                assert(vs@.subrange(0, i as int) =~= vs@);
                s.append("])");
            },
            Value::Uninitialized => {
                s.append("Uninitialized");
            },
        }
        assert(s@ =~= value_text(*self));
        s
    }
}

} // verus!
