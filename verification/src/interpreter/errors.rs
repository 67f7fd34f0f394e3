//! Runtime error types for the C interpreter
//!
//! This module defines [`RuntimeError`], which represents all errors that can occur
//! during program execution (as opposed to parse errors or system errors).
//!
//! All runtime errors are fatal - they halt execution and display diagnostic information.
use vstd::prelude::*;
use crate::parser::ast::SourceLocation;
use crate::memory::heap::hex_addr;
use crate::text::{decimal_digits, int_text, push_decimal, push_hex, push_int};

verus! {

/// Runtime errors that can occur during execution
#[derive(Debug, Clone)]
pub enum RuntimeError {
    /// Attempted to read an uninitialized variable
    UninitializedRead { var: String, address: Option<u64>, location: SourceLocation },
    /// Null pointer dereference
    NullDereference { location: SourceLocation },
    /// Buffer overrun (array index out of bounds or invalid pointer offset)
    BufferOverrun { index: usize, size: usize, location: SourceLocation },
    /// Attempted to modify a const variable
    ConstModification { var: String, location: SourceLocation },
    /// Integer overflow in arithmetic operation
    IntegerOverflow { operation: String, location: SourceLocation },
    /// Out of heap memory
    OutOfMemory { requested: usize, limit: usize },
    /// Snapshot history limit exceeded
    SnapshotLimitExceeded { current: usize, limit: usize },
    /// Use-after-free (accessing freed memory)
    UseAfterFree { address: u64, location: SourceLocation },
    /// Double free
    DoubleFree { address: u64, location: SourceLocation },
    /// Invalid free (freeing non-allocated memory)
    InvalidFree { address: u64, location: SourceLocation },
    /// Undefined function call
    UndefinedFunction { name: String, location: SourceLocation },
    /// Undefined variable reference
    UndefinedVariable { name: String, location: SourceLocation },
    /// Type error
    TypeError { expected: String, got: String, location: SourceLocation },
    /// Invalid printf format string
    InvalidPrintfFormat { message: String, location: SourceLocation },
    /// No stack frame available
    NoStackFrame { location: SourceLocation },
    /// Main function not found
    NoMainFunction,
    /// Division by zero or modulo by zero
    DivisionError { operation: String, location: SourceLocation },
    /// Function argument count mismatch
    ArgumentCountMismatch {
        function: String,
        expected: usize,
        got: usize,
        location: SourceLocation,
    },
    /// Invalid pointer (invalid stack pointer, unknown pointer type, etc.)
    InvalidPointer { message: String, address: Option<u64>, location: SourceLocation },
    /// Invalid stack frame depth
    InvalidFrameDepth { location: SourceLocation },
    /// Struct field not found
    MissingStructField { struct_name: String, field_name: String, location: SourceLocation },
    /// Struct definition not found
    StructNotDefined { name: String, location: SourceLocation },
    /// Unsupported operation or feature
    UnsupportedOperation { message: String, location: SourceLocation },
    /// Invalid memory operation (heap read/write failure)
    InvalidMemoryOperation { message: String, location: SourceLocation },
    /// Invalid string (too long, invalid UTF-8, etc.)
    InvalidString { message: String, location: SourceLocation },
    /// Invalid malloc size
    InvalidMallocSize { size: i32, location: SourceLocation },
    /// History/snapshot operation failed
    HistoryOperationFailed { message: String, location: SourceLocation },
    /// Execution is paused waiting for scanf input (internal signal, not a real error)
    ScanfNeedsInput { location: SourceLocation },
}

impl RuntimeError {
    /// Where the error occurred, for the errors tied to a place in the source.
    pub open spec fn loc(self) -> Option<SourceLocation> {
        match self {
            RuntimeError::UninitializedRead { location, .. } => Some(location),
            RuntimeError::NullDereference { location } => Some(location),
            RuntimeError::BufferOverrun { location, .. } => Some(location),
            RuntimeError::ConstModification { location, .. } => Some(location),
            RuntimeError::IntegerOverflow { location, .. } => Some(location),
            RuntimeError::UseAfterFree { location, .. } => Some(location),
            RuntimeError::DoubleFree { location, .. } => Some(location),
            RuntimeError::InvalidFree { location, .. } => Some(location),
            RuntimeError::UndefinedFunction { location, .. } => Some(location),
            RuntimeError::UndefinedVariable { location, .. } => Some(location),
            RuntimeError::TypeError { location, .. } => Some(location),
            RuntimeError::InvalidPrintfFormat { location, .. } => Some(location),
            RuntimeError::NoStackFrame { location } => Some(location),
            RuntimeError::DivisionError { location, .. } => Some(location),
            RuntimeError::ArgumentCountMismatch { location, .. } => Some(location),
            RuntimeError::InvalidPointer { location, .. } => Some(location),
            RuntimeError::InvalidFrameDepth { location } => Some(location),
            RuntimeError::MissingStructField { location, .. } => Some(location),
            RuntimeError::StructNotDefined { location, .. } => Some(location),
            RuntimeError::UnsupportedOperation { location, .. } => Some(location),
            RuntimeError::InvalidMemoryOperation { location, .. } => Some(location),
            RuntimeError::InvalidString { location, .. } => Some(location),
            RuntimeError::InvalidMallocSize { location, .. } => Some(location),
            RuntimeError::HistoryOperationFailed { location, .. } => Some(location),
            RuntimeError::ScanfNeedsInput { location } => Some(location),
            RuntimeError::OutOfMemory { .. } => None,
            RuntimeError::SnapshotLimitExceeded { .. } => None,
            RuntimeError::NoMainFunction => None,
        }
    }

    pub fn location(&self) -> (r: Option<&SourceLocation>)
        ensures
            match self.loc() {
                Some(l) => r == Some(&l),
                None => r is None,
            },
    {
        match self {
            RuntimeError::UninitializedRead { location, .. } => Some(location),
            RuntimeError::NullDereference { location } => Some(location),
            RuntimeError::BufferOverrun { location, .. } => Some(location),
            RuntimeError::ConstModification { location, .. } => Some(location),
            RuntimeError::IntegerOverflow { location, .. } => Some(location),
            RuntimeError::UseAfterFree { location, .. } => Some(location),
            RuntimeError::DoubleFree { location, .. } => Some(location),
            RuntimeError::InvalidFree { location, .. } => Some(location),
            RuntimeError::UndefinedFunction { location, .. } => Some(location),
            RuntimeError::UndefinedVariable { location, .. } => Some(location),
            RuntimeError::TypeError { location, .. } => Some(location),
            RuntimeError::InvalidPrintfFormat { location, .. } => Some(location),
            RuntimeError::NoStackFrame { location } => Some(location),
            RuntimeError::DivisionError { location, .. } => Some(location),
            RuntimeError::ArgumentCountMismatch { location, .. } => Some(location),
            RuntimeError::InvalidPointer { location, .. } => Some(location),
            RuntimeError::InvalidFrameDepth { location } => Some(location),
            RuntimeError::MissingStructField { location, .. } => Some(location),
            RuntimeError::StructNotDefined { location, .. } => Some(location),
            RuntimeError::UnsupportedOperation { location, .. } => Some(location),
            RuntimeError::InvalidMemoryOperation { location, .. } => Some(location),
            RuntimeError::InvalidString { location, .. } => Some(location),
            RuntimeError::InvalidMallocSize { location, .. } => Some(location),
            RuntimeError::HistoryOperationFailed { location, .. } => Some(location),
            RuntimeError::ScanfNeedsInput { location } => Some(location),
            RuntimeError::OutOfMemory { .. } => None,
            RuntimeError::SnapshotLimitExceeded { .. } => None,
            RuntimeError::NoMainFunction => None,
        }
    }
}

/// " at line N"
pub open spec fn at_line(l: SourceLocation) -> Seq<char> {
    " at line "@ + decimal_digits(l.line as nat)
}

/// The message a runtime error is shown with.
pub open spec fn error_text(e: RuntimeError) -> Seq<char> {
    match e {
        RuntimeError::UninitializedRead { var, location, .. } => "Read from uninitialized variable '"@
            + var@ + "'"@ + at_line(location),
        RuntimeError::NullDereference { location } => "Null pointer dereference"@ + at_line(
            location,
        ),
        RuntimeError::BufferOverrun { index, size, location } => "Buffer overrun"@ + at_line(
            location,
        ) + ": index "@ + decimal_digits(index as nat) + " out of bounds for size "@
            + decimal_digits(size as nat),
        RuntimeError::ConstModification { var, location } => "Attempted to modify const variable '"@
            + var@ + "'"@ + at_line(location),
        RuntimeError::IntegerOverflow { operation, location } => "Integer overflow in operation: "@
            + operation@ + at_line(location),
        RuntimeError::OutOfMemory { requested, limit } => "Out of memory: requested "@
            + decimal_digits(requested as nat) + " bytes, limit is "@ + decimal_digits(
            limit as nat,
        ),
        RuntimeError::SnapshotLimitExceeded { current, limit } => "Snapshot memory limit exceeded: "@
            + decimal_digits(current as nat) + " bytes used, limit is "@ + decimal_digits(
            limit as nat,
        ),
        RuntimeError::UseAfterFree { address, location } => "Use-after-free: address "@ + hex_addr(
            address,
        ) + at_line(location),
        RuntimeError::DoubleFree { address, location } => "Double free at address "@ + hex_addr(
            address,
        ) + at_line(location),
        RuntimeError::InvalidFree { address, location } => "Invalid free: address "@ + hex_addr(
            address,
        ) + at_line(location),
        RuntimeError::UndefinedFunction { name, location } => "Undefined function '"@ + name@
            + "'"@ + at_line(location),
        RuntimeError::UndefinedVariable { name, location } => "Undefined variable '"@ + name@
            + "'"@ + at_line(location),
        RuntimeError::TypeError { expected, got, location } => "Type error"@ + at_line(location)
            + ": expected "@ + expected@ + ", got "@ + got@,
        RuntimeError::InvalidPrintfFormat { message, location } => "Invalid printf format"@
            + at_line(location) + ": "@ + message@,
        RuntimeError::NoStackFrame { location } => "No stack frame available"@ + at_line(location),
        RuntimeError::NoMainFunction => "No main() function found"@,
        RuntimeError::DivisionError { operation, location } => operation@ + at_line(location),
        RuntimeError::ArgumentCountMismatch { function, expected, got, location } => "Function '"@
            + function@ + "' expects "@ + decimal_digits(expected as nat) + " argument"@ + (if expected
            == 1 {
            ""@
        } else {
            "s"@
        }) + ", got "@ + decimal_digits(got as nat) + at_line(location),
        RuntimeError::InvalidPointer { message, address, location } => match address {
            Some(a) => "Invalid pointer at "@ + hex_addr(a) + ": "@ + message@ + at_line(location),
            None => "Invalid pointer: "@ + message@ + at_line(location),
        },
        RuntimeError::InvalidFrameDepth { location } => "Invalid stack frame depth"@ + at_line(
            location,
        ),
        RuntimeError::MissingStructField { struct_name, field_name, location } => "Struct '"@
            + struct_name@ + "' does not have field '"@ + field_name@ + "'"@ + at_line(location),
        RuntimeError::StructNotDefined { name, location } => "Struct '"@ + name@
            + "' is not defined"@ + at_line(location),
        RuntimeError::UnsupportedOperation { message, location } => "Unsupported operation: "@
            + message@ + at_line(location),
        RuntimeError::InvalidMemoryOperation { message, location } => "Memory operation failed: "@
            + message@ + at_line(location),
        RuntimeError::InvalidString { message, location } => "Invalid string: "@ + message@
            + at_line(location),
        RuntimeError::InvalidMallocSize { size, location } => "Invalid malloc size: "@ + int_text(
            size as int,
        ) + " (must be positive)"@ + at_line(location),
        RuntimeError::HistoryOperationFailed { message, location } => "History operation failed: "@
            + message@ + at_line(location),
        RuntimeError::ScanfNeedsInput { location } => "scanf needs input"@ + at_line(location),
    }
}

fn push_at_line(s: &mut String, l: &SourceLocation)
    ensures
        final(s)@ == old(s)@ + at_line(*l),
{
    s.append(" at line ");
    push_decimal(s, l.line as u64);
    assert(final(s)@ =~= old(s)@ + at_line(*l));
}

fn push_addr(s: &mut String, a: u64)
    ensures
        final(s)@ == old(s)@ + hex_addr(a),
{
    s.append("0x");
    push_hex(s, a);
    assert(final(s)@ =~= old(s)@ + hex_addr(a));
}

impl RuntimeError {
    /// The message the error is shown with.
    pub fn to_text(&self) -> (r: String)
        ensures
            r@ == error_text(*self),
    {
        let mut s = String::new();
        match self {
            RuntimeError::UninitializedRead { var, location, .. } => {
                s.append("Read from uninitialized variable '");
                s.append(var.as_str());
                s.append("'");
                push_at_line(&mut s, location);
            },
            RuntimeError::NullDereference { location } => {
                s.append("Null pointer dereference");
                push_at_line(&mut s, location);
            },
            RuntimeError::BufferOverrun { index, size, location } => {
                s.append("Buffer overrun");
                push_at_line(&mut s, location);
                s.append(": index ");
                push_decimal(&mut s, *index as u64);
                s.append(" out of bounds for size ");
                push_decimal(&mut s, *size as u64);
            },
            RuntimeError::ConstModification { var, location } => {
                s.append("Attempted to modify const variable '");
                s.append(var.as_str());
                s.append("'");
                push_at_line(&mut s, location);
            },
            RuntimeError::IntegerOverflow { operation, location } => {
                s.append("Integer overflow in operation: ");
                s.append(operation.as_str());
                push_at_line(&mut s, location);
            },
            RuntimeError::OutOfMemory { requested, limit } => {
                s.append("Out of memory: requested ");
                push_decimal(&mut s, *requested as u64);
                s.append(" bytes, limit is ");
                push_decimal(&mut s, *limit as u64);
            },
            RuntimeError::SnapshotLimitExceeded { current, limit } => {
                s.append("Snapshot memory limit exceeded: ");
                push_decimal(&mut s, *current as u64);
                s.append(" bytes used, limit is ");
                push_decimal(&mut s, *limit as u64);
            },
            RuntimeError::UseAfterFree { address, location } => {
                s.append("Use-after-free: address ");
                push_addr(&mut s, *address);
                push_at_line(&mut s, location);
            },
            RuntimeError::DoubleFree { address, location } => {
                s.append("Double free at address ");
                push_addr(&mut s, *address);
                push_at_line(&mut s, location);
            },
            RuntimeError::InvalidFree { address, location } => {
                s.append("Invalid free: address ");
                push_addr(&mut s, *address);
                push_at_line(&mut s, location);
            },
            RuntimeError::UndefinedFunction { name, location } => {
                s.append("Undefined function '");
                s.append(name.as_str());
                s.append("'");
                push_at_line(&mut s, location);
            },
            RuntimeError::UndefinedVariable { name, location } => {
                s.append("Undefined variable '");
                s.append(name.as_str());
                s.append("'");
                push_at_line(&mut s, location);
            },
            RuntimeError::TypeError { expected, got, location } => {
                s.append("Type error");
                push_at_line(&mut s, location);
                s.append(": expected ");
                s.append(expected.as_str());
                s.append(", got ");
                s.append(got.as_str());
            },
            RuntimeError::InvalidPrintfFormat { message, location } => {
                s.append("Invalid printf format");
                push_at_line(&mut s, location);
                s.append(": ");
                s.append(message.as_str());
            },
            RuntimeError::NoStackFrame { location } => {
                s.append("No stack frame available");
                push_at_line(&mut s, location);
            },
            RuntimeError::NoMainFunction => {
                s.append("No main() function found");
            },
            RuntimeError::DivisionError { operation, location } => {
                s.append(operation.as_str());
                push_at_line(&mut s, location);
            },
            RuntimeError::ArgumentCountMismatch { function, expected, got, location } => {
                s.append("Function '");
                s.append(function.as_str());
                s.append("' expects ");
                push_decimal(&mut s, *expected as u64);
                s.append(" argument");
                if *expected == 1 {
                    s.append("");
                } else {
                    s.append("s");
                }
                s.append(", got ");
                push_decimal(&mut s, *got as u64);
                push_at_line(&mut s, location);
            },
            RuntimeError::InvalidPointer { message, address, location } => {
                match address {
                    Some(a) => {
                        s.append("Invalid pointer at ");
                        push_addr(&mut s, *a);
                        s.append(": ");
                    },
                    None => {
                        s.append("Invalid pointer: ");
                    },
                }
                s.append(message.as_str());
                push_at_line(&mut s, location);
            },
            RuntimeError::InvalidFrameDepth { location } => {
                s.append("Invalid stack frame depth");
                push_at_line(&mut s, location);
            },
            RuntimeError::MissingStructField { struct_name, field_name, location } => {
                s.append("Struct '");
                s.append(struct_name.as_str());
                s.append("' does not have field '");
                s.append(field_name.as_str());
                s.append("'");
                push_at_line(&mut s, location);
            },
            RuntimeError::StructNotDefined { name, location } => {
                s.append("Struct '");
                s.append(name.as_str());
                s.append("' is not defined");
                push_at_line(&mut s, location);
            },
            RuntimeError::UnsupportedOperation { message, location } => {
                s.append("Unsupported operation: ");
                s.append(message.as_str());
                push_at_line(&mut s, location);
            },
            RuntimeError::InvalidMemoryOperation { message, location } => {
                s.append("Memory operation failed: ");
                s.append(message.as_str());
                push_at_line(&mut s, location);
            },
            RuntimeError::InvalidString { message, location } => {
                s.append("Invalid string: ");
                s.append(message.as_str());
                push_at_line(&mut s, location);
            },
            RuntimeError::InvalidMallocSize { size, location } => {
                s.append("Invalid malloc size: ");
                push_int(&mut s, *size as i64);
                s.append(" (must be positive)");
                push_at_line(&mut s, location);
            },
            RuntimeError::HistoryOperationFailed { message, location } => {
                s.append("History operation failed: ");
                s.append(message.as_str());
                push_at_line(&mut s, location);
            },
            RuntimeError::ScanfNeedsInput { location } => {
                s.append("scanf needs input");
                push_at_line(&mut s, location);
            },
        }
        proof {
            assert(s@ =~= error_text(*self));
        }
        s
    }
}

impl RuntimeError {
    /// A copy of the error.
    pub fn duplicate(&self) -> (r: RuntimeError)
        ensures
            r == *self,
    {
        match self {
            RuntimeError::UninitializedRead { var, address, location } => RuntimeError::UninitializedRead {
                var: var.clone(),
                address: *address,
                location: *location,
            },
            RuntimeError::NullDereference { location } => RuntimeError::NullDereference {
                location: *location,
            },
            RuntimeError::BufferOverrun { index, size, location } => RuntimeError::BufferOverrun {
                index: *index,
                size: *size,
                location: *location,
            },
            RuntimeError::ConstModification { var, location } => RuntimeError::ConstModification {
                var: var.clone(),
                location: *location,
            },
            RuntimeError::IntegerOverflow { operation, location } => RuntimeError::IntegerOverflow {
                operation: operation.clone(),
                location: *location,
            },
            RuntimeError::OutOfMemory { requested, limit } => RuntimeError::OutOfMemory {
                requested: *requested,
                limit: *limit,
            },
            RuntimeError::SnapshotLimitExceeded { current, limit } => RuntimeError::SnapshotLimitExceeded {
                current: *current,
                limit: *limit,
            },
            RuntimeError::UseAfterFree { address, location } => RuntimeError::UseAfterFree {
                address: *address,
                location: *location,
            },
            RuntimeError::DoubleFree { address, location } => RuntimeError::DoubleFree {
                address: *address,
                location: *location,
            },
            RuntimeError::InvalidFree { address, location } => RuntimeError::InvalidFree {
                address: *address,
                location: *location,
            },
            RuntimeError::UndefinedFunction { name, location } => RuntimeError::UndefinedFunction {
                name: name.clone(),
                location: *location,
            },
            RuntimeError::UndefinedVariable { name, location } => RuntimeError::UndefinedVariable {
                name: name.clone(),
                location: *location,
            },
            RuntimeError::TypeError { expected, got, location } => RuntimeError::TypeError {
                expected: expected.clone(),
                got: got.clone(),
                location: *location,
            },
            RuntimeError::InvalidPrintfFormat { message, location } => RuntimeError::InvalidPrintfFormat {
                message: message.clone(),
                location: *location,
            },
            RuntimeError::NoStackFrame { location } => RuntimeError::NoStackFrame {
                location: *location,
            },
            RuntimeError::NoMainFunction => RuntimeError::NoMainFunction,
            RuntimeError::DivisionError { operation, location } => RuntimeError::DivisionError {
                operation: operation.clone(),
                location: *location,
            },
            RuntimeError::ArgumentCountMismatch { function, expected, got, location } => RuntimeError::ArgumentCountMismatch {
                function: function.clone(),
                expected: *expected,
                got: *got,
                location: *location,
            },
            RuntimeError::InvalidPointer { message, address, location } => RuntimeError::InvalidPointer {
                message: message.clone(),
                address: *address,
                location: *location,
            },
            RuntimeError::InvalidFrameDepth { location } => RuntimeError::InvalidFrameDepth {
                location: *location,
            },
            RuntimeError::MissingStructField { struct_name, field_name, location } => RuntimeError::MissingStructField {
                struct_name: struct_name.clone(),
                field_name: field_name.clone(),
                location: *location,
            },
            RuntimeError::StructNotDefined { name, location } => RuntimeError::StructNotDefined {
                name: name.clone(),
                location: *location,
            },
            RuntimeError::UnsupportedOperation { message, location } => RuntimeError::UnsupportedOperation {
                message: message.clone(),
                location: *location,
            },
            RuntimeError::InvalidMemoryOperation { message, location } => RuntimeError::InvalidMemoryOperation {
                message: message.clone(),
                location: *location,
            },
            RuntimeError::InvalidString { message, location } => RuntimeError::InvalidString {
                message: message.clone(),
                location: *location,
            },
            RuntimeError::InvalidMallocSize { size, location } => RuntimeError::InvalidMallocSize {
                size: *size,
                location: *location,
            },
            RuntimeError::HistoryOperationFailed { message, location } => RuntimeError::HistoryOperationFailed {
                message: message.clone(),
                location: *location,
            },
            RuntimeError::ScanfNeedsInput { location } => RuntimeError::ScanfNeedsInput {
                location: *location,
            },
        }
    }
}

} // verus!
