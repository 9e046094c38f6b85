//! The errors of the runtime.
use vstd::prelude::*;

use crate::text::{decimal, usize_to_decimal};

verus! {

#[derive(Debug)]
pub enum RuntimeError {
    // missing values
    VariableNotFound(String),
    FunctionNotFound(String),
    MethodNotFound { method_identifier: String, struct_identifier: String },
    NotAUserDefinedFunction(String),
    NotANativeFunction(String),
    NotABuiltInMethod { method: String, data_type: String },
    FunctionNotInCallStack(String),
    NoDataTypeAttached,
    InvalidStructFieldAccess { field_name: String, struct_name: String },
    StructDefinitionNotFound(String),
    StructImplNotFound(String),
    ExpectedReference(String),
    AttributeNotFound(String),
    CannotInferEmptyArrayType,
    InvalidArrayIndex(String),
    ExpectedIntegerForRange(String),
    ExpectedInteger(String),
    // mismatches
    UnsupportedBinaryOperation { lhs_type: String, operation: String, rhs_type: String },
    UnsupportedUnaryOperation(String, String),
    AnnotationError { expected: String, found: String },
    AlreadyDefined(String, String),
    InvalidReferenceTarget,
    InvalidStructComparison(String, String),
    ExpectedBoolean,
    ExpectedStruct,
    CannotDereferenceNonReference,
    TypeCoercionFail { from: String, to: String },
    CannotInvokeMethodOnType(String),
    CannotIterateOnType(String),
    InvalidCast(String, String),
    // semantic errors
    IncompleteStructInitialization(String),
    IncompleteArrayInitialization(String),
    TooManyArrayElementsForInitialization { array_type: String, expected: usize, found: usize },
    InvalidStructFieldInitialization {
        field_name: String,
        struct_name: String,
        expected: String,
        found: String,
    },
    InvalidStructFieldAccessTarget { field: String, data_type: String },
    NonPODType(String),
    InvalidAttributeArgument { attribute: String, expected: String, found: String },
    UnexpectedAttributeArgument { attribute: String, found: String },
    InvalidAttributeArgumentCount { attribute: String, expected: usize, found: usize },
    InvalidFunctionArguments { signature: String, note: String },
    CannotDefaultInitializeReference,
    CannotDefaultInitializeIterator,
    /// A type without a default value (the type's name).
    CannotDefaultInitialize(String),
    ArrayIndexOutOfBounds { index: usize, length: usize },
    CannotIndexNonArrayType(String),
    CannotDetermineDataTypeSize(String),
    MissingNativeArguments { function_name: String, expected: usize, found: usize },
    MissingNativeGenerics { function_name: String, expected: usize, found: usize },
    NativeError(String),
    // de/serialization errors
    NonAsciiString(String),
    UnexpectedEOF,
    SerializationError(String),
    CannotDeserialize(String),
    UncountedArray,
    Io(String),
    CountedByFail(String),
    // limits of the machine and of the evaluator
    /// An integer operation whose exact result does not fit its type.
    ArithmeticOverflow(String),
    /// Division or remainder by zero.
    DivisionByZero,
    /// A shift by at least the bit width of the shifted type.
    ShiftOverflow(String),
    /// A chain of references or nested values longer than the heap.
    ReferenceCycle,
    /// The evaluation budget was used up.
    OutOfFuel,
    /// A statement or expression that cannot stand where it was written (a
    /// range outside a `for`, a definition inside a block).
    UnexpectedExpression(String),
    /// Break outside of a loop.
    UnexpectedBreak,
    /// A shift by a negative amount or by a value that is not an integer.
    InvalidShiftAmount,
    /// An integer operation on a value that is not an integer.
    ExpectedIntegerOperand,
    /// A call, from a script, of a function marked `#[run_on_import]` (its
    /// name), which only importing its file may run.
    RunOnImportCalled(String),
    /// A function that returned a reference (its name).
    ReturnedReference(String),
}

impl RuntimeError {
    pub fn unsupported_binary_operation(lhs_type: String, operation: String, rhs_type: String) -> (r:
        Self)
        ensures
            r == (RuntimeError::UnsupportedBinaryOperation { lhs_type, operation, rhs_type }),
    {
        RuntimeError::UnsupportedBinaryOperation { lhs_type, operation, rhs_type }
    }
}

impl RuntimeError {
    /// The text that reports the error.
    pub open spec fn message(&self) -> Seq<char> {
        match *self {
            RuntimeError::VariableNotFound(a0) => "Variable '"@ + a0@ + "' not defined"@,
            RuntimeError::FunctionNotFound(a0) => "Function '"@ + a0@ + "' not defined"@,
            RuntimeError::MethodNotFound { method_identifier, struct_identifier } => "Method '"@ + method_identifier@ + "' not defined for '"@ + struct_identifier@ + "'"@,
            RuntimeError::NotAUserDefinedFunction(a0) => "Function '"@ + a0@ + "' is not a user-defined function"@,
            RuntimeError::NotANativeFunction(a0) => "Function '"@ + a0@ + "' is not a native function"@,
            RuntimeError::NotABuiltInMethod { method, data_type } => "Method '"@ + method@ + "' is not a built-in method for '"@ + data_type@ + "'"@,
            RuntimeError::FunctionNotInCallStack(a0) => "Function '"@ + a0@ + "' not in call stack"@,
            RuntimeError::NoDataTypeAttached => "Expected data type, but found None"@,
            RuntimeError::InvalidStructFieldAccess { field_name, struct_name } => "Field '"@ + field_name@ + "' does not exist in struct '"@ + struct_name@ + "'"@,
            RuntimeError::StructDefinitionNotFound(a0) => "Struct definition '"@ + a0@ + "' not found"@,
            RuntimeError::StructImplNotFound(a0) => "Struct impl '"@ + a0@ + "' not found"@,
            RuntimeError::ExpectedReference(a0) => "Expected reference, found '"@ + a0@ + "'"@,
            RuntimeError::AttributeNotFound(a0) => "Attribute '"@ + a0@ + "' not found"@,
            RuntimeError::CannotInferEmptyArrayType => "Cannot infer array type from empty array"@,
            RuntimeError::InvalidArrayIndex(a0) => "Array index "@ + a0@ + " invalid"@,
            RuntimeError::ExpectedIntegerForRange(a0) => "Expected integral type for ranges, found '"@ + a0@ + "'"@,
            RuntimeError::ExpectedInteger(a0) => "Expected integral type, found '"@ + a0@ + "'"@,
            RuntimeError::UnsupportedBinaryOperation { lhs_type, operation, rhs_type } => "Unsupported binary operation for '["@ + lhs_type@ + "] "@ + operation@ + " ["@ + rhs_type@ + "]'"@,
            RuntimeError::UnsupportedUnaryOperation(a0, a1) => "Unsupported unary operation for '"@ + a0@ + "["@ + a1@ + "]'"@,
            RuntimeError::AnnotationError { expected, found } => "Failed to apply type annotation (expected annotated type '"@ + expected@ + "', but the assigned value resolved to '"@ + found@ + "')"@,
            RuntimeError::AlreadyDefined(a0, a1) => "Identifier '"@ + a0@ + "' already defined as a "@ + a1@,
            RuntimeError::InvalidReferenceTarget => "Invalid reference target"@,
            RuntimeError::InvalidStructComparison(a0, a1) => "Cannot compare structs of type '"@ + a0@ + "' and '"@ + a1@ + "'"@,
            RuntimeError::ExpectedBoolean => "The expression given does not resolve to a boolean value"@,
            RuntimeError::ExpectedStruct => "The expression given does not resolve to a struct or struct reference"@,
            RuntimeError::CannotDereferenceNonReference => "Cannot dereference a type that is not a reference"@,
            RuntimeError::TypeCoercionFail { from, to } => "Cannot coerce a '"@ + from@ + "' into a '"@ + to@ + "'"@,
            RuntimeError::CannotInvokeMethodOnType(a0) => "Cannot invoke a method on type '"@ + a0@ + "'"@,
            RuntimeError::CannotIterateOnType(a0) => "Cannot iterate on type '"@ + a0@ + "'"@,
            RuntimeError::InvalidCast(a0, a1) => "Cannot cast a '"@ + a0@ + "' to a '"@ + a1@ + "'"@,
            RuntimeError::IncompleteStructInitialization(a0) => "Incomplete struct initialization for '"@ + a0@ + "'"@,
            RuntimeError::IncompleteArrayInitialization(a0) => "Incomplete array initialization for '"@ + a0@ + "'"@,
            RuntimeError::TooManyArrayElementsForInitialization { array_type, expected, found } => "Attempted to initialize array of type '"@ + array_type@ + "' with too many elements (expected "@ + decimal(expected as nat) + ", found "@ + decimal(found as nat),
            RuntimeError::InvalidStructFieldInitialization { field_name, struct_name, expected, found } => "Invalid initialization type for field '"@ + field_name@ + "' of struct '"@ + struct_name@ + "' (expected '"@ + expected@ + "', found '"@ + found@ + "')"@,
            RuntimeError::InvalidStructFieldAccessTarget { field, data_type } => "Cannot access field '"@ + field@ + "' of '"@ + data_type@ + "' because it is not a struct"@,
            RuntimeError::NonPODType(a0) => "Field of type '"@ + a0@ + "' is not POD"@,
            RuntimeError::InvalidAttributeArgument { attribute, expected, found } => "Attribute '"@ + attribute@ + "' expects "@ + expected@ + ", but found '"@ + found@ + "'"@,
            RuntimeError::UnexpectedAttributeArgument { attribute, found } => "Attribute '"@ + attribute@ + "' was given '"@ + found@ + "', but it is not a valid argument"@,
            RuntimeError::InvalidAttributeArgumentCount { attribute, expected, found } => "Attribute '"@ + attribute@ + "' expects "@ + decimal(expected as nat) + " arguments, but found "@ + decimal(found as nat),
            RuntimeError::InvalidFunctionArguments { signature, note } => "Invalid function arguments for [signature]. "@ + note@,
            RuntimeError::CannotDefaultInitializeReference => "References cannot have default values"@,
            RuntimeError::CannotDefaultInitializeIterator => "Iterators cannot have default values"@,
            RuntimeError::CannotDefaultInitialize(a0) => "Values of type '"@ + a0@ + "' have no default value"@,
            RuntimeError::ArrayIndexOutOfBounds { index, length } => "Array index "@ + decimal(index as nat) + " out of bounds when the length is "@ + decimal(length as nat),
            RuntimeError::CannotIndexNonArrayType(a0) => "Cannot index type "@ + a0@,
            RuntimeError::CannotDetermineDataTypeSize(a0) => "Cannot determine the size of '"@ + a0@ + "'"@,
            RuntimeError::MissingNativeArguments { function_name, expected, found } => "Native function '"@ + function_name@ + "' expects "@ + decimal(expected as nat) + " arguments, but found "@ + decimal(found as nat),
            RuntimeError::MissingNativeGenerics { function_name, expected, found } => "Native function '"@ + function_name@ + "' expects "@ + decimal(expected as nat) + " generic arguments, but found "@ + decimal(found as nat),
            RuntimeError::NativeError(a0) => "Native function failed: "@ + a0@,
            RuntimeError::NonAsciiString(a0) => "Attempted to serialize the following non-ascii string as ascii: "@ + a0@,
            RuntimeError::UnexpectedEOF => "Unexpectedly reached EOF when deserializing file"@,
            RuntimeError::SerializationError(a0) => "Serialization error: "@ + a0@,
            RuntimeError::CannotDeserialize(a0) => "Cannot deserialize a '"@ + a0@ + "'"@,
            RuntimeError::UncountedArray => "An array must have a count"@,
            RuntimeError::Io(a0) => "Failed to perform I/O operation: "@ + a0@,
            RuntimeError::CountedByFail(a0) => "Struct field '"@ + a0@ + "' not read before trying to use the \"counted_by\" attribute or is non-numeric"@,
            RuntimeError::ArithmeticOverflow(a0) => "Integer overflow in '"@ + a0@ + "'"@,
            RuntimeError::DivisionByZero => "Division by zero"@,
            RuntimeError::ShiftOverflow(a0) => "Shift overflow in '"@ + a0@ + "'"@,
            RuntimeError::ReferenceCycle => "A chain of references does not end"@,
            RuntimeError::OutOfFuel => "The evaluation budget was used up"@,
            RuntimeError::UnexpectedExpression(a0) => "Unexpected expression: "@ + a0@,
            RuntimeError::UnexpectedBreak => "Break outside of a loop"@,
            RuntimeError::InvalidShiftAmount => "Invalid shift amount"@,
            RuntimeError::ExpectedIntegerOperand => "Expected an integer operand"@,
            RuntimeError::RunOnImportCalled(a0) => "Function '"@ + a0@ + "' runs only when its file is imported"@,
            RuntimeError::ReturnedReference(a0) => "Function '"@ + a0@ + "' returned a reference"@,
        }
    }

    /// The text that reports the error (see `message`).
    pub fn to_string(&self) -> (s: String)
        ensures
            s@ == self.message(),
    {
        match self {
            RuntimeError::VariableNotFound(a0) => {
                let mut s = String::from_str("Variable '");
                s.append(a0.as_str());
                s.append("' not defined");
                s
            },
            RuntimeError::FunctionNotFound(a0) => {
                let mut s = String::from_str("Function '");
                s.append(a0.as_str());
                s.append("' not defined");
                s
            },
            RuntimeError::MethodNotFound { method_identifier, struct_identifier } => {
                let mut s = String::from_str("Method '");
                s.append(method_identifier.as_str());
                s.append("' not defined for '");
                s.append(struct_identifier.as_str());
                s.append("'");
                s
            },
            RuntimeError::NotAUserDefinedFunction(a0) => {
                let mut s = String::from_str("Function '");
                s.append(a0.as_str());
                s.append("' is not a user-defined function");
                s
            },
            RuntimeError::NotANativeFunction(a0) => {
                let mut s = String::from_str("Function '");
                s.append(a0.as_str());
                s.append("' is not a native function");
                s
            },
            RuntimeError::NotABuiltInMethod { method, data_type } => {
                let mut s = String::from_str("Method '");
                s.append(method.as_str());
                s.append("' is not a built-in method for '");
                s.append(data_type.as_str());
                s.append("'");
                s
            },
            RuntimeError::FunctionNotInCallStack(a0) => {
                let mut s = String::from_str("Function '");
                s.append(a0.as_str());
                s.append("' not in call stack");
                s
            },
            RuntimeError::NoDataTypeAttached => {
                let mut s = String::from_str("Expected data type, but found None");
                s
            },
            RuntimeError::InvalidStructFieldAccess { field_name, struct_name } => {
                let mut s = String::from_str("Field '");
                s.append(field_name.as_str());
                s.append("' does not exist in struct '");
                s.append(struct_name.as_str());
                s.append("'");
                s
            },
            RuntimeError::StructDefinitionNotFound(a0) => {
                let mut s = String::from_str("Struct definition '");
                s.append(a0.as_str());
                s.append("' not found");
                s
            },
            RuntimeError::StructImplNotFound(a0) => {
                let mut s = String::from_str("Struct impl '");
                s.append(a0.as_str());
                s.append("' not found");
                s
            },
            RuntimeError::ExpectedReference(a0) => {
                let mut s = String::from_str("Expected reference, found '");
                s.append(a0.as_str());
                s.append("'");
                s
            },
            RuntimeError::AttributeNotFound(a0) => {
                let mut s = String::from_str("Attribute '");
                s.append(a0.as_str());
                s.append("' not found");
                s
            },
            RuntimeError::CannotInferEmptyArrayType => {
                let mut s = String::from_str("Cannot infer array type from empty array");
                s
            },
            RuntimeError::InvalidArrayIndex(a0) => {
                let mut s = String::from_str("Array index ");
                s.append(a0.as_str());
                s.append(" invalid");
                s
            },
            RuntimeError::ExpectedIntegerForRange(a0) => {
                let mut s = String::from_str("Expected integral type for ranges, found '");
                s.append(a0.as_str());
                s.append("'");
                s
            },
            RuntimeError::ExpectedInteger(a0) => {
                let mut s = String::from_str("Expected integral type, found '");
                s.append(a0.as_str());
                s.append("'");
                s
            },
            RuntimeError::UnsupportedBinaryOperation { lhs_type, operation, rhs_type } => {
                let mut s = String::from_str("Unsupported binary operation for '[");
                s.append(lhs_type.as_str());
                s.append("] ");
                s.append(operation.as_str());
                s.append(" [");
                s.append(rhs_type.as_str());
                s.append("]'");
                s
            },
            RuntimeError::UnsupportedUnaryOperation(a0, a1) => {
                let mut s = String::from_str("Unsupported unary operation for '");
                s.append(a0.as_str());
                s.append("[");
                s.append(a1.as_str());
                s.append("]'");
                s
            },
            RuntimeError::AnnotationError { expected, found } => {
                let mut s = String::from_str("Failed to apply type annotation (expected annotated type '");
                s.append(expected.as_str());
                s.append("', but the assigned value resolved to '");
                s.append(found.as_str());
                s.append("')");
                s
            },
            RuntimeError::AlreadyDefined(a0, a1) => {
                let mut s = String::from_str("Identifier '");
                s.append(a0.as_str());
                s.append("' already defined as a ");
                s.append(a1.as_str());
                s
            },
            RuntimeError::InvalidReferenceTarget => {
                let mut s = String::from_str("Invalid reference target");
                s
            },
            RuntimeError::InvalidStructComparison(a0, a1) => {
                let mut s = String::from_str("Cannot compare structs of type '");
                s.append(a0.as_str());
                s.append("' and '");
                s.append(a1.as_str());
                s.append("'");
                s
            },
            RuntimeError::ExpectedBoolean => {
                let mut s = String::from_str("The expression given does not resolve to a boolean value");
                s
            },
            RuntimeError::ExpectedStruct => {
                let mut s = String::from_str("The expression given does not resolve to a struct or struct reference");
                s
            },
            RuntimeError::CannotDereferenceNonReference => {
                let mut s = String::from_str("Cannot dereference a type that is not a reference");
                s
            },
            RuntimeError::TypeCoercionFail { from, to } => {
                let mut s = String::from_str("Cannot coerce a '");
                s.append(from.as_str());
                s.append("' into a '");
                s.append(to.as_str());
                s.append("'");
                s
            },
            RuntimeError::CannotInvokeMethodOnType(a0) => {
                let mut s = String::from_str("Cannot invoke a method on type '");
                s.append(a0.as_str());
                s.append("'");
                s
            },
            RuntimeError::CannotIterateOnType(a0) => {
                let mut s = String::from_str("Cannot iterate on type '");
                s.append(a0.as_str());
                s.append("'");
                s
            },
            RuntimeError::InvalidCast(a0, a1) => {
                let mut s = String::from_str("Cannot cast a '");
                s.append(a0.as_str());
                s.append("' to a '");
                s.append(a1.as_str());
                s.append("'");
                s
            },
            RuntimeError::IncompleteStructInitialization(a0) => {
                let mut s = String::from_str("Incomplete struct initialization for '");
                s.append(a0.as_str());
                s.append("'");
                s
            },
            RuntimeError::IncompleteArrayInitialization(a0) => {
                let mut s = String::from_str("Incomplete array initialization for '");
                s.append(a0.as_str());
                s.append("'");
                s
            },
            RuntimeError::TooManyArrayElementsForInitialization { array_type, expected, found } => {
                let mut s = String::from_str("Attempted to initialize array of type '");
                s.append(array_type.as_str());
                s.append("' with too many elements (expected ");
                let d = usize_to_decimal(*expected);
                s.append(d.as_str());
                s.append(", found ");
                let d = usize_to_decimal(*found);
                s.append(d.as_str());
                s
            },
            RuntimeError::InvalidStructFieldInitialization { field_name, struct_name, expected, found } => {
                let mut s = String::from_str("Invalid initialization type for field '");
                s.append(field_name.as_str());
                s.append("' of struct '");
                s.append(struct_name.as_str());
                s.append("' (expected '");
                s.append(expected.as_str());
                s.append("', found '");
                s.append(found.as_str());
                s.append("')");
                s
            },
            RuntimeError::InvalidStructFieldAccessTarget { field, data_type } => {
                let mut s = String::from_str("Cannot access field '");
                s.append(field.as_str());
                s.append("' of '");
                s.append(data_type.as_str());
                s.append("' because it is not a struct");
                s
            },
            RuntimeError::NonPODType(a0) => {
                let mut s = String::from_str("Field of type '");
                s.append(a0.as_str());
                s.append("' is not POD");
                s
            },
            RuntimeError::InvalidAttributeArgument { attribute, expected, found } => {
                let mut s = String::from_str("Attribute '");
                s.append(attribute.as_str());
                s.append("' expects ");
                s.append(expected.as_str());
                s.append(", but found '");
                s.append(found.as_str());
                s.append("'");
                s
            },
            RuntimeError::UnexpectedAttributeArgument { attribute, found } => {
                let mut s = String::from_str("Attribute '");
                s.append(attribute.as_str());
                s.append("' was given '");
                s.append(found.as_str());
                s.append("', but it is not a valid argument");
                s
            },
            RuntimeError::InvalidAttributeArgumentCount { attribute, expected, found } => {
                let mut s = String::from_str("Attribute '");
                s.append(attribute.as_str());
                s.append("' expects ");
                let d = usize_to_decimal(*expected);
                s.append(d.as_str());
                s.append(" arguments, but found ");
                let d = usize_to_decimal(*found);
                s.append(d.as_str());
                s
            },
            RuntimeError::InvalidFunctionArguments { signature, note } => {
                let mut s = String::from_str("Invalid function arguments for [signature]. ");
                s.append(note.as_str());
                s
            },
            RuntimeError::CannotDefaultInitializeReference => {
                let mut s = String::from_str("References cannot have default values");
                s
            },
            RuntimeError::CannotDefaultInitializeIterator => {
                let mut s = String::from_str("Iterators cannot have default values");
                s
            },
            RuntimeError::CannotDefaultInitialize(a0) => {
                let mut s = String::from_str("Values of type '");
                s.append(a0.as_str());
                s.append("' have no default value");
                s
            },
            RuntimeError::ArrayIndexOutOfBounds { index, length } => {
                let mut s = String::from_str("Array index ");
                let d = usize_to_decimal(*index);
                s.append(d.as_str());
                s.append(" out of bounds when the length is ");
                let d = usize_to_decimal(*length);
                s.append(d.as_str());
                s
            },
            RuntimeError::CannotIndexNonArrayType(a0) => {
                let mut s = String::from_str("Cannot index type ");
                s.append(a0.as_str());
                s
            },
            RuntimeError::CannotDetermineDataTypeSize(a0) => {
                let mut s = String::from_str("Cannot determine the size of '");
                s.append(a0.as_str());
                s.append("'");
                s
            },
            RuntimeError::MissingNativeArguments { function_name, expected, found } => {
                let mut s = String::from_str("Native function '");
                s.append(function_name.as_str());
                s.append("' expects ");
                let d = usize_to_decimal(*expected);
                s.append(d.as_str());
                s.append(" arguments, but found ");
                let d = usize_to_decimal(*found);
                s.append(d.as_str());
                s
            },
            RuntimeError::MissingNativeGenerics { function_name, expected, found } => {
                let mut s = String::from_str("Native function '");
                s.append(function_name.as_str());
                s.append("' expects ");
                let d = usize_to_decimal(*expected);
                s.append(d.as_str());
                s.append(" generic arguments, but found ");
                let d = usize_to_decimal(*found);
                s.append(d.as_str());
                s
            },
            RuntimeError::NativeError(a0) => {
                let mut s = String::from_str("Native function failed: ");
                s.append(a0.as_str());
                s
            },
            RuntimeError::NonAsciiString(a0) => {
                let mut s = String::from_str("Attempted to serialize the following non-ascii string as ascii: ");
                s.append(a0.as_str());
                s
            },
            RuntimeError::UnexpectedEOF => {
                let mut s = String::from_str("Unexpectedly reached EOF when deserializing file");
                s
            },
            RuntimeError::SerializationError(a0) => {
                let mut s = String::from_str("Serialization error: ");
                s.append(a0.as_str());
                s
            },
            RuntimeError::CannotDeserialize(a0) => {
                let mut s = String::from_str("Cannot deserialize a '");
                s.append(a0.as_str());
                s.append("'");
                s
            },
            RuntimeError::UncountedArray => {
                let mut s = String::from_str("An array must have a count");
                s
            },
            RuntimeError::Io(a0) => {
                let mut s = String::from_str("Failed to perform I/O operation: ");
                s.append(a0.as_str());
                s
            },
            RuntimeError::CountedByFail(a0) => {
                let mut s = String::from_str("Struct field '");
                s.append(a0.as_str());
                s.append("' not read before trying to use the \"counted_by\" attribute or is non-numeric");
                s
            },
            RuntimeError::ArithmeticOverflow(a0) => {
                let mut s = String::from_str("Integer overflow in '");
                s.append(a0.as_str());
                s.append("'");
                s
            },
            RuntimeError::DivisionByZero => {
                let mut s = String::from_str("Division by zero");
                s
            },
            RuntimeError::ShiftOverflow(a0) => {
                let mut s = String::from_str("Shift overflow in '");
                s.append(a0.as_str());
                s.append("'");
                s
            },
            RuntimeError::ReferenceCycle => {
                let mut s = String::from_str("A chain of references does not end");
                s
            },
            RuntimeError::OutOfFuel => {
                let mut s = String::from_str("The evaluation budget was used up");
                s
            },
            RuntimeError::UnexpectedExpression(a0) => {
                let mut s = String::from_str("Unexpected expression: ");
                s.append(a0.as_str());
                s
            },
            RuntimeError::UnexpectedBreak => {
                let mut s = String::from_str("Break outside of a loop");
                s
            },
            RuntimeError::InvalidShiftAmount => {
                let mut s = String::from_str("Invalid shift amount");
                s
            },
            RuntimeError::ExpectedIntegerOperand => {
                let mut s = String::from_str("Expected an integer operand");
                s
            },
            RuntimeError::RunOnImportCalled(a0) => {
                let mut s = String::from_str("Function '");
                s.append(a0.as_str());
                s.append("' runs only when its file is imported");
                s
            },
            RuntimeError::ReturnedReference(a0) => {
                let mut s = String::from_str("Function '");
                s.append(a0.as_str());
                s.append("' returned a reference");
                s
            },
        }
    }
}

pub type RuntimeResult<T> = Result<T, RuntimeError>;

} // verus!
