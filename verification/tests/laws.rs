use seagrass::ast::{Assignment, AssignmentTarget, BinaryOperator, Block, DataType, Expression, MethodDefinition, Statement, StructImpl, UnaryOperator, Value};
use seagrass::error::RuntimeError;
use seagrass::literals::{parse_i32_literal, parse_usize_literal, LiteralError};
use seagrass::runtime::Runtime;
use seagrass::value::RuntimeValue;

#[test]
fn assigned_value_is_read_back() {
    let mut runtime = Runtime::new();
    runtime.assign_variable("x".to_string(), RuntimeValue::U8(5));
    let cell = runtime.get_variable("x").unwrap();
    assert_eq!(*runtime.heap.read(cell), RuntimeValue::U8(5));
    runtime.assign_variable("y".to_string(), RuntimeValue::U8(6));
    let cell = runtime.get_variable("x").unwrap();
    assert_eq!(*runtime.heap.read(cell), RuntimeValue::U8(5));
}

#[test]
fn popping_a_scope_restores_the_bindings_it_hid() {
    let mut runtime = Runtime::new();
    runtime.assign_variable("x".to_string(), RuntimeValue::S32(1));
    runtime.push_scope();
    let cell = runtime.get_variable("x").unwrap();
    assert_eq!(*runtime.heap.read(cell), RuntimeValue::S32(1));
    runtime.assign_variable("x".to_string(), RuntimeValue::S32(2));
    let cell = runtime.get_variable("x").unwrap();
    assert_eq!(*runtime.heap.read(cell), RuntimeValue::S32(2));
    runtime.pop_scope();
    let cell = runtime.get_variable("x").unwrap();
    assert_eq!(*runtime.heap.read(cell), RuntimeValue::S32(1));
}

#[test]
fn every_type_coerces_into_itself() {
    let types = vec![
        DataType::U8,
        DataType::S32,
        DataType::Usize,
        DataType::String,
        DataType::Bool,
        DataType::UserDefined("Thing".to_string()),
        DataType::Array { inner_data_type: Box::new(DataType::U16), count: Some(2) },
    ];
    for t in &types {
        assert!(t.can_be_coerced_into(t));
    }
    assert!(!DataType::String.can_be_coerced_into(&DataType::Bool));
}

#[test]
fn cast_to_own_type_gives_the_value_back() {
    let mut runtime = Runtime::new();
    let cast = Expression::TypeCast {
        expression: Box::new(Expression::Value(Value::U16(700))),
        target_type: DataType::U16,
    };
    assert_eq!(runtime.evaluate_expression(&cast, 10).unwrap(), RuntimeValue::U16(700));
    let signed = Expression::TypeCast {
        expression: Box::new(Expression::Value(Value::S8(-3))),
        target_type: DataType::S8,
    };
    assert_eq!(runtime.evaluate_expression(&signed, 10).unwrap(), RuntimeValue::S8(-3));
}

#[test]
fn integer_literals_in_each_base() {
    assert_eq!(parse_i32_literal("123"), Ok(123));
    assert_eq!(parse_i32_literal("-45"), Ok(-45));
    assert_eq!(parse_i32_literal("+7"), Ok(7));
    assert_eq!(parse_i32_literal("0x1F"), Ok(31));
    assert_eq!(parse_i32_literal("0XfF"), Ok(255));
    assert_eq!(parse_i32_literal("0b101"), Ok(5));
    assert_eq!(parse_i32_literal("2147483647"), Ok(i32::MAX));
    assert_eq!(parse_i32_literal("-2147483648"), Ok(i32::MIN));
    assert_eq!(parse_usize_literal("0"), Ok(0));
    assert_eq!(parse_usize_literal("0x10"), Ok(16));
    assert_eq!(parse_usize_literal("0B11"), Ok(3));
}

#[test]
fn integer_literal_errors() {
    assert_eq!(parse_i32_literal(""), Err(LiteralError::Empty));
    assert_eq!(parse_i32_literal("0x"), Err(LiteralError::Empty));
    assert_eq!(parse_i32_literal("12a"), Err(LiteralError::InvalidDigit));
    assert_eq!(parse_i32_literal("0b2"), Err(LiteralError::InvalidDigit));
    assert_eq!(parse_i32_literal("2147483648"), Err(LiteralError::Overflow));
    assert_eq!(parse_usize_literal("-1"), Err(LiteralError::InvalidDigit));
    assert_eq!(parse_usize_literal("99999999999999999999999"), Err(LiteralError::Overflow));
}

fn binary(lhs: Expression, operator: BinaryOperator, rhs: Expression) -> Expression {
    Expression::Binary { lhs: Box::new(lhs), rhs: Box::new(rhs), operator }
}

fn variable(name: &str) -> Expression {
    Expression::Value(Value::Identifier(name.to_string()))
}

#[test]
fn expressions_over_variables_evaluate_without_changing_the_runtime() {
    let mut runtime = Runtime::new();
    runtime.assign_variable("x".to_string(), RuntimeValue::S32(3));
    runtime.assign_variable("y".to_string(), RuntimeValue::S32(4));
    let cells = runtime.heap.len();
    let sum = binary(variable("x"), BinaryOperator::Add, binary(Expression::Value(Value::S32(2)), BinaryOperator::Multiply, variable("y")));
    assert_eq!(runtime.evaluate_expression(&sum, 100).unwrap(), RuntimeValue::S32(11));
    let negated = Expression::Unary { operator: UnaryOperator::Negate, expression: Box::new(variable("x")) };
    assert_eq!(runtime.evaluate_expression(&negated, 100).unwrap(), RuntimeValue::S32(-3));
    let not_less = Expression::Unary {
        operator: UnaryOperator::LogicalNot,
        expression: Box::new(binary(variable("x"), BinaryOperator::LessThan, variable("y"))),
    };
    assert_eq!(runtime.evaluate_expression(&not_less, 100).unwrap(), RuntimeValue::Bool(false));
    let reference = Expression::Unary { operator: UnaryOperator::Reference, expression: Box::new(variable("y")) };
    assert_eq!(runtime.evaluate_expression(&reference, 100).unwrap(), RuntimeValue::Reference(1));
    let cast = Expression::TypeCast { expression: Box::new(variable("y")), target_type: DataType::U8 };
    assert_eq!(runtime.evaluate_expression(&cast, 100).unwrap(), RuntimeValue::U8(4));
    assert_eq!(runtime.heap.len(), cells);
    let missing = binary(variable("x"), BinaryOperator::Add, variable("nowhere"));
    assert!(runtime.evaluate_expression(&missing, 100).is_err());
    assert_eq!(runtime.heap.len(), cells);
}

#[test]
fn overflow_and_division_by_zero_are_errors() {
    let mut runtime = Runtime::new();
    let overflow = binary(Expression::Value(Value::S8(127)), BinaryOperator::Add, Expression::Value(Value::S8(1)));
    assert!(matches!(runtime.evaluate_expression(&overflow, 10), Err(RuntimeError::ArithmeticOverflow(_))));
    let division = binary(Expression::Value(Value::U8(1)), BinaryOperator::Divide, Expression::Value(Value::U8(0)));
    assert!(matches!(runtime.evaluate_expression(&division, 10), Err(RuntimeError::DivisionByZero)));
    assert!(matches!(runtime.evaluate_expression(&overflow, 0), Err(RuntimeError::OutOfFuel)));
}

#[test]
fn impl_blocks_know_their_methods() {
    let block = StructImpl {
        struct_identifier: "Point".to_string(),
        function_definitions: vec![],
        method_definitions: vec![MethodDefinition {
            attributes: vec![],
            identifier: "norm".to_string(),
            body: Block { statements: vec![] },
            parameters: vec![],
        }],
    };
    assert!(block.has_method("norm"));
    assert!(!block.has_method("scale"));
}

#[test]
fn values_go_into_new_cells() {
    let mut runtime = Runtime::new();
    let a = RuntimeValue::U8(1).into_runtime_reference(&mut runtime.heap);
    let b = RuntimeValue::U8(2).into_runtime_reference(&mut runtime.heap);
    assert_eq!((a, b), (0, 1));
    assert_eq!(*runtime.heap.read(b), RuntimeValue::U8(2));
}

#[test]
fn a_block_leaves_every_binding_as_it_was() {
    let declare = |name: &str, n: i32| {
        Statement::Assignment(Assignment {
            declarative: true,
            target: AssignmentTarget::Identifier(name.to_string()),
            data_type: None,
            expression: Expression::Value(Value::S32(n)),
        })
    };
    let mut runtime = Runtime::new();
    runtime.assign_variable("x".to_string(), RuntimeValue::S32(1));
    let inner = Block { statements: vec![declare("x", 2), declare("y", 3)] };
    let flow = runtime.execute_block(&inner, 100).unwrap();
    assert!(matches!(flow, seagrass::runtime::ControlFlow::Continue));
    let cell = runtime.get_variable("x").unwrap();
    assert_eq!(*runtime.heap.read(cell), RuntimeValue::S32(1));
    assert!(runtime.get_variable("y").is_err());
}

#[test]
fn assignment_coerces_into_the_variables_type() {
    let mut runtime = Runtime::new();
    runtime.assign_variable("x".to_string(), RuntimeValue::U32(1));
    let cell = runtime.get_variable("x").unwrap();
    let assign = |expression: Expression| {
        Statement::Assignment(Assignment {
            declarative: false,
            target: AssignmentTarget::Identifier("x".to_string()),
            data_type: None,
            expression,
        })
    };
    runtime.execute_statement(&assign(Expression::Value(Value::U8(7))), 100).unwrap();
    assert_eq!(runtime.get_variable("x").unwrap(), cell);
    assert_eq!(*runtime.heap.read(cell), RuntimeValue::U32(7));
    let refused = runtime.execute_statement(&assign(Expression::Value(Value::String("seven".to_string()))), 100);
    assert!(matches!(refused, Err(RuntimeError::TypeCoercionFail { .. })));
    assert_eq!(*runtime.heap.read(cell), RuntimeValue::U32(7));
    let unbound = Statement::Assignment(Assignment {
        declarative: false,
        target: AssignmentTarget::Identifier("nope".to_string()),
        data_type: None,
        expression: Expression::Value(Value::U8(1)),
    });
    assert!(matches!(runtime.execute_statement(&unbound, 100), Err(RuntimeError::VariableNotFound(_))));
}

#[test]
fn indexing_an_array_variable_only_reads() {
    let mut runtime = Runtime::new();
    let a = runtime.heap.allocate(RuntimeValue::U8(10));
    let b = runtime.heap.allocate(RuntimeValue::U8(20));
    runtime.assign_variable("xs".to_string(), RuntimeValue::Array { inner_data_type: DataType::U8, contents: vec![a, b] });
    let cells = runtime.heap.len();
    let index = |i: i32| Expression::ArrayAccess {
        expression: Box::new(variable("xs")),
        index_expression: Box::new(Expression::Value(Value::S32(i))),
    };
    let sum = binary(index(0), BinaryOperator::Add, index(1));
    assert_eq!(runtime.evaluate_expression(&sum, 100).unwrap(), RuntimeValue::U8(30));
    assert!(matches!(runtime.evaluate_expression(&index(2), 100), Err(RuntimeError::ArrayIndexOutOfBounds { index: 2, length: 2 })));
    assert!(matches!(runtime.evaluate_expression(&index(-1), 100), Err(RuntimeError::InvalidArrayIndex(_))));
    assert_eq!(runtime.heap.len(), cells);
}

#[test]
fn field_access_through_a_reference_only_reads() {
    let mut runtime = Runtime::new();
    let x = runtime.heap.allocate(RuntimeValue::U16(5));
    let y = runtime.heap.allocate(RuntimeValue::U16(6));
    let point = RuntimeValue::Struct { definition: "Point".to_string(), fields: vec![("x".to_string(), x), ("y".to_string(), y)] };
    runtime.assign_variable("p".to_string(), point);
    let cells = runtime.heap.len();
    let through = |field: &str| Expression::StructFieldAccess {
        expression: Box::new(Expression::Unary { operator: UnaryOperator::Reference, expression: Box::new(variable("p")) }),
        field_identifier: field.to_string(),
    };
    let sum = binary(through("x"), BinaryOperator::Add, through("y"));
    assert_eq!(runtime.evaluate_expression(&sum, 100).unwrap(), RuntimeValue::U16(11));
    assert!(matches!(runtime.evaluate_expression(&through("z"), 100), Err(RuntimeError::InvalidStructFieldAccess { .. })));
    assert_eq!(runtime.heap.len(), cells);
}

#[test]
fn dereferencing_a_scalar_only_reads() {
    let mut runtime = Runtime::new();
    runtime.assign_variable("x".to_string(), RuntimeValue::S32(41));
    let cells = runtime.heap.len();
    let reference = Expression::Unary { operator: UnaryOperator::Reference, expression: Box::new(variable("x")) };
    let deref = Expression::Unary { operator: UnaryOperator::Dereference, expression: Box::new(reference) };
    let plus_one = binary(deref, BinaryOperator::Add, Expression::Value(Value::S32(1)));
    assert_eq!(runtime.evaluate_expression(&plus_one, 100).unwrap(), RuntimeValue::S32(42));
    let not_a_reference = Expression::Unary { operator: UnaryOperator::Dereference, expression: Box::new(variable("x")) };
    assert!(matches!(runtime.evaluate_expression(&not_a_reference, 100), Err(RuntimeError::CannotDereferenceNonReference)));
    assert_eq!(runtime.heap.len(), cells);
}
