use seagrass::ast::{
    ArrayInitialization, Assignment, AssignmentTarget, Block, DataType, Expression, FunctionDefinition, Program,
    Statement, StructDefinition, StructFieldDefinition, StructFieldInitialization, StructInitialization, StructMember,
    Value,
};
use seagrass::error::RuntimeError;
use seagrass::runtime::{Runtime, RuntimeConfigOption};
use seagrass::value::{clone_value, RuntimeValue};

fn num(n: i32) -> Expression {
    Expression::Value(Value::S32(n))
}

fn name(s: &str) -> Expression {
    Expression::Value(Value::Identifier(s.to_string()))
}

fn declare(variable: &str, expression: Expression) -> Statement {
    Statement::Assignment(Assignment {
        declarative: true,
        target: AssignmentTarget::Identifier(variable.to_string()),
        data_type: None,
        expression,
    })
}

fn pair_definition() -> Statement {
    Statement::StructDefinition(StructDefinition {
        attributes: vec![],
        identifier: "Pair".to_string(),
        members: vec![
            StructMember::Field(StructFieldDefinition { attributes: vec![], identifier: "a".to_string(), data_type: DataType::U32 }),
            StructMember::Field(StructFieldDefinition { attributes: vec![], identifier: "b".to_string(), data_type: DataType::Bool }),
        ],
    })
}

fn pair(fields: Vec<(&str, Expression)>, use_defaults: bool) -> Expression {
    Expression::StructInitialization(StructInitialization {
        identifier: "Pair".to_string(),
        initialized_fields: fields
            .into_iter()
            .map(|(f, e)| StructFieldInitialization { identifier: f.to_string(), expression: e })
            .collect(),
        use_defaults,
    })
}

fn field(expression: Expression, f: &str) -> Expression {
    Expression::StructFieldAccess { expression: Box::new(expression), field_identifier: f.to_string() }
}

fn global(runtime: &Runtime, variable: &str) -> RuntimeValue {
    let cell = runtime.get_global_variable(variable).expect("the variable is defined");
    clone_value(runtime.heap.read(cell))
}

fn execute(statements: Vec<Statement>) -> (Runtime, Result<(), RuntimeError>) {
    let mut runtime = Runtime::new().with_configs(&[RuntimeConfigOption::PreserveExpiredFrames(true)]);
    let r = runtime.execute(&Program { statements });
    (runtime, r)
}

#[test]
fn unsupported_binary_operation_text() {
    let e = RuntimeError::unsupported_binary_operation("s32".to_string(), "==".to_string(), "bool".to_string());
    assert!(matches!(&e, RuntimeError::UnsupportedBinaryOperation { lhs_type, operation, rhs_type }
        if lhs_type == "s32" && operation == "==" && rhs_type == "bool"));
    assert_eq!(e.to_string(), "Unsupported binary operation for '[s32] == [bool]'");
}

#[test]
fn error_texts_name_their_parts() {
    assert_eq!(RuntimeError::IncompleteStructInitialization("Pair".to_string()).to_string(), "Incomplete struct initialization for 'Pair'");
    assert_eq!(
        RuntimeError::ArrayIndexOutOfBounds { index: 12, length: 3 }.to_string(),
        "Array index 12 out of bounds when the length is 3"
    );
    assert_eq!(RuntimeError::DivisionByZero.to_string(), "Division by zero");
}

#[test]
fn literal_fields_start_as_their_types_take_them() {
    let (runtime, r) = execute(vec![
        pair_definition(),
        declare("p", pair(vec![("b", Expression::Value(Value::Bool(true))), ("a", num(7))], false)),
        declare("a", field(name("p"), "a")),
        declare("b", field(name("p"), "b")),
    ]);
    assert!(r.is_ok());
    assert_eq!(global(&runtime, "a"), RuntimeValue::U32(7));
    assert_eq!(global(&runtime, "b"), RuntimeValue::Bool(true));
}

#[test]
fn missing_initializer_without_defaults_is_refused() {
    let (_, r) = execute(vec![pair_definition(), declare("p", pair(vec![("a", num(7))], false))]);
    assert!(matches!(r, Err(RuntimeError::IncompleteStructInitialization(n)) if n == "Pair"));
}

#[test]
fn missing_initializer_with_defaults_takes_the_default() {
    let (runtime, r) = execute(vec![
        pair_definition(),
        declare("p", pair(vec![("a", num(7))], true)),
        declare("b", field(name("p"), "b")),
    ]);
    assert!(r.is_ok());
    assert_eq!(global(&runtime, "b"), RuntimeValue::Bool(false));
}

#[test]
fn missing_field_is_named() {
    let (_, r) = execute(vec![
        pair_definition(),
        declare("p", pair(vec![("a", num(7)), ("b", Expression::Value(Value::Bool(false)))], false)),
        declare("c", field(name("p"), "c")),
    ]);
    assert!(matches!(r, Err(RuntimeError::InvalidStructFieldAccess { field_name, struct_name })
        if field_name == "c" && struct_name == "Pair"));
}

#[test]
fn field_of_a_number_is_refused() {
    let (_, r) = execute(vec![declare("n", num(1)), declare("c", field(name("n"), "a"))]);
    assert!(matches!(r, Err(RuntimeError::InvalidStructFieldAccessTarget { field, data_type })
        if field == "a" && data_type == "s32"));
}

#[test]
fn array_elements_hold_their_literals() {
    let (runtime, r) = execute(vec![declare(
        "xs",
        Expression::ArrayInitialization(ArrayInitialization { initialized_fields: vec![num(4), num(5)], use_defaults: false }),
    )]);
    assert!(r.is_ok());
    match global(&runtime, "xs") {
        RuntimeValue::Array { contents, .. } => {
            assert_eq!(contents.len(), 2);
            assert_eq!(clone_value(runtime.heap.read(contents[0])), RuntimeValue::S32(4));
            assert_eq!(clone_value(runtime.heap.read(contents[1])), RuntimeValue::S32(5));
        }
        other => panic!("not an array: {other:?}"),
    }
}

#[test]
fn array_elements_of_two_types_are_refused() {
    let (_, r) = execute(vec![declare(
        "xs",
        Expression::ArrayInitialization(ArrayInitialization {
            initialized_fields: vec![num(4), Expression::Value(Value::Bool(true))],
            use_defaults: false,
        }),
    )]);
    assert!(matches!(r, Err(RuntimeError::TypeCoercionFail { .. })));
}

#[test]
fn top_level_statements_run_then_main() {
    let main = Statement::FunctionDefinition(FunctionDefinition {
        attributes: vec![],
        identifier: "main".to_string(),
        body: Block { statements: vec![declare("inside", num(2))] },
        parameters: vec![],
    });
    let (runtime, r) = execute(vec![main, declare("outside", num(1))]);
    assert!(r.is_ok());
    assert_eq!(global(&runtime, "outside"), RuntimeValue::S32(1));
    let frame = runtime.get_dead_frame("main").expect("main ran");
    let cell = frame.current_scope().get_variable("inside").expect("main bound its variable");
    assert_eq!(clone_value(runtime.heap.read(cell)), RuntimeValue::S32(2));
}

#[test]
fn failing_top_level_statement_stops_the_run() {
    let main = Statement::FunctionDefinition(FunctionDefinition {
        attributes: vec![],
        identifier: "main".to_string(),
        body: Block { statements: vec![declare("inside", num(2))] },
        parameters: vec![],
    });
    let (runtime, r) = execute(vec![main, declare("broken", name("nowhere")), declare("after", num(1))]);
    assert!(matches!(r, Err(RuntimeError::VariableNotFound(_))));
    assert!(runtime.get_global_variable("after").is_err());
    assert!(runtime.get_dead_frame("main").is_err());
}

#[test]
fn coerced_array_keeps_its_numbers_and_pads_with_defaults() {
    let mut runtime = Runtime::new();
    let a = runtime.heap.allocate(RuntimeValue::U8(1));
    let b = runtime.heap.allocate(RuntimeValue::U8(2));
    let value = RuntimeValue::Array { inner_data_type: DataType::U8, contents: vec![a, b] };
    let into = DataType::Array { inner_data_type: Box::new(DataType::U16), count: Some(4) };
    match runtime.coerce(value, &into) {
        Ok(RuntimeValue::Array { inner_data_type, contents }) => {
            assert_eq!(inner_data_type, DataType::U16);
            let values: Vec<RuntimeValue> = contents.iter().map(|c| clone_value(runtime.heap.read(*c))).collect();
            assert_eq!(values, vec![RuntimeValue::U16(1), RuntimeValue::U16(2), RuntimeValue::U16(0), RuntimeValue::U16(0)]);
        }
        other => panic!("not an array: {other:?}"),
    }
}

#[test]
fn assignment_to_a_field_coerces_into_its_type() {
    let (runtime, r) = execute(vec![
        pair_definition(),
        declare("p", pair(vec![("a", num(7)), ("b", Expression::Value(Value::Bool(false)))], false)),
        Statement::Assignment(Assignment {
            declarative: false,
            target: AssignmentTarget::FieldAccess {
                target: Box::new(AssignmentTarget::Identifier("p".to_string())),
                field_identifier: "a".to_string(),
            },
            data_type: None,
            expression: Expression::Value(Value::U8(9)),
        }),
        declare("a", field(name("p"), "a")),
    ]);
    assert!(r.is_ok());
    assert_eq!(global(&runtime, "a"), RuntimeValue::U32(9));
}

#[test]
fn assignment_to_a_missing_field_is_refused() {
    let (_, r) = execute(vec![
        pair_definition(),
        declare("p", pair(vec![("a", num(7)), ("b", Expression::Value(Value::Bool(false)))], false)),
        Statement::Assignment(Assignment {
            declarative: false,
            target: AssignmentTarget::FieldAccess {
                target: Box::new(AssignmentTarget::Identifier("p".to_string())),
                field_identifier: "z".to_string(),
            },
            data_type: None,
            expression: num(1),
        }),
    ]);
    assert!(matches!(r, Err(RuntimeError::InvalidStructFieldAccess { field_name, struct_name })
        if field_name == "z" && struct_name == "Pair"));
}
