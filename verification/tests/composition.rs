use seagrass::ast::{
    ArrayInitialization, Assignment, AssignmentTarget, Attribute, BinaryOperator, Block, ControlStatement, DataType,
    Expression, FunctionCall, FunctionDefinition, Program, Return, Statement, StructDefinition, StructFieldDefinition,
    StructFieldInitialization, StructInitialization, StructMember, Value,
};
use seagrass::error::RuntimeError;
use seagrass::runtime::{BuiltinMethod, BuiltinMethodTarget, NativeFunction, Runtime, RuntimeConfigOption};
use seagrass::value::{clone_value, NativeObject, RuntimeValue};

fn num(n: i32) -> Expression {
    Expression::Value(Value::S32(n))
}

fn name(s: &str) -> Expression {
    Expression::Value(Value::Identifier(s.to_string()))
}

fn call(function: &str) -> Expression {
    Expression::FunctionCall(FunctionCall { identifier: function.to_string(), arguments: vec![], generics: vec![] })
}

fn binary(lhs: Expression, operator: BinaryOperator, rhs: Expression) -> Expression {
    Expression::Binary { lhs: Box::new(lhs), rhs: Box::new(rhs), operator }
}

fn declare(variable: &str, expression: Expression) -> Statement {
    Statement::Assignment(Assignment {
        declarative: true,
        target: AssignmentTarget::Identifier(variable.to_string()),
        data_type: None,
        expression,
    })
}

fn assign(target: AssignmentTarget, expression: Expression) -> Statement {
    Statement::Assignment(Assignment { declarative: false, target, data_type: None, expression })
}

fn function(identifier: &str, statements: Vec<Statement>) -> Statement {
    Statement::FunctionDefinition(FunctionDefinition {
        attributes: vec![],
        identifier: identifier.to_string(),
        body: Block { statements },
        parameters: vec![],
    })
}

fn ret(expression: Expression) -> Statement {
    Statement::Return(Return { expression })
}

fn array(elements: Vec<Expression>) -> Expression {
    Expression::ArrayInitialization(ArrayInitialization { initialized_fields: elements, use_defaults: false })
}

fn attribute(identifier: &str, arguments: Vec<Expression>) -> Attribute {
    Attribute { identifier: identifier.to_string(), arguments }
}

fn field_def(identifier: &str, data_type: DataType, attributes: Vec<Attribute>) -> StructMember {
    StructMember::Field(StructFieldDefinition { attributes, identifier: identifier.to_string(), data_type })
}

fn execute(statements: Vec<Statement>) -> (Runtime, Result<(), RuntimeError>) {
    let mut runtime = Runtime::new().with_configs(&[RuntimeConfigOption::PreserveExpiredFrames(true)]);
    let r = runtime.execute(&Program { statements });
    (runtime, r)
}

fn global(runtime: &Runtime, variable: &str) -> RuntimeValue {
    let cell = runtime.get_global_variable(variable).expect("the variable is defined");
    clone_value(runtime.heap.read(cell))
}

#[test]
fn call_results_are_operands_in_order() {
    let (runtime, r) = execute(vec![
        function("one", vec![ret(num(1))]),
        function("two", vec![ret(num(2))]),
        declare("d", binary(call("two"), BinaryOperator::Subtract, call("one"))),
        declare("e", binary(call("one"), BinaryOperator::Subtract, call("two"))),
    ]);
    assert!(r.is_ok());
    assert_eq!(global(&runtime, "d"), RuntimeValue::S32(1));
    assert_eq!(global(&runtime, "e"), RuntimeValue::S32(-1));
}

#[test]
fn struct_field_takes_a_call_result() {
    let (runtime, r) = execute(vec![
        Statement::StructDefinition(StructDefinition {
            attributes: vec![],
            identifier: "Box1".to_string(),
            members: vec![field_def("v", DataType::U32, vec![])],
        }),
        function("seven", vec![ret(num(7))]),
        declare(
            "b",
            Expression::StructInitialization(StructInitialization {
                identifier: "Box1".to_string(),
                initialized_fields: vec![StructFieldInitialization { identifier: "v".to_string(), expression: call("seven") }],
                use_defaults: false,
            }),
        ),
        declare(
            "v",
            Expression::StructFieldAccess { expression: Box::new(name("b")), field_identifier: "v".to_string() },
        ),
    ]);
    assert!(r.is_ok());
    assert_eq!(global(&runtime, "v"), RuntimeValue::U32(7));
}

#[test]
fn array_element_takes_a_computed_value() {
    let (runtime, r) = execute(vec![
        function("three", vec![ret(num(3))]),
        declare("xs", array(vec![binary(num(1), BinaryOperator::Add, num(1)), call("three")])),
        declare(
            "second",
            Expression::ArrayAccess { expression: Box::new(name("xs")), index_expression: Box::new(num(1)) },
        ),
    ]);
    assert!(r.is_ok());
    assert_eq!(global(&runtime, "second"), RuntimeValue::S32(3));
}

#[test]
fn for_runs_over_what_a_call_gives() {
    let (runtime, r) = execute(vec![
        function("items", vec![ret(array(vec![num(4), num(5), num(6)]))]),
        declare("total", num(0)),
        Statement::ControlStatement(ControlStatement::For {
            identifier: "x".to_string(),
            iterable: call("items"),
            block: Block { statements: vec![assign(
                AssignmentTarget::Identifier("total".to_string()),
                binary(name("total"), BinaryOperator::Add, name("x")),
            )] },
        }),
    ]);
    assert!(r.is_ok());
    assert_eq!(global(&runtime, "total"), RuntimeValue::S32(15));
}

#[test]
fn for_over_a_range_from_calls() {
    let (runtime, r) = execute(vec![
        function("from", vec![ret(num(2))]),
        function("until", vec![ret(num(5))]),
        declare("total", num(0)),
        Statement::ControlStatement(ControlStatement::For {
            identifier: "i".to_string(),
            iterable: Expression::Range { start: Box::new(call("from")), end: Box::new(call("until")) },
            block: Block { statements: vec![assign(
                AssignmentTarget::Identifier("total".to_string()),
                binary(name("total"), BinaryOperator::Add, num(1)),
            )] },
        }),
    ]);
    assert!(r.is_ok());
    assert_eq!(global(&runtime, "total"), RuntimeValue::S32(3));
}

#[test]
fn assignment_past_the_end_names_index_and_length() {
    let (runtime, r) = execute(vec![
        declare("xs", array(vec![num(1), num(2), num(3)])),
        assign(
            AssignmentTarget::ArrayAccess {
                target: Box::new(AssignmentTarget::Identifier("xs".to_string())),
                index_expression: num(3),
            },
            num(4),
        ),
    ]);
    assert!(matches!(r, Err(RuntimeError::ArrayIndexOutOfBounds { index: 3, length: 3 })));
    match global(&runtime, "xs") {
        RuntimeValue::Array { contents, .. } => {
            let values: Vec<RuntimeValue> = contents.iter().map(|c| clone_value(runtime.heap.read(*c))).collect();
            assert_eq!(values, vec![RuntimeValue::S32(1), RuntimeValue::S32(2), RuntimeValue::S32(3)]);
        }
        other => panic!("not an array: {other:?}"),
    }
}

#[test]
fn assignment_inside_the_array_writes_the_element() {
    let (runtime, r) = execute(vec![
        declare("xs", array(vec![num(1), num(2), num(3)])),
        assign(
            AssignmentTarget::ArrayAccess {
                target: Box::new(AssignmentTarget::Identifier("xs".to_string())),
                index_expression: num(1),
            },
            num(4),
        ),
    ]);
    assert!(r.is_ok());
    match global(&runtime, "xs") {
        RuntimeValue::Array { contents, .. } => {
            let values: Vec<RuntimeValue> = contents.iter().map(|c| clone_value(runtime.heap.read(*c))).collect();
            assert_eq!(values, vec![RuntimeValue::S32(1), RuntimeValue::S32(4), RuntimeValue::S32(3)]);
        }
        other => panic!("not an array: {other:?}"),
    }
}

#[test]
fn builtin_table_is_the_same_after_a_second_registration() {
    let mut runtime = Runtime::new();
    runtime.builtin_methods_mut().push((BuiltinMethodTarget::Array, "foo".to_string(), BuiltinMethod::ArrayIterator));
    runtime.register_builtin_methods();
    let first: Vec<String> = runtime.builtin_methods.iter().map(|(_, n, _)| n.clone()).collect();
    assert_eq!(first, vec!["iter", "close", "delete", "new", "open", "read", "read_value", "rename"]);
    runtime.register_builtin_methods();
    let second: Vec<String> = runtime.builtin_methods.iter().map(|(_, n, _)| n.clone()).collect();
    assert_eq!(first, second);
}

#[test]
fn read_without_a_type_names_the_function() {
    let mut runtime = Runtime::new();
    runtime.files.push(("a.bin".to_string(), vec![1]));
    let r = runtime.call_native(NativeFunction::Read, vec![RuntimeValue::String("a.bin".to_string())], &vec![]);
    assert!(matches!(r, Err(RuntimeError::MissingNativeGenerics { function_name, expected: 1, found: 0 })
        if function_name == "sg::read"));
}

#[test]
fn read_of_a_closed_handle_is_refused() {
    let mut runtime = Runtime::new();
    runtime.files.push(("a.bin".to_string(), vec![1, 2]));
    let handle = runtime.call_native(NativeFunction::OpenFile, vec![RuntimeValue::String("a.bin".to_string())], &vec![]).unwrap();
    assert!(runtime.call_builtin(BuiltinMethod::FileClose, vec![clone_value(&handle)], &vec![]).is_ok());
    let r = runtime.call_builtin(BuiltinMethod::FileRead, vec![clone_value(&handle)], &vec![DataType::U8]);
    assert!(matches!(r, Err(RuntimeError::NativeError(m)) if m == "file is closed"));
    let r = runtime.call_builtin(BuiltinMethod::FileReadValue, vec![RuntimeValue::NativeObject(NativeObject::File(0))], &vec![]);
    assert!(matches!(r, Err(RuntimeError::MissingNativeGenerics { function_name, .. })
        if function_name == "sg::FileHandle::read_value"));
}

#[test]
fn non_ascii_string_in_a_pod_struct_is_named() {
    let mut runtime = Runtime::new();
    let definition = StructDefinition {
        attributes: vec![attribute("pod", vec![])],
        identifier: "Named".to_string(),
        members: vec![
            field_def("id", DataType::U32, vec![]),
            field_def(
                "label",
                DataType::String,
                vec![attribute("serialize_as", vec![Expression::Value(Value::String("ascii".to_string()))])],
            ),
            field_def("tail", DataType::U32, vec![attribute("align", vec![Expression::Value(Value::U32(4))])]),
        ],
    };
    assert!(runtime.define_struct(&definition).is_ok());
    let id = runtime.heap.allocate(RuntimeValue::U32(1));
    let label = runtime.heap.allocate(RuntimeValue::String("a".to_string()));
    let tail = runtime.heap.allocate(RuntimeValue::U32(3));
    let value = RuntimeValue::Struct {
        definition: "Named".to_string(),
        fields: vec![("id".to_string(), id), ("label".to_string(), label), ("tail".to_string(), tail)],
    };
    assert_eq!(runtime.serialize_into(&value).unwrap(), vec![1, 0, 0, 0, 0x61, 0, 0, 0, 3, 0, 0, 0]);
    let accented = runtime.heap.allocate(RuntimeValue::String("é".to_string()));
    let value = RuntimeValue::Struct {
        definition: "Named".to_string(),
        fields: vec![("id".to_string(), id), ("label".to_string(), accented), ("tail".to_string(), tail)],
    };
    assert!(matches!(runtime.serialize_into(&value), Err(RuntimeError::NonAsciiString(s)) if s == "é"));
}

#[test]
fn zero_alignment_is_refused() {
    let mut runtime = Runtime::new();
    let definition = StructDefinition {
        attributes: vec![attribute("pod", vec![])],
        identifier: "Odd".to_string(),
        members: vec![field_def("v", DataType::U32, vec![attribute("align", vec![Expression::Value(Value::U32(0))])])],
    };
    assert!(runtime.define_struct(&definition).is_ok());
    assert_eq!(DataType::U32.static_size(&runtime).unwrap(), 4);
    let v = runtime.heap.allocate(RuntimeValue::U32(9));
    let value = RuntimeValue::Struct { definition: "Odd".to_string(), fields: vec![("v".to_string(), v)] };
    assert!(matches!(runtime.serialize_into(&value), Err(RuntimeError::InvalidAttributeArgument { .. })));
    assert!(DataType::UserDefined("Odd".to_string()).static_size(&runtime).is_err());
}

#[test]
fn pod_struct_with_a_field_without_bytes_is_refused() {
    let mut runtime = Runtime::new();
    let definition = StructDefinition {
        attributes: vec![attribute("pod", vec![])],
        identifier: "Wide".to_string(),
        members: vec![field_def("n", DataType::Usize, vec![])],
    };
    assert!(matches!(runtime.validate_pod(&definition), Err(RuntimeError::NonPODType(_))));
}

#[test]
fn assignment_index_from_a_call() {
    let (runtime, r) = execute(vec![
        function("second", vec![ret(num(1))]),
        declare("xs", array(vec![num(1), num(2), num(3)])),
        assign(
            AssignmentTarget::ArrayAccess {
                target: Box::new(AssignmentTarget::Identifier("xs".to_string())),
                index_expression: call("second"),
            },
            binary(call("second"), BinaryOperator::Add, num(8)),
        ),
    ]);
    assert!(r.is_ok());
    match global(&runtime, "xs") {
        RuntimeValue::Array { contents, .. } => {
            let values: Vec<RuntimeValue> = contents.iter().map(|c| clone_value(runtime.heap.read(*c))).collect();
            assert_eq!(values, vec![RuntimeValue::S32(1), RuntimeValue::S32(9), RuntimeValue::S32(3)]);
        }
        other => panic!("not an array: {other:?}"),
    }
}

#[test]
fn while_condition_from_a_call() {
    let (runtime, r) = execute(vec![
        function("limit", vec![ret(num(4))]),
        declare("n", num(0)),
        Statement::ControlStatement(ControlStatement::While {
            expression: binary(name("n"), BinaryOperator::LessThan, call("limit")),
            block: Block { statements: vec![assign(
                AssignmentTarget::Identifier("n".to_string()),
                binary(name("n"), BinaryOperator::Add, num(1)),
            )] },
        }),
    ]);
    assert!(r.is_ok());
    assert_eq!(global(&runtime, "n"), RuntimeValue::S32(4));
}

#[test]
fn if_condition_from_a_call_picks_the_else_branch() {
    let (runtime, r) = execute(vec![
        function("no", vec![ret(Expression::Value(Value::Bool(false)))]),
        declare("picked", num(0)),
        Statement::ControlStatement(ControlStatement::If {
            expression: call("no"),
            block: Block { statements: vec![assign(AssignmentTarget::Identifier("picked".to_string()), num(1))] },
            children: vec![ControlStatement::Else {
                block: Block { statements: vec![assign(AssignmentTarget::Identifier("picked".to_string()), num(2))] },
            }],
        }),
    ]);
    assert!(r.is_ok());
    assert_eq!(global(&runtime, "picked"), RuntimeValue::S32(2));
}
