use seagrass::ast::{
    ArrayInitialization, Assignment, AssignmentTarget, BinaryOperator, Block, ControlStatement,
    DataType, Expression, FunctionCall, FunctionDefinition, MethodDefinition, Program, Return,
    Statement, StructDefinition, StructFieldDefinition, StructFieldInitialization, StructImpl,
    StructInitialization, StructMember, UnaryOperator, Value,
};
use seagrass::runtime::{Runtime, RuntimeConfigOption};
use seagrass::value::{clone_value, RuntimeValue};

fn num(n: i32) -> Expression {
    Expression::Value(Value::S32(n))
}

fn text(s: &str) -> Expression {
    Expression::Value(Value::String(s.to_string()))
}

fn boolean(b: bool) -> Expression {
    Expression::Value(Value::Bool(b))
}

fn name(s: &str) -> Expression {
    Expression::Value(Value::Identifier(s.to_string()))
}

fn binary(lhs: Expression, operator: BinaryOperator, rhs: Expression) -> Expression {
    Expression::Binary { lhs: Box::new(lhs), rhs: Box::new(rhs), operator }
}

fn unary(operator: UnaryOperator, expression: Expression) -> Expression {
    Expression::Unary { operator, expression: Box::new(expression) }
}

fn call(function: &str) -> Expression {
    Expression::FunctionCall(FunctionCall { identifier: function.to_string(), arguments: vec![], generics: vec![] })
}

fn array(elements: Vec<Expression>) -> Expression {
    Expression::ArrayInitialization(ArrayInitialization { initialized_fields: elements, use_defaults: false })
}

fn index(expression: Expression, i: i32) -> Expression {
    Expression::ArrayAccess { expression: Box::new(expression), index_expression: Box::new(num(i)) }
}

fn field(expression: Expression, f: &str) -> Expression {
    Expression::StructFieldAccess { expression: Box::new(expression), field_identifier: f.to_string() }
}

fn declare(variable: &str, expression: Expression) -> Statement {
    Statement::Assignment(Assignment {
        declarative: true,
        target: AssignmentTarget::Identifier(variable.to_string()),
        data_type: None,
        expression,
    })
}

fn declare_typed(variable: &str, data_type: DataType, expression: Expression) -> Statement {
    Statement::Assignment(Assignment {
        declarative: true,
        target: AssignmentTarget::Identifier(variable.to_string()),
        data_type: Some(data_type),
        expression,
    })
}

fn assign(target: AssignmentTarget, expression: Expression) -> Statement {
    Statement::Assignment(Assignment { declarative: false, target, data_type: None, expression })
}

fn to(variable: &str) -> AssignmentTarget {
    AssignmentTarget::Identifier(variable.to_string())
}

fn block(statements: Vec<Statement>) -> Block {
    Block { statements }
}

fn function(identifier: &str, statements: Vec<Statement>) -> Statement {
    Statement::FunctionDefinition(FunctionDefinition {
        attributes: vec![],
        identifier: identifier.to_string(),
        body: block(statements),
        parameters: vec![],
    })
}

fn ret(expression: Expression) -> Statement {
    Statement::Return(Return { expression })
}

fn struct_definition(identifier: &str, fields: Vec<(&str, DataType)>) -> Statement {
    Statement::StructDefinition(StructDefinition {
        attributes: vec![],
        identifier: identifier.to_string(),
        members: fields
            .into_iter()
            .map(|(f, t)| StructMember::Field(StructFieldDefinition { attributes: vec![], identifier: f.to_string(), data_type: t }))
            .collect(),
    })
}

fn init(identifier: &str, fields: Vec<(&str, Expression)>, use_defaults: bool) -> Expression {
    Expression::StructInitialization(StructInitialization {
        identifier: identifier.to_string(),
        initialized_fields: fields
            .into_iter()
            .map(|(f, e)| StructFieldInitialization { identifier: f.to_string(), expression: e })
            .collect(),
        use_defaults,
    })
}

fn run(statements: Vec<Statement>, configs: &[RuntimeConfigOption]) -> Runtime {
    let mut runtime = Runtime::new().with_configs(configs);
    let _ = runtime.execute(&Program { statements });
    runtime
}

fn global(runtime: &Runtime, variable: &str) -> RuntimeValue {
    let cell = runtime.get_global_variable(variable).expect("the variable is defined");
    clone_value(runtime.heap.read(cell))
}

fn dead(runtime: &Runtime, frame: &str, variable: &str) -> RuntimeValue {
    let frame = runtime.get_dead_frame(frame).expect("the frame was kept");
    let cell = frame.current_scope().get_variable(variable).expect("the variable is defined");
    clone_value(runtime.heap.read(cell))
}

fn result_of(expression: Expression) -> RuntimeValue {
    let runtime = run(vec![declare("result", expression)], &[]);
    global(&runtime, "result")
}

/* arrays */

#[test]
fn define_array() {
    let runtime = run(vec![declare("arr", array(vec![num(1), num(2), num(3)]))], &[]);
    assert!(matches!(global(&runtime, "arr"), RuntimeValue::Array { .. }));
}

#[test]
fn read_from_array() {
    let runtime = run(
        vec![
            declare("arr", array(vec![num(1), num(2), num(3)])),
            declare(
                "out",
                binary(binary(index(name("arr"), 0), BinaryOperator::Add, index(name("arr"), 1)), BinaryOperator::Add, index(name("arr"), 2)),
            ),
        ],
        &[],
    );
    assert_eq!(global(&runtime, "out"), RuntimeValue::S32(1 + 2 + 3));
}

#[test]
fn assign_to_array() {
    let runtime = run(
        vec![
            declare("arr", array(vec![num(1), num(2), num(3)])),
            assign(AssignmentTarget::ArrayAccess { target: Box::new(to("arr")), index_expression: num(1) }, num(4)),
        ],
        &[],
    );
    if let RuntimeValue::Array { contents, .. } = global(&runtime, "arr") {
        assert_eq!(*runtime.heap.read(contents[1]), RuntimeValue::S32(4));
    } else {
        panic!("this should be an array")
    }
}

/* assignments */

#[test]
fn declarative_assignment() {
    let runtime = run(vec![declare("my_ident", num(123))], &[]);
    let cell = runtime.get_variable("my_ident").unwrap();
    assert!(matches!(*runtime.heap.read(cell), RuntimeValue::S32(123)));
}

#[test]
fn assignments_reassignment() {
    let runtime = run(vec![declare("my_ident", num(123)), assign(to("my_ident"), num(456))], &[]);
    let cell = runtime.get_variable("my_ident").unwrap();
    assert!(matches!(*runtime.heap.read(cell), RuntimeValue::S32(456)));
}

#[test]
fn check_data_types() {
    let runtime = run(
        vec![
            declare_typed("unsigned", DataType::U32, num(1)),
            declare_typed("signed", DataType::S32, num(2)),
            declare("implicitly_signed", num(3)),
        ],
        &[],
    );
    assert!(matches!(global(&runtime, "unsigned"), RuntimeValue::U32(1)));
    assert!(matches!(global(&runtime, "signed"), RuntimeValue::S32(2)));
    assert!(matches!(global(&runtime, "implicitly_signed"), RuntimeValue::S32(3)));
}

/* comparisons */

#[test]
fn compare_values() {
    let runtime = run(
        vec![
            declare("one", binary(num(1), BinaryOperator::EqualTo, num(1))),
            declare("two", binary(num(1), BinaryOperator::NotEqualTo, num(1))),
        ],
        &[],
    );
    assert_eq!(global(&runtime, "one"), RuntimeValue::Bool(true));
    assert_eq!(global(&runtime, "two"), RuntimeValue::Bool(false));
}

fn two_structs() -> Vec<Statement> {
    vec![
        struct_definition("StructOne", vec![("field_1", DataType::U32), ("field_2", DataType::U32)]),
        struct_definition("StructTwo", vec![("field_a", DataType::U32), ("field_b", DataType::U32)]),
    ]
}

#[test]
fn compare_structs() {
    let mut statements = two_structs();
    statements.extend(vec![
        declare("one", init("StructOne", vec![("field_1", num(1)), ("field_2", num(2))], false)),
        declare("two", init("StructOne", vec![("field_1", num(1)), ("field_2", num(3))], false)),
        declare("three", init("StructOne", vec![("field_1", num(1)), ("field_2", num(2))], false)),
        declare("result_1", binary(name("one"), BinaryOperator::EqualTo, name("two"))),
        declare("result_2", binary(name("one"), BinaryOperator::EqualTo, name("three"))),
    ]);
    let runtime = run(statements, &[]);
    assert_eq!(global(&runtime, "result_1"), RuntimeValue::Bool(false));
    assert_eq!(global(&runtime, "result_2"), RuntimeValue::Bool(true));

    let mut statements = two_structs();
    statements.extend(vec![
        declare("one", init("StructOne", vec![("field_1", num(1)), ("field_2", num(2))], false)),
        declare("two", init("StructTwo", vec![("field_a", num(1)), ("field_b", num(2))], false)),
        declare("result", binary(name("one"), BinaryOperator::EqualTo, name("two"))),
    ]);
    let runtime = run(statements, &[]);
    assert!(runtime.get_variable("result").is_err());
}

/* control flow */

fn if_program(my_val: i32) -> Vec<Statement> {
    let branch = |s: &str| block(vec![assign(to("out"), text(s))]);
    vec![
        declare("my_val", num(my_val)),
        declare("out", text("")),
        Statement::ControlStatement(ControlStatement::If {
            expression: binary(name("my_val"), BinaryOperator::EqualTo, num(1)),
            block: branch("ONE"),
            children: vec![
                ControlStatement::ElseIf { expression: binary(name("my_val"), BinaryOperator::EqualTo, num(2)), block: branch("TWO") },
                ControlStatement::Else { block: branch("DEFAULT") },
            ],
        }),
    ]
}

#[test]
fn if_statements() {
    let runtime = run(if_program(1), &[]);
    assert_eq!(global(&runtime, "out"), RuntimeValue::String("ONE".to_string()));
    let runtime = run(if_program(2), &[]);
    assert_eq!(global(&runtime, "out"), RuntimeValue::String("TWO".to_string()));
    let runtime = run(if_program(3), &[]);
    assert_eq!(global(&runtime, "out"), RuntimeValue::String("DEFAULT".to_string()));
}

fn decrement_val() -> Statement {
    assign(to("val"), binary(name("val"), BinaryOperator::Subtract, num(1)))
}

#[test]
fn while_statements() {
    let runtime = run(
        vec![
            declare("val", num(5)),
            Statement::ControlStatement(ControlStatement::While {
                expression: binary(name("val"), BinaryOperator::NotEqualTo, num(0)),
                block: block(vec![decrement_val()]),
            }),
        ],
        &[],
    );
    assert_eq!(global(&runtime, "val"), RuntimeValue::S32(0));
}

#[test]
fn loop_statements() {
    let runtime = run(
        vec![
            declare("val", num(5)),
            Statement::ControlStatement(ControlStatement::Loop {
                block: block(vec![
                    decrement_val(),
                    Statement::ControlStatement(ControlStatement::If {
                        expression: binary(name("val"), BinaryOperator::EqualTo, num(0)),
                        block: block(vec![Statement::Break]),
                        children: vec![],
                    }),
                ]),
            }),
        ],
        &[],
    );
    assert_eq!(global(&runtime, "val"), RuntimeValue::S32(0));
}

#[test]
fn ranged_for_statements() {
    let runtime = run(
        vec![
            declare("val", num(0)),
            Statement::ControlStatement(ControlStatement::For {
                identifier: "i".to_string(),
                iterable: Expression::Range { start: Box::new(num(0)), end: Box::new(num(10)) },
                block: block(vec![assign(to("val"), binary(name("val"), BinaryOperator::Add, name("i")))]),
            }),
        ],
        &[],
    );
    assert_eq!(global(&runtime, "val"), RuntimeValue::S32(45));
}

#[test]
fn iterator_for_statements() {
    let runtime = run(
        vec![
            declare("val", num(0)),
            declare("arr", array((1..10).map(num).collect())),
            Statement::ControlStatement(ControlStatement::For {
                identifier: "item".to_string(),
                iterable: name("arr"),
                block: block(vec![assign(to("val"), binary(name("val"), BinaryOperator::Add, name("item")))]),
            }),
        ],
        &[],
    );
    assert_eq!(global(&runtime, "val"), RuntimeValue::S32(45));
}

/* expressions inside functions */

#[test]
fn expressions_addition() {
    let runtime = run(
        vec![
            function("func_one", vec![ret(num(1))]),
            function("func_two", vec![ret(num(2))]),
            function(
                "main",
                vec![
                    declare("result_plus", binary(call("func_one"), BinaryOperator::Add, call("func_two"))),
                    declare("result_minus", binary(call("func_two"), BinaryOperator::Subtract, call("func_one"))),
                ],
            ),
        ],
        &[RuntimeConfigOption::PreserveExpiredFrames(true)],
    );
    assert!(matches!(dead(&runtime, "main", "result_plus"), RuntimeValue::S32(3)));
    assert!(matches!(dead(&runtime, "main", "result_minus"), RuntimeValue::S32(1)));
}

#[test]
fn expressions_multiplication() {
    let runtime = run(
        vec![function(
            "main",
            vec![
                declare("result_mul", binary(num(3), BinaryOperator::Multiply, num(2))),
                declare("result_div", binary(num(6), BinaryOperator::Divide, num(3))),
            ],
        )],
        &[RuntimeConfigOption::PreserveExpiredFrames(true)],
    );
    assert!(matches!(dead(&runtime, "main", "result_mul"), RuntimeValue::S32(6)));
    assert!(matches!(dead(&runtime, "main", "result_div"), RuntimeValue::S32(2)));
}

/* functions */

fn main_binding_123() -> Vec<Statement> {
    vec![function("main", vec![declare("my_ident", num(123))])]
}

fn main_calling_do_something() -> Vec<Statement> {
    vec![
        function("do_something", vec![ret(num(123))]),
        function("main", vec![declare("my_ident", call("do_something"))]),
    ]
}

#[test]
fn function_call_check_main() {
    let runtime = run(main_binding_123(), &[RuntimeConfigOption::PreserveExpiredFrames(true)]);
    assert!(matches!(dead(&runtime, "main", "my_ident"), RuntimeValue::S32(123)));
}

#[test]
fn function_call_return_value() {
    let runtime = run(main_calling_do_something(), &[RuntimeConfigOption::PreserveExpiredFrames(true)]);
    assert!(matches!(dead(&runtime, "main", "my_ident"), RuntimeValue::S32(123)));
}

#[test]
fn functions_check_main() {
    let runtime = run(main_binding_123(), &[RuntimeConfigOption::PreserveExpiredFrames(true)]);
    assert!(matches!(dead(&runtime, "main", "my_ident"), RuntimeValue::S32(123)));
}

#[test]
fn functions_return_value() {
    let runtime = run(main_calling_do_something(), &[RuntimeConfigOption::PreserveExpiredFrames(true)]);
    assert!(matches!(dead(&runtime, "main", "my_ident"), RuntimeValue::S32(123)));
}

#[test]
fn struct_method() {
    let runtime = run(
        vec![
            struct_definition("MyStruct", vec![("value", DataType::S32)]),
            Statement::StructImpl(StructImpl {
                struct_identifier: "MyStruct".to_string(),
                function_definitions: vec![],
                method_definitions: vec![MethodDefinition {
                    attributes: vec![],
                    identifier: "my_func".to_string(),
                    body: block(vec![ret(binary(field(name("self"), "value"), BinaryOperator::Multiply, num(2)))]),
                    parameters: vec![],
                }],
            }),
            declare("my_struct", init("MyStruct", vec![("value", num(2))], false)),
            declare(
                "out",
                Expression::MethodCall {
                    expression: Box::new(unary(UnaryOperator::Reference, name("my_struct"))),
                    method_identifier: "my_func".to_string(),
                    arguments: vec![],
                },
            ),
        ],
        &[],
    );
    assert_eq!(global(&runtime, "out"), RuntimeValue::S32(4));
}

/* operators */

#[test]
fn operators_addition() {
    assert_eq!(result_of(binary(num(1), BinaryOperator::Add, num(2))), RuntimeValue::S32(3));
}

#[test]
fn subtraction() {
    assert_eq!(result_of(binary(num(5), BinaryOperator::Subtract, num(3))), RuntimeValue::S32(2));
}

#[test]
fn operators_multiplication() {
    assert_eq!(result_of(binary(num(4), BinaryOperator::Multiply, num(5))), RuntimeValue::S32(20));
}

#[test]
fn division() {
    assert_eq!(result_of(binary(num(20), BinaryOperator::Divide, num(4))), RuntimeValue::S32(5));
}

#[test]
fn modulo() {
    assert_eq!(result_of(binary(num(10), BinaryOperator::Modulo, num(3))), RuntimeValue::S32(1));
}

#[test]
fn shift_left() {
    assert_eq!(result_of(binary(num(1), BinaryOperator::ShiftLeft, num(4))), RuntimeValue::S32(16));
}

#[test]
fn shift_right() {
    assert_eq!(result_of(binary(num(16), BinaryOperator::ShiftRight, num(2))), RuntimeValue::S32(4));
}

#[test]
fn less_than() {
    assert_eq!(result_of(binary(num(1), BinaryOperator::LessThan, num(2))), RuntimeValue::Bool(true));
}

#[test]
fn less_than_or_equal_to() {
    assert_eq!(result_of(binary(num(2), BinaryOperator::LessThanOrEqualTo, num(2))), RuntimeValue::Bool(true));
}

#[test]
fn greater_than() {
    assert_eq!(result_of(binary(num(2), BinaryOperator::GreaterThan, num(1))), RuntimeValue::Bool(true));
}

#[test]
fn greater_than_or_equal_to() {
    assert_eq!(result_of(binary(num(2), BinaryOperator::GreaterThanOrEqualTo, num(2))), RuntimeValue::Bool(true));
}

#[test]
fn equality() {
    assert_eq!(result_of(binary(num(123), BinaryOperator::EqualTo, num(123))), RuntimeValue::Bool(true));
}

#[test]
fn inequality() {
    assert_eq!(result_of(binary(num(123), BinaryOperator::NotEqualTo, num(456))), RuntimeValue::Bool(true));
}

#[test]
fn bitwise_and() {
    assert_eq!(result_of(binary(num(12), BinaryOperator::BitwiseAnd, num(10))), RuntimeValue::S32(8));
}

#[test]
fn bitwise_or() {
    assert_eq!(result_of(binary(num(12), BinaryOperator::BitwiseOr, num(3))), RuntimeValue::S32(15));
}

#[test]
fn bitwise_xor() {
    assert_eq!(result_of(binary(num(12), BinaryOperator::BitwiseXor, num(10))), RuntimeValue::S32(6));
}

#[test]
fn logical_and() {
    assert_eq!(result_of(binary(boolean(true), BinaryOperator::LogicalAnd, boolean(false))), RuntimeValue::Bool(false));
}

#[test]
fn logical_or() {
    assert_eq!(result_of(binary(boolean(true), BinaryOperator::LogicalOr, boolean(false))), RuntimeValue::Bool(true));
}

#[test]
fn negation() {
    assert_eq!(result_of(unary(UnaryOperator::Negate, num(123))), RuntimeValue::S32(-123));
}

#[test]
fn logical_not() {
    assert_eq!(result_of(unary(UnaryOperator::LogicalNot, boolean(true))), RuntimeValue::Bool(false));
}

#[test]
fn bitwise_not() {
    assert_eq!(result_of(unary(UnaryOperator::BitwiseNot, num(0))), RuntimeValue::S32(-1));
}

/* references */

#[test]
fn read_from_reference() {
    let runtime = run(
        vec![
            declare("my_var", num(1)),
            declare("my_ref", unary(UnaryOperator::Reference, name("my_var"))),
            declare("value_1", unary(UnaryOperator::Dereference, name("my_ref"))),
            assign(to("my_var"), num(2)),
            declare("value_2", unary(UnaryOperator::Dereference, name("my_ref"))),
        ],
        &[RuntimeConfigOption::PreserveExpiredFrames(true)],
    );
    assert_eq!(global(&runtime, "value_1"), RuntimeValue::S32(1));
    assert_eq!(global(&runtime, "value_2"), RuntimeValue::S32(2));
}

#[test]
fn write_to_reference() {
    let runtime = run(
        vec![
            declare("my_var", num(1)),
            declare("my_ref", unary(UnaryOperator::Reference, name("my_var"))),
            assign(AssignmentTarget::Dereference(Box::new(to("my_ref"))), num(2)),
        ],
        &[RuntimeConfigOption::PreserveExpiredFrames(true)],
    );
    assert_eq!(global(&runtime, "my_var"), RuntimeValue::S32(2));
}

/* scopes */

#[test]
fn check_scopes() {
    let runtime = run(
        vec![
            function("function_one", vec![declare("one", num(1)), ret(name("one"))]),
            function("function_two", vec![declare("two", num(2)), ret(name("two"))]),
            function("main", vec![declare("one", call("function_one")), declare("two", call("function_two"))]),
            declare("global_var", num(123)),
        ],
        &[RuntimeConfigOption::PreserveExpiredFrames(true)],
    );
    assert!(matches!(dead(&runtime, "function_one", "one"), RuntimeValue::S32(1)));
    assert!(matches!(dead(&runtime, "function_two", "two"), RuntimeValue::S32(2)));
    assert!(matches!(dead(&runtime, "main", "one"), RuntimeValue::S32(1)));
    assert!(matches!(dead(&runtime, "main", "two"), RuntimeValue::S32(2)));
    assert!(matches!(global(&runtime, "global_var"), RuntimeValue::S32(123)));
}

/* structs */

fn my_struct() -> Statement {
    struct_definition("MyStruct", vec![("field_1", DataType::U32)])
}

#[test]
fn define_struct() {
    let mut runtime = Runtime::new();
    assert!(runtime.execute(&Program { statements: vec![my_struct()] }).is_ok());
}

#[test]
fn initialize_struct() {
    let mut runtime = run(
        vec![
            my_struct(),
            declare("initialization", init("MyStruct", vec![("field_1", num(1))], false)),
            declare_typed(
                "annotated_initialization",
                DataType::UserDefined("MyStruct".to_string()),
                init("MyStruct", vec![("field_1", num(2))], false),
            ),
        ],
        &[],
    );
    let one = global(&runtime, "initialization");
    let two = global(&runtime, "annotated_initialization");
    assert_eq!(one.struct_access("field_1", &mut runtime.heap).unwrap(), RuntimeValue::U32(1));
    assert_eq!(two.struct_access("field_1", &mut runtime.heap).unwrap(), RuntimeValue::U32(2));
}

#[test]
fn access_struct() {
    let runtime = run(
        vec![
            my_struct(),
            declare("my_inst", init("MyStruct", vec![("field_1", num(2))], false)),
            declare("my_value", field(name("my_inst"), "field_1")),
        ],
        &[],
    );
    assert_eq!(global(&runtime, "my_value"), RuntimeValue::U32(2));
}

#[test]
fn default_initialization() {
    let runtime = run(
        vec![
            struct_definition("MyStruct", vec![("value", DataType::U32)]),
            declare("s", init("MyStruct", vec![], true)),
            declare("out", field(name("s"), "value")),
        ],
        &[],
    );
    assert_eq!(global(&runtime, "out"), RuntimeValue::U32(0));
}

#[test]
fn run_on_import_functions_cannot_be_called() {
    let mut runtime = run(vec![], &[]);
    let program = Program {
        statements: vec![Statement::FunctionDefinition(FunctionDefinition {
            attributes: vec![seagrass::ast::Attribute { identifier: "run_on_import".to_string(), arguments: vec![] }],
            identifier: "setup".to_string(),
            body: block(vec![ret(Expression::Value(Value::S32(1)))]),
            parameters: vec![],
        })],
    };
    runtime.define_from_program(&program).unwrap();
    let r = runtime.call_function("setup", vec![], &vec![], 100);
    assert!(matches!(r, Err(seagrass::error::RuntimeError::RunOnImportCalled(n)) if n == "setup"));
}

#[test]
fn functions_cannot_return_references() {
    let mut runtime = run(vec![], &[]);
    let program = Program {
        statements: vec![function(
            "leak",
            vec![
                declare("x", Expression::Value(Value::S32(1))),
                ret(Expression::Unary { operator: UnaryOperator::Reference, expression: Box::new(name("x")) }),
            ],
        )],
    };
    runtime.define_from_program(&program).unwrap();
    let r = runtime.call_function("leak", vec![], &vec![], 100);
    assert!(matches!(r, Err(seagrass::error::RuntimeError::ReturnedReference(n)) if n == "leak"));
}
