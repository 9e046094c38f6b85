use seagrass::ast::{Block, DataType, FunctionDefinition, Program, Statement, StructDefinition, StructFieldDefinition, StructMember};
use seagrass::error::RuntimeError;
use seagrass::runtime::{Runtime, RuntimeFunction};
use seagrass::value::RuntimeValue;

fn field(identifier: &str, data_type: DataType) -> StructMember {
    StructMember::Field(StructFieldDefinition { attributes: vec![], identifier: identifier.to_string(), data_type })
}

fn pair_definition() -> StructDefinition {
    StructDefinition {
        attributes: vec![],
        identifier: "Pair".to_string(),
        members: vec![field("a", DataType::U32), field("b", DataType::Bool)],
    }
}

#[test]
fn default_struct_has_a_cell_per_field() {
    let mut runtime = Runtime::new();
    runtime.define_struct(&pair_definition()).unwrap();
    let value = runtime.default_value(&DataType::UserDefined("Pair".to_string())).unwrap();
    match value {
        RuntimeValue::Struct { definition, fields } => {
            assert_eq!(definition, "Pair");
            assert_eq!(fields.len(), 2);
            assert_eq!(fields[0].0, "a");
            assert_eq!(fields[1].0, "b");
            assert_ne!(fields[0].1, fields[1].1);
            assert_eq!(*runtime.heap.read(fields[0].1), RuntimeValue::U32(0));
            assert_eq!(*runtime.heap.read(fields[1].1), RuntimeValue::Bool(false));
        }
        other => panic!("not a struct: {other:?}"),
    }
}

#[test]
fn default_array_elements_share_one_cell() {
    let mut runtime = Runtime::new();
    let array = DataType::Array { inner_data_type: Box::new(DataType::U8), count: Some(3) };
    match runtime.default_value(&array).unwrap() {
        RuntimeValue::Array { contents, .. } => {
            assert_eq!(contents.len(), 3);
            assert!(contents.iter().all(|c| *c == contents[0]));
            assert_eq!(*runtime.heap.read(contents[0]), RuntimeValue::U8(0));
        }
        other => panic!("not an array: {other:?}"),
    }
}

#[test]
fn default_value_errors() {
    let mut runtime = Runtime::new();
    let uncounted = DataType::Array { inner_data_type: Box::new(DataType::U8), count: None };
    assert!(matches!(runtime.default_value(&uncounted), Err(RuntimeError::UncountedArray)));
    let reference = DataType::Reference(Box::new(DataType::U8));
    assert!(matches!(runtime.default_value(&reference), Err(RuntimeError::CannotDefaultInitializeReference)));
    let missing = DataType::UserDefined("Nowhere".to_string());
    assert!(matches!(runtime.default_value(&missing), Err(RuntimeError::StructDefinitionNotFound(n)) if n == "Nowhere"));
    let nested = StructDefinition {
        attributes: vec![],
        identifier: "Holder".to_string(),
        members: vec![field("ok", DataType::U8), field("bad", DataType::Reference(Box::new(DataType::U8)))],
    };
    runtime.define_struct(&nested).unwrap();
    let holder = DataType::UserDefined("Holder".to_string());
    assert!(matches!(runtime.default_value(&holder), Err(RuntimeError::CannotDefaultInitializeReference)));
}

#[test]
fn copying_a_struct_gives_new_cells_with_equal_values() {
    let mut runtime = Runtime::new();
    let a = runtime.heap.allocate(RuntimeValue::U32(7));
    let b = runtime.heap.allocate(RuntimeValue::Bool(true));
    let original = RuntimeValue::Struct { definition: "Pair".to_string(), fields: vec![("a".to_string(), a), ("b".to_string(), b)] };
    let before = runtime.heap.len();
    let copy = original.copy_value(&mut runtime.heap);
    match copy {
        RuntimeValue::Struct { definition, fields } => {
            assert_eq!(definition, "Pair");
            assert!(fields.iter().all(|(_, c)| *c >= before));
            assert_eq!(*runtime.heap.read(fields[0].1), RuntimeValue::U32(7));
            assert_eq!(*runtime.heap.read(fields[1].1), RuntimeValue::Bool(true));
        }
        other => panic!("not a struct: {other:?}"),
    }
    assert_eq!(RuntimeValue::S8(-3).copy_value(&mut runtime.heap), RuntimeValue::S8(-3));
}

#[test]
fn program_definitions_are_all_defined() {
    let program = Program {
        statements: vec![
            Statement::StructDefinition(pair_definition()),
            Statement::FunctionDefinition(FunctionDefinition {
                attributes: vec![],
                identifier: "helper".to_string(),
                body: Block { statements: vec![] },
                parameters: vec![],
            }),
        ],
    };
    let mut runtime = Runtime::new();
    runtime.execute(&program).unwrap();
    assert!(runtime.get_struct_definition("Pair").is_ok());
    assert!(matches!(runtime.get_function("helper"), Ok(RuntimeFunction::User(_))));
    assert!(matches!(runtime.get_function("sg::print"), Ok(RuntimeFunction::Native(_))));
    let mut again = Runtime::new();
    let twice = Program { statements: vec![Statement::StructDefinition(pair_definition()), Statement::StructDefinition(pair_definition())] };
    assert!(matches!(again.define_from_program(&twice), Err(RuntimeError::AlreadyDefined(..))));
}
