use seagrass::ast::{Attribute, DataType, Expression, StructDefinition, StructFieldDefinition, StructMember, Value};
use seagrass::error::RuntimeError;
use seagrass::runtime::Runtime;
use seagrass::serialization::ByteOrder;
use seagrass::value::RuntimeValue;

fn attribute(identifier: &str, arguments: Vec<Expression>) -> Attribute {
    Attribute { identifier: identifier.to_string(), arguments }
}

fn string_literal(s: &str) -> Expression {
    Expression::Value(Value::String(s.to_string()))
}

fn field(identifier: &str, data_type: DataType, attributes: Vec<Attribute>) -> StructMember {
    StructMember::Field(StructFieldDefinition { attributes, identifier: identifier.to_string(), data_type })
}

fn pod(identifier: &str, attributes: Vec<Attribute>, members: Vec<StructMember>) -> StructDefinition {
    let mut all = vec![attribute("pod", vec![])];
    all.extend(attributes);
    StructDefinition { attributes: all, identifier: identifier.to_string(), members }
}

fn array_of(inner: DataType, count: Option<usize>) -> DataType {
    DataType::Array { inner_data_type: Box::new(inner), count }
}

/// A struct value whose fields hold the given values, each in a new cell.
fn struct_value(runtime: &mut Runtime, definition: &str, fields: Vec<(&str, RuntimeValue)>) -> RuntimeValue {
    let mut cells = Vec::new();
    for (name, value) in fields {
        let cell = runtime.heap.allocate(value);
        cells.push((name.to_string(), cell));
    }
    RuntimeValue::Struct { definition: definition.to_string(), fields: cells }
}

fn array_value(runtime: &mut Runtime, inner: DataType, values: Vec<RuntimeValue>) -> RuntimeValue {
    let mut contents = Vec::new();
    for value in values {
        contents.push(runtime.heap.allocate(value));
    }
    RuntimeValue::Array { inner_data_type: inner, contents }
}

fn field_value<'a>(runtime: &'a Runtime, value: &RuntimeValue, name: &str) -> &'a RuntimeValue {
    match value {
        RuntimeValue::Struct { fields, .. } => {
            let (_, cell) = fields.iter().rev().find(|(n, _)| n == name).expect("field");
            runtime.heap.read(*cell)
        }
        other => panic!("not a struct: {other:?}"),
    }
}

fn header_definition() -> StructDefinition {
    pod(
        "Header",
        vec![],
        vec![
            field("kind", DataType::U8, vec![]),
            StructMember::Padding(1),
            field("version", DataType::U16, vec![]),
            field("name", DataType::String, vec![attribute("serialize_as", vec![string_literal("ascii")])]),
            field("size", DataType::U32, vec![attribute("align", vec![Expression::Value(Value::U32(4))])]),
            field("count", DataType::U8, vec![]),
            field(
                "items",
                array_of(DataType::S16, None),
                vec![attribute("counted_by", vec![Expression::Value(Value::Identifier("count".to_string()))])],
            ),
            field("flag", DataType::Bool, vec![]),
        ],
    )
}

fn header_value(runtime: &mut Runtime) -> RuntimeValue {
    let items = array_value(runtime, DataType::S16, vec![RuntimeValue::S16(-2), RuntimeValue::S16(300)]);
    struct_value(
        runtime,
        "Header",
        vec![
            ("kind", RuntimeValue::U8(7)),
            ("version", RuntimeValue::U16(0x0102)),
            ("name", RuntimeValue::String("ab".to_string())),
            ("size", RuntimeValue::U32(0xdeadbeef)),
            ("count", RuntimeValue::U8(2)),
            ("items", items),
            ("flag", RuntimeValue::Bool(true)),
        ],
    )
}

const HEADER_BYTES: [u8; 18] = [
    7, 0, // kind, padding
    0x02, 0x01, // version
    b'a', b'b', 0, // name
    0, // up to a multiple of 4
    0xef, 0xbe, 0xad, 0xde, // size
    2, // count
    0xfe, 0xff, 0x2c, 0x01, // items
    1, // flag
];

#[test]
fn serialize_struct_with_padding_alignment_and_strings() {
    let mut runtime = Runtime::new();
    assert!(runtime.define_struct(&header_definition()).is_ok());
    let value = header_value(&mut runtime);
    let bytes = runtime.serialize_into(&value).unwrap();
    assert_eq!(bytes, HEADER_BYTES.to_vec());
}

#[test]
fn serialized_size_counts_the_bytes_written() {
    let mut runtime = Runtime::new();
    assert!(runtime.define_struct(&header_definition()).is_ok());
    let value = header_value(&mut runtime);
    assert_eq!(value.serialized_size(&runtime).unwrap(), 18);
}

#[test]
fn deserialize_reads_back_what_was_serialized() {
    let mut runtime = Runtime::new();
    assert!(runtime.define_struct(&header_definition()).is_ok());
    let value = header_value(&mut runtime);
    let bytes = runtime.serialize_into(&value).unwrap();
    let read = runtime.deserialize(&DataType::UserDefined("Header".to_string()), &bytes).unwrap();
    assert!(matches!(field_value(&runtime, &read, "kind"), RuntimeValue::U8(7)));
    assert!(matches!(field_value(&runtime, &read, "version"), RuntimeValue::U16(0x0102)));
    assert!(matches!(field_value(&runtime, &read, "name"), RuntimeValue::String(s) if s == "ab"));
    assert!(matches!(field_value(&runtime, &read, "size"), RuntimeValue::U32(0xdeadbeef)));
    assert!(matches!(field_value(&runtime, &read, "count"), RuntimeValue::U8(2)));
    assert!(matches!(field_value(&runtime, &read, "flag"), RuntimeValue::Bool(true)));
    match field_value(&runtime, &read, "items") {
        RuntimeValue::Array { contents, .. } => {
            assert_eq!(contents.len(), 2);
            assert!(matches!(runtime.heap.read(contents[0]), RuntimeValue::S16(-2)));
            assert!(matches!(runtime.heap.read(contents[1]), RuntimeValue::S16(300)));
        }
        other => panic!("not an array: {other:?}"),
    }
    let again = runtime.serialize_into(&read).unwrap();
    assert_eq!(again, bytes);
}

#[test]
fn big_endian_struct_writes_most_significant_byte_first() {
    let mut runtime = Runtime::new();
    let definition = pod(
        "Pair",
        vec![attribute("byte_order", vec![string_literal("big")])],
        vec![field("a", DataType::U16, vec![]), field("b", DataType::S32, vec![])],
    );
    assert!(runtime.define_struct(&definition).is_ok());
    let value = struct_value(&mut runtime, "Pair", vec![("a", RuntimeValue::U16(0x1234)), ("b", RuntimeValue::S32(-2))]);
    let bytes = runtime.serialize_into(&value).unwrap();
    assert_eq!(bytes, vec![0x12, 0x34, 0xff, 0xff, 0xff, 0xfe]);
    let read = runtime.deserialize(&DataType::UserDefined("Pair".to_string()), &bytes).unwrap();
    assert!(matches!(field_value(&runtime, &read, "a"), RuntimeValue::U16(0x1234)));
    assert!(matches!(field_value(&runtime, &read, "b"), RuntimeValue::S32(-2)));
}

#[test]
fn runtime_byte_order_applies_to_plain_integers() {
    let mut runtime = Runtime::new();
    runtime.set_byte_order(ByteOrder::Big);
    assert_eq!(runtime.serialize_into(&RuntimeValue::U32(0x01020304)).unwrap(), vec![1, 2, 3, 4]);
    let read = runtime.deserialize(&DataType::U16, &[0xab, 0xcd]).unwrap();
    assert!(matches!(read, RuntimeValue::U16(0xabcd)));
    runtime.set_byte_order(ByteOrder::Little);
    assert_eq!(runtime.serialize_into(&RuntimeValue::U32(0x01020304)).unwrap(), vec![4, 3, 2, 1]);
    let read = runtime.deserialize(&DataType::U16, &[0xab, 0xcd]).unwrap();
    assert!(matches!(read, RuntimeValue::U16(0xcdab)));
    let read = runtime.deserialize(&DataType::S16, &[0xff, 0x7f]).unwrap();
    assert!(matches!(read, RuntimeValue::S16(32767)));
    let read = runtime.deserialize(&DataType::S32, &[0, 0, 0, 0x80]).unwrap();
    assert!(matches!(read, RuntimeValue::S32(i32::MIN)));
    let read = runtime.deserialize(&DataType::S8, &[0x80]).unwrap();
    assert!(matches!(read, RuntimeValue::S8(-128)));
}

#[test]
fn deserialize_counted_array_type() {
    let mut runtime = Runtime::new();
    let read = runtime.deserialize(&array_of(DataType::U8, Some(3)), &[9, 8, 7, 6]).unwrap();
    match read {
        RuntimeValue::Array { contents, .. } => {
            assert_eq!(contents.len(), 3);
            assert!(matches!(runtime.heap.read(contents[2]), RuntimeValue::U8(7)));
        }
        other => panic!("not an array: {other:?}"),
    }
}

#[test]
fn deserialize_reports_each_fault() {
    let mut runtime = Runtime::new();
    assert!(matches!(runtime.deserialize(&DataType::Bool, &[2]), Err(RuntimeError::SerializationError(_))));
    assert!(matches!(runtime.deserialize(&DataType::U32, &[1, 2]), Err(RuntimeError::Io(_))));
    assert!(matches!(runtime.deserialize(&DataType::String, &[b'a', b'b']), Err(RuntimeError::Io(_))));
    assert!(matches!(runtime.deserialize(&DataType::String, &[0xff, 0]), Err(RuntimeError::SerializationError(_))));
    assert!(matches!(runtime.deserialize(&array_of(DataType::U8, None), &[1]), Err(RuntimeError::UncountedArray)));
    assert!(matches!(
        runtime.deserialize(&DataType::UserDefined("Missing".to_string()), &[1]),
        Err(RuntimeError::StructDefinitionNotFound(n)) if n == "Missing"
    ));
    assert!(matches!(
        runtime.deserialize(&DataType::Reference(Box::new(DataType::U8)), &[1]),
        Err(RuntimeError::CannotDeserialize(n)) if n == "reference"
    ));
    let plain = StructDefinition {
        attributes: vec![],
        identifier: "Plain".to_string(),
        members: vec![field("x", DataType::U8, vec![])],
    };
    assert!(runtime.define_struct(&plain).is_ok());
    assert!(matches!(
        runtime.deserialize(&DataType::UserDefined("Plain".to_string()), &[1]),
        Err(RuntimeError::NonPODType(n)) if n == "Plain"
    ));
}

#[test]
fn deserialize_string_stops_at_nul() {
    let mut runtime = Runtime::new();
    let read = runtime.deserialize(&DataType::String, b"hi\0rest").unwrap();
    assert!(matches!(read, RuntimeValue::String(s) if s == "hi"));
}

#[test]
fn serialize_non_ascii_string_field_fails() {
    let mut runtime = Runtime::new();
    let definition = pod(
        "Named",
        vec![],
        vec![field("name", DataType::String, vec![attribute("serialize_as", vec![string_literal("ascii")])])],
    );
    assert!(runtime.define_struct(&definition).is_ok());
    let value = struct_value(&mut runtime, "Named", vec![("name", RuntimeValue::String("é".to_string()))]);
    assert!(matches!(runtime.serialize_into(&value), Err(RuntimeError::NonAsciiString(s)) if s == "é"));
    assert!(value.serialized_size(&runtime).is_ok());
}

#[test]
fn static_size_of_pod_struct() {
    let mut runtime = Runtime::new();
    let definition = pod(
        "Fixed",
        vec![],
        vec![
            field("a", DataType::U8, vec![]),
            StructMember::Padding(3),
            field("b", DataType::U32, vec![]),
            field("c", array_of(DataType::U16, Some(4)), vec![]),
        ],
    );
    assert!(runtime.define_struct(&definition).is_ok());
    assert_eq!(DataType::UserDefined("Fixed".to_string()).static_size(&runtime).unwrap(), 16);
    assert_eq!(DataType::S32.static_size(&runtime).unwrap(), 4);
    assert!(DataType::String.static_size(&runtime).is_err());
}

#[test]
fn define_struct_rejects_non_pod_fields() {
    let mut runtime = Runtime::new();
    let definition = pod("Bad", vec![], vec![field("r", DataType::Reference(Box::new(DataType::U8)), vec![])]);
    assert!(runtime.define_struct(&definition).is_err());
    let twice = pod("Twice", vec![], vec![field("a", DataType::U8, vec![])]);
    assert!(runtime.define_struct(&twice).is_ok());
    let again = pod("Twice", vec![], vec![field("a", DataType::U8, vec![])]);
    assert!(runtime.define_struct(&again).is_err());
}
