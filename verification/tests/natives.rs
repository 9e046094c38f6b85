use seagrass::ast::{Attribute, DataType, StructDefinition, StructFieldDefinition, StructMember};
use seagrass::error::RuntimeError;
use seagrass::runtime::{BuiltinMethod, NativeFunction, Runtime};
use seagrass::value::{NativeObject, RuntimeValue};

fn text(s: &str) -> RuntimeValue {
    RuntimeValue::String(s.to_string())
}

fn point_definition() -> StructDefinition {
    StructDefinition {
        attributes: vec![Attribute { identifier: "pod".to_string(), arguments: vec![] }],
        identifier: "Point".to_string(),
        members: vec![
            StructMember::Field(StructFieldDefinition { attributes: vec![], identifier: "x".to_string(), data_type: DataType::U16 }),
            StructMember::Field(StructFieldDefinition { attributes: vec![], identifier: "y".to_string(), data_type: DataType::S8 }),
        ],
    }
}

fn point(runtime: &mut Runtime, x: u16, y: i8) -> RuntimeValue {
    let cx = runtime.heap.allocate(RuntimeValue::U16(x));
    let cy = runtime.heap.allocate(RuntimeValue::S8(y));
    RuntimeValue::Struct { definition: "Point".to_string(), fields: vec![("x".to_string(), cx), ("y".to_string(), cy)] }
}

fn field(runtime: &Runtime, value: &RuntimeValue, name: &str) -> RuntimeValue {
    match value {
        RuntimeValue::Struct { fields, .. } => {
            let (_, cell) = fields.iter().rev().find(|(n, _)| n == name).expect("field");
            match runtime.heap.read(*cell) {
                RuntimeValue::U16(v) => RuntimeValue::U16(*v),
                RuntimeValue::S8(v) => RuntimeValue::S8(*v),
                other => panic!("unexpected field value {other:?}"),
            }
        }
        other => panic!("not a struct: {other:?}"),
    }
}

#[test]
fn read_gives_back_write() {
    let mut runtime = Runtime::new();
    assert!(runtime.define_struct(&point_definition()).is_ok());
    let p = point(&mut runtime, 513, -1);
    assert!(runtime.call_native(NativeFunction::Write, vec![text("p.bin"), p], &vec![]).is_ok());
    assert_eq!(runtime.files.last().unwrap().1, vec![1, 2, 0xff]);
    let read = runtime
        .call_native(NativeFunction::Read, vec![text("p.bin")], &vec![DataType::UserDefined("Point".to_string())])
        .unwrap();
    assert_eq!(field(&runtime, &read, "x"), RuntimeValue::U16(513));
    assert_eq!(field(&runtime, &read, "y"), RuntimeValue::S8(-1));
}

#[test]
fn read_of_missing_file_fails() {
    let mut runtime = Runtime::new();
    let r = runtime.call_native(NativeFunction::Read, vec![text("nothing.bin")], &vec![DataType::U8]);
    assert!(matches!(r, Err(RuntimeError::Io(_))));
    let r = runtime.call_native(NativeFunction::Read, vec![text("nothing.bin")], &vec![]);
    assert!(matches!(r, Err(RuntimeError::MissingNativeGenerics { .. })));
}

#[test]
fn set_byte_order_accepts_big_and_little_only() {
    let mut runtime = Runtime::new();
    assert!(runtime.call_native(NativeFunction::SetByteOrder, vec![text("big")], &vec![]).is_ok());
    assert_eq!(runtime.serialize_into(&RuntimeValue::U16(1)).unwrap(), vec![0, 1]);
    assert!(runtime.call_native(NativeFunction::SetByteOrder, vec![text("middle")], &vec![]).is_err());
    assert_eq!(runtime.serialize_into(&RuntimeValue::U16(1)).unwrap(), vec![0, 1]);
    assert!(runtime.call_native(NativeFunction::SetByteOrder, vec![text("little")], &vec![]).is_ok());
    assert_eq!(runtime.serialize_into(&RuntimeValue::U16(1)).unwrap(), vec![1, 0]);
}

#[test]
fn print_appends_one_line() {
    let mut runtime = Runtime::new();
    assert!(runtime.call_native(NativeFunction::Print, vec![text("hello")], &vec![]).is_ok());
    assert_eq!(runtime.output.len(), 1);
    assert!(runtime.output[0].contains("hello"));
}

#[test]
fn serialization_targets_collect_bytes() {
    let mut runtime = Runtime::new();
    assert!(runtime.call_native(NativeFunction::CreateSerializationTarget, vec![text("t")], &vec![]).is_ok());
    assert!(runtime.call_native(NativeFunction::SerializeToTarget, vec![text("u"), RuntimeValue::U8(9)], &vec![]).is_ok());
    assert_eq!(runtime.serialization_targets.len(), 2);
    assert_eq!(runtime.serialization_targets[1].1, vec![9]);
    assert!(runtime.call_native(NativeFunction::DestroySerializationTarget, vec![text("t")], &vec![]).is_ok());
    assert_eq!(runtime.serialization_targets.len(), 1);
    assert_eq!(runtime.serialization_targets[0].0, "u");
}

#[test]
fn file_handle_reads_values_in_turn() {
    let mut runtime = Runtime::new();
    runtime.files.push(("data.bin".to_string(), vec![1, 0, 2, 0, 3]));
    let handle = runtime.call_native(NativeFunction::OpenFile, vec![text("data.bin")], &vec![]).unwrap();
    assert!(matches!(handle, RuntimeValue::NativeObject(NativeObject::File(0))));
    let first = runtime.call_builtin(BuiltinMethod::FileReadValue, vec![RuntimeValue::NativeObject(NativeObject::File(0))], &vec![DataType::U16]).unwrap();
    assert_eq!(first, RuntimeValue::U16(1));
    let second = runtime.call_builtin(BuiltinMethod::FileReadValue, vec![RuntimeValue::NativeObject(NativeObject::File(0))], &vec![DataType::U16]).unwrap();
    assert_eq!(second, RuntimeValue::U16(2));
    let third = runtime.call_builtin(BuiltinMethod::FileReadValue, vec![RuntimeValue::NativeObject(NativeObject::File(0))], &vec![DataType::U16]);
    assert!(matches!(third, Err(RuntimeError::Io(_))));
    assert!(runtime.call_builtin(BuiltinMethod::FileDelete, vec![RuntimeValue::NativeObject(NativeObject::File(0))], &vec![]).is_err());
    assert!(runtime.call_builtin(BuiltinMethod::FileClose, vec![RuntimeValue::NativeObject(NativeObject::File(0))], &vec![]).is_ok());
    assert!(runtime.call_builtin(BuiltinMethod::FileRename, vec![RuntimeValue::NativeObject(NativeObject::File(0)), text("moved.bin")], &vec![]).is_ok());
    assert_eq!(runtime.files.len(), 1);
    assert_eq!(runtime.files[0].0, "moved.bin");
    assert!(runtime.call_builtin(BuiltinMethod::FileDelete, vec![RuntimeValue::NativeObject(NativeObject::File(0))], &vec![]).is_ok());
    assert!(runtime.files.is_empty());
    assert!(runtime.call_native(NativeFunction::OpenFile, vec![text("moved.bin")], &vec![]).is_err());
}

#[test]
fn serialization_target_is_made_on_first_use() {
    let mut runtime = Runtime::new();
    assert!(runtime.get_serialization_target("fresh").is_empty());
    assert_eq!(runtime.serialization_targets.len(), 1);
    assert!(runtime.call_native(NativeFunction::SerializeToTarget, vec![text("fresh"), RuntimeValue::U16(0x0201)], &vec![]).is_ok());
    assert_eq!(*runtime.get_serialization_target("fresh"), vec![1, 2]);
}

#[test]
fn non_pod_struct_is_not_serialized() {
    let mut runtime = Runtime::new();
    let mut plain = point_definition();
    plain.attributes = vec![];
    assert!(runtime.define_struct(&plain).is_ok());
    let p = point(&mut runtime, 513, -1);
    assert!(matches!(runtime.serialize_into(&p), Err(RuntimeError::NonPODType(n)) if n == "Point"));
    let files = runtime.files.len();
    let r = runtime.call_native(NativeFunction::Write, vec![text("plain.bin"), p], &vec![]);
    assert!(matches!(r, Err(RuntimeError::NonPODType(_))));
    assert_eq!(runtime.files.len(), files);
}

#[test]
fn native_errors_are_named() {
    let mut runtime = Runtime::new();
    let r = runtime.call_native(NativeFunction::SetByteOrder, vec![text("middle")], &vec![]);
    assert!(matches!(r, Err(RuntimeError::InvalidFunctionArguments { signature, .. }) if signature == "sg::set_byte_order(string)"));
    let r = runtime.call_native(NativeFunction::OpenFile, vec![text("absent.bin")], &vec![]);
    assert!(matches!(r, Err(RuntimeError::Io(_))));
    let r = runtime.call_native(NativeFunction::OpenFile, vec![RuntimeValue::U8(1)], &vec![]);
    assert!(matches!(r, Err(RuntimeError::AnnotationError { .. })));
}

#[test]
fn open_file_is_new_then_open() {
    let mut one = Runtime::new();
    one.files.push(("data.bin".to_string(), vec![7]));
    let mut two = Runtime::new();
    two.files.push(("data.bin".to_string(), vec![7]));
    let opened = one.call_native(NativeFunction::OpenFile, vec![text("data.bin")], &vec![]).unwrap();
    let created = two.call_builtin(BuiltinMethod::FileNew, vec![text("data.bin")], &vec![]).unwrap();
    assert!(!two.file_handles[0].open);
    assert!(two.call_builtin(BuiltinMethod::FileOpen, vec![RuntimeValue::NativeObject(NativeObject::File(0))], &vec![]).is_ok());
    assert_eq!(opened, created);
    assert_eq!(one.file_handles, two.file_handles);
    let mut three = Runtime::new();
    assert!(three.call_native(NativeFunction::OpenFile, vec![text("absent.bin")], &vec![]).is_err());
    let handle = three.call_builtin(BuiltinMethod::FileNew, vec![text("absent.bin")], &vec![]).unwrap();
    assert!(three.call_builtin(BuiltinMethod::FileOpen, vec![handle], &vec![]).is_err());
}

#[test]
fn writing_twice_leaves_the_same_file() {
    let mut runtime = Runtime::new();
    assert!(runtime.define_struct(&point_definition()).is_ok());
    let p = point(&mut runtime, 258, 3);
    let again = seagrass::value::clone_value(&p);
    assert!(runtime.call_native(NativeFunction::Write, vec![text("p.bin"), p], &vec![]).is_ok());
    let first = runtime.files.last().unwrap().1.clone();
    assert!(runtime.call_native(NativeFunction::Write, vec![text("p.bin"), again], &vec![]).is_ok());
    assert_eq!(runtime.files.last().unwrap().1, first);
    assert_eq!(first, vec![2, 1, 3]);
}
