//! Sizes of POD types and values in bytes, and the check that a struct
//! declared POD has a byte layout.
use vstd::prelude::*;

use crate::ast::{DType, DataType, StructDefinition, StructFieldDefinition, StructMember, dt_name};
use crate::error::{RuntimeError, RuntimeResult};
use crate::functions::{dtype_size, field_exception_ok, pod_fields, pod_type, ascii_exception};
use crate::runtime::{Runtime, find_struct, struct_def};
use crate::serialization::{
    declared_pod, depth_fuel, field_cell,
    pad_len, spec_alignment, spec_fields, spec_string_serialization,
};
use crate::text::string_of;
use crate::value::{RuntimeValue, ValueView, fields_view};

verus! {

/* ---------- sizes of types ---------- */

/// The size in bytes of every value of a type, where it is fixed: integers
/// and booleans by their width, counted arrays by their elements, POD structs
/// by their members (padding, alignment and fields). `None` for strings,
/// `usize`, references, iterators, uncounted arrays, structs that are not
/// POD, and sizes (or sizes of parts) past what a `usize` counts. `fuel`
/// bounds the nesting of structs.
pub open spec fn static_size_of(defs: Seq<StructDefinition>, t: DType, fuel: nat) -> Option<int>
    decreases fuel, 0nat, dtype_size(t),
{
    match t {
        DType::S8 | DType::U8 | DType::Bool => Some(1),
        DType::S16 | DType::U16 => Some(2),
        DType::S32 | DType::U32 | DType::F32 => Some(4),
        DType::F64 => Some(8),
        DType::Array { inner_data_type, count: Some(c) } => match static_size_of(defs, *inner_data_type, fuel) {
            Some(s) => if s * c > usize::MAX {
                None
            } else {
                Some(s * c)
            },
            None => None,
        },
        DType::UserDefined(name) => if fuel == 0 {
            None
        } else {
            match struct_def(defs, name) {
                Some(d) => if declared_pod(d) {
                    members_size(defs, d.members@, 0, 0, (fuel - 1) as nat)
                } else {
                    None
                },
                None => None,
            }
        },
        _ => None,
    }
}

/// The size of the members `members[i..]` placed after `acc` bytes.
pub open spec fn members_size(defs: Seq<StructDefinition>, members: Seq<StructMember>, i: int, acc: int, fuel: nat) -> Option<int>
    decreases fuel, 1nat, members.len() - i,
{
    if i < 0 || i >= members.len() {
        Some(acc)
    } else {
        match members[i] {
            StructMember::Padding(n) => if acc + n > usize::MAX {
                None
            } else {
                members_size(defs, members, i + 1, acc + n, fuel)
            },
            StructMember::Field(f) => match spec_alignment(f) {
                None => None,
                Some(al) => match static_size_of(defs, f.data_type@, fuel) {
                    Some(s) => if acc + pad_len(acc as nat, al) + s > usize::MAX {
                        None
                    } else {
                        members_size(defs, members, i + 1, acc + pad_len(acc as nat, al) + s, fuel)
                    },
                    None => None,
                },
            },
        }
    }
}

pub proof fn lemma_members_size_grows(defs: Seq<StructDefinition>, members: Seq<StructMember>, i: int, acc: int, fuel: nat)
    requires
        acc >= 0,
        forall|t: DType| #[trigger] static_size_of(defs, t, fuel) matches Some(s) ==> s >= 0,
    ensures
        members_size(defs, members, i, acc, fuel) matches Some(s) ==> s >= acc,
    decreases members.len() - i,
{
    if 0 <= i < members.len() {
        match members[i] {
            StructMember::Padding(n) => lemma_members_size_grows(defs, members, i + 1, acc + n, fuel),
            StructMember::Field(f) => match spec_alignment(f) {
                None => {},
                Some(al) => match static_size_of(defs, f.data_type@, fuel) {
                    Some(s) => lemma_members_size_grows(defs, members, i + 1, acc + pad_len(acc as nat, al) + s, fuel),
                    None => {},
                },
            },
        }
    }
}

pub proof fn lemma_static_size_nonneg(defs: Seq<StructDefinition>, t: DType, fuel: nat)
    ensures
        static_size_of(defs, t, fuel) matches Some(s) ==> s >= 0,
    decreases fuel, dtype_size(t),
{
    match t {
        DType::Array { inner_data_type, count: Some(c) } => {
            lemma_static_size_nonneg(defs, *inner_data_type, fuel);
            if let Some(s) = static_size_of(defs, *inner_data_type, fuel) {
                assert(s * c >= 0) by (nonlinear_arith)
                    requires
                        s >= 0,
                        c >= 0,
                ;
            }
        },
        DType::UserDefined(name) => {
            if fuel > 0 {
                assert forall|t2: DType| #[trigger] static_size_of(defs, t2, (fuel - 1) as nat) matches Some(s) ==> s >= 0 by {
                    lemma_static_size_nonneg(defs, t2, (fuel - 1) as nat);
                }
                if let Some(d) = struct_def(defs, name) {
                    lemma_members_size_grows(defs, d.members@, 0, 0, (fuel - 1) as nat);
                }
            }
        },
        _ => {},
    }
}

fn size_error(t: &DataType) -> (e: RuntimeError)
    ensures
        e matches RuntimeError::CannotDetermineDataTypeSize(n) && n@ == dt_name(t@),
{
    RuntimeError::CannotDetermineDataTypeSize(t.name())
}

fn overflow() -> (e: RuntimeError)
    ensures
        e is ArithmeticOverflow,
{
    RuntimeError::ArithmeticOverflow(string_of("size"))
}

/// A type whose values have no size known before they are read: strings,
/// `usize`, references, iterators, native objects and arrays without a count.
pub open spec fn unsized_type(t: DType) -> bool {
    ||| t is String
    ||| t is Usize
    ||| t is Reference
    ||| t is Iterator
    ||| t is NativeObject
    ||| t matches DType::Array { count: None, .. }
}

/// The size of a type with the given struct definitions (see
/// `static_size_of`).
pub fn static_size_in(structs: &Vec<StructDefinition>, data_type: &DataType, fuel: usize) -> (r: RuntimeResult<usize>)
    requires
    ensures
        r is Ok <==> static_size_of(structs@, data_type@, fuel as nat) is Some,
        r matches Ok(n) ==> static_size_of(structs@, data_type@, fuel as nat) == Some(n as int),
        unsized_type(data_type@) ==> (r matches Err(e) && e matches RuntimeError::CannotDetermineDataTypeSize(x) && x@ == dt_name(
            data_type@,
        )),
        data_type@ matches DType::UserDefined(n) ==> (fuel > 0 ==> (crate::runtime::struct_def(structs@, n) matches Some(d) ==> (
        !crate::serialization::declared_pod(d) ==> (r matches Err(e) && e is CannotDetermineDataTypeSize)))),
    decreases fuel, crate::deserialization::dt_size(*data_type),
{
    proof {
        lemma_static_size_nonneg(structs@, data_type@, fuel as nat);
    }
    match data_type {
        DataType::S8 | DataType::U8 | DataType::Bool => Ok(1),
        DataType::S16 | DataType::U16 => Ok(2),
        DataType::S32 | DataType::U32 | DataType::F32 => Ok(4),
        DataType::F64 => Ok(8),
        DataType::Array { inner_data_type, count: Some(c) } => {
            let s = static_size_in(structs, inner_data_type, fuel)?;
            proof {
                lemma_static_size_nonneg(structs@, inner_data_type@, fuel as nat);
            }
            match s.checked_mul(*c) {
                Some(total) => Ok(total),
                None => Err(overflow()),
            }
        },
        DataType::UserDefined(identifier) => {
            if fuel == 0 {
                return Err(RuntimeError::ReferenceCycle);
            }
            let definition = find_struct(structs, identifier.as_str())?;
            if !definition.is_declared_pod() {
                return Err(size_error(data_type));
            }
            proof {
                assert forall|t2: DType| #[trigger] static_size_of(structs@, t2, (fuel - 1) as nat) matches Some(s) ==> s >= 0 by {
                    lemma_static_size_nonneg(structs@, t2, (fuel - 1) as nat);
                }
            }
            let mut size: usize = 0;
            let mut i: usize = 0;
            while i < definition.members.len()
                invariant
                    i <= definition.members@.len(),
                    fuel > 0,
                    data_type@ == DType::UserDefined(identifier@),
                    crate::serialization::declared_pod(*definition),
                    crate::runtime::struct_def(structs@, identifier@) == Some(*definition),
                    forall|t2: DType| #[trigger] static_size_of(structs@, t2, (fuel - 1) as nat) matches Some(s) ==> s >= 0,
                    members_size(structs@, definition.members@, 0, 0, (fuel - 1) as nat) == members_size(
                        structs@,
                        definition.members@,
                        i as int,
                        size as int,
                        (fuel - 1) as nat,
                    ),
                    static_size_of(structs@, data_type@, fuel as nat) == members_size(structs@, definition.members@, 0, 0, (fuel - 1) as nat),
                decreases definition.members@.len() - i,
            {
                proof {
                    lemma_members_size_grows(structs@, definition.members@, i + 1, 0, (fuel - 1) as nat);
                }
                match &definition.members[i] {
                    StructMember::Padding(n) => {
                        proof {
                            lemma_members_size_grows(structs@, definition.members@, i + 1, size + *n, (fuel - 1) as nat);
                        }
                        size = match size.checked_add(*n) {
                            Some(s) => s,
                            None => {
                                return Err(overflow());
                            },
                        };
                    },
                    StructMember::Field(field) => {
                        let alignment = field.alignment()?;
                        if let Some(a) = alignment {
                            let remainder = size % a;
                            if remainder != 0 {
                                size = match size.checked_add(a - remainder) {
                                    Some(s) => s,
                                    None => {
                                        assert(static_size_of(structs@, field.data_type@, (fuel - 1) as nat) matches Some(s)
                                            ==> s >= 0);
                                        return Err(overflow());
                                    },
                                };
                            }
                        }
                        let s = static_size_in(structs, &field.data_type, fuel - 1)?;
                        proof {
                            lemma_members_size_grows(structs@, definition.members@, i + 1, size + s, (fuel - 1) as nat);
                        }
                        size = match size.checked_add(s) {
                            Some(t) => t,
                            None => {
                                return Err(overflow());
                            },
                        };
                    },
                }
                i = i + 1;
            }
            Ok(size)
        },
        _ => Err(size_error(data_type)),
    }
}

impl DataType {
    /// The size in bytes of every value of the type (see `static_size_of`).
    pub fn static_size(&self, runtime: &Runtime) -> (r: RuntimeResult<usize>)
        requires
        ensures
            r is Ok <==> static_size_of(runtime.structs@, self@, depth_fuel(runtime.structs@.len())) is Some,
            r matches Ok(n) ==> static_size_of(runtime.structs@, self@, depth_fuel(runtime.structs@.len())) == Some(n as int),
            unsized_type(self@) ==> (r matches Err(e) && e matches RuntimeError::CannotDetermineDataTypeSize(x) && x@ == dt_name(self@)),
    {
        let n = runtime.structs.len();
        let fuel = if n < usize::MAX {
            n + 1
        } else {
            n
        };
        static_size_in(&runtime.structs, self, fuel)
    }
}

/* ---------- POD validation ---------- */

/// The errors that refusing a POD layout reports: a type without a byte
/// layout, a struct not marked `#[pod]`, a missing struct, a nesting of
/// structs that repeats, or a malformed `serialize_as`.
pub open spec fn pod_refusal(e: RuntimeError) -> bool {
    ||| e is NonPODType
    ||| e is StructDefinitionNotFound
    ||| e is ReferenceCycle
    ||| e is InvalidAttributeArgumentCount
    ||| e is UnexpectedAttributeArgument
}

/// Whether a field's own attributes and type let it be POD.
pub open spec fn pod_field(defs: Seq<StructDefinition>, f: StructFieldDefinition, fuel: nat) -> bool {
    field_exception_ok(f) && pod_type(defs, f.data_type@, f.data_type@ is String && ascii_exception(f), fuel)
}

pub proof fn lemma_pod_fields_all(defs: Seq<StructDefinition>, fields: Seq<StructFieldDefinition>, fuel: nat)
    ensures
        pod_fields(defs, fields, fuel) == forall|i: int| 0 <= i < fields.len() ==> pod_field(defs, #[trigger] fields[i], fuel),
    decreases fields.len(),
{
    if fields.len() > 0 {
        lemma_pod_fields_all(defs, fields.drop_last(), fuel);
        assert forall|i: int| 0 <= i < fields.len() - 1 implies #[trigger] fields.drop_last()[i] == fields[i] by {}
        if forall|i: int| 0 <= i < fields.len() ==> pod_field(defs, #[trigger] fields[i], fuel) {
            assert(pod_field(defs, fields[fields.len() - 1], fuel));
            assert forall|i: int| 0 <= i < fields.drop_last().len() implies pod_field(defs, #[trigger] fields.drop_last()[i], fuel) by {
                assert(pod_field(defs, fields[i], fuel));
            }
        }
        if pod_fields(defs, fields, fuel) {
            assert forall|i: int| 0 <= i < fields.len() implies pod_field(defs, #[trigger] fields[i], fuel) by {
                if i < fields.len() - 1 {
                    assert(fields.drop_last()[i] == fields[i]);
                    assert(pod_field(defs, fields.drop_last()[i], fuel));
                }
            }
        }
    }
}

/// The error of a field list is that of its first field that fails.
proof fn lemma_first_field_error(
    defs: Seq<StructDefinition>,
    fields: Seq<StructFieldDefinition>,
    i: int,
    fuel: nat,
    e: RuntimeError,
)
    requires
        0 <= i < fields.len(),
        forall|j: int| 0 <= j < i ==> pod_field(defs, #[trigger] fields[j], fuel),
        !pod_field(defs, fields[i], fuel),
        crate::functions::pod_field_error(defs, fields[i], fuel, e),
    ensures
        crate::functions::pod_fields_error(defs, fields, fuel, e),
    decreases fields.len(),
{
    let d = fields.drop_last();
    lemma_pod_fields_all(defs, d, fuel);
    if i == fields.len() - 1 {
        assert forall|j: int| 0 <= j < d.len() implies pod_field(defs, #[trigger] d[j], fuel) by {
            assert(d[j] == fields[j]);
        }
    } else {
        assert(d[i] == fields[i]);
        assert forall|j: int| 0 <= j < i implies pod_field(defs, #[trigger] d[j], fuel) by {
            assert(d[j] == fields[j]);
        }
        lemma_first_field_error(defs, d, i, fuel, e);
    }
}

fn non_pod(t: &DataType) -> (e: RuntimeError)
    ensures
        e matches RuntimeError::NonPODType(n) && n@ == dt_name(t@),
{
    RuntimeError::NonPODType(t.name())
}

/// Whether values of the type have a byte layout (see `pod_type`).
fn validate_type(structs: &Vec<StructDefinition>, data_type: &DataType, ascii: bool, fuel: usize) -> (r: RuntimeResult<()>)
    ensures
        r is Ok <==> pod_type(structs@, data_type@, ascii, fuel as nat),
        r matches Err(e) ==> pod_refusal(e),
        r matches Err(e) ==> crate::functions::pod_type_error(structs@, data_type@, ascii, fuel as nat, e),
        (data_type@ is Usize || data_type@ is Reference || data_type@ is Iterator || data_type@ is NativeObject || (data_type@ is String
            && !ascii)) ==> (r matches Err(e) && e is NonPODType),
        data_type@ matches crate::ast::DType::UserDefined(n) ==> (fuel > 0 ==> match crate::runtime::struct_def(structs@, n) {
            None => r matches Err(e) && e is StructDefinitionNotFound,
            Some(d) => !crate::serialization::declared_pod(d) ==> (r matches Err(e) && e matches RuntimeError::NonPODType(x) && x@ == n),
        }),
    decreases fuel, 0nat, crate::deserialization::dt_size(*data_type),
{
    match data_type {
        DataType::S8 | DataType::U8 | DataType::S16 | DataType::U16 | DataType::S32 | DataType::U32 | DataType::F32
        | DataType::F64 | DataType::Bool => Ok(()),
        DataType::String => {
            if ascii {
                Ok(())
            } else {
                Err(non_pod(data_type))
            }
        },
        DataType::Array { inner_data_type, .. } => validate_type(structs, inner_data_type, ascii, fuel),
        DataType::UserDefined(identifier) => {
            if fuel == 0 {
                return Err(RuntimeError::ReferenceCycle);
            }
            let definition = find_struct(structs, identifier.as_str())?;
            if !definition.is_declared_pod() {
                return Err(RuntimeError::NonPODType(identifier.clone()));
            }
            validate_pod_in(structs, definition, fuel - 1)
        },
        _ => Err(non_pod(data_type)),
    }
}

/// Whether a field lets its struct be POD (see `pod_field`).
fn validate_field(structs: &Vec<StructDefinition>, field: &StructFieldDefinition, fuel: usize) -> (r: RuntimeResult<()>)
    ensures
        r is Ok <==> pod_field(structs@, *field, fuel as nat),
        r matches Err(e) ==> pod_refusal(e),
        r matches Err(e) ==> crate::functions::pod_field_error(structs@, *field, fuel as nat, e),
    decreases fuel, 1nat, 0nat,
{
    proof {
        reveal_strlit("ascii");
    }
    let mut ascii = false;
    if let DataType::String = &field.data_type {
        match crate::serialization::find_attribute(&field.attributes, "serialize_as") {
            Some(attribute) => {
                if attribute.arguments.len() == 0 {
                    return Err(RuntimeError::InvalidAttributeArgumentCount {
                        attribute: attribute.identifier.clone(),
                        expected: 1,
                        found: 0,
                    });
                }
                if let crate::ast::Expression::Value(crate::ast::Value::String(string)) = &attribute.arguments[0] {
                    if crate::text::str_eq(string.as_str(), "ascii") {
                        ascii = true;
                    } else {
                        return Err(RuntimeError::UnexpectedAttributeArgument {
                            attribute: attribute.identifier.clone(),
                            found: string.clone(),
                        });
                    }
                }
            },
            None => {},
        }
    }
    validate_type(structs, &field.data_type, ascii, fuel)
}

/// Whether every field of a struct lets it be POD.
fn validate_pod_in(structs: &Vec<StructDefinition>, definition: &StructDefinition, fuel: usize) -> (r: RuntimeResult<()>)
    ensures
        r is Ok <==> pod_fields(structs@, spec_fields(definition.members@), fuel as nat),
        r matches Err(e) ==> pod_refusal(e),
        r matches Err(e) ==> crate::functions::pod_fields_error(structs@, spec_fields(definition.members@), fuel as nat, e),
    decreases fuel, 2nat, 0nat,
{
    let fields = definition.fields();
    proof {
        lemma_pod_fields_all(structs@, spec_fields(definition.members@), fuel as nat);
    }
    let mut i: usize = 0;
    while i < fields.len()
        invariant
            i <= fields@.len(),
            fields@.len() == spec_fields(definition.members@).len(),
            forall|j: int| 0 <= j < fields@.len() ==> *fields@[j] == spec_fields(definition.members@)[j],
            forall|j: int| 0 <= j < i ==> pod_field(structs@, #[trigger] spec_fields(definition.members@)[j], fuel as nat),
            pod_fields(structs@, spec_fields(definition.members@), fuel as nat) == forall|j: int|
                0 <= j < spec_fields(definition.members@).len() ==> pod_field(structs@, #[trigger] spec_fields(definition.members@)[j], fuel as nat),
        decreases fields@.len() - i,
    {
        match validate_field(structs, fields[i], fuel) {
            Ok(()) => {},
            Err(e) => {
                proof {
                    lemma_first_field_error(structs@, spec_fields(definition.members@), i as int, fuel as nat, e);
                }
                return Err(e);
            },
        }
        i = i + 1;
    }
    Ok(())
}

impl Runtime {
    /// Whether every field of a struct declared POD has a byte layout.
    pub fn validate_pod(&self, struct_definition: &StructDefinition) -> (r: RuntimeResult<()>)
        ensures
            r is Ok <==> pod_fields(self.structs@, spec_fields(struct_definition.members@), depth_fuel(self.structs@.len())),
            r matches Err(e) ==> pod_refusal(e),
            r matches Err(e) ==> crate::functions::pod_fields_error(
                self.structs@,
                spec_fields(struct_definition.members@),
                depth_fuel(self.structs@.len()),
                e,
            ),
    {
        let n = self.structs.len();
        let fuel = if n < usize::MAX {
            n + 1
        } else {
            n
        };
        validate_pod_in(&self.structs, struct_definition, fuel)
    }

    /// Defines a struct under its name; one declared POD must have a byte
    /// layout.
    pub fn define_struct(&mut self, struct_definition: &StructDefinition) -> (r: RuntimeResult<crate::runtime::ControlFlow>)
        ensures
            r is Ok <==> crate::functions::already_defined(*old(self), struct_definition.identifier@) is None
                && (declared_pod(*struct_definition) ==> pod_fields(
                old(self).structs@,
                spec_fields(struct_definition.members@),
                depth_fuel(old(self).structs@.len()),
            )),
            r matches Ok(flow) ==> flow is Continue && final(self).structs@.len() == old(self).structs@.len() + 1
                && final(self).structs@.drop_last() == old(self).structs@
                && final(self).structs@.last().identifier == struct_definition.identifier
                && crate::ast::same_struct_def(*struct_definition, final(self).structs@.last()),
            r is Err ==> final(self).structs == old(self).structs,
            *final(self) == (Runtime { structs: final(self).structs, ..*old(self) }),
    {
        self.validate_identifier(struct_definition.identifier.as_str())?;
        if struct_definition.is_declared_pod() {
            self.validate_pod(struct_definition)?;
        }
        let mut copy = crate::ast::clone_struct_definition(struct_definition);
        copy.identifier = struct_definition.identifier.clone();
        self.structs.push(copy);
        assert(self.structs@.drop_last() =~= old(self).structs@);
        Ok(crate::runtime::ControlFlow::Continue)
    }
}

/* ---------- sizes of values ---------- */

/// The size of a value's layout, with each struct laid out from its own
/// start: integers and booleans by their width, strings as their UTF-8 bytes
/// and a NUL, arrays element by element, POD structs member by member (an
/// aligned field padded to its alignment from the start of its struct).
/// `None` for values without a layout. `fuel` bounds the nesting of arrays
/// and structs. Serialization aligns fields from the start of what it
/// writes, so for a struct nested at an offset that is not a multiple of a
/// field's alignment it can write another number of bytes.
pub open spec fn value_size(defs: Seq<StructDefinition>, h: Seq<ValueView>, v: ValueView, fuel: nat) -> Option<int>
    decreases fuel, 0nat, 0nat,
{
    match v {
        ValueView::S8(_) | ValueView::U8(_) | ValueView::Bool(_) => Some(1),
        ValueView::S16(_) | ValueView::U16(_) => Some(2),
        ValueView::S32(_) | ValueView::U32(_) => Some(4),
        ValueView::String(s) => Some(vstd::utf8::encode_utf8(s).len() + 1int),
        ValueView::Array { contents, .. } => if fuel == 0 {
            None
        } else {
            items_size(defs, h, contents, 0, 0, (fuel - 1) as nat)
        },
        ValueView::Struct { definition, fields } => if fuel == 0 {
            None
        } else {
            match struct_def(defs, definition) {
                Some(d) => if declared_pod(d) {
                    member_values_size(defs, h, d.members@, fields, 0, 0, (fuel - 1) as nat)
                } else {
                    None
                },
                None => None,
            }
        },
        _ => None,
    }
}

/// The size of the values in the cells `items[i..]`, after `acc` bytes.
pub open spec fn items_size(defs: Seq<StructDefinition>, h: Seq<ValueView>, items: Seq<usize>, i: int, acc: int, fuel: nat) -> Option<int>
    decreases fuel, 1nat, items.len() - i,
{
    if i < 0 || i >= items.len() {
        Some(acc)
    } else if items[i] >= h.len() {
        None
    } else {
        match value_size(defs, h, h[items[i] as int], fuel) {
            Some(s) => items_size(defs, h, items, i + 1, acc + s, fuel),
            None => None,
        }
    }
}

/// The size of the members `members[i..]` of a struct value, after `acc`
/// bytes.
pub open spec fn member_values_size(
    defs: Seq<StructDefinition>,
    h: Seq<ValueView>,
    members: Seq<StructMember>,
    fields: Seq<(Seq<char>, usize)>,
    i: int,
    acc: int,
    fuel: nat,
) -> Option<int>
    decreases fuel, 1nat, members.len() - i,
{
    if i < 0 || i >= members.len() {
        Some(acc)
    } else {
        match members[i] {
            StructMember::Padding(n) => member_values_size(defs, h, members, fields, i + 1, acc + n, fuel),
            StructMember::Field(f) => match spec_alignment(f) {
                None => None,
                Some(al) => match field_cell(fields, f.identifier@) {
                    Some(c) => if c >= h.len() || (h[c as int] is String && spec_string_serialization(f) is None) {
                        None
                    } else {
                        match value_size(defs, h, h[c as int], fuel) {
                            Some(s) => member_values_size(defs, h, members, fields, i + 1, acc + pad_len(acc as nat, al) + s, fuel),
                            None => None,
                        }
                    },
                    None => None,
                },
            },
        }
    }
}

/// Sizes are never negative, and a sequence of members or items only adds
/// to the size before it.
pub proof fn lemma_value_size_nonneg(defs: Seq<StructDefinition>, h: Seq<ValueView>, v: ValueView, fuel: nat)
    ensures
        value_size(defs, h, v, fuel) matches Some(n) ==> n >= 0,
    decreases fuel, 0nat, 0nat,
{
    match v {
        ValueView::Array { contents, .. } => if fuel > 0 {
            lemma_items_size_grows(defs, h, contents, 0, 0, (fuel - 1) as nat);
        },
        ValueView::Struct { definition, fields } => if fuel > 0 {
            if let Some(d) = struct_def(defs, definition) {
                lemma_member_values_size_grows(defs, h, d.members@, fields, 0, 0, (fuel - 1) as nat);
            }
        },
        _ => {},
    }
}

pub proof fn lemma_items_size_grows(
    defs: Seq<StructDefinition>,
    h: Seq<ValueView>,
    items: Seq<usize>,
    i: int,
    acc: int,
    fuel: nat,
)
    ensures
        items_size(defs, h, items, i, acc, fuel) matches Some(n) ==> n >= acc,
    decreases fuel, 1nat, items.len() - i,
{
    if 0 <= i < items.len() && items[i] < h.len() {
        lemma_value_size_nonneg(defs, h, h[items[i] as int], fuel);
        if let Some(s) = value_size(defs, h, h[items[i] as int], fuel) {
            lemma_items_size_grows(defs, h, items, i + 1, acc + s, fuel);
        }
    }
}

pub proof fn lemma_member_values_size_grows(
    defs: Seq<StructDefinition>,
    h: Seq<ValueView>,
    members: Seq<StructMember>,
    fields: Seq<(Seq<char>, usize)>,
    i: int,
    acc: int,
    fuel: nat,
)
    ensures
        member_values_size(defs, h, members, fields, i, acc, fuel) matches Some(n) ==> n >= acc,
    decreases fuel, 1nat, members.len() - i,
{
    if 0 <= i < members.len() {
        match members[i] {
            StructMember::Padding(n) => {
                lemma_member_values_size_grows(defs, h, members, fields, i + 1, acc + n, fuel);
            },
            StructMember::Field(f) => {
                if let (Some(al), Some(c)) = (spec_alignment(f), field_cell(fields, f.identifier@)) {
                    if c < h.len() {
                        lemma_value_size_nonneg(defs, h, h[c as int], fuel);
                        if let Some(s) = value_size(defs, h, h[c as int], fuel) {
                            lemma_member_values_size_grows(
                                defs,
                                h,
                                members,
                                fields,
                                i + 1,
                                acc + pad_len(acc as nat, al) + s,
                                fuel,
                            );
                        }
                    }
                }
            },
        }
    }
}

impl RuntimeValue {
    /// The size of the value's layout (see `value_size`).
    pub fn serialized_size_within(&self, runtime: &Runtime, fuel: usize) -> (r: RuntimeResult<usize>)
        requires
        ensures
            r is Ok <==> (value_size(runtime.structs@, runtime.heap@, self@, fuel as nat) matches Some(n) && n
                <= usize::MAX),
            r matches Ok(n) ==> value_size(runtime.structs@, runtime.heap@, self@, fuel as nat) == Some(n as int),
        decreases fuel,
    {
        match self {
            RuntimeValue::S8(_) | RuntimeValue::U8(_) | RuntimeValue::Bool(_) => Ok(1),
            RuntimeValue::S16(_) | RuntimeValue::U16(_) => Ok(2),
            RuntimeValue::S32(_) | RuntimeValue::U32(_) => Ok(4),
            RuntimeValue::String(s) => {
                let n = s.as_str().as_bytes().len();
                proof {
                    vstd::utf8::encode_utf8_decode_utf8(s@);
                }
                match n.checked_add(1) {
                    Some(total) => Ok(total),
                    None => Err(overflow()),
                }
            },
            RuntimeValue::Array { contents, .. } => {
                if fuel == 0 {
                    return Err(RuntimeError::ReferenceCycle);
                }
                let mut size: usize = 0;
                let mut i: usize = 0;
                while i < contents.len()
                    invariant
                        i <= contents@.len(),
                        fuel > 0,
                        self@ == (ValueView::Array { inner_data_type: self@->Array_inner_data_type, contents: contents@ }),
                        value_size(runtime.structs@, runtime.heap@, self@, fuel as nat) == items_size(
                            runtime.structs@,
                            runtime.heap@,
                            contents@,
                            i as int,
                            size as int,
                            (fuel - 1) as nat,
                        ),
                    decreases contents@.len() - i,
                {
                    let c = contents[i];
                    if c >= runtime.heap.len() {
                        return Err(RuntimeError::ReferenceCycle);
                    }
                    let s = match runtime.heap.read(c).serialized_size_within(runtime, fuel - 1) {
                        Ok(s) => s,
                        Err(e) => {
                            proof {
                                if let Some(s) = value_size(runtime.structs@, runtime.heap@, runtime.heap@[c as int], (fuel - 1) as nat) {
                                    lemma_items_size_grows(runtime.structs@, runtime.heap@, contents@, i + 1, size + s, (fuel - 1) as nat);
                                }
                            }
                            return Err(e);
                        },
                    };
                    size = match size.checked_add(s) {
                        Some(t) => t,
                        None => {
                            proof {
                                lemma_items_size_grows(runtime.structs@, runtime.heap@, contents@, i + 1, size + s, (fuel - 1) as nat);
                            }
                            return Err(overflow());
                        },
                    };
                    i = i + 1;
                }
                Ok(size)
            },
            RuntimeValue::Struct { definition, fields } => {
                if fuel == 0 {
                    return Err(RuntimeError::ReferenceCycle);
                }
                let def = runtime.get_struct_definition(definition.as_str())?;
                if !def.is_declared_pod() {
                    return Err(RuntimeError::NonPODType(definition.clone()));
                }
                proof {
                }
                let mut size: usize = 0;
                let mut i: usize = 0;
                while i < def.members.len()
                    invariant
                        i <= def.members@.len(),
                        fuel > 0,
                        value_size(runtime.structs@, runtime.heap@, self@, fuel as nat) == member_values_size(
                            runtime.structs@,
                            runtime.heap@,
                            def.members@,
                            fields_view(fields@),
                            i as int,
                            size as int,
                            (fuel - 1) as nat,
                        ),
                    decreases def.members@.len() - i,
                {
                    match &def.members[i] {
                        StructMember::Padding(n) => {
                            size = match size.checked_add(*n) {
                                Some(t) => t,
                                None => {
                                    proof {
                                        lemma_member_values_size_grows(runtime.structs@, runtime.heap@, def.members@, fields_view(fields@), i + 1, size + *n, (fuel - 1) as nat);
                                    }
                                    return Err(overflow());
                                },
                            };
                        },
                        StructMember::Field(field) => {
                            let alignment = field.alignment()?;
                            if let Some(a) = alignment {
                                let remainder = size % a;
                                if remainder != 0 {
                                    size = match size.checked_add(a - remainder) {
                                        Some(t) => t,
                                        None => {
                                            proof {
                                                let fv = fields_view(fields@);
                                                let h = runtime.heap@;
                                                if let Some(c) = field_cell(fv, field.identifier@) {
                                                    if c < h.len() {
                                                        lemma_value_size_nonneg(runtime.structs@, h, h[c as int], (fuel - 1) as nat);
                                                        if let Some(s) = value_size(runtime.structs@, h, h[c as int], (fuel - 1) as nat) {
                                                            lemma_member_values_size_grows(runtime.structs@, h, def.members@, fv, i + 1, size + pad_len(size as nat, Some(a)) + s, (fuel - 1) as nat);
                                                        }
                                                    }
                                                }
                                            }
                                            return Err(overflow());
                                        },
                                    };
                                }
                            }
                            let cell = match crate::values::find_field_pub(fields, field.identifier.as_str()) {
                                Some(c) => c,
                                None => {
                                    return Err(RuntimeError::InvalidStructFieldAccess {
                                        field_name: field.identifier.clone(),
                                        struct_name: definition.clone(),
                                    });
                                },
                            };
                            if cell >= runtime.heap.len() {
                                return Err(RuntimeError::ReferenceCycle);
                            }
                            let value = runtime.heap.read(cell);
                            if let RuntimeValue::String(_) = value {
                                let _ = field.string_serialization()?;
                            }
                            let s = match value.serialized_size_within(runtime, fuel - 1) {
                                Ok(s) => s,
                                Err(e) => {
                                    proof {
                                        if let Some(s) = value_size(runtime.structs@, runtime.heap@, value@, (fuel - 1) as nat) {
                                            lemma_member_values_size_grows(runtime.structs@, runtime.heap@, def.members@, fields_view(fields@), i + 1, size + s, (fuel - 1) as nat);
                                        }
                                    }
                                    return Err(e);
                                },
                            };
                            size = match size.checked_add(s) {
                                Some(t) => t,
                                None => {
                                    proof {
                                        lemma_member_values_size_grows(runtime.structs@, runtime.heap@, def.members@, fields_view(fields@), i + 1, size + s, (fuel - 1) as nat);
                                    }
                                    return Err(overflow());
                                },
                            };
                        },
                    }
                    i = i + 1;
                }
                Ok(size)
            },
            _ => {
                let t = self.data_type(&runtime.heap)?;
                Err(RuntimeError::CannotDetermineDataTypeSize(t.name()))
            },
        }
    }

    /// The size of the value's layout (see `value_size`), with as much
    /// nesting as the heap has cells.
    pub fn serialized_size(&self, runtime: &Runtime) -> (r: RuntimeResult<usize>)
        requires
        ensures
            r is Ok <==> (value_size(runtime.structs@, runtime.heap@, self@, depth_fuel(runtime.heap@.len())) matches Some(
                n,
            ) && n <= usize::MAX),
            r matches Ok(n) ==> value_size(runtime.structs@, runtime.heap@, self@, depth_fuel(runtime.heap@.len())) == Some(n as int),
    {
        let n = runtime.heap.len();
        let fuel = if n < usize::MAX {
            n + 1
        } else {
            n
        };
        self.serialized_size_within(runtime, fuel)
    }
}

} // verus!
