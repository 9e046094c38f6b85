//! Attributes of structs and fields, and the layout of POD values as bytes.
use vstd::prelude::*;

use crate::ast::{
    Attribute, Expression, StructDefinition, StructFieldDefinition, StructMember, Value,
};
use crate::error::{RuntimeError, RuntimeResult};
use crate::runtime::{Runtime, struct_def};
use crate::text::{str_eq, string_of};
use crate::value::{RuntimeValue, ValueView, fields_view};

verus! {

#[derive(Debug, PartialEq, Eq, Structural, Clone, Copy)]
pub enum ByteOrder {
    Little,
    Big,
}

#[derive(Debug, PartialEq, Eq, Structural, Clone, Copy)]
pub enum StringSerialization {
    Ascii,
}

/* ---------- attributes ---------- */

/// The first attribute with the given name.
pub open spec fn find_attr(attrs: Seq<Attribute>, name: Seq<char>) -> Option<Attribute>
    decreases attrs.len(),
{
    if attrs.len() == 0 {
        None
    } else if attrs[0].identifier@ == name {
        Some(attrs[0])
    } else {
        find_attr(attrs.drop_first(), name)
    }
}

/// Attribute lists that match one for one have an attribute of each name
/// alike.
pub proof fn lemma_same_attrs_find(a: Seq<Attribute>, b: Seq<Attribute>, name: Seq<char>)
    requires
        crate::ast::same_attrs(a, b),
    ensures
        find_attr(a, name) is Some <==> find_attr(b, name) is Some,
    decreases a.len(),
{
    if a.len() > 0 {
        assert(crate::ast::same_attr(a[0], b[0]));
        assert forall|i: int| 0 <= i < a.drop_first().len() implies crate::ast::same_attr(
            #[trigger] a.drop_first()[i],
            b.drop_first()[i],
        ) by {
            assert(crate::ast::same_attr(a[i + 1], b[i + 1]));
        }
        lemma_same_attrs_find(a.drop_first(), b.drop_first(), name);
    }
}

pub(crate) fn find_attribute<'a>(attrs: &'a Vec<Attribute>, identifier: &str) -> (r: Option<&'a Attribute>)
    ensures
        r is Some <==> find_attr(attrs@, identifier@) is Some,
        r matches Some(a) ==> *a == find_attr(attrs@, identifier@)->Some_0,
{
    let mut i: usize = 0;
    assert(attrs@.skip(0) == attrs@);
    while i < attrs.len()
        invariant
            i <= attrs@.len(),
            find_attr(attrs@, identifier@) == find_attr(attrs@.skip(i as int), identifier@),
        decreases attrs@.len() - i,
    {
        assert(attrs@.skip(i as int).drop_first() == attrs@.skip(i + 1));
        if str_eq(attrs[i].identifier.as_str(), identifier) {
            return Some(&attrs[i]);
        }
        i = i + 1;
    }
    None
}

impl Attribute {
    pub fn assert_argument_count(&self, expected: usize) -> (r: RuntimeResult<()>)
        ensures
            r is Ok <==> self.arguments@.len() == expected,
            r matches Err(e) ==> e matches RuntimeError::InvalidAttributeArgumentCount {
                attribute,
                expected: x,
                found,
            } && attribute@ == self.identifier@ && x == expected && found == self.arguments@.len(),
    {
        if self.arguments.len() != expected {
            Err(
                RuntimeError::InvalidAttributeArgumentCount {
                    attribute: self.identifier.clone(),
                    expected,
                    found: self.arguments.len(),
                },
            )
        } else {
            Ok(())
        }
    }
}

/// Things that carry attributes.
pub trait Attributable {
    spec fn attrs(&self) -> Seq<Attribute>;

    fn has_attribute(&self, identifier: &str) -> (r: bool)
        ensures
            r == (find_attr(self.attrs(), identifier@) is Some),
    ;

    fn get_attribute(&self, identifier: &str) -> (r: RuntimeResult<&Attribute>)
        ensures
            r is Ok <==> find_attr(self.attrs(), identifier@) is Some,
            r matches Ok(a) ==> *a == find_attr(self.attrs(), identifier@)->Some_0,
            r matches Err(e) ==> e matches RuntimeError::AttributeNotFound(n) && n@ == identifier@,
    ;
}

impl Attributable for StructDefinition {
    open spec fn attrs(&self) -> Seq<Attribute> {
        self.attributes@
    }

    fn has_attribute(&self, identifier: &str) -> (r: bool) {
        find_attribute(&self.attributes, identifier).is_some()
    }

    fn get_attribute(&self, identifier: &str) -> (r: RuntimeResult<&Attribute>) {
        match find_attribute(&self.attributes, identifier) {
            Some(a) => Ok(a),
            None => Err(RuntimeError::AttributeNotFound(String::from_str(identifier))),
        }
    }
}

impl Attributable for StructFieldDefinition {
    open spec fn attrs(&self) -> Seq<Attribute> {
        self.attributes@
    }

    fn has_attribute(&self, identifier: &str) -> (r: bool) {
        find_attribute(&self.attributes, identifier).is_some()
    }

    fn get_attribute(&self, identifier: &str) -> (r: RuntimeResult<&Attribute>) {
        match find_attribute(&self.attributes, identifier) {
            Some(a) => Ok(a),
            None => Err(RuntimeError::AttributeNotFound(String::from_str(identifier))),
        }
    }
}

/// A struct is declared POD when it carries `#[pod]`.
pub open spec fn declared_pod(d: StructDefinition) -> bool {
    find_attr(d.attributes@, "pod"@) is Some
}

/// The byte order a struct declares with `#[byte_order("little" | "big")]`,
/// little endian when it declares none; `None` when the attribute is malformed.
pub open spec fn spec_byte_order(d: StructDefinition) -> Option<ByteOrder> {
    match find_attr(d.attributes@, "byte_order"@) {
        None => Some(ByteOrder::Little),
        Some(a) => if a.arguments@.len() != 1 {
            None
        } else {
            match a.arguments@[0] {
                Expression::Value(Value::String(s)) => if s@ == "little"@ {
                    Some(ByteOrder::Little)
                } else if s@ == "big"@ {
                    Some(ByteOrder::Big)
                } else {
                    None
                },
                _ => None,
            }
        },
    }
}

/// The alignment a field declares with `#[align(n)]`, `Some(None)` when it
/// declares none; `None` when the attribute is malformed, or its number is
/// not positive.
pub open spec fn spec_alignment(f: StructFieldDefinition) -> Option<Option<usize>> {
    match find_attr(f.attributes@, "align"@) {
        None => Some(None),
        Some(a) => if a.arguments@.len() != 1 {
            None
        } else {
            match a.arguments@[0] {
                Expression::Value(Value::U32(v)) => if v > 0 {
                    Some(Some(v as usize))
                } else {
                    None
                },
                Expression::Value(Value::S32(v)) => if v > 0 {
                    Some(Some(v as usize))
                } else {
                    None
                },
                _ => None,
            }
        },
    }
}

/// The struct that a name resolves to carries that name.
pub proof fn lemma_struct_def_name(defs: Seq<StructDefinition>, name: Seq<char>)
    ensures
        struct_def(defs, name) matches Some(d) ==> d.identifier@ == name,
    decreases defs.len(),
{
    if defs.len() > 0 && defs.last().identifier@ != name {
        lemma_struct_def_name(defs.drop_last(), name);
    }
}

/// How a string field declares it is written with `#[serialize_as("ascii")]`,
/// `Some(None)` when it declares nothing; `None` when the attribute is
/// malformed or names another encoding.
pub open spec fn spec_string_serialization(f: StructFieldDefinition) -> Option<
    Option<StringSerialization>,
> {
    match find_attr(f.attributes@, "serialize_as"@) {
        None => Some(None),
        Some(a) => if a.arguments@.len() != 1 {
            None
        } else {
            match a.arguments@[0] {
                Expression::Value(Value::String(s)) => if s@ == "ascii"@ {
                    Some(Some(StringSerialization::Ascii))
                } else {
                    None
                },
                _ => None,
            }
        },
    }
}

/// The fields of a struct, in order, without its padding.
pub open spec fn spec_fields(members: Seq<StructMember>) -> Seq<StructFieldDefinition>
    decreases members.len(),
{
    if members.len() == 0 {
        Seq::empty()
    } else {
        let rest = spec_fields(members.drop_last());
        match members.last() {
            StructMember::Field(f) => rest.push(f),
            StructMember::Padding(_) => rest,
        }
    }
}

impl StructDefinition {
    /// "Declared": the struct says it is POD; whether its fields are is
    /// checked separately.
    pub fn is_declared_pod(&self) -> (r: bool)
        ensures
            r == declared_pod(*self),
    {
        self.has_attribute("pod")
    }

    pub fn byte_order(&self) -> (r: RuntimeResult<ByteOrder>)
        ensures
            r is Ok <==> spec_byte_order(*self) is Some,
            r matches Ok(o) ==> o == spec_byte_order(*self)->Some_0,
            r matches Err(e) ==> (find_attr(self.attributes@, "byte_order"@) matches Some(a) && (if a.arguments@.len() != 1 {
                e matches RuntimeError::InvalidAttributeArgumentCount { expected, .. } && expected == 1
            } else {
                e matches RuntimeError::InvalidAttributeArgument { attribute, .. } && attribute@ == "byte_order"@
            })),
    {
        proof {
            reveal_strlit("little");
            reveal_strlit("big");
        }
        let attribute = match find_attribute(&self.attributes, "byte_order") {
            Some(a) => a,
            None => {
                return Ok(ByteOrder::Little);
            },
        };
        attribute.assert_argument_count(1)?;
        match &attribute.arguments[0] {
            Expression::Value(Value::String(value)) => {
                if str_eq(value.as_str(), "little") {
                    Ok(ByteOrder::Little)
                } else if str_eq(value.as_str(), "big") {
                    Ok(ByteOrder::Big)
                } else {
                    Err(
                        RuntimeError::InvalidAttributeArgument {
                            attribute: string_of("byte_order"),
                            expected: string_of("\"little\" or \"big\""),
                            found: value.clone(),
                        },
                    )
                }
            },
            _ => Err(
                RuntimeError::InvalidAttributeArgument {
                    attribute: string_of("byte_order"),
                    expected: string_of("string literal"),
                    found: string_of("an expression that is not a string literal"),
                },
            ),
        }
    }

    /// The fields of the struct, in order, without its padding.
    pub fn fields(&self) -> (r: Vec<&StructFieldDefinition>)
        ensures
            r@.len() == spec_fields(self.members@).len(),
            forall|i: int| 0 <= i < r@.len() ==> *r@[i] == spec_fields(self.members@)[i],
    {
        let mut r: Vec<&StructFieldDefinition> = Vec::new();
        let mut i: usize = 0;
        while i < self.members.len()
            invariant
                i <= self.members@.len(),
                r@.len() == spec_fields(self.members@.take(i as int)).len(),
                forall|j: int|
                    0 <= j < r@.len() ==> *r@[j] == spec_fields(self.members@.take(i as int))[j],
            decreases self.members@.len() - i,
        {
            assert(self.members@.take(i + 1).drop_last() == self.members@.take(i as int));
            match &self.members[i] {
                StructMember::Field(f) => r.push(f),
                StructMember::Padding(_) => {},
            }
            i = i + 1;
        }
        assert(self.members@.take(self.members@.len() as int) == self.members@);
        r
    }
}

impl StructFieldDefinition {
    pub fn string_serialization(&self) -> (r: RuntimeResult<Option<StringSerialization>>)
        ensures
            r is Ok <==> spec_string_serialization(*self) is Some,
            r matches Ok(o) ==> o == spec_string_serialization(*self)->Some_0,
            r matches Err(e) ==> e is InvalidAttributeArgumentCount || e is UnexpectedAttributeArgument,
    {
        proof {
            reveal_strlit("ascii");
        }
        let attribute = match find_attribute(&self.attributes, "serialize_as") {
            Some(a) => a,
            None => {
                return Ok(None);
            },
        };
        attribute.assert_argument_count(1)?;
        match &attribute.arguments[0] {
            Expression::Value(Value::String(s)) => {
                if str_eq(s.as_str(), "ascii") {
                    Ok(Some(StringSerialization::Ascii))
                } else {
                    Err(
                        RuntimeError::UnexpectedAttributeArgument {
                            attribute: attribute.identifier.clone(),
                            found: s.clone(),
                        },
                    )
                }
            },
            _ => Err(
                RuntimeError::UnexpectedAttributeArgument {
                    attribute: attribute.identifier.clone(),
                    found: string_of("an expression that is not a string literal"),
                },
            ),
        }
    }

    pub fn alignment(&self) -> (r: RuntimeResult<Option<usize>>)
        ensures
            r is Ok <==> spec_alignment(*self) is Some,
            r matches Ok(o) ==> o == spec_alignment(*self)->Some_0,
            r matches Err(e) ==> e is InvalidAttributeArgumentCount || e is InvalidAttributeArgument,
    {
        let attribute = match find_attribute(&self.attributes, "align") {
            Some(a) => a,
            None => {
                return Ok(None);
            },
        };
        attribute.assert_argument_count(1)?;
        match &attribute.arguments[0] {
            Expression::Value(Value::U32(value)) if *value > 0 => Ok(Some(*value as usize)),
            Expression::Value(Value::S32(value)) if *value > 0 => Ok(Some(*value as usize)),
            _ => Err(
                RuntimeError::InvalidAttributeArgument {
                    attribute: string_of("align"),
                    expected: string_of("positive integer"),
                    found: string_of("an expression that is not a positive integer literal"),
                },
            ),
        }
    }
}

/* ---------- integers as bytes ---------- */

pub open spec fn u16_bytes(x: u16, order: ByteOrder) -> Seq<u8> {
    match order {
        ByteOrder::Little => seq![(x & 0xff) as u8, (x >> 8) as u8],
        ByteOrder::Big => seq![(x >> 8) as u8, (x & 0xff) as u8],
    }
}

pub open spec fn u32_bytes(x: u32, order: ByteOrder) -> Seq<u8> {
    match order {
        ByteOrder::Little => seq![
            (x & 0xff) as u8,
            ((x >> 8) & 0xff) as u8,
            ((x >> 16) & 0xff) as u8,
            (x >> 24) as u8,
        ],
        ByteOrder::Big => seq![
            (x >> 24) as u8,
            ((x >> 16) & 0xff) as u8,
            ((x >> 8) & 0xff) as u8,
            (x & 0xff) as u8,
        ],
    }
}

fn push_u16(out: &mut Vec<u8>, x: u16, order: ByteOrder)
    ensures
        final(out)@ == old(out)@ + u16_bytes(x, order),
{
    let lo = (x & 0xff) as u8;
    let hi = (x >> 8) as u8;
    match order {
        ByteOrder::Little => {
            out.push(lo);
            out.push(hi);
        },
        ByteOrder::Big => {
            out.push(hi);
            out.push(lo);
        },
    }
    assert(final(out)@ =~= old(out)@ + u16_bytes(x, order));
}

fn push_u32(out: &mut Vec<u8>, x: u32, order: ByteOrder)
    ensures
        final(out)@ == old(out)@ + u32_bytes(x, order),
{
    let b0 = (x & 0xff) as u8;
    let b1 = ((x >> 8) & 0xff) as u8;
    let b2 = ((x >> 16) & 0xff) as u8;
    let b3 = (x >> 24) as u8;
    match order {
        ByteOrder::Little => {
            out.push(b0);
            out.push(b1);
            out.push(b2);
            out.push(b3);
        },
        ByteOrder::Big => {
            out.push(b3);
            out.push(b2);
            out.push(b1);
            out.push(b0);
        },
    }
    assert(final(out)@ =~= old(out)@ + u32_bytes(x, order));
}

/// `n` zero bytes.
pub open spec fn zeros(n: nat) -> Seq<u8> {
    Seq::new(n, |i: int| 0u8)
}

fn push_zeros(out: &mut Vec<u8>, n: usize)
    ensures
        final(out)@ == old(out)@ + zeros(n as nat),
{
    let mut i: usize = 0;
    while i < n
        invariant
            i <= n,
            out@ == old(out)@ + zeros(i as nat),
        decreases n - i,
    {
        out.push(0);
        i = i + 1;
        assert(out@ =~= old(out)@ + zeros(i as nat));
    }
}

/// The bytes that bring `len` bytes up to a multiple of the alignment.
pub open spec fn pad_len(len: nat, alignment: Option<usize>) -> nat {
    match alignment {
        Some(a) => if a > 0 && len % (a as nat) != 0 {
            ((a as nat) - len % (a as nat)) as nat
        } else {
            0
        },
        None => 0,
    }
}

/* ---------- serialization ---------- */

/// The cell of the newest field with the given name.
pub open spec fn field_cell(fields: Seq<(Seq<char>, usize)>, name: Seq<char>) -> Option<usize>
    decreases fields.len(),
{
    if fields.len() == 0 {
        None
    } else if fields.last().0 == name {
        Some(fields.last().1)
    } else {
        field_cell(fields.drop_last(), name)
    }
}

/// The cell a field name resolves to is one of the fields' cells.
pub proof fn lemma_field_cell_in(fields: Seq<(Seq<char>, usize)>, name: Seq<char>)
    ensures
        field_cell(fields, name) matches Some(c) ==> exists|i: int| 0 <= i < fields.len() && #[trigger] fields[i].1 == c,
    decreases fields.len(),
{
    if fields.len() > 0 {
        if fields.last().0 == name {
            assert(fields[fields.len() - 1].1 == fields.last().1);
        } else {
            lemma_field_cell_in(fields.drop_last(), name);
            if let Some(c) = field_cell(fields.drop_last(), name) {
                let i = choose|i: int| 0 <= i < fields.drop_last().len() && #[trigger] fields.drop_last()[i].1 == c;
                assert(fields[i].1 == c);
            }
        }
    }
}

/// The bytes of an ASCII string: one byte per character.
pub open spec fn ascii_bytes(s: Seq<char>) -> Seq<u8> {
    Seq::new(s.len(), |i: int| s[i] as u8)
}

/// Writes a value after `out`, in the given byte order: integers in their
/// width, booleans as one byte, arrays element by element, POD structs
/// member by member in their own byte order (padding as zeros, aligned
/// fields after zeros up to the alignment, ASCII strings as their bytes and a
/// NUL). Gives the bytes written so far and whether the whole value was
/// written; `fuel` bounds the nesting of arrays and structs.
pub open spec fn ser(
    defs: Seq<StructDefinition>,
    h: Seq<ValueView>,
    v: ValueView,
    order: ByteOrder,
    out: Seq<u8>,
    fuel: nat,
) -> (Seq<u8>, bool)
    decreases fuel, 0nat, 0nat,
{
    match v {
        ValueView::S8(x) => (out.push(x as u8), true),
        ValueView::U8(x) => (out.push(x), true),
        ValueView::S16(x) => (out + u16_bytes(x as u16, order), true),
        ValueView::U16(x) => (out + u16_bytes(x, order), true),
        ValueView::S32(x) => (out + u32_bytes(x as u32, order), true),
        ValueView::U32(x) => (out + u32_bytes(x, order), true),
        ValueView::Bool(b) => (out.push(if b { 1u8 } else { 0u8 }), true),
        ValueView::Array { contents, .. } => if fuel == 0 {
            (out, false)
        } else {
            ser_items(defs, h, contents, order, out, (fuel - 1) as nat, 0)
        },
        ValueView::Struct { definition, fields } => if fuel == 0 {
            (out, false)
        } else {
            match struct_def(defs, definition) {
                None => (out, false),
                Some(d) => if !declared_pod(d) {
                    (out, false)
                } else {
                    match spec_byte_order(d) {
                        None => (out, false),
                        Some(o) => ser_members(defs, h, d.members@, fields, o, out, (fuel - 1) as nat, 0),
                    }
                },
            }
        },
        _ => (out, false),
    }
}

/// Writes the values in the cells `items[i..]` one after the other.
pub open spec fn ser_items(
    defs: Seq<StructDefinition>,
    h: Seq<ValueView>,
    items: Seq<usize>,
    order: ByteOrder,
    out: Seq<u8>,
    fuel: nat,
    i: int,
) -> (Seq<u8>, bool)
    decreases fuel, 1nat, items.len() - i,
{
    if i < 0 || i >= items.len() {
        (out, true)
    } else if items[i] >= h.len() {
        (out, false)
    } else {
        let (o, ok) = ser(defs, h, h[items[i] as int], order, out, fuel);
        if !ok {
            (o, false)
        } else {
            ser_items(defs, h, items, order, o, fuel, i + 1)
        }
    }
}

/// Writes a field's value: an ASCII-serialized string as its bytes and a NUL,
/// anything else as `ser` does.
pub open spec fn ser_field(
    defs: Seq<StructDefinition>,
    h: Seq<ValueView>,
    f: StructFieldDefinition,
    v: ValueView,
    order: ByteOrder,
    out: Seq<u8>,
    fuel: nat,
) -> (Seq<u8>, bool)
    decreases fuel, 0nat, 1nat,
{
    match v {
        ValueView::String(s) => match spec_string_serialization(f) {
            None => (out, false),
            Some(Some(_)) => if vstd::utf8::is_ascii_chars(s) {
                (out + ascii_bytes(s) + seq![0u8], true)
            } else {
                (out, false)
            },
            Some(None) => ser(defs, h, v, order, out, fuel),
        },
        _ => ser(defs, h, v, order, out, fuel),
    }
}

/// Writes the members `members[i..]` of a struct whose fields are `fields`.
pub open spec fn ser_members(
    defs: Seq<StructDefinition>,
    h: Seq<ValueView>,
    members: Seq<StructMember>,
    fields: Seq<(Seq<char>, usize)>,
    order: ByteOrder,
    out: Seq<u8>,
    fuel: nat,
    i: int,
) -> (Seq<u8>, bool)
    decreases fuel, 1nat, members.len() - i,
{
    if i < 0 || i >= members.len() {
        (out, true)
    } else {
        match members[i] {
            StructMember::Padding(n) => ser_members(
                defs,
                h,
                members,
                fields,
                order,
                out + zeros(n as nat),
                fuel,
                i + 1,
            ),
            StructMember::Field(f) => match spec_alignment(f) {
                None => (out, false),
                Some(al) => {
                    let out1 = out + zeros(pad_len(out.len(), al));
                    match field_cell(fields, f.identifier@) {
                        None => (out1, false),
                        Some(a) => if a >= h.len() {
                            (out1, false)
                        } else {
                            let (o, ok) = ser_field(defs, h, f, h[a as int], order, out1, fuel);
                            if !ok {
                                (o, false)
                            } else {
                                ser_members(defs, h, members, fields, order, o, fuel, i + 1)
                            }
                        }
                    }
                },
            },
        }
    }
}

/// The nesting that a walk through `n` cells can reach.
pub open spec fn depth_fuel(n: nat) -> nat {
    if n < usize::MAX {
        n + 1
    } else {
        n
    }
}

fn find_field_cell(fields: &Vec<(String, usize)>, name: &str) -> (r: Option<usize>)
    ensures
        r == field_cell(fields_view(fields@), name@),
{
    let ghost fv = fields_view(fields@);
    let mut i = fields.len();
    assert(fv.take(i as int) == fv);
    while i > 0
        invariant
            i <= fields@.len(),
            fv == fields_view(fields@),
            fv.len() == fields@.len(),
            field_cell(fv, name@) == field_cell(fv.take(i as int), name@),
        decreases i,
    {
        assert(fv.take(i as int).drop_last() == fv.take(i - 1));
        assert(fv[i - 1] == (fields@[i - 1].0@, fields@[i - 1].1));
        if str_eq(fields[i - 1].0.as_str(), name) {
            return Some(fields[i - 1].1);
        }
        i = i - 1;
    }
    None
}

impl Runtime {
    fn serialize_field(
        &self,
        field: &StructFieldDefinition,
        value: &RuntimeValue,
        byte_order: ByteOrder,
        output: &mut Vec<u8>,
        fuel: usize,
    ) -> (r: RuntimeResult<()>)
        requires
        ensures
            final(output)@ == ser_field(self.structs@, self.heap@, *field, value@, byte_order, old(output)@, fuel as nat).0,
            r is Ok == ser_field(self.structs@, self.heap@, *field, value@, byte_order, old(output)@, fuel as nat).1,
            value@ matches ValueView::String(t) ==> (spec_string_serialization(*field) == Some(
                Some(StringSerialization::Ascii),
            ) && !vstd::utf8::is_ascii_chars(t) ==> (r matches Err(e) && e matches RuntimeError::NonAsciiString(x) && x@ == t)),
            r is Ok <==> ser_field_fault(self.structs@, self.heap@, *field, value@, fuel as nat) is None,
            r matches Err(e) ==> ser_field_fault(self.structs@, self.heap@, *field, value@, fuel as nat) matches Some(f)
                && ser_fault_is(e, f),
        decreases fuel, 1nat,
    {
        if let RuntimeValue::String(s) = value {
            match field.string_serialization()? {
                Some(StringSerialization::Ascii) => {
                    if !s.is_ascii() {
                        return Err(RuntimeError::NonAsciiString(s.clone()));
                    }
                    let text = s.as_str();
                    let bytes = text.as_bytes();
                    proof {
                        vstd::string::is_ascii_spec_bytes(text);
                    }
                    let mut i: usize = 0;
                    let ghost start = output@;
                    while i < bytes.len()
                        invariant
                            i <= bytes@.len(),
                            output@ == start + bytes@.take(i as int),
                        decreases bytes@.len() - i,
                    {
                        output.push(bytes[i]);
                        i = i + 1;
                        assert(output@ =~= start + bytes@.take(i as int));
                    }
                    output.push(0);
                    proof {
                        assert(bytes@.take(bytes@.len() as int) == bytes@);
                        assert(bytes@ =~= ascii_bytes(s@));
                    }
                    return Ok(());
                },
                None => {},
            }
        }
        self.serialize_value(value, byte_order, output, fuel)
    }

    fn serialize_value(&self, value: &RuntimeValue, byte_order: ByteOrder, output: &mut Vec<u8>, fuel: usize) -> (r:
        RuntimeResult<()>)
        requires
        ensures
            final(output)@ == ser(self.structs@, self.heap@, value@, byte_order, old(output)@, fuel as nat).0,
            r is Ok == ser(self.structs@, self.heap@, value@, byte_order, old(output)@, fuel as nat).1,
            r matches Err(e) ==> ser_error(self.structs@, self.heap@, value@, fuel as nat, e),
            r is Ok <==> ser_fault(self.structs@, self.heap@, value@, fuel as nat) is None,
        decreases fuel, 0nat,
    {
        match value {
            RuntimeValue::S8(v) => {
                output.push(*v as u8);
                Ok(())
            },
            RuntimeValue::U8(v) => {
                output.push(*v);
                Ok(())
            },
            RuntimeValue::S16(v) => {
                push_u16(output, *v as u16, byte_order);
                Ok(())
            },
            RuntimeValue::U16(v) => {
                push_u16(output, *v, byte_order);
                Ok(())
            },
            RuntimeValue::S32(v) => {
                push_u32(output, *v as u32, byte_order);
                Ok(())
            },
            RuntimeValue::U32(v) => {
                push_u32(output, *v, byte_order);
                Ok(())
            },
            RuntimeValue::Bool(v) => {
                output.push(if *v { 1 } else { 0 });
                Ok(())
            },
            RuntimeValue::Array { contents, .. } => {
                if fuel == 0 {
                    return Err(RuntimeError::ReferenceCycle);
                }
                let mut i: usize = 0;
                while i < contents.len()
                    invariant
                        i <= contents@.len(),
                        ser(self.structs@, self.heap@, value@, byte_order, old(output)@, fuel as nat)
                            == ser_items(self.structs@, self.heap@, contents@, byte_order, output@, (fuel - 1) as nat, i as int),
                        ser_fault(self.structs@, self.heap@, value@, fuel as nat) == ser_items_fault(
                            self.structs@,
                            self.heap@,
                            contents@,
                            (fuel - 1) as nat,
                            i as int,
                        ),
                        fuel > 0,
                        value@ == (ValueView::Array { inner_data_type: value@->Array_inner_data_type, contents: contents@ }),
                    decreases contents@.len() - i,
                {
                    let a = contents[i];
                    if a >= self.heap.len() {
                        return Err(RuntimeError::ReferenceCycle);
                    }
                    self.serialize_value(self.heap.read(a), byte_order, output, fuel - 1)?;
                    i = i + 1;
                }
                Ok(())
            },
            RuntimeValue::Struct { definition, fields } => {
                if fuel == 0 {
                    return Err(RuntimeError::ReferenceCycle);
                }
                let def = self.get_struct_definition(definition.as_str())?;
                proof {
                    lemma_struct_def_name(self.structs@, definition@);
                    assert(struct_def(self.structs@, definition@) == Some(*def));
                    assert(value@ is Struct && value@->Struct_definition == definition@);
                }
                if !def.is_declared_pod() {
                    return Err(RuntimeError::NonPODType(def.identifier.clone()));
                }
                let struct_byte_order = def.byte_order()?;
                proof {
                }
                let mut i: usize = 0;
                while i < def.members.len()
                    invariant
                        i <= def.members@.len(),
                        ser(self.structs@, self.heap@, value@, byte_order, old(output)@, fuel as nat)
                            == ser_members(self.structs@, self.heap@, def.members@, fields_view(fields@), struct_byte_order, output@, (fuel - 1) as nat, i as int),
                        ser_fault(self.structs@, self.heap@, value@, fuel as nat) == ser_members_fault(
                            self.structs@,
                            self.heap@,
                            def.members@,
                            fields_view(fields@),
                            def.identifier@,
                            (fuel - 1) as nat,
                            i as int,
                        ),
                        fuel > 0,
                        struct_def(self.structs@, definition@) == Some(*def),
                        declared_pod(*def),
                        value@ is Struct && value@->Struct_definition == definition@,
                    decreases def.members@.len() - i,
                {
                    match &def.members[i] {
                        StructMember::Field(field) => {
                            let alignment = field.alignment()?;
                            if let Some(alignment) = alignment {
                                let remainder = output.len() % alignment;
                                if remainder != 0 {
                                    push_zeros(output, alignment - remainder);
                                }
                            }
                            let cell = match find_field_cell(fields, field.identifier.as_str()) {
                                Some(c) => c,
                                None => {
                                    return Err(
                                        RuntimeError::InvalidStructFieldAccess {
                                            field_name: field.identifier.clone(),
                                            struct_name: def.identifier.clone(),
                                        },
                                    );
                                },
                            };
                            if cell >= self.heap.len() {
                                return Err(RuntimeError::ReferenceCycle);
                            }
                            self.serialize_field(field, self.heap.read(cell), struct_byte_order, output, fuel - 1)?;
                        },
                        StructMember::Padding(count) => {
                            push_zeros(output, *count);
                        },
                    }
                    i = i + 1;
                }
                Ok(())
            },
            _ => Err(RuntimeError::NonPODType(string_of("a value that is not POD"))),
        }
    }

    /// The bytes of a POD value (of the value a reference points at), in the
    /// runtime's byte order. A value that cannot be serialized, such as a
    /// struct not marked `#[pod]`, is an error.
    pub fn serialize_into(&self, value: &RuntimeValue) -> (r: RuntimeResult<Vec<u8>>)
        requires
        ensures
            ({
                let (bytes, ok) = ser(
                    self.structs@,
                    self.heap@,
                    serialized_value(self.heap@, value@),
                    self.byte_order,
                    Seq::empty(),
                    depth_fuel(self.heap@.len()),
                );
                &&& r is Ok <==> ok
                &&& r matches Ok(b) ==> b@ == bytes
                &&& r matches Err(e) ==> ser_error(
                    self.structs@,
                    self.heap@,
                    serialized_value(self.heap@, value@),
                    depth_fuel(self.heap@.len()),
                    e,
                )
            }),
    {
        let n = self.heap.len();
        let fuel = if n < usize::MAX {
            n + 1
        } else {
            n
        };
        let mut output: Vec<u8> = Vec::new();
        let done = match value {
            RuntimeValue::Reference(a) if *a < self.heap.len() => self.serialize_value(
                self.heap.read(*a),
                self.byte_order,
                &mut output,
                fuel,
            ),
            _ => self.serialize_value(value, self.byte_order, &mut output, fuel),
        };
        match done {
            Ok(()) => Ok(output),
            Err(e) => Err(e),
        }
    }
}

/// Why writing a value fails.
pub enum SerFault {
    /// The nesting is deeper than the budget, or a cell is missing.
    Cycle,
    /// A struct name without a definition.
    UnknownStruct(Seq<char>),
    /// A struct that is not declared POD, or a value of a type without bytes
    /// (the name given).
    NonPod(Seq<char>),
    /// A malformed attribute.
    Attribute,
    /// A field of the definition that the struct value lacks (field, struct).
    MissingField(Seq<char>, Seq<char>),
    /// A string to be written as ASCII that is not.
    NonAscii(Seq<char>),
}

/// Where writing `v` fails (see `ser`), and why; `None` where it succeeds.
pub open spec fn ser_fault(defs: Seq<StructDefinition>, h: Seq<ValueView>, v: ValueView, fuel: nat) -> Option<SerFault>
    decreases fuel, 0nat, 0nat,
{
    match v {
        ValueView::S8(_) | ValueView::U8(_) | ValueView::S16(_) | ValueView::U16(_) | ValueView::S32(_) | ValueView::U32(
            _,
        ) | ValueView::Bool(_) => None,
        ValueView::Array { contents, .. } => if fuel == 0 {
            Some(SerFault::Cycle)
        } else {
            ser_items_fault(defs, h, contents, (fuel - 1) as nat, 0)
        },
        ValueView::Struct { definition, fields } => if fuel == 0 {
            Some(SerFault::Cycle)
        } else {
            match struct_def(defs, definition) {
                None => Some(SerFault::UnknownStruct(definition)),
                Some(d) => if !declared_pod(d) {
                    Some(SerFault::NonPod(d.identifier@))
                } else {
                    match spec_byte_order(d) {
                        None => Some(SerFault::Attribute),
                        Some(_) => ser_members_fault(defs, h, d.members@, fields, d.identifier@, (fuel - 1) as nat, 0),
                    }
                },
            }
        },
        _ => Some(SerFault::NonPod("a value that is not POD"@)),
    }
}

/// Where writing the values in the cells `items[i..]` fails.
pub open spec fn ser_items_fault(defs: Seq<StructDefinition>, h: Seq<ValueView>, items: Seq<usize>, fuel: nat, i: int) -> Option<
    SerFault,
>
    decreases fuel, 1nat, items.len() - i,
{
    if i < 0 || i >= items.len() {
        None
    } else if items[i] >= h.len() {
        Some(SerFault::Cycle)
    } else {
        match ser_fault(defs, h, h[items[i] as int], fuel) {
            Some(f) => Some(f),
            None => ser_items_fault(defs, h, items, fuel, i + 1),
        }
    }
}

/// Where writing a field's value fails (see `ser_field`).
pub open spec fn ser_field_fault(
    defs: Seq<StructDefinition>,
    h: Seq<ValueView>,
    f: StructFieldDefinition,
    v: ValueView,
    fuel: nat,
) -> Option<SerFault>
    decreases fuel, 0nat, 1nat,
{
    match v {
        ValueView::String(s) => match spec_string_serialization(f) {
            None => Some(SerFault::Attribute),
            Some(Some(_)) => if vstd::utf8::is_ascii_chars(s) {
                None
            } else {
                Some(SerFault::NonAscii(s))
            },
            Some(None) => ser_fault(defs, h, v, fuel),
        },
        _ => ser_fault(defs, h, v, fuel),
    }
}

/// Where writing the members `members[i..]` of the struct `name` fails.
pub open spec fn ser_members_fault(
    defs: Seq<StructDefinition>,
    h: Seq<ValueView>,
    members: Seq<StructMember>,
    fields: Seq<(Seq<char>, usize)>,
    name: Seq<char>,
    fuel: nat,
    i: int,
) -> Option<SerFault>
    decreases fuel, 1nat, members.len() - i,
{
    if i < 0 || i >= members.len() {
        None
    } else {
        match members[i] {
            StructMember::Padding(_) => ser_members_fault(defs, h, members, fields, name, fuel, i + 1),
            StructMember::Field(f) => match spec_alignment(f) {
                None => Some(SerFault::Attribute),
                Some(_) => match field_cell(fields, f.identifier@) {
                    None => Some(SerFault::MissingField(f.identifier@, name)),
                    Some(a) => if a >= h.len() {
                        Some(SerFault::Cycle)
                    } else {
                        match ser_field_fault(defs, h, f, h[a as int], fuel) {
                            Some(x) => Some(x),
                            None => ser_members_fault(defs, h, members, fields, name, fuel, i + 1),
                        }
                    },
                },
            },
        }
    }
}

/// The error the runtime reports for a fault in writing.
pub open spec fn ser_fault_is(e: RuntimeError, f: SerFault) -> bool {
    match f {
        SerFault::Cycle => e is ReferenceCycle,
        SerFault::UnknownStruct(n) => e matches RuntimeError::StructDefinitionNotFound(m) && m@ == n,
        SerFault::NonPod(n) => e matches RuntimeError::NonPODType(m) && m@ == n,
        SerFault::Attribute => e is InvalidAttributeArgumentCount || e is InvalidAttributeArgument
            || e is UnexpectedAttributeArgument,
        SerFault::MissingField(field, name) => e matches RuntimeError::InvalidStructFieldAccess { field_name, struct_name }
            && field_name@ == field && struct_name@ == name,
        SerFault::NonAscii(t) => e matches RuntimeError::NonAsciiString(m) && m@ == t,
    }
}

/// The error writing `v` reports: the one for its first fault (see
/// `ser_fault`).
pub open spec fn ser_error(defs: Seq<StructDefinition>, h: Seq<ValueView>, v: ValueView, fuel: nat, e: RuntimeError) -> bool {
    ser_fault(defs, h, v, fuel) matches Some(f) && ser_fault_is(e, f)
}

/// What `serialize_into` writes: the value a reference points at, or the value.
pub open spec fn serialized_value(h: Seq<ValueView>, v: ValueView) -> ValueView {
    match v {
        ValueView::Reference(a) => if a < h.len() {
            h[a as int]
        } else {
            v
        },
        _ => v,
    }
}

} // verus!
