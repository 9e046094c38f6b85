//! Reading POD values back from bytes: the inverse of the layout that
//! serialization writes.
use vstd::prelude::*;

use crate::ast::{
    DType, DataType, Expression, StructDefinition, StructFieldDefinition, StructMember, Value,
    dt_name,
};
use crate::error::{RuntimeError, RuntimeResult};
use crate::runtime::{Runtime, find_struct, struct_def};
use crate::serialization::{
    ByteOrder, declared_pod, find_attr,
    pad_len, spec_alignment, spec_byte_order, spec_string_serialization,
};
use crate::text::{str_eq, string_of, usize_to_decimal};
use crate::ast::clone_data_type;
use crate::value::{
    Heap, RuntimeValue, ValueView, fields_view, lemma_fields_view_push, value_addrs_below,
};

verus! {

/* ---------- integers from bytes (byteorder) ---------- */

/// The unsigned value of two bytes, first byte least significant.
pub open spec fn le16(b0: u8, b1: u8) -> int {
    b0 as int + 256 * b1 as int
}

/// The unsigned value of four bytes, first byte least significant.
pub open spec fn le32(b0: u8, b1: u8, b2: u8, b3: u8) -> int {
    b0 as int + 256 * b1 as int + 65536 * b2 as int + 16777216 * b3 as int
}

/// The two's complement reading of a 16-bit pattern.
pub open spec fn signed16(v: int) -> int {
    if v >= 32768 {
        v - 65536
    } else {
        v
    }
}

/// The two's complement reading of a 32-bit pattern.
pub open spec fn signed32(v: int) -> int {
    if v >= 2147483648 {
        v - 4294967296
    } else {
        v
    }
}

/// `byteorder::LittleEndian::read_u16`: the little-endian value of the two bytes.
#[verifier::external_body]
fn le_read_u16(b0: u8, b1: u8) -> (r: u16)
    ensures
        r as int == le16(b0, b1),
{
    <byteorder::LittleEndian as byteorder::ByteOrder>::read_u16(&[b0, b1])
}

/// `byteorder::BigEndian::read_u16`: the big-endian value of the two bytes.
#[verifier::external_body]
fn be_read_u16(b0: u8, b1: u8) -> (r: u16)
    ensures
        r as int == le16(b1, b0),
{
    <byteorder::BigEndian as byteorder::ByteOrder>::read_u16(&[b0, b1])
}

/// `byteorder::LittleEndian::read_i16`: the little-endian two's complement value.
#[verifier::external_body]
fn le_read_i16(b0: u8, b1: u8) -> (r: i16)
    ensures
        r as int == signed16(le16(b0, b1)),
{
    <byteorder::LittleEndian as byteorder::ByteOrder>::read_i16(&[b0, b1])
}

/// `byteorder::BigEndian::read_i16`: the big-endian two's complement value.
#[verifier::external_body]
fn be_read_i16(b0: u8, b1: u8) -> (r: i16)
    ensures
        r as int == signed16(le16(b1, b0)),
{
    <byteorder::BigEndian as byteorder::ByteOrder>::read_i16(&[b0, b1])
}

/// `byteorder::LittleEndian::read_u32`: the little-endian value of the four bytes.
#[verifier::external_body]
fn le_read_u32(b0: u8, b1: u8, b2: u8, b3: u8) -> (r: u32)
    ensures
        r as int == le32(b0, b1, b2, b3),
{
    <byteorder::LittleEndian as byteorder::ByteOrder>::read_u32(&[b0, b1, b2, b3])
}

/// `byteorder::BigEndian::read_u32`: the big-endian value of the four bytes.
#[verifier::external_body]
fn be_read_u32(b0: u8, b1: u8, b2: u8, b3: u8) -> (r: u32)
    ensures
        r as int == le32(b3, b2, b1, b0),
{
    <byteorder::BigEndian as byteorder::ByteOrder>::read_u32(&[b0, b1, b2, b3])
}

/// `byteorder::LittleEndian::read_i32`: the little-endian two's complement value.
#[verifier::external_body]
fn le_read_i32(b0: u8, b1: u8, b2: u8, b3: u8) -> (r: i32)
    ensures
        r as int == signed32(le32(b0, b1, b2, b3)),
{
    <byteorder::LittleEndian as byteorder::ByteOrder>::read_i32(&[b0, b1, b2, b3])
}

/// `byteorder::BigEndian::read_i32`: the big-endian two's complement value.
#[verifier::external_body]
fn be_read_i32(b0: u8, b1: u8, b2: u8, b3: u8) -> (r: i32)
    ensures
        r as int == signed32(le32(b3, b2, b1, b0)),
{
    <byteorder::BigEndian as byteorder::ByteOrder>::read_i32(&[b0, b1, b2, b3])
}

/// `String::from_utf8`: the text the bytes encode, when they are valid UTF-8.
#[verifier::external_body]
fn string_from_utf8(bytes: Vec<u8>) -> (r: Option<String>)
    ensures
        r is Some <==> vstd::utf8::valid_utf8(bytes@),
        r matches Some(s) ==> s@ == vstd::utf8::decode_utf8(bytes@),
{
    String::from_utf8(bytes).ok()
}

/// The value of the 16-bit integer at `p`, in the given order.
pub open spec fn u16_at(b: Seq<u8>, p: int, order: ByteOrder) -> int {
    match order {
        ByteOrder::Little => le16(b[p], b[p + 1]),
        ByteOrder::Big => le16(b[p + 1], b[p]),
    }
}

/// The value of the 32-bit integer at `p`, in the given order.
pub open spec fn u32_at(b: Seq<u8>, p: int, order: ByteOrder) -> int {
    match order {
        ByteOrder::Little => le32(b[p], b[p + 1], b[p + 2], b[p + 3]),
        ByteOrder::Big => le32(b[p + 3], b[p + 2], b[p + 1], b[p]),
    }
}

/* ---------- the reading, as a function of the input ---------- */

/// Where reading stands: the position in the input (which padding may carry
/// past its end), the heap as it has grown, and the fields read so far that
/// `counted_by` may name (newest last; `None` for a field that is not an
/// integer).
pub struct DeState {
    pub pos: nat,
    pub heap: Seq<ValueView>,
    pub read: Seq<(Seq<char>, Option<usize>)>,
}

/// Why reading a value failed.
pub enum DeFault {
    /// The input ended before the value did.
    Eof,
    /// A boolean byte other than 0 or 1.
    InvalidBool,
    /// A string whose bytes are not UTF-8.
    InvalidUtf8,
    /// An array type without a count.
    Uncounted,
    /// A type that has no byte layout (the name of the type).
    Unsupported(Seq<char>),
    /// A struct that is not declared POD.
    NonPod(Seq<char>),
    /// A struct name without a definition.
    UnknownStruct(Seq<char>),
    /// A malformed attribute.
    Attribute,
    /// Structs nested deeper than there are definitions.
    TooDeep,
    /// A position past what a 64-bit offset holds.
    PositionOverflow,
}

/// The error that the runtime reports for a fault.
pub open spec fn fault_is(e: RuntimeError, f: DeFault) -> bool {
    match f {
        DeFault::Eof => e is Io,
        DeFault::InvalidBool => e is SerializationError,
        DeFault::InvalidUtf8 => e is SerializationError,
        DeFault::Uncounted => e is UncountedArray,
        DeFault::Unsupported(n) => e matches RuntimeError::CannotDeserialize(m) && m@ == n,
        DeFault::NonPod(n) => e matches RuntimeError::NonPODType(m) && m@ == n,
        DeFault::UnknownStruct(n) => e matches RuntimeError::StructDefinitionNotFound(m) && m@ == n,
        DeFault::Attribute => e is InvalidAttributeArgumentCount || e is InvalidAttributeArgument
            || e is UnexpectedAttributeArgument,
        DeFault::TooDeep => e is ReferenceCycle,
        DeFault::PositionOverflow => e is ArithmeticOverflow,
    }
}

pub open spec fn at_pos(st: DeState, p: nat) -> DeState {
    DeState { pos: p, heap: st.heap, read: st.read }
}

/// The first NUL byte at or after `start`.
pub open spec fn find_nul(b: Seq<u8>, start: int) -> Option<int>
    decreases b.len() - start,
{
    if start < 0 || start >= b.len() {
        None
    } else if b[start] == 0 {
        Some(start)
    } else {
        find_nul(b, start + 1)
    }
}

/// A fixed-width read of `n` bytes: the value that `f` makes of the position,
/// or the end of the input when too few bytes are left.
pub open spec fn fixed_read(b: Seq<u8>, st: DeState, n: nat, v: ValueView) -> (DeState, Result<ValueView, DeFault>) {
    if st.pos + n <= b.len() {
        (at_pos(st, st.pos + n), Ok(v))
    } else {
        (at_pos(st, b.len()), Err(DeFault::Eof))
    }
}

/// The value that an integer field offers to `counted_by`: the integer
/// converted to `usize` as a cast does.
pub open spec fn count_of(v: ValueView) -> Option<usize> {
    match v {
        ValueView::S8(x) => Some(x as usize),
        ValueView::U8(x) => Some(x as usize),
        ValueView::S16(x) => Some(x as usize),
        ValueView::U16(x) => Some(x as usize),
        ValueView::S32(x) => Some(x as usize),
        ValueView::U32(x) => Some(x as usize),
        ValueView::Usize(x) => Some(x),
        _ => None,
    }
}

/// The newest field of the given name read so far.
pub open spec fn read_field(read: Seq<(Seq<char>, Option<usize>)>, name: Seq<char>) -> Option<Option<usize>>
    decreases read.len(),
{
    if read.len() == 0 {
        None
    } else if read.last().0 == name {
        Some(read.last().1)
    } else {
        read_field(read.drop_last(), name)
    }
}

/// The count of an integer literal, converted to `usize` as a cast does.
pub open spec fn literal_count(v: Value) -> Option<usize> {
    match v {
        Value::S8(x) => Some(x as usize),
        Value::U8(x) => Some(x as usize),
        Value::S16(x) => Some(x as usize),
        Value::U16(x) => Some(x as usize),
        Value::S32(x) => Some(x as usize),
        Value::U32(x) => Some(x as usize),
        Value::Usize(x) => Some(x),
        _ => None,
    }
}

/// The element count that `#[counted_by(..)]` gives an array field: an
/// integer field read before it (by name), or an integer literal. `None`
/// when the field has no such attribute or it names nothing usable.
pub open spec fn counted(f: StructFieldDefinition, read: Seq<(Seq<char>, Option<usize>)>) -> Option<usize> {
    match find_attr(f.attributes@, "counted_by"@) {
        None => None,
        Some(a) => if a.arguments@.len() != 1 {
            None
        } else {
            match a.arguments@[0] {
                Expression::Value(Value::Identifier(id)) => match read_field(read, id@) {
                    Some(Some(n)) => Some(n),
                    _ => None,
                },
                Expression::Value(v) => literal_count(v),
                _ => None,
            }
        },
    }
}

/// The type a field is read as, and whether it is remembered for
/// `counted_by`: strings as strings, arrays with a usable `counted_by` with
/// that count, anything else as declared (and remembered). `None` when a
/// string field's `serialize_as` is malformed.
pub open spec fn field_read_type(f: StructFieldDefinition, read: Seq<(Seq<char>, Option<usize>)>) -> Option<(DType, bool)> {
    match f.data_type@ {
        DType::String => match spec_string_serialization(f) {
            None => None,
            Some(_) => Some((DType::String, false)),
        },
        DType::Array { inner_data_type, count } => match counted(f, read) {
            Some(n) => Some((DType::Array { inner_data_type, count: Some(n) }, false)),
            None => Some((f.data_type@, true)),
        },
        _ => Some((f.data_type@, true)),
    }
}

/// Reads a value of type `dt` at the state's position: integers in their
/// width and the given byte order, booleans as one byte (0 or 1), strings up
/// to a NUL, arrays element by element (an element that fails is left out and
/// reading goes on), POD structs member by member in their own byte order.
/// Gives the state after reading (also after a failure) and the value or the
/// fault. `fuel` bounds the nesting of structs.
pub open spec fn de(
    defs: Seq<StructDefinition>,
    b: Seq<u8>,
    dt: DType,
    order: ByteOrder,
    st: DeState,
    fuel: nat,
) -> (DeState, Result<ValueView, DeFault>)
    decreases fuel, 1nat, dt, 0nat,
{
    let p = st.pos as int;
    match dt {
        DType::S8 => fixed_read(b, st, 1, ValueView::S8(b[p] as i8)),
        DType::U8 => fixed_read(b, st, 1, ValueView::U8(b[p])),
        DType::S16 => fixed_read(b, st, 2, ValueView::S16(signed16(u16_at(b, p, order)) as i16)),
        DType::U16 => fixed_read(b, st, 2, ValueView::U16(u16_at(b, p, order) as u16)),
        DType::S32 => fixed_read(b, st, 4, ValueView::S32(signed32(u32_at(b, p, order)) as i32)),
        DType::U32 => fixed_read(b, st, 4, ValueView::U32(u32_at(b, p, order) as u32)),
        DType::Bool => if st.pos + 1 <= b.len() {
            let st1 = at_pos(st, st.pos + 1);
            if b[p] == 0 {
                (st1, Ok(ValueView::Bool(false)))
            } else if b[p] == 1 {
                (st1, Ok(ValueView::Bool(true)))
            } else {
                (st1, Err(DeFault::InvalidBool))
            }
        } else {
            (at_pos(st, b.len()), Err(DeFault::Eof))
        },
        DType::String => match find_nul(b, p) {
            None => (at_pos(st, b.len()), Err(DeFault::Eof)),
            Some(j) => {
                let raw = b.subrange(p, j);
                let st1 = at_pos(st, (j + 1) as nat);
                if vstd::utf8::valid_utf8(raw) {
                    (st1, Ok(ValueView::String(vstd::utf8::decode_utf8(raw))))
                } else {
                    (st1, Err(DeFault::InvalidUtf8))
                }
            },
        },
        DType::Array { inner_data_type, count } => match count {
            None => (st, Err(DeFault::Uncounted)),
            Some(c) => {
                let (st1, cells) = de_array(defs, b, *inner_data_type, order, st, fuel, c as nat, Seq::empty());
                (st1, Ok(ValueView::Array { inner_data_type: *inner_data_type, contents: cells }))
            },
        },
        DType::Reference(_) => (st, Err(DeFault::Unsupported("reference"@))),
        DType::Iterator(_) => (st, Err(DeFault::Unsupported("iterator"@))),
        DType::UserDefined(name) => if fuel == 0 {
            (st, Err(DeFault::TooDeep))
        } else {
            match struct_def(defs, name) {
                None => (st, Err(DeFault::UnknownStruct(name))),
                Some(d) => if !declared_pod(d) {
                    (st, Err(DeFault::NonPod(name)))
                } else {
                    match spec_byte_order(d) {
                        None => (st, Err(DeFault::Attribute)),
                        Some(o) => {
                            let (st1, r) = de_members(defs, b, d.members@, o, st, Seq::empty(), (fuel - 1) as nat, 0);
                            match r {
                                Ok(fields) => (st1, Ok(ValueView::Struct { definition: name, fields })),
                                Err(e) => (st1, Err(e)),
                            }
                        },
                    }
                },
            }
        },
        _ => (st, Err(DeFault::Unsupported(dt_name(dt)))),
    }
}

/// Reads `remaining` more elements of type `inner`, each into a new cell;
/// an element that fails is left out.
pub open spec fn de_array(
    defs: Seq<StructDefinition>,
    b: Seq<u8>,
    inner: DType,
    order: ByteOrder,
    st: DeState,
    fuel: nat,
    remaining: nat,
    cells: Seq<usize>,
) -> (DeState, Seq<usize>)
    decreases fuel, 1nat, inner, remaining,
{
    if remaining == 0 {
        (st, cells)
    } else {
        let (st1, r) = de(defs, b, inner, order, st, fuel);
        match r {
            Ok(v) => de_array(
                defs,
                b,
                inner,
                order,
                DeState { pos: st1.pos, heap: st1.heap.push(v), read: st1.read },
                fuel,
                (remaining - 1) as nat,
                cells.push(st1.heap.len() as usize),
            ),
            Err(_) => de_array(defs, b, inner, order, st1, fuel, (remaining - 1) as nat, cells),
        }
    }
}

/// Reads the members `members[i..]` of a struct: padding skips bytes, a
/// field first skips to its alignment and is then read into a new cell.
pub open spec fn de_members(
    defs: Seq<StructDefinition>,
    b: Seq<u8>,
    members: Seq<StructMember>,
    order: ByteOrder,
    st: DeState,
    fields: Seq<(Seq<char>, usize)>,
    fuel: nat,
    i: int,
) -> (DeState, Result<Seq<(Seq<char>, usize)>, DeFault>)
    decreases fuel, 2nat, DType::Bool, members.len() - i,
{
    if i < 0 || i >= members.len() {
        (st, Ok(fields))
    } else {
        match members[i] {
            StructMember::Padding(n) => if st.pos + n > u64::MAX {
                (st, Err(DeFault::PositionOverflow))
            } else {
                de_members(defs, b, members, order, at_pos(st, (st.pos + n) as nat), fields, fuel, i + 1)
            },
            StructMember::Field(f) => match spec_alignment(f) {
                None => (st, Err(DeFault::Attribute)),
                Some(al) => {
                    let p = st.pos + pad_len(st.pos, al);
                    if p > u64::MAX {
                        (st, Err(DeFault::PositionOverflow))
                    } else {
                        let st0 = at_pos(st, p);
                        match field_read_type(f, st0.read) {
                            None => (st0, Err(DeFault::Attribute)),
                            Some((t, keep)) => {
                                let (st1, r) = de(defs, b, t, order, st0, fuel);
                                match r {
                                    Err(e) => (st1, Err(e)),
                                    Ok(v) => {
                                        let read = if keep {
                                            st1.read.push((f.identifier@, count_of(v)))
                                        } else {
                                            st1.read
                                        };
                                        let st2 = DeState { pos: st1.pos, heap: st1.heap.push(v), read };
                                        de_members(
                                            defs,
                                            b,
                                            members,
                                            order,
                                            st2,
                                            fields.push((f.identifier@, st1.heap.len() as usize)),
                                            fuel,
                                            i + 1,
                                        )
                                    },
                                }
                            },
                        }
                    }
                },
            },
        }
    }
}

/* ---------- the reading, as code ---------- */

/// The fields remembered for `counted_by`, with names as characters.
pub open spec fn read_view(read: Seq<(String, Option<usize>)>) -> Seq<(Seq<char>, Option<usize>)> {
    read.map_values(|p: (String, Option<usize>)| (p.0@, p.1))
}

pub proof fn lemma_read_view_push(s: Seq<(String, Option<usize>)>, x: (String, Option<usize>))
    ensures
        read_view(s.push(x)) == read_view(s).push((x.0@, x.1)),
{
    let a = read_view(s.push(x));
    let b = read_view(s).push((x.0@, x.1));
    assert forall|j: int| 0 <= j < a.len() implies a[j] == b[j] by {
        if j < s.len() {
            assert(s.push(x)[j] == s[j]);
        }
    }
    assert(a =~= b);
}

/// The state that the position, the heap and the remembered fields make up.
pub open spec fn state_of(pos: u64, heap: Seq<ValueView>, read: Seq<(String, Option<usize>)>) -> DeState {
    DeState { pos: pos as nat, heap, read: read_view(read) }
}

/// The newest remembered field with the given name.
fn find_read_field(read: &Vec<(String, Option<usize>)>, name: &str) -> (r: Option<Option<usize>>)
    ensures
        r == read_field(read_view(read@), name@),
{
    let ghost rv = read_view(read@);
    let mut i = read.len();
    assert(rv.take(i as int) == rv);
    while i > 0
        invariant
            i <= read@.len(),
            rv == read_view(read@),
            rv.len() == read@.len(),
            read_field(rv, name@) == read_field(rv.take(i as int), name@),
        decreases i,
    {
        assert(rv.take(i as int).drop_last() == rv.take(i - 1));
        assert(rv[i - 1] == (read@[i - 1].0@, read@[i - 1].1));
        if str_eq(read[i - 1].0.as_str(), name) {
            return Some(read[i - 1].1);
        }
        i = i - 1;
    }
    None
}

/// The value an integer offers to `counted_by`.
fn count_value(v: &RuntimeValue) -> (r: Option<usize>)
    ensures
        r == count_of(v@),
{
    match v {
        RuntimeValue::S8(x) => Some(*x as usize),
        RuntimeValue::U8(x) => Some(*x as usize),
        RuntimeValue::S16(x) => Some(*x as usize),
        RuntimeValue::U16(x) => Some(*x as usize),
        RuntimeValue::S32(x) => Some(*x as usize),
        RuntimeValue::U32(x) => Some(*x as usize),
        RuntimeValue::Usize(x) => Some(*x),
        _ => None,
    }
}

/// The error that a `counted_by` attribute that gives no count reports.
pub open spec fn counted_error(f: StructFieldDefinition, read: Seq<(Seq<char>, Option<usize>)>, e: RuntimeError) -> bool {
    match find_attr(f.attributes@, "counted_by"@) {
        None => e matches RuntimeError::AttributeNotFound(n) && n@ == "counted_by"@,
        Some(a) => if a.arguments@.len() != 1 {
            e is InvalidAttributeArgumentCount
        } else {
            match a.arguments@[0] {
                Expression::Value(Value::Identifier(id)) => e matches RuntimeError::CountedByFail(n) && n@ == id@,
                _ => e is InvalidAttributeArgument,
            }
        },
    }
}

/// The end of the input, as the error the runtime reports for it.
fn eof_error() -> (e: RuntimeError)
    ensures
        fault_is(e, DeFault::Eof),
{
    RuntimeError::Io(string_of("failed to fill whole buffer"))
}

fn overflow_error() -> (e: RuntimeError)
    ensures
        fault_is(e, DeFault::PositionOverflow),
{
    RuntimeError::ArithmeticOverflow(string_of("position in the input"))
}

/// Where `n` more bytes can be read at `pos`: the position, as an index.
fn available(bytes: &[u8], pos: u64, n: usize) -> (r: Option<usize>)
    ensures
        r is Some <==> pos + n <= bytes@.len(),
        r matches Some(p) ==> p == pos && p + n <= bytes.len(),
{
    let len = bytes.len();
    let len64 = len as u64;
    proof {
        assert(len64 == len) by (bit_vector)
            requires
                len64 == len as u64,
        ;
        assert(pos <= len64 ==> (pos as usize) == pos) by (bit_vector)
            requires
                len64 == len as u64,
        ;
    }
    if pos <= len64 {
        let p = pos as usize;
        if len - p >= n {
            return Some(p);
        }
    }
    None
}

impl StructFieldDefinition {
    /// The element count that `#[counted_by(..)]` gives this array field,
    /// from the fields read so far or from an integer literal.
    pub fn find_element_count_for_counted_array(&self, read: &Vec<(String, Option<usize>)>) -> (r: RuntimeResult<usize>)
        ensures
            r is Ok <==> counted(*self, read_view(read@)) is Some,
            r matches Ok(n) ==> n == counted(*self, read_view(read@))->Some_0,
            r matches Err(e) ==> counted_error(*self, read_view(read@), e),
    {
        let attribute = match crate::serialization::find_attribute(&self.attributes, "counted_by") {
            Some(a) => a,
            None => {
                return Err(RuntimeError::AttributeNotFound(string_of("counted_by")));
            },
        };
        attribute.assert_argument_count(1)?;
        match &attribute.arguments[0] {
            Expression::Value(Value::Identifier(ident)) => match find_read_field(read, ident.as_str()) {
                Some(Some(n)) => Ok(n),
                _ => Err(RuntimeError::CountedByFail(ident.clone())),
            },
            Expression::Value(value) => {
                let n: Option<usize> = match value {
                    Value::S8(x) => Some(*x as usize),
                    Value::U8(x) => Some(*x as usize),
                    Value::S16(x) => Some(*x as usize),
                    Value::U16(x) => Some(*x as usize),
                    Value::S32(x) => Some(*x as usize),
                    Value::U32(x) => Some(*x as usize),
                    Value::Usize(x) => Some(*x),
                    _ => None,
                };
                match n {
                    Some(n) => Ok(n),
                    None => Err(
                        RuntimeError::InvalidAttributeArgument {
                            attribute: string_of("counted_by"),
                            expected: string_of("positive integer"),
                            found: string_of("a literal that is not an integer"),
                        },
                    ),
                }
            },
            _ => Err(
                RuntimeError::InvalidAttributeArgument {
                    attribute: string_of("counted_by"),
                    expected: string_of("positive integer"),
                    found: string_of("an expression that is not a literal"),
                },
            ),
        }
    }
}

/// The number of type constructors in a data type.
pub open spec fn dt_size(d: DataType) -> nat
    decreases d,
{
    match d {
        DataType::Reference(x) => 1 + dt_size(*x),
        DataType::Iterator(x) => 1 + dt_size(*x),
        DataType::Array { inner_data_type, .. } => 1 + dt_size(*inner_data_type),
        _ => 1,
    }
}

/// What reading a value of type `dt` from `bytes` does, as `de` says: the
/// position, heap and remembered fields after it, and the value or the error.
pub open spec fn de_done(
    defs: Seq<StructDefinition>,
    bytes: Seq<u8>,
    dt: DType,
    order: ByteOrder,
    before: DeState,
    fuel: nat,
    after: DeState,
    r: RuntimeResult<RuntimeValue>,
) -> bool {
    let (st, res) = de(defs, bytes, dt, order, before, fuel);
    &&& after == st
    &&& (r is Ok <==> res is Ok)
    &&& (r matches Ok(v) ==> v@ == res->Ok_0)
    &&& (r matches Err(e) ==> fault_is(e, res->Err_0))
}

/// Reads an integer or a boolean.
fn read_scalar(data_type: &DataType, byte_order: ByteOrder, bytes: &[u8], pos: &mut u64) -> (r: RuntimeResult<RuntimeValue>)
    requires
        data_type@ is S8 || data_type@ is U8 || data_type@ is Bool || data_type@ is S16 || data_type@ is U16
            || data_type@ is S32 || data_type@ is U32,
    ensures
        forall|defs: Seq<StructDefinition>, h: Seq<ValueView>, rd: Seq<(Seq<char>, Option<usize>)>, fuel: nat|
            de_done(defs, bytes@, data_type@, byte_order, DeState { pos: *old(pos) as nat, heap: h, read: rd }, fuel,
                DeState { pos: *final(pos) as nat, heap: h, read: rd }, r),
        r matches Ok(v) ==> value_addrs_below(v@, 0),
{
    let width: usize = match data_type {
        DataType::S16 | DataType::U16 => 2,
        DataType::S32 | DataType::U32 => 4,
        _ => 1,
    };
    let p = match available(bytes, *pos, width) {
        Some(p) => p,
        None => {
            *pos = bytes.len() as u64;
            return Err(eof_error());
        },
    };
    let next = p + width;
    *pos = next as u64;
    match data_type {
        DataType::S8 => Ok(RuntimeValue::S8(bytes[p] as i8)),
        DataType::U8 => Ok(RuntimeValue::U8(bytes[p])),
        DataType::S16 => Ok(RuntimeValue::S16(match byte_order {
            ByteOrder::Little => le_read_i16(bytes[p], bytes[p + 1]),
            ByteOrder::Big => be_read_i16(bytes[p], bytes[p + 1]),
        })),
        DataType::U16 => Ok(RuntimeValue::U16(match byte_order {
            ByteOrder::Little => le_read_u16(bytes[p], bytes[p + 1]),
            ByteOrder::Big => be_read_u16(bytes[p], bytes[p + 1]),
        })),
        DataType::S32 => Ok(RuntimeValue::S32(match byte_order {
            ByteOrder::Little => le_read_i32(bytes[p], bytes[p + 1], bytes[p + 2], bytes[p + 3]),
            ByteOrder::Big => be_read_i32(bytes[p], bytes[p + 1], bytes[p + 2], bytes[p + 3]),
        })),
        DataType::U32 => Ok(RuntimeValue::U32(match byte_order {
            ByteOrder::Little => le_read_u32(bytes[p], bytes[p + 1], bytes[p + 2], bytes[p + 3]),
            ByteOrder::Big => be_read_u32(bytes[p], bytes[p + 1], bytes[p + 2], bytes[p + 3]),
        })),
        _ => {
            let b = bytes[p];
            if b == 0 {
                Ok(RuntimeValue::Bool(false))
            } else if b == 1 {
                Ok(RuntimeValue::Bool(true))
            } else {
                let mut message = string_of("expected bool, found a value of 0x");
                if b < 10 {
                    message.append("0");
                }
                let digits = usize_to_decimal(b as usize);
                message.append(digits.as_str());
                Err(RuntimeError::SerializationError(message))
            }
        },
    }
}

/// Reads a NUL-terminated UTF-8 string.
fn read_string(bytes: &[u8], pos: &mut u64) -> (r: RuntimeResult<RuntimeValue>)
    ensures
        forall|defs: Seq<StructDefinition>, order: ByteOrder, h: Seq<ValueView>, rd: Seq<(Seq<char>, Option<usize>)>, fuel: nat|
            de_done(defs, bytes@, DType::String, order, DeState { pos: *old(pos) as nat, heap: h, read: rd }, fuel,
                DeState { pos: *final(pos) as nat, heap: h, read: rd }, r),
        r matches Ok(v) ==> value_addrs_below(v@, 0),
{
    if *pos >= bytes.len() as u64 {
        *pos = bytes.len() as u64;
        return Err(eof_error());
    }
    let start = *pos as usize;
    let mut j: usize = start;
    let mut raw: Vec<u8> = Vec::new();
    while j < bytes.len() && bytes[j] != 0
        invariant
            start <= j <= bytes@.len(),
            raw@ == bytes@.subrange(start as int, j as int),
            find_nul(bytes@, start as int) == find_nul(bytes@, j as int),
        decreases bytes@.len() - j,
    {
        raw.push(bytes[j]);
        j = j + 1;
        assert(raw@ =~= bytes@.subrange(start as int, j as int));
    }
    if j >= bytes.len() {
        *pos = bytes.len() as u64;
        return Err(eof_error());
    }
    *pos = (j as u64) + 1;
    match string_from_utf8(raw) {
        Some(s) => Ok(RuntimeValue::String(s)),
        None => Err(RuntimeError::SerializationError(string_of("Invalid UTF-8"))),
    }
}

/// Reads a value of the given type from `bytes` at `*pos` into `heap`, as
/// `de` says.
fn deserialize_value(
    structs: &Vec<StructDefinition>,
    heap: &mut Heap,
    data_type: &DataType,
    byte_order: ByteOrder,
    bytes: &[u8],
    pos: &mut u64,
    read: &mut Vec<(String, Option<usize>)>,
    fuel: usize,
) -> (r: RuntimeResult<RuntimeValue>)
    requires
        old(heap).wf(),
    ensures
        de_done(structs@, bytes@, data_type@, byte_order, state_of(*old(pos), old(heap)@, old(read)@), fuel as nat,
            state_of(*final(pos), final(heap)@, final(read)@), r),
        final(heap).wf(),
        old(heap)@.len() <= final(heap)@.len(),
        r matches Ok(v) ==> value_addrs_below(v@, final(heap)@.len()),
    decreases fuel, dt_size(*data_type), 2nat,
{
    proof {
        reveal_strlit("reference");
        reveal_strlit("iterator");
    }
    match data_type {
        DataType::S8 | DataType::U8 | DataType::Bool | DataType::S16 | DataType::U16 | DataType::S32 | DataType::U32 => {
            let r = read_scalar(data_type, byte_order, bytes, pos);
            r
        },
        DataType::String => read_string(bytes, pos),
        DataType::Array { count: None, .. } => Err(RuntimeError::UncountedArray),
        DataType::Array { .. } => read_array(structs, heap, data_type, byte_order, bytes, pos, read, fuel),
        DataType::Reference(_) => Err(RuntimeError::CannotDeserialize(string_of("reference"))),
        DataType::Iterator(_) => Err(RuntimeError::CannotDeserialize(string_of("iterator"))),
        DataType::UserDefined(_) => {
            if fuel == 0 {
                return Err(RuntimeError::ReferenceCycle);
            }
            read_struct(structs, heap, data_type, byte_order, bytes, pos, read, fuel)
        },
        _ => Err(RuntimeError::CannotDeserialize(data_type.name())),
    }
}

/// Reads the elements of a counted array, each into a new cell.
fn read_array(
    structs: &Vec<StructDefinition>,
    heap: &mut Heap,
    data_type: &DataType,
    byte_order: ByteOrder,
    bytes: &[u8],
    pos: &mut u64,
    read: &mut Vec<(String, Option<usize>)>,
    fuel: usize,
) -> (r: RuntimeResult<RuntimeValue>)
    requires
        old(heap).wf(),
        data_type@ matches DType::Array { count: Some(_), .. },
    ensures
        de_done(structs@, bytes@, data_type@, byte_order, state_of(*old(pos), old(heap)@, old(read)@), fuel as nat,
            state_of(*final(pos), final(heap)@, final(read)@), r),
        final(heap).wf(),
        old(heap)@.len() <= final(heap)@.len(),
        r matches Ok(v) ==> value_addrs_below(v@, final(heap)@.len()),
    decreases fuel, dt_size(*data_type), 1nat,
{
    let ghost st0 = state_of(*pos, heap@, read@);
    let (inner, c) = match data_type {
        DataType::Array { inner_data_type, count: Some(c) } => (inner_data_type, *c),
        _ => {
            assert(false);
            return Err(RuntimeError::UncountedArray);
        },
    };
    let mut cells: Vec<usize> = Vec::new();
    let mut k: usize = 0;
    while k < c
        invariant
            k <= c,
            heap.wf(),
            dt_size(**inner) < dt_size(*data_type),
            old(heap)@.len() <= heap@.len(),
            forall|x: int| 0 <= x < cells@.len() ==> #[trigger] cells@[x] < heap@.len(),
            de_array(structs@, bytes@, inner@, byte_order, st0, fuel as nat, c as nat, Seq::empty())
                == de_array(structs@, bytes@, inner@, byte_order, state_of(*pos, heap@, read@), fuel as nat, (c - k) as nat, cells@),
        decreases c - k,
    {
        let r = deserialize_value(structs, heap, inner, byte_order, bytes, pos, read, fuel);
        match r {
            Ok(v) => {
                let a = heap.allocate(v);
                cells.push(a);
            },
            Err(_) => {},
        }
        k = k + 1;
    }
    Ok(RuntimeValue::Array { inner_data_type: clone_data_type(inner), contents: cells })
}

/// What reading member `i` of a struct does, as `de_members` says: either
/// reading goes on with the next member, or it stops with the fault.
pub open spec fn member_done(
    defs: Seq<StructDefinition>,
    bytes: Seq<u8>,
    members: Seq<StructMember>,
    order: ByteOrder,
    before: DeState,
    fields_before: Seq<(Seq<char>, usize)>,
    fuel: nat,
    i: int,
    after: DeState,
    fields_after: Seq<(Seq<char>, usize)>,
    r: RuntimeResult<()>,
) -> bool {
    match r {
        Ok(_) => de_members(defs, bytes, members, order, before, fields_before, fuel, i)
            == de_members(defs, bytes, members, order, after, fields_after, fuel, i + 1),
        Err(e) => {
            let (st, res) = de_members(defs, bytes, members, order, before, fields_before, fuel, i);
            &&& st == after
            &&& res is Err
            &&& fault_is(e, res->Err_0)
        },
    }
}

/// Reads one member of a struct: skips padding, or skips to a field's
/// alignment and reads the field into a new cell.
fn read_member(
    structs: &Vec<StructDefinition>,
    heap: &mut Heap,
    members: &Vec<StructMember>,
    i: usize,
    order: ByteOrder,
    bytes: &[u8],
    pos: &mut u64,
    read: &mut Vec<(String, Option<usize>)>,
    fields: &mut Vec<(String, usize)>,
    fuel: usize,
) -> (r: RuntimeResult<()>)
    requires
        old(heap).wf(),
        i < members@.len(),
        forall|x: int| 0 <= x < old(fields)@.len() ==> #[trigger] old(fields)@[x].1 < old(heap)@.len(),
    ensures
        member_done(structs@, bytes@, members@, order, state_of(*old(pos), old(heap)@, old(read)@), fields_view(old(fields)@),
            fuel as nat, i as int, state_of(*final(pos), final(heap)@, final(read)@), fields_view(final(fields)@), r),
        final(heap).wf(),
        old(heap)@.len() <= final(heap)@.len(),
        forall|x: int| 0 <= x < final(fields)@.len() ==> #[trigger] final(fields)@[x].1 < final(heap)@.len(),
    decreases fuel + 1, 0nat, 0nat,
{
    match &members[i] {
        StructMember::Padding(n) => {
            let n64 = *n as u64;
            if *pos > u64::MAX - n64 {
                return Err(overflow_error());
            }
            *pos = *pos + n64;
            Ok(())
        },
        StructMember::Field(field) => {
            let alignment = field.alignment()?;
            if let Some(a) = alignment {
                let a64 = a as u64;
                let remainder = *pos % a64;
                if remainder != 0 {
                    let skip = a64 - remainder;
                    if *pos > u64::MAX - skip {
                        return Err(overflow_error());
                    }
                    *pos = *pos + skip;
                }
            }
            let (read_type, keep): (DataType, bool) = match &field.data_type {
                DataType::String => {
                    let _ = field.string_serialization()?;
                    (DataType::String, false)
                },
                DataType::Array { inner_data_type, .. } => {
                    match field.find_element_count_for_counted_array(read) {
                        Ok(n) => (DataType::Array { inner_data_type: Box::new(clone_data_type(inner_data_type)), count: Some(n) }, false),
                        Err(_) => (clone_data_type(&field.data_type), true),
                    }
                },
                _ => (clone_data_type(&field.data_type), true),
            };
            let value = deserialize_value(structs, heap, &read_type, order, bytes, pos, read, fuel)?;
            if keep {
                let ghost prev = read@;
                let c = count_value(&value);
                read.push((field.identifier.clone(), c));
                proof {
                    lemma_read_view_push(prev, (field.identifier, c));
                }
            }
            let ghost prev_fields = fields@;
            let a = heap.allocate(value);
            fields.push((field.identifier.clone(), a));
            proof {
                lemma_fields_view_push(prev_fields, (field.identifier, a));
            }
            Ok(())
        },
    }
}

/// Reads a POD struct member by member.
fn read_struct(
    structs: &Vec<StructDefinition>,
    heap: &mut Heap,
    data_type: &DataType,
    byte_order: ByteOrder,
    bytes: &[u8],
    pos: &mut u64,
    read: &mut Vec<(String, Option<usize>)>,
    fuel: usize,
) -> (r: RuntimeResult<RuntimeValue>)
    requires
        old(heap).wf(),
        data_type@ is UserDefined,
        fuel > 0,
    ensures
        de_done(structs@, bytes@, data_type@, byte_order, state_of(*old(pos), old(heap)@, old(read)@), fuel as nat,
            state_of(*final(pos), final(heap)@, final(read)@), r),
        final(heap).wf(),
        old(heap)@.len() <= final(heap)@.len(),
        r matches Ok(v) ==> value_addrs_below(v@, final(heap)@.len()),
    decreases fuel, dt_size(*data_type), 1nat,
{
    let ghost st0 = state_of(*pos, heap@, read@);
    let identifier = match data_type {
        DataType::UserDefined(identifier) => identifier,
        _ => {
            assert(false);
            return Err(RuntimeError::ReferenceCycle);
        },
    };
    let definition = find_struct(structs, identifier.as_str())?;
    if !definition.is_declared_pod() {
        return Err(RuntimeError::NonPODType(identifier.clone()));
    }
    let order = definition.byte_order()?;
    proof {
    }
    let mut fields: Vec<(String, usize)> = Vec::new();
    assert(fields_view(fields@) =~= Seq::<(Seq<char>, usize)>::empty());
    assert(de(structs@, bytes@, data_type@, byte_order, st0, fuel as nat) == {
        let (s1, r1) = de_members(structs@, bytes@, definition.members@, order, st0, Seq::empty(), (fuel - 1) as nat, 0);
        match r1 {
            Ok(fl) => (s1, Ok(ValueView::Struct { definition: identifier@, fields: fl })),
            Err(e) => (s1, Err::<ValueView, DeFault>(e)),
        }
    });
    let mut i: usize = 0;
    while i < definition.members.len()
        invariant
            i <= definition.members@.len(),
            heap.wf(),
            fuel > 0,
            old(heap)@.len() <= heap@.len(),
            forall|x: int| 0 <= x < fields@.len() ==> #[trigger] fields@[x].1 < heap@.len(),
            de_members(structs@, bytes@, definition.members@, order, st0, Seq::empty(), (fuel - 1) as nat, 0)
                == de_members(structs@, bytes@, definition.members@, order, state_of(*pos, heap@, read@), fields_view(fields@), (fuel - 1) as nat, i as int),
            st0 == state_of(*old(pos), old(heap)@, old(read)@),
            de(structs@, bytes@, data_type@, byte_order, st0, fuel as nat) == {
                let (s1, r1) = de_members(structs@, bytes@, definition.members@, order, st0, Seq::empty(), (fuel - 1) as nat, 0);
                match r1 {
                    Ok(fl) => (s1, Ok(ValueView::Struct { definition: identifier@, fields: fl })),
                    Err(e) => (s1, Err::<ValueView, DeFault>(e)),
                }
            },
        decreases definition.members@.len() - i,
    {
        match read_member(structs, heap, &definition.members, i, order, bytes, pos, read, &mut fields, fuel - 1) {
            Ok(_) => {},
            Err(e) => {
                return Err(e);
            },
        }
        i = i + 1;
    }
    Ok(RuntimeValue::Struct { definition: identifier.clone(), fields })
}

impl Runtime {
    /// Reads a value of the given type from the bytes, in the runtime's byte
    /// order; the cells of arrays and structs are added to the heap.
    pub fn deserialize(&mut self, data_type: &DataType, bytes: &[u8]) -> (r: RuntimeResult<RuntimeValue>)
        requires
            old(self).heap.wf(),
        ensures
            ({
                let (st, res) = de(
                    old(self).structs@,
                    bytes@,
                    data_type@,
                    old(self).byte_order,
                    DeState { pos: 0, heap: old(self).heap@, read: Seq::empty() },
                    usize::MAX as nat,
                );
                &&& final(self).heap@ == st.heap
                &&& (r is Ok <==> res is Ok)
                &&& (r matches Ok(v) ==> v@ == res->Ok_0)
                &&& (r matches Err(e) ==> fault_is(e, res->Err_0))
            }),
            final(self).heap.wf(),
            r matches Ok(v) ==> value_addrs_below(v@, final(self).heap@.len()),
            *final(self) == (Runtime { heap: final(self).heap, ..*old(self) }),
            old(self).heap@.len() <= final(self).heap@.len(),
    {
        let fuel = usize::MAX;
        let mut pos: u64 = 0;
        let mut read: Vec<(String, Option<usize>)> = Vec::new();
        assert(read_view(read@) =~= Seq::<(Seq<char>, Option<usize>)>::empty());
        deserialize_value(&self.structs, &mut self.heap, data_type, self.byte_order, bytes, &mut pos, &mut read, fuel)
    }
}

} // verus!
