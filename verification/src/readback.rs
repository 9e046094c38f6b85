//! Reading back what was written: the bytes that serialization writes for a
//! POD value, read as the value's type, give back a value with the same
//! contents.
use vstd::prelude::*;

use crate::ast::{DType, StructDefinition, StructFieldDefinition, StructMember};
use crate::deserialization::{DeState, count_of, de, de_array, de_members, field_read_type};
use crate::runtime::struct_def;
use crate::serialization::{
    ByteOrder, field_cell, ser, ser_field, ser_items, ser_members, spec_string_serialization,
};
use crate::value::ValueView;
use crate::values::heap_grows;

verus! {

/// The contents of a POD value, with the cells it refers to resolved: what a
/// script can observe of it. A struct's contents are its fields' values in
/// the order of its definition.
pub enum Pod {
    S8(i8),
    U8(u8),
    S16(i16),
    U16(u16),
    S32(i32),
    U32(u32),
    Bool(bool),
    Str(Seq<char>),
    Array(DType, Seq<Pod>),
    Struct(Seq<char>, Seq<Pod>),
}

/// The contents of a value in a heap; `None` where a cell it refers to is
/// missing, where it holds something without a byte layout, or where its
/// nesting goes past `fuel`.
pub open spec fn pod_of(defs: Seq<StructDefinition>, h: Seq<ValueView>, v: ValueView, fuel: nat) -> Option<Pod>
    decreases fuel, 0nat, 0nat,
{
    match v {
        ValueView::S8(x) => Some(Pod::S8(x)),
        ValueView::U8(x) => Some(Pod::U8(x)),
        ValueView::S16(x) => Some(Pod::S16(x)),
        ValueView::U16(x) => Some(Pod::U16(x)),
        ValueView::S32(x) => Some(Pod::S32(x)),
        ValueView::U32(x) => Some(Pod::U32(x)),
        ValueView::Bool(b) => Some(Pod::Bool(b)),
        ValueView::String(s) => Some(Pod::Str(s)),
        ValueView::Array { inner_data_type, contents } => if fuel == 0 {
            None
        } else {
            match pods_items(defs, h, contents, (fuel - 1) as nat, 0) {
                Some(ps) => Some(Pod::Array(inner_data_type, ps)),
                None => None,
            }
        },
        ValueView::Struct { definition, fields } => if fuel == 0 {
            None
        } else {
            match struct_def(defs, definition) {
                None => None,
                Some(d) => match pods_members(defs, h, d.members@, fields, (fuel - 1) as nat, 0) {
                    Some(ps) => Some(Pod::Struct(definition, ps)),
                    None => None,
                },
            }
        },
        _ => None,
    }
}

/// The contents of the values in the cells `items[i..]`.
pub open spec fn pods_items(defs: Seq<StructDefinition>, h: Seq<ValueView>, items: Seq<usize>, fuel: nat, i: int) -> Option<
    Seq<Pod>,
>
    decreases fuel, 1nat, items.len() - i,
{
    if i < 0 || i >= items.len() {
        Some(Seq::empty())
    } else if items[i] >= h.len() {
        None
    } else {
        match (pod_of(defs, h, h[items[i] as int], fuel), pods_items(defs, h, items, fuel, i + 1)) {
            (Some(p), Some(ps)) => Some(seq![p] + ps),
            _ => None,
        }
    }
}

/// The contents of the fields named by the members `members[i..]` of a
/// struct definition, each the value of the newest field of that name.
pub open spec fn pods_members(
    defs: Seq<StructDefinition>,
    h: Seq<ValueView>,
    members: Seq<StructMember>,
    fields: Seq<(Seq<char>, usize)>,
    fuel: nat,
    i: int,
) -> Option<Seq<Pod>>
    decreases fuel, 1nat, members.len() - i,
{
    if i < 0 || i >= members.len() {
        Some(Seq::empty())
    } else {
        match members[i] {
            StructMember::Padding(_) => pods_members(defs, h, members, fields, fuel, i + 1),
            StructMember::Field(f) => match field_cell(fields, f.identifier@) {
                None => None,
                Some(a) => if a >= h.len() {
                    None
                } else {
                    match (pod_of(defs, h, h[a as int], fuel), pods_members(defs, h, members, fields, fuel, i + 1)) {
                        (Some(p), Some(ps)) => Some(seq![p] + ps),
                        _ => None,
                    }
                },
            },
        }
    }
}

/// No character of the text is NUL.
pub open spec fn no_nul(s: Seq<char>) -> bool {
    forall|k: int| 0 <= k < s.len() ==> #[trigger] s[k] != '\0'
}

/// The number of cells that reading a value back adds to the heap: one for
/// each array element and each struct field, and those of their contents.
pub open spec fn cells_needed(defs: Seq<StructDefinition>, h: Seq<ValueView>, v: ValueView, fuel: nat) -> nat
    decreases fuel, 0nat, 0nat,
{
    match v {
        ValueView::Array { contents, .. } => if fuel == 0 {
            0
        } else {
            cells_items(defs, h, contents, (fuel - 1) as nat, 0)
        },
        ValueView::Struct { definition, fields } => if fuel == 0 {
            0
        } else {
            match struct_def(defs, definition) {
                None => 0,
                Some(d) => cells_members(defs, h, d.members@, fields, (fuel - 1) as nat, 0),
            }
        },
        _ => 0,
    }
}

pub open spec fn cells_items(defs: Seq<StructDefinition>, h: Seq<ValueView>, items: Seq<usize>, fuel: nat, i: int) -> nat
    decreases fuel, 1nat, items.len() - i,
{
    if i < 0 || i >= items.len() || items[i] >= h.len() {
        0
    } else {
        1 + cells_needed(defs, h, h[items[i] as int], fuel) + cells_items(defs, h, items, fuel, i + 1)
    }
}

pub open spec fn cells_members(
    defs: Seq<StructDefinition>,
    h: Seq<ValueView>,
    members: Seq<StructMember>,
    fields: Seq<(Seq<char>, usize)>,
    fuel: nat,
    i: int,
) -> nat
    decreases fuel, 1nat, members.len() - i,
{
    if i < 0 || i >= members.len() {
        0
    } else {
        match members[i] {
            StructMember::Padding(_) => cells_members(defs, h, members, fields, fuel, i + 1),
            StructMember::Field(f) => match field_cell(fields, f.identifier@) {
                None => 0,
                Some(a) => if a >= h.len() {
                    0
                } else {
                    1 + cells_needed(defs, h, h[a as int], fuel) + cells_members(defs, h, members, fields, fuel, i + 1)
                },
            },
        }
    }
}

/// A value fits a type when reading the type gives the value back: the
/// kinds agree, an array type counts the array's elements and names its
/// element type, a struct type names the struct, and so on inside. Gives the
/// fields that reading remembers for `counted_by` afterwards, starting from
/// `read`.
pub open spec fn fits(
    defs: Seq<StructDefinition>,
    h: Seq<ValueView>,
    v: ValueView,
    t: DType,
    read: Seq<(Seq<char>, Option<usize>)>,
    fuel: nat,
) -> Option<Seq<(Seq<char>, Option<usize>)>>
    decreases fuel, 0nat, 0nat,
{
    match t {
        DType::S8 => if v is S8 { Some(read) } else { None },
        DType::U8 => if v is U8 { Some(read) } else { None },
        DType::S16 => if v is S16 { Some(read) } else { None },
        DType::U16 => if v is U16 { Some(read) } else { None },
        DType::S32 => if v is S32 { Some(read) } else { None },
        DType::U32 => if v is U32 { Some(read) } else { None },
        DType::Bool => if v is Bool { Some(read) } else { None },
        DType::Array { inner_data_type, count } => match v {
            ValueView::Array { inner_data_type: element_type, contents } => if fuel == 0
                || count != Some(contents.len() as usize) || contents.len() > usize::MAX
                || element_type != *inner_data_type {
                None
            } else {
                fits_items(defs, h, contents, *inner_data_type, read, (fuel - 1) as nat, 0)
            },
            _ => None,
        },
        DType::UserDefined(name) => match v {
            ValueView::Struct { definition, fields } => if fuel == 0 || definition != name {
                None
            } else {
                match struct_def(defs, name) {
                    None => None,
                    Some(d) => fits_members(defs, h, d.members@, fields, read, (fuel - 1) as nat, 0),
                }
            },
            _ => None,
        },
        _ => None,
    }
}

/// The values in the cells `items[i..]` fit the element type, one after the
/// other.
pub open spec fn fits_items(
    defs: Seq<StructDefinition>,
    h: Seq<ValueView>,
    items: Seq<usize>,
    t: DType,
    read: Seq<(Seq<char>, Option<usize>)>,
    fuel: nat,
    i: int,
) -> Option<Seq<(Seq<char>, Option<usize>)>>
    decreases fuel, 1nat, items.len() - i,
{
    if i < 0 || i >= items.len() {
        Some(read)
    } else if items[i] >= h.len() {
        None
    } else {
        match fits(defs, h, h[items[i] as int], t, read, fuel) {
            None => None,
            Some(r) => fits_items(defs, h, items, t, r, fuel, i + 1),
        }
    }
}

/// A field's value fits the type the field is read as: an ASCII-serialized
/// string without NUL characters, or a value that fits the type.
pub open spec fn fits_field(
    defs: Seq<StructDefinition>,
    h: Seq<ValueView>,
    f: StructFieldDefinition,
    v: ValueView,
    t: DType,
    read: Seq<(Seq<char>, Option<usize>)>,
    fuel: nat,
) -> Option<Seq<(Seq<char>, Option<usize>)>>
    decreases fuel, 0nat, 1nat,
{
    match v {
        ValueView::String(s) => if t == DType::String && (spec_string_serialization(f) matches Some(Some(_)))
            && no_nul(s) {
            Some(read)
        } else {
            None
        },
        _ => fits(defs, h, v, t, read, fuel),
    }
}

/// The fields named by the members `members[i..]` fit the types they are
/// read as, with the fields read before them remembered for `counted_by`.
pub open spec fn fits_members(
    defs: Seq<StructDefinition>,
    h: Seq<ValueView>,
    members: Seq<StructMember>,
    fields: Seq<(Seq<char>, usize)>,
    read: Seq<(Seq<char>, Option<usize>)>,
    fuel: nat,
    i: int,
) -> Option<Seq<(Seq<char>, Option<usize>)>>
    decreases fuel, 1nat, members.len() - i,
{
    if i < 0 || i >= members.len() {
        Some(read)
    } else {
        match members[i] {
            StructMember::Padding(_) => fits_members(defs, h, members, fields, read, fuel, i + 1),
            StructMember::Field(f) => match field_cell(fields, f.identifier@) {
                None => None,
                Some(a) => if a >= h.len() {
                    None
                } else {
                    match field_read_type(f, read) {
                        None => None,
                        Some((t, keep)) => match fits_field(defs, h, f, h[a as int], t, read, fuel) {
                            None => None,
                            Some(r) => fits_members(
                                defs,
                                h,
                                members,
                                fields,
                                if keep {
                                    r.push((f.identifier@, count_of(h[a as int])))
                                } else {
                                    r
                                },
                                fuel,
                                i + 1,
                            ),
                        },
                    }
                },
            },
        }
    }
}

/// `a` is the start of `b`.
pub open spec fn prefix_of(a: Seq<u8>, b: Seq<u8>) -> bool {
    a.len() <= b.len() && b.subrange(0, a.len() as int) == a
}

/* ---------- writing only appends ---------- */

pub proof fn lemma_ser_extends(
    defs: Seq<StructDefinition>,
    h: Seq<ValueView>,
    v: ValueView,
    order: ByteOrder,
    out: Seq<u8>,
    fuel: nat,
)
    ensures
        prefix_of(out, ser(defs, h, v, order, out, fuel).0),
    decreases fuel, 0nat, 0nat,
{
    match v {
        ValueView::S8(x) => assert(out.push(x as u8).subrange(0, out.len() as int) =~= out),
        ValueView::U8(x) => assert(out.push(x).subrange(0, out.len() as int) =~= out),
        ValueView::Bool(b) => assert(out.push(if b { 1u8 } else { 0u8 }).subrange(0, out.len() as int) =~= out),
        ValueView::S16(x) => assert((out + crate::serialization::u16_bytes(x as u16, order)).subrange(0, out.len() as int) =~= out),
        ValueView::U16(x) => assert((out + crate::serialization::u16_bytes(x, order)).subrange(0, out.len() as int) =~= out),
        ValueView::S32(x) => assert((out + crate::serialization::u32_bytes(x as u32, order)).subrange(0, out.len() as int) =~= out),
        ValueView::U32(x) => assert((out + crate::serialization::u32_bytes(x, order)).subrange(0, out.len() as int) =~= out),
        ValueView::Array { contents, .. } => {
            assert(out.subrange(0, out.len() as int) =~= out);
            if fuel > 0 {
                lemma_ser_items_extends(defs, h, contents, order, out, (fuel - 1) as nat, 0);
            }
        },
        ValueView::Struct { definition, fields } => {
            assert(out.subrange(0, out.len() as int) =~= out);
            if fuel > 0 {
                if let Some(d) = struct_def(defs, definition) {
                    if let Some(o) = crate::serialization::spec_byte_order(d) {
                        lemma_ser_members_extends(defs, h, d.members@, fields, o, out, (fuel - 1) as nat, 0);
                    }
                }
            }
        },
        _ => assert(out.subrange(0, out.len() as int) =~= out),
    }
}

proof fn lemma_prefix_trans(a: Seq<u8>, b: Seq<u8>, c: Seq<u8>)
    requires
        prefix_of(a, b),
        prefix_of(b, c),
    ensures
        prefix_of(a, c),
{
    assert(c.subrange(0, a.len() as int) =~= b.subrange(0, a.len() as int));
}

pub proof fn lemma_ser_items_extends(
    defs: Seq<StructDefinition>,
    h: Seq<ValueView>,
    items: Seq<usize>,
    order: ByteOrder,
    out: Seq<u8>,
    fuel: nat,
    i: int,
)
    ensures
        prefix_of(out, ser_items(defs, h, items, order, out, fuel, i).0),
    decreases fuel, 1nat, items.len() - i,
{
    assert(out.subrange(0, out.len() as int) =~= out);
    if 0 <= i < items.len() && items[i] < h.len() {
        let (o, ok) = ser(defs, h, h[items[i] as int], order, out, fuel);
        lemma_ser_extends(defs, h, h[items[i] as int], order, out, fuel);
        if ok {
            lemma_ser_items_extends(defs, h, items, order, o, fuel, i + 1);
            lemma_prefix_trans(out, o, ser_items(defs, h, items, order, o, fuel, i + 1).0);
        }
    }
}

pub proof fn lemma_ser_field_extends(
    defs: Seq<StructDefinition>,
    h: Seq<ValueView>,
    f: StructFieldDefinition,
    v: ValueView,
    order: ByteOrder,
    out: Seq<u8>,
    fuel: nat,
)
    ensures
        prefix_of(out, ser_field(defs, h, f, v, order, out, fuel).0),
    decreases fuel, 0nat, 1nat,
{
    assert(out.subrange(0, out.len() as int) =~= out);
    lemma_ser_extends(defs, h, v, order, out, fuel);
    if let ValueView::String(s) = v {
        let w = out + crate::serialization::ascii_bytes(s) + seq![0u8];
        assert(w.subrange(0, out.len() as int) =~= out);
    }
}

pub proof fn lemma_ser_members_extends(
    defs: Seq<StructDefinition>,
    h: Seq<ValueView>,
    members: Seq<StructMember>,
    fields: Seq<(Seq<char>, usize)>,
    order: ByteOrder,
    out: Seq<u8>,
    fuel: nat,
    i: int,
)
    ensures
        prefix_of(out, ser_members(defs, h, members, fields, order, out, fuel, i).0),
    decreases fuel, 1nat, members.len() - i,
{
    assert(out.subrange(0, out.len() as int) =~= out);
    if 0 <= i < members.len() {
        match members[i] {
            StructMember::Padding(n) => {
                let o = out + crate::serialization::zeros(n as nat);
                assert(o.subrange(0, out.len() as int) =~= out);
                lemma_ser_members_extends(defs, h, members, fields, order, o, fuel, i + 1);
                lemma_prefix_trans(out, o, ser_members(defs, h, members, fields, order, o, fuel, i + 1).0);
            },
            StructMember::Field(f) => {
                if let Some(al) = crate::serialization::spec_alignment(f) {
                    let out1 = out + crate::serialization::zeros(crate::serialization::pad_len(out.len(), al));
                    assert(out1.subrange(0, out.len() as int) =~= out);
                    if let Some(a) = field_cell(fields, f.identifier@) {
                        if a < h.len() {
                            let (o, ok) = ser_field(defs, h, f, h[a as int], order, out1, fuel);
                            lemma_ser_field_extends(defs, h, f, h[a as int], order, out1, fuel);
                            lemma_prefix_trans(out, out1, o);
                            if ok {
                                lemma_ser_members_extends(defs, h, members, fields, order, o, fuel, i + 1);
                                lemma_prefix_trans(out, o, ser_members(defs, h, members, fields, order, o, fuel, i + 1).0);
                            }
                        }
                    }
                }
            },
        }
    }
}

/* ---------- contents do not change as the heap grows ---------- */

pub proof fn lemma_pod_grows(defs: Seq<StructDefinition>, h: Seq<ValueView>, h2: Seq<ValueView>, v: ValueView, fuel: nat)
    requires
        heap_grows(h, h2),
        pod_of(defs, h, v, fuel) is Some,
    ensures
        pod_of(defs, h2, v, fuel) == pod_of(defs, h, v, fuel),
    decreases fuel, 0nat, 0nat,
{
    match v {
        ValueView::Array { contents, .. } => {
            lemma_pods_items_grows(defs, h, h2, contents, (fuel - 1) as nat, 0);
        },
        ValueView::Struct { definition, fields } => {
            let d = struct_def(defs, definition)->Some_0;
            lemma_pods_members_grows(defs, h, h2, d.members@, fields, (fuel - 1) as nat, 0);
        },
        _ => {},
    }
}

pub proof fn lemma_pods_items_grows(
    defs: Seq<StructDefinition>,
    h: Seq<ValueView>,
    h2: Seq<ValueView>,
    items: Seq<usize>,
    fuel: nat,
    i: int,
)
    requires
        heap_grows(h, h2),
        pods_items(defs, h, items, fuel, i) is Some,
    ensures
        pods_items(defs, h2, items, fuel, i) == pods_items(defs, h, items, fuel, i),
    decreases fuel, 1nat, items.len() - i,
{
    if 0 <= i < items.len() {
        assert(h2[items[i] as int] == h[items[i] as int]);
        lemma_pod_grows(defs, h, h2, h[items[i] as int], fuel);
        lemma_pods_items_grows(defs, h, h2, items, fuel, i + 1);
    }
}

pub proof fn lemma_pods_members_grows(
    defs: Seq<StructDefinition>,
    h: Seq<ValueView>,
    h2: Seq<ValueView>,
    members: Seq<StructMember>,
    fields: Seq<(Seq<char>, usize)>,
    fuel: nat,
    i: int,
)
    requires
        heap_grows(h, h2),
        pods_members(defs, h, members, fields, fuel, i) is Some,
    ensures
        pods_members(defs, h2, members, fields, fuel, i) == pods_members(defs, h, members, fields, fuel, i),
    decreases fuel, 1nat, members.len() - i,
{
    if 0 <= i < members.len() {
        match members[i] {
            StructMember::Padding(_) => {
                lemma_pods_members_grows(defs, h, h2, members, fields, fuel, i + 1);
            },
            StructMember::Field(f) => {
                let a = field_cell(fields, f.identifier@)->Some_0;
                assert(h2[a as int] == h[a as int]);
                lemma_pod_grows(defs, h, h2, h[a as int], fuel);
                lemma_pods_members_grows(defs, h, h2, members, fields, fuel, i + 1);
            },
        }
    }
}

/* ---------- integers read back ---------- */

proof fn lemma_u16_read_back(x: u16, order: ByteOrder, b: Seq<u8>, p: int)
    requires
        0 <= p,
        p + 2 <= b.len(),
        b[p] == crate::serialization::u16_bytes(x, order)[0],
        b[p + 1] == crate::serialization::u16_bytes(x, order)[1],
    ensures
        crate::deserialization::u16_at(b, p, order) == x as int,
{
    let lo = (x & 0xff) as u8;
    let hi = (x >> 8) as u8;
    assert(lo as u32 + 256 * (hi as u32) == x as u32) by (bit_vector)
        requires
            lo == (x & 0xff) as u8,
            hi == (x >> 8) as u8,
    ;
}

proof fn lemma_u32_read_back(x: u32, order: ByteOrder, b: Seq<u8>, p: int)
    requires
        0 <= p,
        p + 4 <= b.len(),
        b[p] == crate::serialization::u32_bytes(x, order)[0],
        b[p + 1] == crate::serialization::u32_bytes(x, order)[1],
        b[p + 2] == crate::serialization::u32_bytes(x, order)[2],
        b[p + 3] == crate::serialization::u32_bytes(x, order)[3],
    ensures
        crate::deserialization::u32_at(b, p, order) == x as int,
{
    let b0 = (x & 0xff) as u8;
    let b1 = ((x >> 8) & 0xff) as u8;
    let b2 = ((x >> 16) & 0xff) as u8;
    let b3 = (x >> 24) as u8;
    assert(b0 as u64 + 256 * (b1 as u64) + 65536 * (b2 as u64) + 16777216 * (b3 as u64) == x as u64) by (bit_vector)
        requires
            b0 == (x & 0xff) as u8,
            b1 == ((x >> 8) & 0xff) as u8,
            b2 == ((x >> 16) & 0xff) as u8,
            b3 == (x >> 24) as u8,
    ;
}

proof fn lemma_s8_read_back(x: i8)
    ensures
        ((x as u8) as i8) == x,
{
    assert(((x as u8) as i8) == x) by (bit_vector);
}

proof fn lemma_s16_read_back(x: i16)
    ensures
        (crate::deserialization::signed16((x as u16) as int) as i16) == x,
{
    let y = x as u16;
    assert((y as i16) == x) by (bit_vector)
        requires
            y == x as u16,
    ;
    assert(y >= 32768 ==> (y as i16) as i32 + 65536 == y as i32) by (bit_vector);
    assert(y < 32768 ==> (y as i16) as i32 == y as i32) by (bit_vector);
}

proof fn lemma_s32_read_back(x: i32)
    ensures
        (crate::deserialization::signed32((x as u32) as int) as i32) == x,
{
    let y = x as u32;
    assert((y as i32) == x) by (bit_vector)
        requires
            y == x as u32,
    ;
    assert(y >= 2147483648 ==> (y as i32) as i64 + 4294967296 == y as i64) by (bit_vector);
    assert(y < 2147483648 ==> (y as i32) as i64 == y as i64) by (bit_vector);
}

/* ---------- strings read back ---------- */

proof fn lemma_find_nul(b: Seq<u8>, start: int, end: int)
    requires
        0 <= start <= end < b.len(),
        forall|k: int| start <= k < end ==> #[trigger] b[k] != 0,
        b[end] == 0,
    ensures
        crate::deserialization::find_nul(b, start) == Some(end),
    decreases end - start,
{
    if start < end {
        lemma_find_nul(b, start + 1, end);
    }
}

/// The bytes of an ASCII text are its UTF-8 encoding.
proof fn lemma_ascii_utf8(s: Seq<char>)
    requires
        vstd::utf8::is_ascii_chars(s),
    ensures
        vstd::utf8::valid_utf8(crate::serialization::ascii_bytes(s)),
        vstd::utf8::decode_utf8(crate::serialization::ascii_bytes(s)) == s,
{
    vstd::utf8::is_ascii_chars_encode_utf8(s);
    assert(crate::serialization::ascii_bytes(s) =~= vstd::utf8::encode_utf8(s));
    vstd::utf8::encode_utf8_valid_utf8(s);
    vstd::utf8::encode_utf8_decode_utf8(s);
}

/* ---------- the bytes written, read back ---------- */

/// Reading `t` from `b` at the state `st` succeeds, ends at `end` with the
/// fields `read` remembered, only adds cells to the heap, and gives a value
/// with the contents of `v` (and the same count for `counted_by`).
pub open spec fn reads_back(
    defs: Seq<StructDefinition>,
    h: Seq<ValueView>,
    v: ValueView,
    fuel: nat,
    b: Seq<u8>,
    t: DType,
    order: ByteOrder,
    st: DeState,
    fd: nat,
    end: nat,
    read: Seq<(Seq<char>, Option<usize>)>,
) -> bool {
    let (st2, r) = de(defs, b, t, order, st, fd);
    &&& r is Ok
    &&& st2.pos == end
    &&& st2.read == read
    &&& heap_grows(st.heap, st2.heap)
    &&& st2.heap.len() == st.heap.len() + cells_needed(defs, h, v, fuel)
    &&& pod_of(defs, h, v, fuel) is Some
    &&& pod_of(defs, st2.heap, r->Ok_0, fuel) == pod_of(defs, h, v, fuel)
    &&& count_of(r->Ok_0) == count_of(v)
}

/// A field read back, `e`, holds the contents of the original struct's field
/// of the same name.
pub open spec fn good_entry(
    defs: Seq<StructDefinition>,
    h: Seq<ValueView>,
    fields: Seq<(Seq<char>, usize)>,
    heap: Seq<ValueView>,
    e: (Seq<char>, usize),
    fuel: nat,
) -> bool {
    &&& e.1 < heap.len()
    &&& field_cell(fields, e.0) is Some
    &&& field_cell(fields, e.0)->Some_0 < h.len()
    &&& pod_of(defs, h, h[field_cell(fields, e.0)->Some_0 as int], fuel) is Some
    &&& pod_of(defs, heap, heap[e.1 as int], fuel) == pod_of(defs, h, h[field_cell(fields, e.0)->Some_0 as int], fuel)
}

proof fn lemma_good_entry_grows(
    defs: Seq<StructDefinition>,
    h: Seq<ValueView>,
    fields: Seq<(Seq<char>, usize)>,
    heap: Seq<ValueView>,
    heap2: Seq<ValueView>,
    e: (Seq<char>, usize),
    fuel: nat,
)
    requires
        good_entry(defs, h, fields, heap, e, fuel),
        heap_grows(heap, heap2),
    ensures
        good_entry(defs, h, fields, heap2, e, fuel),
{
    assert(heap2[e.1 as int] == heap[e.1 as int]);
    lemma_pod_grows(defs, heap, heap2, heap[e.1 as int], fuel);
}

/// The newest field of a name is an entry of that name, and there is one
/// where some entry has the name.
proof fn lemma_field_cell_entry(fields: Seq<(Seq<char>, usize)>, name: Seq<char>)
    ensures
        field_cell(fields, name) matches Some(c) ==> exists|j: int| 0 <= j < fields.len() && #[trigger] fields[j] == (name, c),
        (exists|j: int| 0 <= j < fields.len() && #[trigger] fields[j].0 == name) ==> field_cell(fields, name) is Some,
    decreases fields.len(),
{
    if fields.len() > 0 {
        let last = fields.len() - 1;
        if fields.last().0 == name {
            assert(fields[last] == (name, fields.last().1));
        } else {
            let rest = fields.drop_last();
            lemma_field_cell_entry(rest, name);
            if let Some(c) = field_cell(rest, name) {
                let j = choose|j: int| 0 <= j < rest.len() && #[trigger] rest[j] == (name, c);
                assert(fields[j] == rest[j]);
            }
            if exists|j: int| 0 <= j < fields.len() && #[trigger] fields[j].0 == name {
                let j = choose|j: int| 0 <= j < fields.len() && #[trigger] fields[j].0 == name;
                assert(j != last);
                assert(rest[j] == fields[j]);
            }
        }
    }
}

proof fn lemma_pods_members_from_entries(
    defs: Seq<StructDefinition>,
    h: Seq<ValueView>,
    fields: Seq<(Seq<char>, usize)>,
    heap: Seq<ValueView>,
    fl: Seq<(Seq<char>, usize)>,
    members: Seq<StructMember>,
    fuel: nat,
    i: int,
)
    requires
        0 <= i <= members.len(),
        forall|j: int| 0 <= j < fl.len() ==> good_entry(defs, h, fields, heap, #[trigger] fl[j], fuel),
        forall|m: int| i <= m < members.len() ==> (#[trigger] members[m] matches StructMember::Field(f) ==> exists|j: int|
            0 <= j < fl.len() && #[trigger] fl[j].0 == f.identifier@),
    ensures
        pods_members(defs, h, members, fields, fuel, i) is Some,
        pods_members(defs, heap, members, fl, fuel, i) == pods_members(defs, h, members, fields, fuel, i),
    decreases members.len() - i,
{
    if i < members.len() {
        lemma_pods_members_from_entries(defs, h, fields, heap, fl, members, fuel, i + 1);
        if let StructMember::Field(f) = members[i] {
            let id = f.identifier@;
            lemma_field_cell_entry(fl, id);
            let c = field_cell(fl, id)->Some_0;
            let j = choose|j: int| 0 <= j < fl.len() && #[trigger] fl[j] == (id, c);
            assert(good_entry(defs, h, fields, heap, fl[j], fuel));
        }
    }
}

proof fn lemma_pods_items_pointwise(
    defs: Seq<StructDefinition>,
    h: Seq<ValueView>,
    items: Seq<usize>,
    heap: Seq<ValueView>,
    cells: Seq<usize>,
    fuel: nat,
    i: int,
)
    requires
        0 <= i <= items.len(),
        cells.len() == items.len(),
        forall|k: int| 0 <= k < items.len() ==> {
            &&& #[trigger] items[k] < h.len()
            &&& cells[k] < heap.len()
            &&& pod_of(defs, h, h[items[k] as int], fuel) is Some
            &&& pod_of(defs, heap, heap[cells[k] as int], fuel) == pod_of(defs, h, h[items[k] as int], fuel)
        },
    ensures
        pods_items(defs, h, items, fuel, i) is Some,
        pods_items(defs, heap, cells, fuel, i) == pods_items(defs, h, items, fuel, i),
    decreases items.len() - i,
{
    if i < items.len() {
        lemma_pods_items_pointwise(defs, h, items, heap, cells, fuel, i + 1);
        assert(items[i] < h.len());
    }
}

/// What a value's bytes read back as, from a state positioned where they
/// start in `b`.
pub proof fn lemma_read_back(
    defs: Seq<StructDefinition>,
    h: Seq<ValueView>,
    v: ValueView,
    t: DType,
    order: ByteOrder,
    out: Seq<u8>,
    fuel: nat,
    b: Seq<u8>,
    st: DeState,
    fd: nat,
)
    requires
        ser(defs, h, v, order, out, fuel).1,
        prefix_of(ser(defs, h, v, order, out, fuel).0, b),
        ser(defs, h, v, order, out, fuel).0.len() <= u64::MAX,
        st.pos == out.len(),
        fits(defs, h, v, t, st.read, fuel) is Some,
        fuel <= fd,
        st.heap.len() + cells_needed(defs, h, v, fuel) <= usize::MAX,
    ensures
        reads_back(defs, h, v, fuel, b, t, order, st, fd, ser(defs, h, v, order, out, fuel).0.len(),
            fits(defs, h, v, t, st.read, fuel)->Some_0),
    decreases fuel, 0nat, 0nat,
{
    let o2 = ser(defs, h, v, order, out, fuel).0;
    let p = out.len() as int;
    assert forall|k: int| 0 <= k < o2.len() implies #[trigger] b[k] == o2[k] by {
        assert(b.subrange(0, o2.len() as int)[k] == b[k]);
    }
    match t {
        DType::S8 => {
            let x = v->S8_0;
            assert(b[p] == x as u8);
            lemma_s8_read_back(x);
        },
        DType::U8 => {
            assert(b[p] == v->U8_0);
        },
        DType::Bool => {
            assert(b[p] == o2[p]);
        },
        DType::S16 => {
            let x = v->S16_0;
            let bs = crate::serialization::u16_bytes(x as u16, order);
            assert(o2 == out + bs);
            assert(b[p] == bs[0] && b[p + 1] == bs[1]);
            lemma_u16_read_back(x as u16, order, b, p);
            lemma_s16_read_back(x);
        },
        DType::U16 => {
            let x = v->U16_0;
            let bs = crate::serialization::u16_bytes(x, order);
            assert(b[p] == bs[0] && b[p + 1] == bs[1]);
            lemma_u16_read_back(x, order, b, p);
        },
        DType::S32 => {
            let x = v->S32_0;
            let bs = crate::serialization::u32_bytes(x as u32, order);
            assert(b[p] == bs[0] && b[p + 1] == bs[1] && b[p + 2] == bs[2] && b[p + 3] == bs[3]);
            lemma_u32_read_back(x as u32, order, b, p);
            lemma_s32_read_back(x);
        },
        DType::U32 => {
            let x = v->U32_0;
            let bs = crate::serialization::u32_bytes(x, order);
            assert(b[p] == bs[0] && b[p + 1] == bs[1] && b[p + 2] == bs[2] && b[p + 3] == bs[3]);
            lemma_u32_read_back(x, order, b, p);
        },
        DType::Array { inner_data_type, count } => {
            let contents = v->Array_contents;
            let inner = *inner_data_type;
            lemma_read_back_items(defs, h, contents, inner, order, out, (fuel - 1) as nat, 0, b, st, fd, Seq::empty());
            let (st2, cells) = de_array(defs, b, inner, order, st, fd, contents.len(), Seq::empty());
            lemma_pods_items_pointwise(defs, h, contents, st2.heap, cells, (fuel - 1) as nat, 0);
        },
        DType::UserDefined(name) => {
            let fields = v->Struct_fields;
            let d = struct_def(defs, name)->Some_0;
            let o = crate::serialization::spec_byte_order(d)->Some_0;
            lemma_read_back_members(defs, h, d.members@, fields, o, out, (fuel - 1) as nat, 0, b, st, (fd - 1) as nat, Seq::empty());
            let (st2, r) = de_members(defs, b, d.members@, o, st, Seq::empty(), (fd - 1) as nat, 0);
            lemma_pods_members_from_entries(defs, h, fields, st2.heap, r->Ok_0, d.members@, (fuel - 1) as nat, 0);
        },
        _ => {},
    }
}

/// What the bytes of the values in the cells `items[i..]` read back as,
/// after the cells `cells` read for the items before them.
pub proof fn lemma_read_back_items(
    defs: Seq<StructDefinition>,
    h: Seq<ValueView>,
    items: Seq<usize>,
    inner: DType,
    order: ByteOrder,
    out: Seq<u8>,
    fuel: nat,
    i: int,
    b: Seq<u8>,
    st: DeState,
    fd: nat,
    cells: Seq<usize>,
)
    requires
        0 <= i <= items.len(),
        cells.len() == i,
        ser_items(defs, h, items, order, out, fuel, i).1,
        prefix_of(ser_items(defs, h, items, order, out, fuel, i).0, b),
        ser_items(defs, h, items, order, out, fuel, i).0.len() <= u64::MAX,
        st.pos == out.len(),
        fits_items(defs, h, items, inner, st.read, fuel, i) is Some,
        fuel <= fd,
        st.heap.len() + cells_items(defs, h, items, fuel, i) <= usize::MAX,
        forall|k: int| 0 <= k < i ==> {
            &&& #[trigger] items[k] < h.len()
            &&& cells[k] < st.heap.len()
            &&& pod_of(defs, h, h[items[k] as int], fuel) is Some
            &&& pod_of(defs, st.heap, st.heap[cells[k] as int], fuel) == pod_of(defs, h, h[items[k] as int], fuel)
        },
    ensures
        ({
            let (st2, cells2) = de_array(defs, b, inner, order, st, fd, (items.len() - i) as nat, cells);
            &&& st2.pos == ser_items(defs, h, items, order, out, fuel, i).0.len()
            &&& st2.read == fits_items(defs, h, items, inner, st.read, fuel, i)->Some_0
            &&& heap_grows(st.heap, st2.heap)
            &&& st2.heap.len() == st.heap.len() + cells_items(defs, h, items, fuel, i)
            &&& cells2.len() == items.len()
            &&& forall|k: int| 0 <= k < items.len() ==> {
                &&& #[trigger] items[k] < h.len()
                &&& cells2[k] < st2.heap.len()
                &&& pod_of(defs, h, h[items[k] as int], fuel) is Some
                &&& pod_of(defs, st2.heap, st2.heap[cells2[k] as int], fuel) == pod_of(defs, h, h[items[k] as int], fuel)
            }
        }),
    decreases fuel, 1nat, items.len() - i,
{
    if i < items.len() {
        let v = h[items[i] as int];
        let (o, ok) = ser(defs, h, v, order, out, fuel);
        let end = ser_items(defs, h, items, order, out, fuel, i).0;
        lemma_ser_items_extends(defs, h, items, order, o, fuel, i + 1);
        lemma_prefix_trans(o, end, b);
        lemma_read_back(defs, h, v, inner, order, out, fuel, b, st, fd);
        let (st1, r) = de(defs, b, inner, order, st, fd);
        let v2 = r->Ok_0;
        let st2 = DeState { pos: st1.pos, heap: st1.heap.push(v2), read: st1.read };
        let cells2 = cells.push(st1.heap.len() as usize);
        assert(heap_grows(st1.heap, st2.heap));
        crate::values::lemma_heap_grows_trans(st.heap, st1.heap, st2.heap);
        lemma_pod_grows(defs, st1.heap, st2.heap, v2, fuel);
        assert forall|k: int| 0 <= k < i + 1 implies {
            &&& #[trigger] items[k] < h.len()
            &&& cells2[k] < st2.heap.len()
            &&& pod_of(defs, h, h[items[k] as int], fuel) is Some
            &&& pod_of(defs, st2.heap, st2.heap[cells2[k] as int], fuel) == pod_of(defs, h, h[items[k] as int], fuel)
        } by {
            if k < i {
                assert(cells2[k] == cells[k]);
                assert(st2.heap[cells[k] as int] == st.heap[cells[k] as int]);
                lemma_pod_grows(defs, st.heap, st2.heap, st.heap[cells[k] as int], fuel);
            } else {
                assert(st2.heap[cells2[k] as int] == v2);
            }
        }
        lemma_read_back_items(defs, h, items, inner, order, o, fuel, i + 1, b, st2, fd, cells2);
        let (st3, _) = de_array(defs, b, inner, order, st2, fd, (items.len() - i - 1) as nat, cells2);
        crate::values::lemma_heap_grows_trans(st.heap, st2.heap, st3.heap);
    } else {
        assert(heap_grows(st.heap, st.heap));
    }
}

/// What the bytes of a field's value read back as, when read as `t`.
pub proof fn lemma_read_back_field(
    defs: Seq<StructDefinition>,
    h: Seq<ValueView>,
    f: StructFieldDefinition,
    v: ValueView,
    t: DType,
    order: ByteOrder,
    out: Seq<u8>,
    fuel: nat,
    b: Seq<u8>,
    st: DeState,
    fd: nat,
)
    requires
        ser_field(defs, h, f, v, order, out, fuel).1,
        prefix_of(ser_field(defs, h, f, v, order, out, fuel).0, b),
        ser_field(defs, h, f, v, order, out, fuel).0.len() <= u64::MAX,
        st.pos == out.len(),
        fits_field(defs, h, f, v, t, st.read, fuel) is Some,
        fuel <= fd,
        st.heap.len() + cells_needed(defs, h, v, fuel) <= usize::MAX,
    ensures
        reads_back(defs, h, v, fuel, b, t, order, st, fd, ser_field(defs, h, f, v, order, out, fuel).0.len(),
            fits_field(defs, h, f, v, t, st.read, fuel)->Some_0),
    decreases fuel, 0nat, 1nat,
{
    match v {
        ValueView::String(s) => {
            let bytes = crate::serialization::ascii_bytes(s);
            let o2 = out + bytes + seq![0u8];
            let p = out.len() as int;
            let e = p + s.len();
            assert forall|k: int| 0 <= k < o2.len() implies #[trigger] b[k] == o2[k] by {
                assert(b.subrange(0, o2.len() as int)[k] == b[k]);
            }
            assert forall|k: int| p <= k < e implies #[trigger] b[k] != 0 by {
                assert(b[k] == o2[k]);
                assert(o2[k] == bytes[k - p]);
                assert('\0' <= s[k - p] <= '\u{7f}');
                assert(s[k - p] != '\0');
            }
            assert(b[e] == o2[e]);
            lemma_find_nul(b, p, e);
            assert(b.subrange(p, e) =~= bytes);
            lemma_ascii_utf8(s);
        },
        _ => {
            lemma_read_back(defs, h, v, t, order, out, fuel, b, st, fd);
        },
    }
}

/// What the bytes of the members `members[i..]` of a struct read back as,
/// after the fields `fl` read for the members before them.
pub proof fn lemma_read_back_members(
    defs: Seq<StructDefinition>,
    h: Seq<ValueView>,
    members: Seq<StructMember>,
    fields: Seq<(Seq<char>, usize)>,
    order: ByteOrder,
    out: Seq<u8>,
    fuel: nat,
    i: int,
    b: Seq<u8>,
    st: DeState,
    fd: nat,
    fl: Seq<(Seq<char>, usize)>,
)
    requires
        0 <= i <= members.len(),
        ser_members(defs, h, members, fields, order, out, fuel, i).1,
        prefix_of(ser_members(defs, h, members, fields, order, out, fuel, i).0, b),
        ser_members(defs, h, members, fields, order, out, fuel, i).0.len() <= u64::MAX,
        st.pos == out.len(),
        fits_members(defs, h, members, fields, st.read, fuel, i) is Some,
        fuel <= fd,
        st.heap.len() + cells_members(defs, h, members, fields, fuel, i) <= usize::MAX,
        forall|j: int| 0 <= j < fl.len() ==> good_entry(defs, h, fields, st.heap, #[trigger] fl[j], fuel),
    ensures
        ({
            let (st2, r) = de_members(defs, b, members, order, st, fl, fd, i);
            &&& r is Ok
            &&& st2.pos == ser_members(defs, h, members, fields, order, out, fuel, i).0.len()
            &&& st2.read == fits_members(defs, h, members, fields, st.read, fuel, i)->Some_0
            &&& heap_grows(st.heap, st2.heap)
            &&& st2.heap.len() == st.heap.len() + cells_members(defs, h, members, fields, fuel, i)
            &&& fl.len() <= r->Ok_0.len()
            &&& forall|j: int| 0 <= j < fl.len() ==> #[trigger] r->Ok_0[j] == fl[j]
            &&& forall|j: int| 0 <= j < r->Ok_0.len() ==> good_entry(defs, h, fields, st2.heap, #[trigger] r->Ok_0[j], fuel)
            &&& forall|m: int| i <= m < members.len() ==> (#[trigger] members[m] matches StructMember::Field(f) ==> exists|j: int|
                0 <= j < r->Ok_0.len() && #[trigger] r->Ok_0[j].0 == f.identifier@)
        }),
    decreases fuel, 1nat, members.len() - i,
{
    let end = ser_members(defs, h, members, fields, order, out, fuel, i).0;
    if i < members.len() {
        match members[i] {
            StructMember::Padding(n) => {
                let o = out + crate::serialization::zeros(n as nat);
                lemma_ser_members_extends(defs, h, members, fields, order, o, fuel, i + 1);
                let st1 = crate::deserialization::at_pos(st, (st.pos + n) as nat);
                lemma_read_back_members(defs, h, members, fields, order, o, fuel, i + 1, b, st1, fd, fl);
            },
            StructMember::Field(f) => {
                let al = crate::serialization::spec_alignment(f)->Some_0;
                let out1 = out + crate::serialization::zeros(crate::serialization::pad_len(out.len(), al));
                let a = field_cell(fields, f.identifier@)->Some_0;
                let v = h[a as int];
                let (o, ok) = ser_field(defs, h, f, v, order, out1, fuel);
                lemma_ser_members_extends(defs, h, members, fields, order, o, fuel, i + 1);
                lemma_ser_field_extends(defs, h, f, v, order, out1, fuel);
                lemma_prefix_trans(out1, o, end);
                lemma_prefix_trans(o, end, b);
                let st0 = crate::deserialization::at_pos(st, out1.len());
                let (t, keep) = field_read_type(f, st.read)->Some_0;
                lemma_read_back_field(defs, h, f, v, t, order, out1, fuel, b, st0, fd);
                let (st1, r) = de(defs, b, t, order, st0, fd);
                let v2 = r->Ok_0;
                let read2 = if keep {
                    st1.read.push((f.identifier@, count_of(v2)))
                } else {
                    st1.read
                };
                let st2 = DeState { pos: st1.pos, heap: st1.heap.push(v2), read: read2 };
                let fl2 = fl.push((f.identifier@, st1.heap.len() as usize));
                assert(heap_grows(st1.heap, st2.heap));
                crate::values::lemma_heap_grows_trans(st.heap, st1.heap, st2.heap);
                lemma_pod_grows(defs, st1.heap, st2.heap, v2, fuel);
                assert forall|j: int| 0 <= j < fl2.len() implies good_entry(defs, h, fields, st2.heap, #[trigger] fl2[j], fuel) by {
                    if j < fl.len() {
                        assert(fl2[j] == fl[j]);
                        lemma_good_entry_grows(defs, h, fields, st.heap, st2.heap, fl[j], fuel);
                    } else {
                        assert(st2.heap[st1.heap.len() as int] == v2);
                    }
                }
                lemma_read_back_members(defs, h, members, fields, order, o, fuel, i + 1, b, st2, fd, fl2);
                let (st3, r3) = de_members(defs, b, members, order, st2, fl2, fd, i + 1);
                crate::values::lemma_heap_grows_trans(st.heap, st2.heap, st3.heap);
                assert(r3->Ok_0[fl.len() as int] == fl2[fl.len() as int]);
                assert forall|j: int| 0 <= j < fl.len() implies #[trigger] r3->Ok_0[j] == fl[j] by {
                    assert(r3->Ok_0[j] == fl2[j]);
                }
            },
        }
    } else {
        assert(heap_grows(st.heap, st.heap));
    }
}

} // verus!
