//! Properties of the library that span its functions.
use vstd::prelude::*;

use crate::ast::{DType, DataType, StructDefinition, coercible};
use crate::literals::{digit_of, digits_of, lemma_digits_of, lemma_upper_digits, literal_value, upper_digits};
use crate::error::RuntimeResult;
use crate::deserialization::{DeState, de};
use crate::operators::{int_of, int_val, is_int};
use crate::readback::{cells_needed, fits, lemma_read_back, pod_of};
use crate::layout::static_size_of;
use crate::natives::{
    builtin_file_new_outcome, builtin_handle_outcome, file_of, handle_of, native_outcome, serialized_bytes, serializes,
};
use crate::runtime::{BuiltinMethod, FileHandle, NativeFunction, Runtime, struct_def};
use crate::scopes::{is_empty_block, scopes_lookup};
use crate::serialization::{ByteOrder, declared_pod, depth_fuel, pad_len, ser, serialized_value};
use crate::value::{RuntimeValue, ValueView, direct_type, value_type};
use crate::ast::{Attribute, BinaryOperator, Block, Expression, StructFieldDefinition, StructMember, Value};
use crate::execution::{
    binary_outcome, block_run, cond_run, elem_turns_run, eval_run, for_turn_run, iteration_run, loop_run, range_run, turn_value,
    while_run,
};
use crate::operators::{promotion, unary_outcome};
use crate::ast::UnaryOperator;
use crate::readback::{lemma_ser_members_extends, prefix_of};
use crate::serialization::{find_attr, field_cell, ser_field, ser_members, spec_alignment, zeros};
use crate::runtime::ControlFlow;

verus! {

/// Every type coerces into itself.
pub proof fn law_coercion_reflexive(t: DType)
    ensures
        coercible(t, t),
{
}

/// Casting an integer to its own type gives it back.
pub proof fn law_cast_to_own_type(v: ValueView)
    requires
        is_int(v),
    ensures
        int_val(direct_type(v)->Some_0, int_of(v)) == v,
{
}

/// A field aligned to `n` starts at a multiple of `n`, after fewer than `n`
/// bytes of padding.
pub proof fn law_alignment(len: nat, n: usize)
    requires
        n > 0,
    ensures
        (len + pad_len(len, Some(n))) % (n as nat) == 0,
        pad_len(len, Some(n)) < n,
{
    let m = n as int;
    let r = (len as int) % m;
    if r != 0 {
        vstd::arithmetic::div_mod::lemma_fundamental_div_mod(len as int, m);
        let q = (len as int) / m;
        assert(len as int + (m - r) == (q + 1) * m) by (nonlinear_arith)
            requires
                len as int == m * q + r,
        ;
        vstd::arithmetic::div_mod::lemma_mod_multiples_basic(q + 1, m);
    }
}

/// Opening a block scope hides no binding.
pub proof fn law_push_scope_keeps_bindings(before: Runtime, after: Runtime, name: Seq<char>)
    requires
        after.same_but_locals(before),
        after.local_scopes().len() == before.local_scopes().len() + 1,
        after.local_scopes().drop_last() == before.local_scopes(),
        is_empty_block(after.local_scopes().last()),
    ensures
        after.lookup(name) == before.lookup(name),
{
    assert(scopes_lookup(after.local_scopes(), name) == scopes_lookup(before.local_scopes(), name));
}

/// Closing the block scope just opened restores the local scopes, and with
/// them every binding.
pub proof fn law_push_then_pop_scope(before: Runtime, pushed: Runtime, popped: Runtime, name: Seq<char>)
    requires
        pushed.same_but_locals(before),
        pushed.local_scopes().len() == before.local_scopes().len() + 1,
        pushed.local_scopes().drop_last() == before.local_scopes(),
        popped.same_but_locals(pushed),
        popped.local_scopes() == if pushed.local_scopes().len() > 0 {
            pushed.local_scopes().drop_last()
        } else {
            pushed.local_scopes()
        },
    ensures
        popped.local_scopes() == before.local_scopes(),
        popped.lookup(name) == before.lookup(name),
{
}

/// What is written is read back: reading the bytes that serialization wrote
/// for a value, as a type the value fits, reads all of them and gives a value
/// with the same contents. Reading may nest as deep as writing did or deeper;
/// the heap read into must have room for the value's cells.
pub proof fn law_read_back_written(
    defs: Seq<StructDefinition>,
    h: Seq<ValueView>,
    v: ValueView,
    t: DType,
    order: ByteOrder,
    fuel: nat,
    heap: Seq<ValueView>,
    read_fuel: nat,
)
    requires
        ser(defs, h, v, order, Seq::empty(), fuel).1,
        ser(defs, h, v, order, Seq::empty(), fuel).0.len() <= u64::MAX,
        fits(defs, h, v, t, Seq::empty(), fuel) is Some,
        fuel <= read_fuel,
        heap.len() + cells_needed(defs, h, v, fuel) <= usize::MAX,
    ensures
        ({
            let bytes = ser(defs, h, v, order, Seq::empty(), fuel).0;
            let (st, r) = de(defs, bytes, t, order, DeState { pos: 0, heap, read: Seq::empty() }, read_fuel);
            &&& r is Ok
            &&& st.pos == bytes.len()
            &&& pod_of(defs, h, v, fuel) is Some
            &&& pod_of(defs, st.heap, r->Ok_0, fuel) == pod_of(defs, h, v, fuel)
        }),
{
    let bytes = ser(defs, h, v, order, Seq::empty(), fuel).0;
    assert(bytes.subrange(0, bytes.len() as int) =~= bytes);
    lemma_read_back(defs, h, v, t, order, Seq::empty(), fuel, bytes, DeState { pos: 0, heap, read: Seq::empty() }, read_fuel);
}

/// What `serialize_into` gives, `deserialize` reads back, and so `sg::read`
/// gives back what `sg::write` wrote: when the file at a path holds the
/// bytes a runtime serialized for a value, a runtime with the same
/// struct definitions and byte order reads that file, as a type the value
/// fits, to a value with the same contents, whatever heap it reads into (as
/// long as the heap has room for the value's cells).
pub proof fn law_read_gives_back_write(writer: Runtime, reader: Runtime, v: ValueView, t: DType, path: Seq<char>)
    requires
        writer.heap@.len() <= usize::MAX,
        reader.structs@ == writer.structs@,
        reader.byte_order == writer.byte_order,
        file_of(reader.files@, path) == Some(serialized_bytes(writer, v)),
        serialized_bytes(writer, v).len() <= u64::MAX,
        ser(writer.structs@, writer.heap@, serialized_value(writer.heap@, v), writer.byte_order, Seq::empty(), depth_fuel(writer.heap@.len())).1,
        fits(writer.structs@, writer.heap@, serialized_value(writer.heap@, v), t, Seq::empty(), depth_fuel(writer.heap@.len())) is Some,
        reader.heap@.len() + cells_needed(writer.structs@, writer.heap@, serialized_value(writer.heap@, v), depth_fuel(writer.heap@.len()))
            <= usize::MAX,
    ensures
        ({
            let w = serialized_value(writer.heap@, v);
            let fuel = depth_fuel(writer.heap@.len());
            let bytes = file_of(reader.files@, path)->Some_0;
            let (st, r) = de(reader.structs@, bytes, t, reader.byte_order, DeState { pos: 0, heap: reader.heap@, read: Seq::empty() }, usize::MAX as nat);
            &&& r is Ok
            &&& st.pos == bytes.len()
            &&& pod_of(writer.structs@, writer.heap@, w, fuel) is Some
            &&& pod_of(reader.structs@, st.heap, r->Ok_0, fuel) == pod_of(writer.structs@, writer.heap@, w, fuel)
        }),
{
    law_read_back_written(
        writer.structs@,
        writer.heap@,
        serialized_value(writer.heap@, v),
        t,
        writer.byte_order,
        depth_fuel(writer.heap@.len()),
        reader.heap@,
        usize::MAX as nat,
    );
}

/// A value written with `sg::write(path, v)` is read back by
/// `sg::read<T>(path)` right after: where the write succeeds and `v` fits
/// `T`, the read succeeds and gives a value with the same contents (as long
/// as the heap has room for its cells).
pub proof fn law_read_after_write(
    before: Runtime,
    written: Runtime,
    after: Runtime,
    path: Seq<char>,
    v: ValueView,
    t: DataType,
    generics: Seq<DataType>,
    r_write: RuntimeResult<RuntimeValue>,
    r_read: RuntimeResult<RuntimeValue>,
)
    requires
        native_outcome(before, written, NativeFunction::Write, seq![ValueView::String(path), v], generics, r_write),
        native_outcome(written, after, NativeFunction::Read, seq![ValueView::String(path)], seq![t], r_read),
        r_write is Ok,
        before.heap@.len() <= usize::MAX,
        serialized_bytes(before, v).len() <= u64::MAX,
        fits(before.structs@, before.heap@, serialized_value(before.heap@, v), t@, Seq::empty(), depth_fuel(before.heap@.len())) is Some,
        before.heap@.len() + cells_needed(before.structs@, before.heap@, serialized_value(before.heap@, v), depth_fuel(before.heap@.len()))
            <= usize::MAX,
    ensures
        r_read is Ok,
        pod_of(after.structs@, after.heap@, r_read->Ok_0@, depth_fuel(before.heap@.len())) == pod_of(
            before.structs@,
            before.heap@,
            serialized_value(before.heap@, v),
            depth_fuel(before.heap@.len()),
        ),
{
    let args = seq![ValueView::String(path), v];
    assert(args[0] == ValueView::String(path));
    assert(args[1] == v);
    assert(seq![ValueView::String(path)][0] == ValueView::String(path));
    assert(written.structs == before.structs && written.heap == before.heap && written.byte_order == before.byte_order);
    assert(file_of(written.files@, path) == Some(serialized_bytes(before, v)));
    law_read_gives_back_write(before, written, v, t@, path);
}

/// Only structs marked `#[pod]` serialize: a struct whose definition is
/// missing or is not marked cannot be serialized, so writing it fails.
pub proof fn law_non_pod_struct_is_not_serialized(rt: Runtime, v: ValueView)
    requires
        serialized_value(rt.heap@, v) is Struct,
        !(struct_def(rt.structs@, serialized_value(rt.heap@, v)->Struct_definition) matches Some(d) && declared_pod(d)),
    ensures
        !serializes(rt, v),
{
}

/// Writing one value twice to a path leaves the same file: when
/// `sg::write(path, v)` succeeds, doing it again succeeds as well, and the
/// file at the path holds the same bytes after the second write as after the
/// first.
pub proof fn law_write_twice_same_file(
    before: Runtime,
    once: Runtime,
    twice: Runtime,
    args: Seq<ValueView>,
    generics: Seq<DataType>,
    r1: RuntimeResult<RuntimeValue>,
    r2: RuntimeResult<RuntimeValue>,
)
    requires
        native_outcome(before, once, NativeFunction::Write, args, generics, r1),
        native_outcome(once, twice, NativeFunction::Write, args, generics, r2),
        r1 is Ok,
    ensures
        r2 is Ok,
        file_of(twice.files@, args[0]->String_0) == file_of(once.files@, args[0]->String_0),
        file_of(twice.files@, args[0]->String_0) == Some(serialized_bytes(before, args[1])),
{
    assert(serialized_bytes(once, args[1]) == serialized_bytes(before, args[1]));
    assert(serializes(once, args[1]) == serializes(before, args[1]));
}

/// A reference is written as the value it points at: `sg::write(path, &x)`
/// succeeds exactly when `sg::write(path, x)` does, and both leave the same
/// bytes in the file.
pub proof fn law_write_through_reference(
    before: Runtime,
    by_ref: Runtime,
    by_value: Runtime,
    path: Seq<char>,
    cell: usize,
    generics: Seq<DataType>,
    r1: RuntimeResult<RuntimeValue>,
    r2: RuntimeResult<RuntimeValue>,
)
    requires
        cell < before.heap@.len(),
        !(before.heap@[cell as int] is Reference),
        native_outcome(before, by_ref, NativeFunction::Write, seq![ValueView::String(path), ValueView::Reference(cell)], generics, r1),
        native_outcome(before, by_value, NativeFunction::Write, seq![ValueView::String(path), before.heap@[cell as int]], generics, r2),
    ensures
        r1 is Ok <==> r2 is Ok,
        r1 is Ok ==> file_of(by_ref.files@, path) == file_of(by_value.files@, path),
{
    let x = before.heap@[cell as int];
    let a1 = seq![ValueView::String(path), ValueView::Reference(cell)];
    let a2 = seq![ValueView::String(path), x];
    assert(a1[0] == ValueView::String(path) && a1[1] == ValueView::Reference(cell));
    assert(a2[0] == ValueView::String(path) && a2[1] == x);
    assert(serialized_value(before.heap@, ValueView::Reference(cell)) == serialized_value(before.heap@, x));
    assert(serializes(before, ValueView::Reference(cell)) == serializes(before, x));
    assert(serialized_bytes(before, ValueView::Reference(cell)) == serialized_bytes(before, x));
}

/// Reading values one after another moves on through the file: a read of a
/// value from an open file handle leaves the handle where that value's bytes
/// end, and the next read of the same handle reads the bytes that follow,
/// leaving the handle that many bytes further on.
pub proof fn law_reads_move_on(
    before: Runtime,
    mid: Runtime,
    after: Runtime,
    args: Seq<RuntimeValue>,
    generics: Seq<DataType>,
    r1: RuntimeResult<RuntimeValue>,
    r2: RuntimeResult<RuntimeValue>,
    n: u64,
)
    requires
        args.len() > 0,
        generics.len() > 0,
        handle_of(before.heap@, args[0]@) == Some(n),
        handle_of(mid.heap@, args[0]@) == Some(n),
        n < before.file_handles@.len(),
        file_of(before.files@, before.file_handles@[n as int].path@) matches Some(c) && c.len() <= usize::MAX,
        builtin_handle_outcome(before, mid, BuiltinMethod::FileReadValue, args, generics, r1),
        builtin_handle_outcome(mid, after, BuiltinMethod::FileReadValue, args, generics, r2),
        r1 is Ok,
        r2 is Ok,
    ensures
        ({
            let size = static_size_of(before.structs@, generics[0]@, depth_fuel(before.structs@.len()))->Some_0;
            let contents = file_of(before.files@, before.file_handles@[n as int].path@)->Some_0;
            let p = before.file_handles@[n as int].position;
            let start = if p < contents.len() { p as int } else { contents.len() as int };
            &&& mid.file_handles@[n as int].position == start + size
            &&& after.file_handles@[n as int].position == start + 2 * size
            &&& r2->Ok_0@ == de(
                before.structs@,
                contents.subrange(start + size, start + 2 * size),
                generics[0]@,
                before.byte_order,
                DeState { pos: 0, heap: mid.heap@, read: Seq::empty() },
                usize::MAX as nat,
            ).1->Ok_0
        }),
{
    let size = static_size_of(before.structs@, generics[0]@, depth_fuel(before.structs@.len()))->Some_0;
    let handle = before.file_handles@[n as int];
    let contents = file_of(before.files@, handle.path@)->Some_0;
    crate::layout::lemma_static_size_nonneg(before.structs@, generics[0]@, depth_fuel(before.structs@.len()));
    let p = handle.position;
    let start = if p < contents.len() { p as int } else { contents.len() as int };
    assert(mid.file_handles@[n as int] == FileHandle { path: handle.path, open: handle.open, position: (start + size) as usize });
    assert(mid.files == before.files);
    assert(mid.structs == before.structs);
    assert(mid.byte_order == before.byte_order);
    let h2 = mid.file_handles@[n as int];
    assert(h2.path == handle.path);
    assert(file_of(mid.files@, h2.path@) == Some(contents));
    assert(h2.position == start + size);
    assert(start + size <= contents.len());
    let start2 = if h2.position < contents.len() { h2.position as int } else { contents.len() as int };
    assert(start2 == start + size);
    assert(after.file_handles@[n as int].position == start2 + size);
}

/// A number written as a literal reads back as that number: in decimal, in
/// hexadecimal after `0x` (or, with uppercase digits, after `0X`), in binary
/// after `0b`, and, where the type is signed, in decimal after `-` as its
/// negation.
pub proof fn law_literal_round_trip(n: nat)
    ensures
        literal_value(digits_of(n, 10), false) == Some(n as int),
        literal_value(digits_of(n, 10), true) == Some(n as int),
        literal_value(seq![48u8, 120u8] + digits_of(n, 16), false) == Some(n as int),
        literal_value(seq![48u8, 88u8] + upper_digits(digits_of(n, 16)), false) == Some(n as int),
        literal_value(seq![48u8, 98u8] + digits_of(n, 2), false) == Some(n as int),
        literal_value(seq![45u8] + digits_of(n, 10), true) == Some(-n),
{
    lemma_digits_of(n, 10);
    lemma_digits_of(n, 16);
    lemma_digits_of(n, 2);
    let d = digits_of(n, 10);
    assert(digit_of(d[0], 10) is Some);
    if d.len() >= 2 {
        assert(digit_of(d[1], 10) is Some);
    }
    let h = seq![48u8, 120u8] + digits_of(n, 16);
    assert(h.skip(2) =~= digits_of(n, 16));
    assert(digit_of(digits_of(n, 16)[0], 16) is Some);
    let u = upper_digits(digits_of(n, 16));
    lemma_upper_digits(digits_of(n, 16), 16);
    let hu = seq![48u8, 88u8] + u;
    assert(hu.skip(2) =~= u);
    assert(digit_of(u[0], 16) == digit_of(digits_of(n, 16)[0], 16));
    let b = seq![48u8, 98u8] + digits_of(n, 2);
    assert(b.skip(2) =~= digits_of(n, 2));
    assert(digit_of(digits_of(n, 2)[0], 2) is Some);
    let m = seq![45u8] + d;
    assert(m.drop_first() =~= d);
}

/// A table of file handles as plain values: path, whether open, position.
pub open spec fn handles_view(handles: Seq<FileHandle>) -> Seq<(Seq<char>, bool, usize)> {
    handles.map_values(|h: FileHandle| (h.path@, h.open, h.position))
}

/// `sg::open_file(path)` does what `FileHandle::new(path)` and then `.open()`
/// on the new handle do: the pair succeeds exactly when `sg::open_file`
/// does, and then both give the same handle and leave the same handles,
/// with the rest of the runtime as it was.
pub proof fn law_open_file_is_new_then_open(
    before: Runtime,
    opened: Runtime,
    r_open: RuntimeResult<RuntimeValue>,
    created: Runtime,
    r_new: RuntimeResult<RuntimeValue>,
    reopened: Runtime,
    r_reopen: RuntimeResult<RuntimeValue>,
    args: Seq<RuntimeValue>,
    handle_args: Seq<RuntimeValue>,
    generics: Seq<DataType>,
)
    requires
        args.len() == 1,
        args[0]@ is String,
        native_outcome(before, opened, NativeFunction::OpenFile, seq![args[0]@], generics, r_open),
        builtin_file_new_outcome(before, created, BuiltinMethod::FileNew, args, generics, r_new),
        r_new is Ok ==> handle_args.len() == 1 && handle_args[0]@ == r_new->Ok_0@,
        builtin_handle_outcome(created, reopened, BuiltinMethod::FileOpen, handle_args, generics, r_reopen),
    ensures
        r_new is Ok,
        r_open is Ok <==> r_reopen is Ok,
        r_open is Ok ==> {
            &&& r_open->Ok_0@ == r_new->Ok_0@
            &&& handles_view(opened.file_handles@) == handles_view(reopened.file_handles@)
            &&& opened == (Runtime { file_handles: opened.file_handles, ..reopened })
        },
{
    let n = before.file_handles@.len();
    assert(before.file_handles.len() == n);
    assert(n <= usize::MAX);
    assert(created.file_handles@.drop_last() == before.file_handles@);
    assert(created.files == before.files);
    assert(seq![args[0]@][0] == args[0]@);
    assert(handle_of(created.heap@, handle_args[0]@) == Some(n as u64));
    assert(created.file_handles@[n as int] == created.file_handles@.last());
    if r_open is Ok {
        assert(opened.file_handles@.drop_last() =~= before.file_handles@);
        let a = handles_view(opened.file_handles@);
        let b = handles_view(reopened.file_handles@);
        assert forall|k: int| 0 <= k < a.len() implies a[k] == b[k] by {
            if k < n {
                assert(opened.file_handles@[k] == opened.file_handles@.drop_last()[k]);
                assert(created.file_handles@[k] == created.file_handles@.drop_last()[k]);
            }
        }
        assert(a =~= b);
    }
}


/// `>` compares the numbers its operands stand for: where two integers
/// promote to a common type, `a > b` is true exactly when `a` is greater
/// than `b` as numbers, and it gives what `b < a` gives.
pub proof fn law_greater_than(h: Seq<ValueView>, a: ValueView, b: ValueView, gt: RuntimeResult<RuntimeValue>, lt: RuntimeResult<RuntimeValue>)
    requires
        promotion(h, a, b) is Some,
        binary_outcome(h, BinaryOperator::GreaterThan, a, b, gt),
        binary_outcome(h, BinaryOperator::LessThan, b, a, lt),
    ensures
        gt matches Ok(v) && v@ == ValueView::Bool(int_of(a) > int_of(b)),
        lt matches Ok(w) && gt matches Ok(v) && w@ == v@,
{
}

/// No integer is greater than itself, and each is at least itself: `x > x`
/// is false, `x >= x` and `x <= x` are true, `x < x` is false.
pub proof fn law_order_irreflexive(
    h: Seq<ValueView>,
    x: ValueView,
    gt: RuntimeResult<RuntimeValue>,
    ge: RuntimeResult<RuntimeValue>,
    lt: RuntimeResult<RuntimeValue>,
    le: RuntimeResult<RuntimeValue>,
)
    requires
        promotion(h, x, x) is Some,
        binary_outcome(h, BinaryOperator::GreaterThan, x, x, gt),
        binary_outcome(h, BinaryOperator::GreaterThanOrEqualTo, x, x, ge),
        binary_outcome(h, BinaryOperator::LessThan, x, x, lt),
        binary_outcome(h, BinaryOperator::LessThanOrEqualTo, x, x, le),
    ensures
        gt matches Ok(v) && v@ == ValueView::Bool(false),
        ge matches Ok(v) && v@ == ValueView::Bool(true),
        lt matches Ok(v) && v@ == ValueView::Bool(false),
        le matches Ok(v) && v@ == ValueView::Bool(true),
{
}

/// Two `s32` values compare as their numbers do under each ordering
/// operator.
pub proof fn law_s32_ordering(
    h: Seq<ValueView>,
    x: i32,
    y: i32,
    gt: RuntimeResult<RuntimeValue>,
    ge: RuntimeResult<RuntimeValue>,
    lt: RuntimeResult<RuntimeValue>,
    le: RuntimeResult<RuntimeValue>,
)
    requires
        binary_outcome(h, BinaryOperator::GreaterThan, ValueView::S32(x), ValueView::S32(y), gt),
        binary_outcome(h, BinaryOperator::GreaterThanOrEqualTo, ValueView::S32(x), ValueView::S32(y), ge),
        binary_outcome(h, BinaryOperator::LessThan, ValueView::S32(x), ValueView::S32(y), lt),
        binary_outcome(h, BinaryOperator::LessThanOrEqualTo, ValueView::S32(x), ValueView::S32(y), le),
    ensures
        gt matches Ok(v) && v@ == ValueView::Bool(x > y),
        ge matches Ok(v) && v@ == ValueView::Bool(x >= y),
        lt matches Ok(v) && v@ == ValueView::Bool(x < y),
        le matches Ok(v) && v@ == ValueView::Bool(x <= y),
{
    assert(value_type(h, ValueView::S32(x), h.len()) == Some(DType::S32));
    assert(value_type(h, ValueView::S32(y), h.len()) == Some(DType::S32));
    assert(promotion(h, ValueView::S32(x), ValueView::S32(y)) == Some((DType::S32, x as int, y as int)));
}

/// `==` on two strings is true exactly when the strings are the same, and
/// `!=` exactly when they differ.
pub proof fn law_string_equality(
    h: Seq<ValueView>,
    x: Seq<char>,
    y: Seq<char>,
    eq: RuntimeResult<RuntimeValue>,
    ne: RuntimeResult<RuntimeValue>,
)
    requires
        binary_outcome(h, BinaryOperator::EqualTo, ValueView::String(x), ValueView::String(y), eq),
        binary_outcome(h, BinaryOperator::NotEqualTo, ValueView::String(x), ValueView::String(y), ne),
    ensures
        eq matches Ok(v) && v@ == ValueView::Bool(x == y),
        ne matches Ok(v) && v@ == ValueView::Bool(x != y),
{
}

/// Structs compare field by field, by contents: where `a == b` holds for
/// two structs, each field of `a` has the same number of fields' position
/// and name in `b`, and a field holding a string in one holds the very same
/// string in the other, as `==` on those strings alone would say; so two
/// structs whose fields hold different strings are not equal.
pub proof fn law_struct_equality_compares_fields(
    h: Seq<ValueView>,
    a: ValueView,
    b: ValueView,
    res: RuntimeResult<RuntimeValue>,
    i: int,
)
    requires
        a is Struct,
        b is Struct,
        binary_outcome(h, BinaryOperator::EqualTo, a, b, res),
        res matches Ok(v) && v@ == ValueView::Bool(true),
        0 <= i < a->Struct_fields.len(),
    ensures
        i < b->Struct_fields.len(),
        a->Struct_fields[i].0 == b->Struct_fields[i].0,
        a->Struct_fields[i].1 < h.len() && b->Struct_fields[i].1 < h.len(),
        h[a->Struct_fields[i].1 as int] matches ValueView::String(s) ==> h[b->Struct_fields[i].1 as int] == ValueView::String(s),
        is_int(h[a->Struct_fields[i].1 as int]) || h[a->Struct_fields[i].1 as int] is Bool ==> h[b->Struct_fields[i].1 as int]
            == h[a->Struct_fields[i].1 as int],
{
    let f1 = a->Struct_fields;
    let f2 = b->Struct_fields;
    let fuel = depth_fuel(h.len());
    assert(crate::values::deep_eq(h, a, b, fuel));
    assert(f1[i].0 == f2[i].0);
    let x = h[f1[i].1 as int];
    let y = h[f2[i].1 as int];
    assert(crate::values::deep_eq(h, x, y, (fuel - 1) as nat));
    if let ValueView::String(t) = x {
        assert(y == ValueView::String(t));
    }
}

/// A field carrying `#[align(n)]`, with `n` a positive `s32` or `u32`
/// literal, starts at a multiple of `n`: writing the struct's member at
/// position `i` first adds fewer than `n` zeros, up to the next multiple of
/// `n` after what was written before, and the field's bytes follow there.
pub proof fn law_aligned_field_starts_on_multiple(
    defs: Seq<StructDefinition>,
    h: Seq<ValueView>,
    members: Seq<StructMember>,
    fields: Seq<(Seq<char>, usize)>,
    order: ByteOrder,
    out: Seq<u8>,
    fuel: nat,
    i: int,
    f: StructFieldDefinition,
    a: Attribute,
    n: usize,
)
    requires
        0 <= i < members.len(),
        members[i] == StructMember::Field(f),
        find_attr(f.attributes@, "align"@) == Some(a),
        0 < n <= i32::MAX,
        a.arguments@ == seq![Expression::Value(Value::S32(n as i32))] || a.arguments@ == seq![
            Expression::Value(Value::U32(n as u32)),
        ],
        field_cell(fields, f.identifier@) matches Some(c) && c < h.len(),
    ensures
        ({
            let k = pad_len(out.len(), Some(n));
            let c = field_cell(fields, f.identifier@)->Some_0;
            &&& k < n
            &&& (out.len() + k) % (n as nat) == 0
            &&& prefix_of(
                ser_field(defs, h, f, h[c as int], order, out + zeros(k), fuel).0,
                ser_members(defs, h, members, fields, order, out, fuel, i).0,
            )
        }),
{
    law_alignment(out.len(), n);
    assert(a.arguments@[0] == Expression::Value(Value::S32(n as i32)) || a.arguments@[0] == Expression::Value(Value::U32(n as u32)));
    assert(spec_alignment(f) == Some(Some(n)));
    let k = pad_len(out.len(), Some(n));
    let c = field_cell(fields, f.identifier@)->Some_0;
    let out1 = out + zeros(k);
    let (o, ok) = ser_field(defs, h, f, h[c as int], order, out1, fuel);
    assert(o.subrange(0, o.len() as int) =~= o);
    if ok {
        lemma_ser_members_extends(defs, h, members, fields, order, o, fuel, i + 1);
    }
}

/// Every value of a primitive type is written in as many bytes as the
/// type's static size: one for `bool`, `s8` and `u8`, two for `s16` and
/// `u16`, four for `s32` and `u32`, whatever was written before it.
pub proof fn law_static_size_is_written_size(
    defs: Seq<StructDefinition>,
    h: Seq<ValueView>,
    v: ValueView,
    t: DType,
    order: ByteOrder,
    out: Seq<u8>,
    fuel: nat,
    size_fuel: nat,
)
    requires
        v is S8 || v is U8 || v is Bool || v is S16 || v is U16 || v is S32 || v is U32,
        value_type(h, v, h.len()) == Some(t),
    ensures
        ser(defs, h, v, order, out, fuel).1,
        static_size_of(defs, t, size_fuel) == Some(ser(defs, h, v, order, out, fuel).0.len() - out.len()),
{
}

/// A `break` in a turn of a `for` loop over a range ends the loop: where the
/// turn for `i` breaks, the loop from `i` is done right after that turn,
/// with no later turn, and goes on to the next statement.
pub proof fn law_range_break_ends_loop(
    before: Runtime,
    mid: Runtime,
    name: Seq<char>,
    i: int,
    end: int,
    block: Block,
    fuel: u64,
)
    requires
        i < end,
        0 <= i <= usize::MAX,
        fuel > 0,
        for_turn_run(before, mid, name, ValueView::Usize(i as usize), block, (fuel - 1) as u64, Ok(ControlFlow::Break)),
    ensures
        range_run(before, mid, name, i, end, block, fuel, Ok(ControlFlow::Continue)),
{
}

/// A `return` in a turn of a `for` loop over a range ends the loop with that
/// return, right after the turn.
pub proof fn law_range_return_ends_loop(
    before: Runtime,
    mid: Runtime,
    name: Seq<char>,
    i: int,
    end: int,
    block: Block,
    fuel: u64,
    v: RuntimeValue,
)
    requires
        i < end,
        0 <= i <= usize::MAX,
        fuel > 0,
        for_turn_run(before, mid, name, ValueView::Usize(i as usize), block, (fuel - 1) as u64, Ok(ControlFlow::Return(v))),
    ensures
        range_run(before, mid, name, i, end, block, fuel, Ok(ControlFlow::Return(v))),
{
}

/// A `break` in a turn of a `for` loop over an array or an iterator ends
/// the loop right after that turn.
pub proof fn law_iteration_break_ends_loop(
    before: Runtime,
    bound: Runtime,
    mid: Runtime,
    name: Seq<char>,
    cells: Seq<usize>,
    by_reference: bool,
    block: Block,
    k: int,
    fuel: u64,
    v: ValueView,
)
    requires
        0 <= k < cells.len(),
        turn_value(before, bound, cells[k], by_reference, v),
        for_turn_run(bound, mid, name, v, block, fuel, Ok(ControlFlow::Break)),
    ensures
        iteration_run(before, mid, name, cells, by_reference, block, k, fuel, Ok(ControlFlow::Continue)),
{
}

/// A `break` in a turn of a `for` loop over an array written out element by
/// element ends the loop right after that turn.
pub proof fn law_element_break_ends_loop(
    before: Runtime,
    mid: Runtime,
    mid2: Runtime,
    name: Seq<char>,
    es: Seq<Expression>,
    k: int,
    block: Block,
    efuel: nat,
    fuel: u64,
    v: RuntimeValue,
)
    requires
        0 <= k < es.len(),
        eval_run(before, mid, es[k], efuel, Ok(v)),
        for_turn_run(mid, mid2, name, v@, block, fuel, Ok(ControlFlow::Break)),
    ensures
        elem_turns_run(before, mid2, name, es, k, block, efuel, fuel, Ok(ControlFlow::Continue)),
{
    let _ = crate::execution::step(mid, Ok::<RuntimeValue, crate::error::RuntimeError>(v));
}

/// A `break` in the block of a `loop` ends the loop right after that run of
/// the block.
pub proof fn law_loop_break_ends_loop(before: Runtime, mid: Runtime, block: Block, fuel: u64)
    requires
        fuel > 0,
        block_run(before, mid, block, (fuel - 1) as u64, Ok(ControlFlow::Break)),
    ensures
        loop_run(before, mid, block, fuel, Ok(ControlFlow::Continue)),
{
}

/// A `break` in the block of a `while` ends the loop right after that run of
/// the block, and a false condition ends it before the block runs.
pub proof fn law_while_break_ends_loop(
    before: Runtime,
    mid: Runtime,
    mid2: Runtime,
    e: Expression,
    block: Block,
    fuel: u64,
)
    requires
        fuel > 0,
        cond_run(before, mid, e, (fuel - 1) as u64, Ok(true)),
        block_run(mid, mid2, block, (fuel - 1) as u64, Ok(ControlFlow::Break)),
    ensures
        while_run(before, mid2, e, block, fuel, Ok(ControlFlow::Continue)),
{
}

/// A `while` whose condition is false does not run its block.
pub proof fn law_while_false_stops(before: Runtime, mid: Runtime, e: Expression, block: Block, fuel: u64)
    requires
        fuel > 0,
        cond_run(before, mid, e, (fuel - 1) as u64, Ok(false)),
    ensures
        while_run(before, mid, e, block, fuel, Ok(ControlFlow::Continue)),
{
}

/// `==` and `!=` on integers compare the numbers: where two integers promote
/// to a common type, `a == b` is true exactly when they stand for the same
/// number, and `a != b` is its negation.
pub proof fn law_integer_equality(
    h: Seq<ValueView>,
    a: ValueView,
    b: ValueView,
    eq: RuntimeResult<RuntimeValue>,
    ne: RuntimeResult<RuntimeValue>,
)
    requires
        promotion(h, a, b) is Some,
        binary_outcome(h, BinaryOperator::EqualTo, a, b, eq),
        binary_outcome(h, BinaryOperator::NotEqualTo, a, b, ne),
    ensures
        eq matches Ok(v) && v@ == ValueView::Bool(int_of(a) == int_of(b)),
        ne matches Ok(v) && v@ == ValueView::Bool(int_of(a) != int_of(b)),
{
}

/// Two structs of one definition whose fields, name by name in order, hold
/// the same integers, booleans or strings are equal under `==`.
pub proof fn law_struct_equality_of_equal_fields(h: Seq<ValueView>, a: ValueView, b: ValueView, res: RuntimeResult<RuntimeValue>)
    requires
        a is Struct && b is Struct,
        a->Struct_definition == b->Struct_definition,
        value_type(h, a, h.len()) is Some,
        value_type(h, b, h.len()) is Some,
        a->Struct_fields.len() == b->Struct_fields.len(),
        forall|i: int|
            0 <= i < a->Struct_fields.len() ==> {
                let x = #[trigger] a->Struct_fields[i];
                let y = b->Struct_fields[i];
                &&& x.0 == y.0
                &&& x.1 < h.len() && y.1 < h.len()
                &&& h[x.1 as int] == h[y.1 as int]
                &&& is_int(h[x.1 as int]) || h[x.1 as int] is Bool || h[x.1 as int] is String
            },
        binary_outcome(h, BinaryOperator::EqualTo, a, b, res),
    ensures
        res matches Ok(v) && v@ == ValueView::Bool(true),
{
    let fuel = depth_fuel(h.len());
    let f1 = a->Struct_fields;
    let f2 = b->Struct_fields;
    assert forall|i: int|
        0 <= i < f1.len() implies (#[trigger] f1[i]).0 == f2[i].0 && f1[i].1 < h.len() && f2[i].1 < h.len()
            && crate::values::deep_eq(h, h[f1[i].1 as int], h[f2[i].1 as int], (fuel - 1) as nat) by {
        let x = h[f1[i].1 as int];
        assert(crate::values::deep_eq(h, x, x, (fuel - 1) as nat));
    }
    assert(crate::values::deep_eq(h, a, b, fuel));
}

/// Arithmetic on two `s32` values is arithmetic on their numbers: the sum,
/// difference and product where they fit an `s32`, an overflow error where
/// they do not; for a non-negative dividend and a positive divisor, the
/// quotient and the remainder of the division; division by zero is an
/// error.
pub proof fn law_s32_arithmetic(
    h: Seq<ValueView>,
    x: i32,
    y: i32,
    add: RuntimeResult<RuntimeValue>,
    sub: RuntimeResult<RuntimeValue>,
    mul: RuntimeResult<RuntimeValue>,
    div: RuntimeResult<RuntimeValue>,
    rem: RuntimeResult<RuntimeValue>,
)
    requires
        binary_outcome(h, BinaryOperator::Add, ValueView::S32(x), ValueView::S32(y), add),
        binary_outcome(h, BinaryOperator::Subtract, ValueView::S32(x), ValueView::S32(y), sub),
        binary_outcome(h, BinaryOperator::Multiply, ValueView::S32(x), ValueView::S32(y), mul),
        binary_outcome(h, BinaryOperator::Divide, ValueView::S32(x), ValueView::S32(y), div),
        binary_outcome(h, BinaryOperator::Modulo, ValueView::S32(x), ValueView::S32(y), rem),
    ensures
        i32::MIN <= x + y <= i32::MAX ==> (add matches Ok(v) && v@ == ValueView::S32((x + y) as i32)),
        !(i32::MIN <= x + y <= i32::MAX) ==> (add matches Err(e) && e is ArithmeticOverflow),
        i32::MIN <= x - y <= i32::MAX ==> (sub matches Ok(v) && v@ == ValueView::S32((x - y) as i32)),
        !(i32::MIN <= x - y <= i32::MAX) ==> (sub matches Err(e) && e is ArithmeticOverflow),
        i32::MIN <= x * y <= i32::MAX ==> (mul matches Ok(v) && v@ == ValueView::S32((x * y) as i32)),
        y == 0 ==> (div matches Err(e) && e is DivisionByZero),
        y == 0 ==> (rem matches Err(e) && e is DivisionByZero),
        x >= 0 && y > 0 ==> (div matches Ok(v) && v@ == ValueView::S32((x / y) as i32)),
        x >= 0 && y > 0 ==> (rem matches Ok(v) && v@ == ValueView::S32((x % y) as i32)),
{
    assert(value_type(h, ValueView::S32(x), h.len()) == Some(DType::S32));
    assert(value_type(h, ValueView::S32(y), h.len()) == Some(DType::S32));
    assert(promotion(h, ValueView::S32(x), ValueView::S32(y)) == Some((DType::S32, x as int, y as int)));
    if x >= 0 && y > 0 {
        assert(0 <= x / y <= x) by (nonlinear_arith)
            requires
                x >= 0,
                y > 0,
        ;
        assert(0 <= x % y < y) by (nonlinear_arith)
            requires
                x >= 0,
                y > 0,
        ;
    }
}

/// `&&` and `||` on booleans are conjunction and disjunction; `!` is
/// negation; `-` on an `s32` other than the smallest negates it.
pub proof fn law_logic_and_negation(
    h: Seq<ValueView>,
    p: bool,
    q: bool,
    x: i32,
    and: RuntimeResult<RuntimeValue>,
    or: RuntimeResult<RuntimeValue>,
    not: RuntimeResult<RuntimeValue>,
    neg: RuntimeResult<RuntimeValue>,
)
    requires
        binary_outcome(h, BinaryOperator::LogicalAnd, ValueView::Bool(p), ValueView::Bool(q), and),
        binary_outcome(h, BinaryOperator::LogicalOr, ValueView::Bool(p), ValueView::Bool(q), or),
        unary_outcome(h, ValueView::Bool(p), UnaryOperator::LogicalNot, not),
        unary_outcome(h, ValueView::S32(x), UnaryOperator::Negate, neg),
    ensures
        and matches Ok(v) && v@ == ValueView::Bool(p && q),
        or matches Ok(v) && v@ == ValueView::Bool(p || q),
        not matches Ok(v) && v@ == ValueView::Bool(!p),
        x != i32::MIN ==> (neg matches Ok(v) && v@ == ValueView::S32((-x) as i32)),
{
    assert(value_type(h, ValueView::Bool(p), h.len()) == Some(DType::Bool));
    assert(value_type(h, ValueView::Bool(q), h.len()) == Some(DType::Bool));
}

/// Integers are written in their width, least significant byte first in
/// little-endian order and most significant first in big-endian order;
/// booleans as one byte, 1 for true and 0 for false; an `s8` as its two's
/// complement byte.
pub proof fn law_integer_bytes(
    defs: Seq<StructDefinition>,
    h: Seq<ValueView>,
    out: Seq<u8>,
    fuel: nat,
    x: u16,
    y: u32,
    b: bool,
    z: i8,
)
    ensures
        ser(defs, h, ValueView::U16(x), ByteOrder::Little, out, fuel).0 == out + seq![(x % 256) as u8, (x / 256) as u8],
        ser(defs, h, ValueView::U16(x), ByteOrder::Big, out, fuel).0 == out + seq![(x / 256) as u8, (x % 256) as u8],
        ser(defs, h, ValueView::U32(y), ByteOrder::Little, out, fuel).0 == out + seq![
            (y % 256) as u8,
            ((y / 256) % 256) as u8,
            ((y / 65536) % 256) as u8,
            (y / 16777216) as u8,
        ],
        ser(defs, h, ValueView::U32(y), ByteOrder::Big, out, fuel).0 == out + seq![
            (y / 16777216) as u8,
            ((y / 65536) % 256) as u8,
            ((y / 256) % 256) as u8,
            (y % 256) as u8,
        ],
        ser(defs, h, ValueView::Bool(b), ByteOrder::Little, out, fuel).0 == out.push(if b { 1u8 } else { 0u8 }),
        ser(defs, h, ValueView::S8(z), ByteOrder::Little, out, fuel).0 == out.push(if z < 0 { (z + 256) as u8 } else { z as u8 }),
{
    assert((x & 0xff) as u8 == (x % 256) as u8 && (x >> 8) as u8 == (x / 256) as u8) by (bit_vector);
    assert((y & 0xff) as u8 == (y % 256) as u8 && ((y >> 8) & 0xff) as u8 == ((y / 256) % 256) as u8 && ((y >> 16) & 0xff) as u8
        == ((y / 65536) % 256) as u8 && (y >> 24) as u8 == (y / 16777216) as u8) by (bit_vector);
    assert((z as u8) == (if z < 0 { (z + 256) as u8 } else { z as u8 })) by (bit_vector);
    assert(crate::serialization::u16_bytes(x, ByteOrder::Little) =~= seq![(x % 256) as u8, (x / 256) as u8]);
    assert(crate::serialization::u16_bytes(x, ByteOrder::Big) =~= seq![(x / 256) as u8, (x % 256) as u8]);
}

} // verus!
