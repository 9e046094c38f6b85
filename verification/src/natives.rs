//! The functions and methods the runtime provides to scripts: printing, the
//! byte order, serialization targets, arrays' iterators and files.
//!
//! Files live in the runtime's file table, which the host fills before a run
//! and writes back after it.
use vstd::prelude::*;

use crate::ast::{DataType, dt_name};
use crate::deserialization::{DeState, de, fault_is};
use crate::error::{RuntimeError, RuntimeResult};
use crate::runtime::{BuiltinMethod, FileHandle, NativeFunction, Runtime};
use crate::serialization::ByteOrder;
use crate::text::{decimal, str_eq, string_of, usize_to_decimal};
use crate::value::{
    Heap, NativeObject, RuntimeValue, ValueView, type_error_is, value_addrs_below, value_type,
};
use crate::layout::static_size_of;
use crate::serialization::{depth_fuel, ser_error, serialized_value};
use crate::values::all_below;

verus! {

/* ---------- printing ---------- */

/// The decimal notation of an integer, with a minus sign when negative.
pub open spec fn int_text(n: int) -> Seq<char> {
    if n < 0 {
        "-"@ + decimal((-n) as nat)
    } else {
        decimal(n as nat)
    }
}

fn int_to_text(n: i64) -> (s: String)
    requires
        -0x1_0000_0000 < n < 0x1_0000_0000,
    ensures
        s@ == int_text(n as int),
{
    proof {
        reveal_strlit("-");
    }
    if n < 0 {
        let digits = usize_to_decimal((-n) as usize);
        let mut s = string_of("-");
        s.append(digits.as_str());
        s
    } else {
        usize_to_decimal(n as usize)
    }
}

/// How `sg::print` shows one value: its type and its value; nothing for no
/// value; `None` when the value has no type.
pub open spec fn print_item(h: Seq<ValueView>, v: ValueView) -> Option<Seq<char>> {
    match v {
        ValueView::S8(i) => Some("s8: "@ + int_text(i as int)),
        ValueView::U8(i) => Some("u8: "@ + int_text(i as int)),
        ValueView::S16(i) => Some("s16: "@ + int_text(i as int)),
        ValueView::U16(i) => Some("u16: "@ + int_text(i as int)),
        ValueView::S32(i) => Some("s32: "@ + int_text(i as int)),
        ValueView::U32(i) => Some("u32: "@ + int_text(i as int)),
        ValueView::String(s) => Some("string: "@ + s),
        ValueView::Bool(b) => Some("bool: "@ + if b { "true"@ } else { "false"@ }),
        ValueView::NoValue => Some(Seq::empty()),
        _ => match value_type(h, v, h.len()) {
            Some(t) => Some("cannot print for type: "@ + dt_name(t)),
            None => None,
        },
    }
}

/// The line `sg::print` shows for its arguments: the items separated by
/// spaces.
pub open spec fn print_line(h: Seq<ValueView>, vals: Seq<ValueView>) -> Option<Seq<char>>
    decreases vals.len(),
{
    if vals.len() == 0 {
        Some(Seq::empty())
    } else {
        match (print_line(h, vals.drop_last()), print_item(h, vals.last())) {
            (Some(a), Some(b)) => Some(if vals.len() == 1 { b } else { a + " "@ + b }),
            _ => None,
        }
    }
}

/// A prefix that cannot be shown makes the whole line unshowable.
pub proof fn lemma_print_line_prefix(h: Seq<ValueView>, vals: Seq<ValueView>, k: int)
    requires
        0 <= k <= vals.len(),
        print_line(h, vals.take(k)) is None,
    ensures
        print_line(h, vals) is None,
    decreases vals.len() - k,
{
    if k < vals.len() {
        assert(vals.take(k + 1).drop_last() == vals.take(k));
        lemma_print_line_prefix(h, vals, k + 1);
    } else {
        assert(vals.take(k) == vals);
    }
}

fn print_value(heap: &Heap, v: &RuntimeValue) -> (r: RuntimeResult<String>)
    ensures
        r is Ok <==> print_item(heap@, v@) is Some,
        r matches Ok(s) ==> s@ == print_item(heap@, v@)->Some_0,
        r matches Err(e) ==> type_error_is(heap@, v@, heap@.len(), e),
{
    proof {
        reveal_strlit("s8: ");
        reveal_strlit("u8: ");
        reveal_strlit("s16: ");
        reveal_strlit("u16: ");
        reveal_strlit("s32: ");
        reveal_strlit("u32: ");
        reveal_strlit("string: ");
        reveal_strlit("bool: ");
        reveal_strlit("true");
        reveal_strlit("false");
        reveal_strlit("cannot print for type: ");
    }
    let (label, n): (&str, i64) = match v {
        RuntimeValue::S8(i) => ("s8: ", *i as i64),
        RuntimeValue::U8(i) => ("u8: ", *i as i64),
        RuntimeValue::S16(i) => ("s16: ", *i as i64),
        RuntimeValue::U16(i) => ("u16: ", *i as i64),
        RuntimeValue::S32(i) => ("s32: ", *i as i64),
        RuntimeValue::U32(i) => ("u32: ", *i as i64),
        RuntimeValue::String(s) => {
            let mut out = string_of("string: ");
            out.append(s.as_str());
            return Ok(out);
        },
        RuntimeValue::Bool(b) => {
            let mut out = string_of("bool: ");
            out.append(if *b { "true" } else { "false" });
            return Ok(out);
        },
        RuntimeValue::NoValue => {
            return Ok(String::new());
        },
        _ => {
            let t = v.data_type(heap)?;
            let mut out = string_of("cannot print for type: ");
            let name = t.name();
            out.append(name.as_str());
            return Ok(out);
        },
    };
    let mut out = string_of(label);
    let digits = int_to_text(n);
    out.append(digits.as_str());
    Ok(out)
}

/* ---------- files ---------- */

/// The contents of the file at a path in the table.
pub open spec fn file_of(files: Seq<(String, Vec<u8>)>, path: Seq<char>) -> Option<Seq<u8>>
    decreases files.len(),
{
    if files.len() == 0 {
        None
    } else if files.last().0@ == path {
        Some(files.last().1@)
    } else {
        file_of(files.drop_last(), path)
    }
}

fn find_file(files: &Vec<(String, Vec<u8>)>, path: &str) -> (r: Option<usize>)
    ensures
        r is Some <==> file_of(files@, path@) is Some,
        r matches Some(i) ==> i < files@.len() && files@[i as int].1@ == file_of(files@, path@)->Some_0,
{
    let mut i = files.len();
    assert(files@.take(i as int) == files@);
    while i > 0
        invariant
            i <= files@.len(),
            file_of(files@, path@) == file_of(files@.take(i as int), path@),
        decreases i,
    {
        assert(files@.take(i as int).drop_last() == files@.take(i - 1));
        if str_eq(files[i - 1].0.as_str(), path) {
            return Some(i - 1);
        }
        i = i - 1;
    }
    None
}

fn not_found(path: &String) -> (e: RuntimeError)
    ensures
        e is Io,
{
    let mut message = string_of("No such file: ");
    message.append(path.as_str());
    RuntimeError::Io(message)
}


/// Whether `serialize_into` can write a value: every part of it serializes.
pub open spec fn serializes(rt: Runtime, v: ValueView) -> bool {
    crate::serialization::ser(
        rt.structs@,
        rt.heap@,
        crate::serialization::serialized_value(rt.heap@, v),
        rt.byte_order,
        Seq::empty(),
        crate::serialization::depth_fuel(rt.heap@.len()),
    ).1
}

/// The bytes `serialize_into` gives for a value.
pub open spec fn serialized_bytes(rt: Runtime, v: ValueView) -> Seq<u8> {
    crate::serialization::ser(
        rt.structs@,
        rt.heap@,
        crate::serialization::serialized_value(rt.heap@, v),
        rt.byte_order,
        Seq::empty(),
        crate::serialization::depth_fuel(rt.heap@.len()),
    ).0
}

/// The named byte buffers, with names as characters.
pub open spec fn targets_view(ts: Seq<(String, Vec<u8>)>) -> Seq<(Seq<char>, Seq<u8>)> {
    ts.map_values(|p: (String, Vec<u8>)| (p.0@, p.1@))
}

/// The buffers without those of the given name, in order.
pub open spec fn without_name(ts: Seq<(Seq<char>, Seq<u8>)>, name: Seq<char>) -> Seq<(Seq<char>, Seq<u8>)>
    decreases ts.len(),
{
    if ts.len() == 0 {
        ts
    } else if ts.last().0 == name {
        without_name(ts.drop_last(), name)
    } else {
        without_name(ts.drop_last(), name).push(ts.last())
    }
}

fn string_argument(heap: &Heap, v: &RuntimeValue) -> (r: RuntimeResult<String>)
    ensures
        r is Ok <==> v@ is String,
        r matches Ok(s) ==> v@ == ValueView::String(s@),
        r matches Err(e) ==> (value_type(heap@, v@, heap@.len()) is Some ==> e is AnnotationError),
{
    match v {
        RuntimeValue::String(s) => Ok(s.clone()),
        _ => {
            let t = v.data_type(heap)?;
            Err(RuntimeError::AnnotationError { expected: string_of("string"), found: t.name() })
        },
    }
}

fn missing_arguments(name: &str, expected: usize, found: usize) -> (e: RuntimeError)
    ensures
        e matches RuntimeError::MissingNativeArguments { function_name, expected: x, found: y } && function_name@ == name@
            && x == expected && y == found,
{
    RuntimeError::MissingNativeArguments { function_name: String::from_str(name), expected, found }
}

fn missing_generics(name: &str, expected: usize, found: usize) -> (e: RuntimeError)
    ensures
        e matches RuntimeError::MissingNativeGenerics { function_name, expected: x, found: y } && function_name@ == name@
            && x == expected && y == found,
{
    RuntimeError::MissingNativeGenerics { function_name: String::from_str(name), expected, found }
}

impl Runtime {
    /// The bytes of a file in the table.
    fn read_file(&self, path: &String) -> (r: RuntimeResult<Vec<u8>>)
        ensures
            r is Ok <==> file_of(self.files@, path@) is Some,
            r matches Ok(b) ==> b@ == file_of(self.files@, path@)->Some_0,
            r matches Err(e) ==> e is Io,
    {
        match find_file(&self.files, path.as_str()) {
            Some(i) => Ok(self.files[i].1.clone()),
            None => Err(not_found(path)),
        }
    }

    /// The bytes of the serialization target with the given name; a target
    /// of that name is made, empty, where there is none.
    pub fn get_serialization_target(&mut self, target_name: &str) -> (r: &Vec<u8>)
        ensures
            file_of(old(self).serialization_targets@, target_name@) matches Some(b) ==> r@ == b
                && final(self).serialization_targets == old(self).serialization_targets,
            file_of(old(self).serialization_targets@, target_name@) is None ==> r@.len() == 0 && targets_view(
                final(self).serialization_targets@,
            ) == targets_view(old(self).serialization_targets@).push((target_name@, Seq::empty())),
            file_of(final(self).serialization_targets@, target_name@) == Some(r@),
            *final(self) == (Runtime { serialization_targets: final(self).serialization_targets, ..*old(self) }),
    {
        match find_file(&self.serialization_targets, target_name) {
            Some(i) => &self.serialization_targets[i].1,
            None => {
                let ghost before = self.serialization_targets@;
                self.serialization_targets.push((String::from_str(target_name), Vec::new()));
                assert(targets_view(self.serialization_targets@) =~= targets_view(before).push((target_name@, Seq::empty())));
                let last = self.serialization_targets.len() - 1;
                &self.serialization_targets[last].1
            },
        }
    }

    /// Puts a file into the table, replacing one at the same path.
    fn write_file(&mut self, path: String, bytes: Vec<u8>)
        ensures
            final(self).files@ == old(self).files@.push((path, bytes)),
            file_of(final(self).files@, path@) == Some(bytes@),
            *final(self) == (Runtime { files: final(self).files, ..*old(self) }),
    {
        self.files.push((path, bytes));
    }

    /// Sets the byte order from `"big"` or `"little"`.
    fn native_set_byte_order(&mut self, args: &Vec<RuntimeValue>) -> (r: RuntimeResult<RuntimeValue>)
        ensures
            r is Ok <==> args@.len() > 0 && (args@[0]@ == ValueView::String("big"@) || args@[0]@ == ValueView::String("little"@)),
            r is Ok ==> final(self).byte_order == (if args@[0]@ == ValueView::String("big"@) { ByteOrder::Big } else { ByteOrder::Little }),
            r matches Ok(v) ==> v@ is NoValue,
            r is Err ==> final(self).byte_order == old(self).byte_order,
            r matches Err(e) ==> (e matches RuntimeError::InvalidFunctionArguments { signature, .. } && signature@
                == "sg::set_byte_order(string)"@),
            *final(self) == (Runtime { byte_order: final(self).byte_order, ..*old(self) }),
    {
        proof {
            reveal_strlit("big");
            reveal_strlit("little");
        }
        if args.len() == 0 {
            return Err(RuntimeError::InvalidFunctionArguments {
                signature: string_of("sg::set_byte_order(string)"),
                note: string_of("Input needs to be [string]"),
            });
        }
        match &args[0] {
            RuntimeValue::String(input) => {
                if str_eq(input.as_str(), "big") {
                    self.set_byte_order(ByteOrder::Big);
                } else if str_eq(input.as_str(), "little") {
                    self.set_byte_order(ByteOrder::Little);
                } else {
                    return Err(RuntimeError::InvalidFunctionArguments {
                        signature: string_of("sg::set_byte_order(string)"),
                        note: string_of("The the byte order must either be \"big\" or \"little\""),
                    });
                }
            },
            _ => {
                return Err(RuntimeError::InvalidFunctionArguments {
                    signature: string_of("sg::set_byte_order(string)"),
                    note: string_of("Input needs to be [string]"),
                });
            },
        }
        Ok(RuntimeValue::NoValue)
    }

    /// Serializes a value (see `serialize_into`).
    fn checked_serialize(&self, value: &RuntimeValue) -> (r: RuntimeResult<Vec<u8>>)
        ensures
            r is Ok <==> serializes(*self, value@),
            r matches Ok(b) ==> b@ == serialized_bytes(*self, value@),
            r matches Err(e) ==> crate::serialization::ser_error(
                self.structs@,
                self.heap@,
                crate::serialization::serialized_value(self.heap@, value@),
                crate::serialization::depth_fuel(self.heap@.len()),
                e,
            ),
    {
        self.serialize_into(value)
    }

    /// Calls a native function.
    #[verifier::loop_isolation(false)]
    pub fn call_native(&mut self, native: NativeFunction, args: Vec<RuntimeValue>, generics: &Vec<DataType>) -> (r: RuntimeResult<RuntimeValue>)
        requires
            old(self).wf(),
            all_below(args@, old(self).heap@.len()),
        ensures
            final(self).wf(),
            final(self).stable(*old(self)),
            final(self).scopes_same(*old(self)),
            r matches Ok(v) ==> value_addrs_below(v@, final(self).heap@.len()),
            native_outcome(*old(self), *final(self), native, args@.map_values(|v: RuntimeValue| v@), generics@, r),

    {
        let ghost h0 = self.heap@;
        match native {
            NativeFunction::Print => {
                let mut line = String::new();
                let mut i: usize = 0;
                let ghost vals = args@.map_values(|v: RuntimeValue| v@);
                assert(vals.take(0) =~= Seq::<ValueView>::empty());
                while i < args.len()
                    invariant
                        i <= args@.len(),
                        vals == args@.map_values(|v: RuntimeValue| v@),
                        self.heap@ == h0,
                        print_line(h0, vals.take(i as int)) == Some(line@),
                    decreases args@.len() - i,
                {
                    assert(vals.take(i + 1).drop_last() == vals.take(i as int));
                    assert(vals.take(i + 1).last() == args@[i as int]@);
                    let item = match print_value(&self.heap, &args[i]) {
                        Ok(item) => item,
                        Err(e) => {
                            proof {
                                lemma_print_line_prefix(h0, vals, i + 1);
                            }
                            return Err(e);
                        },
                    };
                    if i > 0 {
                        line.append(" ");
                    }
                    line.append(item.as_str());
                    i = i + 1;
                }
                assert(vals.take(args@.len() as int) == vals);
                self.output.push(line);
                Ok(RuntimeValue::NoValue)
            },
            NativeFunction::SetByteOrder => self.native_set_byte_order(&args),
            NativeFunction::Write => {
                if args.len() < 2 {
                    return Err(missing_arguments("sg::write", 2, args.len()));
                }
                let path = string_argument(&self.heap, &args[0])?;
                let bytes = self.checked_serialize(&args[1])?;
                self.write_file(path, bytes);
                Ok(RuntimeValue::NoValue)
            },
            NativeFunction::Read => {
                if generics.len() < 1 {
                    return Err(missing_generics("sg::read", 1, generics.len()));
                }
                if args.len() < 1 {
                    return Err(missing_arguments("sg::read", 1, args.len()));
                }
                let path = string_argument(&self.heap, &args[0])?;
                let bytes = self.read_file(&path)?;
                let ghost before = *self;
                let r = self.deserialize(&generics[0], bytes.as_slice());
                proof {
                    Runtime::lemma_wf_same_scopes(before, *self);
                }
                r
            },
            NativeFunction::OpenFile => {
                if args.len() < 1 {
                    return Err(missing_arguments("sg::open_file", 1, args.len()));
                }
                let path = string_argument(&self.heap, &args[0])?;
                if find_file(&self.files, path.as_str()).is_none() {
                    return Err(not_found(&path));
                }
                let handle = self.file_handles.len() as u64;
                self.file_handles.push(FileHandle { path, open: true, position: 0 });
                Ok(RuntimeValue::NativeObject(NativeObject::File(handle)))
            },
            NativeFunction::CreateSerializationTarget => {
                if args.len() < 1 {
                    return Err(missing_arguments("sg::create_serialization_target", 1, args.len()));
                }
                let name = string_argument(&self.heap, &args[0])?;
                self.serialization_targets.push((name, Vec::new()));
                Ok(RuntimeValue::NoValue)
            },
            NativeFunction::DestroySerializationTarget => {
                if args.len() < 1 {
                    return Err(missing_arguments("sg::destroy_serialization_target", 1, args.len()));
                }
                let name = string_argument(&self.heap, &args[0])?;
                let mut kept: Vec<(String, Vec<u8>)> = Vec::new();
                let mut i: usize = 0;
                let ghost tv = targets_view(self.serialization_targets@);
                assert(targets_view(kept@) =~= without_name(tv.take(0), name@));
                while i < self.serialization_targets.len()
                    invariant
                        i <= self.serialization_targets@.len(),
                        tv == targets_view(self.serialization_targets@),
                        targets_view(kept@) == without_name(tv.take(i as int), name@),
                    decreases self.serialization_targets@.len() - i,
                {
                    assert(tv.take(i + 1).drop_last() =~= tv.take(i as int));
                    assert(tv.take(i + 1).last() == tv[i as int]);
                    if !str_eq(self.serialization_targets[i].0.as_str(), name.as_str()) {
                        let ghost prev = kept@;
                        let bytes = self.serialization_targets[i].1.clone();
                        assert(bytes@ =~= self.serialization_targets@[i as int].1@);
                        kept.push((self.serialization_targets[i].0.clone(), bytes));
                        assert(targets_view(kept@) =~= targets_view(prev).push(tv[i as int]));
                    }
                    i = i + 1;
                }
                assert(tv.take(i as int) =~= tv);
                self.serialization_targets = kept;
                Ok(RuntimeValue::NoValue)
            },
            NativeFunction::SerializeToTarget => {
                if args.len() < 2 {
                    return Err(missing_arguments("sg::serialize_to_target", 2, args.len()));
                }
                let name = string_argument(&self.heap, &args[0])?;
                let bytes = self.checked_serialize(&args[1])?;
                self.serialization_targets.push((name, bytes));
                Ok(RuntimeValue::NoValue)
            },
        }
    }
}

/// What a native function does, by the function: its result and what it
/// changes, from the runtime `before` the call to the runtime `after` it.
pub open spec fn native_outcome(
    before: Runtime,
    after: Runtime,
    native: NativeFunction,
    args: Seq<ValueView>,
    generics: Seq<DataType>,
    r: RuntimeResult<RuntimeValue>,
) -> bool {
    &&& (native == NativeFunction::Print ==> {
        &&& (r is Ok <==> print_line(before.heap@, args) is Some)
        &&& (r matches Ok(v) ==> v@ is NoValue && after.output@.len() == before.output@.len() + 1
            && after.output@.last()@ == print_line(before.heap@, args)->Some_0)
    })
    &&& (native == NativeFunction::Write ==> {
        &&& (r is Ok <==> args.len() >= 2 && args[0] is String && serializes(
            before,
            args[1],
        ))
        &&& (r matches Ok(v) ==> v@ is NoValue && after.files@.len() == before.files@.len() + 1
            && after.files@.drop_last() =~= before.files@
            && after.files@.last().0@ == args[0]->String_0
            && after.files@.last().1@ == serialized_bytes(before, args[1]))
        &&& (r is Ok ==> file_of(after.files@, args[0]->String_0) == Some(serialized_bytes(before, args[1])))
        &&& (args.len() < 2 ==> (r matches Err(e) && e is MissingNativeArguments))
        &&& (args.len() >= 2 && !(args[0] is String) && value_type(before.heap@, args[0], before.heap@.len()) is Some ==> (r matches Err(
            e,
        ) && e is AnnotationError))
        &&& (args.len() >= 2 && args[0] is String ==> (r matches Err(e) ==> ser_error(
            before.structs@,
            before.heap@,
            serialized_value(before.heap@, args[1]),
            depth_fuel(before.heap@.len()),
            e,
        )))
        &&& (r is Err ==> after.files == before.files)
        &&& after == (Runtime { files: after.files, ..before })
    })
    &&& (native == NativeFunction::SetByteOrder ==> {
        &&& (r is Ok <==> args.len() > 0 && (args[0] == ValueView::String("big"@) || args[0] == ValueView::String(
            "little"@,
        )))
        &&& (r matches Ok(v) ==> v@ is NoValue && after.byte_order == (if args[0] == ValueView::String("big"@) {
            ByteOrder::Big
        } else {
            ByteOrder::Little
        }))
        &&& (r is Err ==> after.byte_order == before.byte_order)
        &&& (r matches Err(e) ==> (e matches RuntimeError::InvalidFunctionArguments { signature, .. } && signature@
            == "sg::set_byte_order(string)"@))
        &&& after == (Runtime { byte_order: after.byte_order, ..before })
    })
    &&& (native == NativeFunction::OpenFile ==> {
        &&& (r is Ok <==> args.len() >= 1 && args[0] is String && file_of(before.files@, args[0]->String_0) is Some)
        &&& (r matches Ok(v) ==> v@ == ValueView::NativeObject(NativeObject::File(before.file_handles@.len() as u64))
            && after.file_handles@.len() == before.file_handles@.len() + 1
            && after.file_handles@.drop_last() =~= before.file_handles@
            && after.file_handles@.last().path@ == args[0]->String_0
            && after.file_handles@.last().open && after.file_handles@.last().position == 0)
        &&& (args.len() < 1 ==> (r matches Err(e) && e is MissingNativeArguments))
        &&& (args.len() >= 1 && !(args[0] is String) && value_type(before.heap@, args[0], before.heap@.len()) is Some ==> (r matches Err(
            e,
        ) && e is AnnotationError))
        &&& (args.len() >= 1 && args[0] is String && file_of(before.files@, args[0]->String_0) is None ==> (r matches Err(e)
            && e is Io))
        &&& (r is Err ==> after.file_handles == before.file_handles)
        &&& after == (Runtime { file_handles: after.file_handles, ..before })
    })
    &&& (native == NativeFunction::CreateSerializationTarget ==> {
        &&& (r is Ok <==> args.len() >= 1 && args[0] is String)
        &&& (r matches Ok(v) ==> v@ is NoValue && targets_view(after.serialization_targets@) =~= targets_view(
            before.serialization_targets@,
        ).push((args[0]->String_0, Seq::empty())))
        &&& (r is Err ==> after.serialization_targets == before.serialization_targets)
        &&& after == (Runtime { serialization_targets: after.serialization_targets, ..before })
    })
    &&& (native == NativeFunction::DestroySerializationTarget ==> {
        &&& (r is Ok <==> args.len() >= 1 && args[0] is String)
        &&& (r matches Ok(v) ==> v@ is NoValue && targets_view(after.serialization_targets@) =~= without_name(
            targets_view(before.serialization_targets@),
            args[0]->String_0,
        ))
        &&& (r is Err ==> after.serialization_targets == before.serialization_targets)
        &&& after == (Runtime { serialization_targets: after.serialization_targets, ..before })
    })
    &&& (native == NativeFunction::SerializeToTarget ==> {
        &&& (r is Ok <==> args.len() >= 2 && args[0] is String && serializes(
            before,
            args[1],
        ))
        &&& (r matches Ok(v) ==> v@ is NoValue && targets_view(after.serialization_targets@) =~= targets_view(
            before.serialization_targets@,
        ).push((args[0]->String_0, serialized_bytes(before, args[1]))))
        &&& (r is Err ==> after.serialization_targets == before.serialization_targets)
        &&& after == (Runtime { serialization_targets: after.serialization_targets, ..before })
    })
    &&& (native == NativeFunction::Read ==> {
        let ready = generics.len() >= 1 && args.len() >= 1 && args[0] is String && file_of(
            before.files@,
            args[0]->String_0,
        ) is Some;
        &&& (r is Ok ==> ready)
        &&& (generics.len() < 1 ==> (r matches Err(RuntimeError::MissingNativeGenerics { function_name, expected, found })
            && function_name@ == "sg::read"@ && expected == 1 && found == 0))
        &&& (generics.len() >= 1 && args.len() < 1 ==> (r matches Err(
            RuntimeError::MissingNativeArguments { function_name, expected, found },
        ) && function_name@ == "sg::read"@ && expected == 1 && found == 0))
        &&& (generics.len() >= 1 && args.len() >= 1 && !(args[0] is String) && value_type(before.heap@, args[0], before.heap@.len())
            is Some ==> (r matches Err(e) && e is AnnotationError))
        &&& (generics.len() >= 1 && args.len() >= 1 && args[0] is String && file_of(before.files@, args[0]->String_0) is None
            ==> (r matches Err(e) && e is Io))
        &&& (ready ==> {
            let (st, res) = de(
                before.structs@,
                file_of(before.files@, args[0]->String_0)->Some_0,
                generics[0]@,
                before.byte_order,
                DeState { pos: 0, heap: before.heap@, read: Seq::empty() },
                usize::MAX as nat,
            );
            &&& after.heap@ == st.heap
            &&& (r is Ok <==> res is Ok)
            &&& (r matches Ok(v) ==> v@ == res->Ok_0)
            &&& (r matches Err(e) ==> fault_is(e, res->Err_0))
        })
        &&& after == (Runtime { heap: after.heap, ..before })
    })
}

/// The file handle a value is, or that a reference points at.
pub open spec fn handle_of(heap: Seq<ValueView>, v: ValueView) -> Option<u64> {
    match v {
        ValueView::NativeObject(NativeObject::File(h)) => Some(h),
        ValueView::Reference(a) => if a < heap.len() {
            match heap[a as int] {
                ValueView::NativeObject(NativeObject::File(h)) => Some(h),
                _ => None,
            }
        } else {
            None
        },
        _ => None,
    }
}

/// The array a value is, or that a reference points at.
pub open spec fn array_of(heap: Seq<ValueView>, v: ValueView) -> Option<ValueView> {
    let target = match v {
        ValueView::Reference(a) => if a < heap.len() {
            heap[a as int]
        } else {
            v
        },
        _ => v,
    };
    if target is Array {
        Some(target)
    } else {
        None
    }
}

/// The handle a file-handle method is called on: the handle itself or a
/// reference to it.
fn handle_argument(heap: &Heap, v: &RuntimeValue) -> (r: RuntimeResult<u64>)
    ensures
        r is Ok <==> handle_of(heap@, v@) is Some,
        r matches Ok(h) ==> handle_of(heap@, v@) == Some(h),
{
    match v {
        RuntimeValue::NativeObject(NativeObject::File(h)) => Ok(*h),
        RuntimeValue::Reference(a) => {
            if *a >= heap.len() {
                return Err(RuntimeError::ReferenceCycle);
            }
            match heap.read(*a) {
                RuntimeValue::NativeObject(NativeObject::File(h)) => Ok(*h),
                other => {
                    let t = other.data_type(heap)?;
                    Err(RuntimeError::AnnotationError { expected: string_of("sg::FileHandle"), found: t.name() })
                },
            }
        },
        other => {
            let t = other.data_type(heap)?;
            Err(RuntimeError::AnnotationError { expected: string_of("sg::FileHandle"), found: t.name() })
        },
    }
}

/// The iterator over an array (over the array a reference points at): it
/// shares the array's cells.
fn array_iterator(heap: &Heap, v: &RuntimeValue) -> (r: RuntimeResult<RuntimeValue>)
    ensures
        r is Ok <==> array_of(heap@, v@) is Some,
        r matches Ok(it) ==> array_of(heap@, v@) matches Some(ValueView::Array { inner_data_type, contents })
            && it@ == (ValueView::Iterator { inner_data_type, contents }),
{
    let target = match v {
        RuntimeValue::Reference(a) => {
            if *a >= heap.len() {
                return Err(RuntimeError::ReferenceCycle);
            }
            heap.read(*a)
        },
        _ => v,
    };
    match target {
        RuntimeValue::Array { inner_data_type, contents } => Ok(RuntimeValue::Iterator {
            inner_data_type: clone_data_type_local(inner_data_type),
            contents: crate::value::clone_cells(contents),
        }),
        other => {
            let t = other.data_type(heap)?;
            Err(RuntimeError::CannotInvokeMethodOnType(t.name()))
        },
    }
}

fn clone_data_type_local(d: &DataType) -> (r: DataType)
    ensures
        r@ == d@,
{
    crate::ast::clone_data_type(d)
}

/// Without arguments, a method fails and changes nothing.
pub open spec fn builtin_without_arguments(
    before: Runtime,
    after: Runtime,
    method: BuiltinMethod,
    args: Seq<RuntimeValue>,
    generics: Seq<DataType>,
    r: RuntimeResult<RuntimeValue>,
) -> bool {
    args.len() == 0 ==> r is Err && after == before
}

/// What `iter` on an array gives: an iterator over its cells.
pub open spec fn builtin_iterator_outcome(
    before: Runtime,
    after: Runtime,
    method: BuiltinMethod,
    args: Seq<RuntimeValue>,
    generics: Seq<DataType>,
    r: RuntimeResult<RuntimeValue>,
) -> bool {
    method == BuiltinMethod::ArrayIterator && args.len() > 0 ==> {
        &&& (r is Ok <==> array_of(before.heap@, args[0]@) is Some)
        &&& (r matches Ok(it) ==> array_of(before.heap@, args[0]@) matches Some(
            ValueView::Array { inner_data_type, contents },
        ) && it@ == (ValueView::Iterator { inner_data_type, contents }))
        &&& after == before
    }
}

/// What `FileHandle::new` does: a closed handle on the path, at position zero.
pub open spec fn builtin_file_new_outcome(
    before: Runtime,
    after: Runtime,
    method: BuiltinMethod,
    args: Seq<RuntimeValue>,
    generics: Seq<DataType>,
    r: RuntimeResult<RuntimeValue>,
) -> bool {
    method == BuiltinMethod::FileNew && args.len() > 0 ==> {
        &&& (r is Ok <==> args[0]@ is String)
        &&& (r matches Ok(v) ==> v@ == ValueView::NativeObject(NativeObject::File(before.file_handles@.len() as u64))
            && after.file_handles@.len() == before.file_handles@.len() + 1
            && after.file_handles@.drop_last() =~= before.file_handles@
            && after.file_handles@.last().path@ == args[0]@->String_0
            && !after.file_handles@.last().open && after.file_handles@.last().position == 0)
        &&& (r is Err ==> after == before)
        &&& after == (Runtime { file_handles: after.file_handles, ..before })
    }
}

/// What calling a built-in method with `args` (the receiver first) does:
/// each of its outcomes.
pub open spec fn builtin_call(
    before: Runtime,
    after: Runtime,
    method: BuiltinMethod,
    args: Seq<RuntimeValue>,
    generics: Seq<DataType>,
    r: RuntimeResult<RuntimeValue>,
) -> bool {
    &&& builtin_without_arguments(before, after, method, args, generics, r)
    &&& builtin_iterator_outcome(before, after, method, args, generics, r)
    &&& builtin_file_new_outcome(before, after, method, args, generics, r)
    &&& builtin_handle_outcome(before, after, method, args, generics, r)
}

/// What the methods of a file handle do: close, open, delete, rename, and the two reads.
pub open spec fn builtin_handle_outcome(
    before: Runtime,
    after: Runtime,
    method: BuiltinMethod,
    args: Seq<RuntimeValue>,
    generics: Seq<DataType>,
    r: RuntimeResult<RuntimeValue>,
) -> bool {
    method != BuiltinMethod::ArrayIterator && method != BuiltinMethod::FileNew && args.len() > 0 ==> {
        let h = handle_of(before.heap@, args[0]@);
        let known = h matches Some(n) && n < before.file_handles@.len();
        let handle = before.file_handles@[h->Some_0 as int];
        let file = file_of(before.files@, handle.path@);
        &&& (!known ==> r is Err && after == before)
        &&& (known && method == BuiltinMethod::FileClose ==> {
            &&& r matches Ok(v) && v@ is NoValue
            &&& after == (Runtime { file_handles: after.file_handles, ..before })
            &&& after.file_handles@ =~= before.file_handles@.update(
                h->Some_0 as int,
                FileHandle { path: handle.path, open: false, position: handle.position },
            )
        })
        &&& (known && method == BuiltinMethod::FileOpen ==> {
            &&& (r is Ok <==> file is Some)
            &&& (r matches Ok(v) ==> v@ is NoValue && after.file_handles@ =~= before.file_handles@.update(
                h->Some_0 as int,
                FileHandle { path: handle.path, open: true, position: 0 },
            ))
            &&& (r is Err ==> after == before)
            &&& after == (Runtime { file_handles: after.file_handles, ..before })
        })
        &&& (known && method == BuiltinMethod::FileDelete ==> {
            &&& (r is Ok <==> !handle.open && file is Some)
            &&& (r matches Ok(v) ==> v@ is NoValue && targets_view(after.files@) =~= without_name(
                targets_view(before.files@),
                handle.path@,
            ))
            &&& (r is Err ==> after == before)
            &&& after == (Runtime { files: after.files, ..before })
        })
        &&& (known && method == BuiltinMethod::FileRename ==> {
            &&& (r is Ok <==> args.len() >= 2 && args[1]@ is String && !handle.open && file is Some)
            &&& (r matches Ok(v) ==> v@ is NoValue && targets_view(after.files@) =~= without_name(
                targets_view(before.files@),
                handle.path@,
            ).push((args[1]@->String_0, file->Some_0)) && after.file_handles@.len() == before.file_handles@.len()
                && after.file_handles@[h->Some_0 as int].path@ == args[1]@->String_0
                && after.file_handles@[h->Some_0 as int].open == handle.open
                && after.file_handles@[h->Some_0 as int].position == handle.position
                && forall|k: int| 0 <= k < before.file_handles@.len() && k != h->Some_0 ==> #[trigger] after.file_handles@[k] == before.file_handles@[k])
            &&& (r is Err ==> after == before)
            &&& after == (Runtime { files: after.files, file_handles: after.file_handles, ..before })
        })
        &&& (known && (method == BuiltinMethod::FileRead || method == BuiltinMethod::FileReadValue) ==> {
            let ready = generics.len() >= 1 && handle.open && file is Some;
            let contents = file->Some_0;
            let start = if handle.position < contents.len() { handle.position as int } else { contents.len() as int };
            let size = static_size_of(before.structs@, generics[0]@, depth_fuel(before.structs@.len()));
            let end = if method == BuiltinMethod::FileReadValue { start + size->Some_0 } else { contents.len() as int };
            let reads = method == BuiltinMethod::FileRead || (size is Some && end <= contents.len());
            &&& (r is Ok ==> ready && reads)
            &&& (!ready || (method == BuiltinMethod::FileReadValue && size is None) ==> r is Err && after == before)
            &&& (generics.len() < 1 ==> (r matches Err(RuntimeError::MissingNativeGenerics { function_name, expected, found })
                && function_name@ == (if method == BuiltinMethod::FileRead {
                "sg::FileHandle::read"@
            } else {
                "sg::FileHandle::read_value"@
            }) && expected == 1 && found == 0))
            &&& (generics.len() >= 1 && !handle.open ==> (r matches Err(RuntimeError::NativeError(m)) && m@ == "file is closed"@))
            &&& (ready && method == BuiltinMethod::FileReadValue && size is Some && end > contents.len() ==> {
                &&& r matches Err(e) && e is Io
                &&& after == (Runtime { file_handles: after.file_handles, ..before })
                &&& after.file_handles@ =~= before.file_handles@.update(
                    h->Some_0 as int,
                    FileHandle { path: handle.path, open: handle.open, position: contents.len() as usize },
                )
            })
            &&& (ready && reads ==> {
                let (st, res) = de(
                    before.structs@,
                    contents.subrange(start, end),
                    generics[0]@,
                    before.byte_order,
                    DeState { pos: 0, heap: before.heap@, read: Seq::empty() },
                    usize::MAX as nat,
                );
                &&& after.heap@ =~= st.heap
                &&& (r is Ok <==> res is Ok)
                &&& (r matches Ok(v) ==> v@ == res->Ok_0)
                &&& (r matches Err(e) ==> fault_is(e, res->Err_0))
                &&& after.file_handles@ =~= before.file_handles@.update(
                    h->Some_0 as int,
                    FileHandle { path: handle.path, open: handle.open, position: end as usize },
                )
                &&& after == (Runtime { heap: after.heap, file_handles: after.file_handles, ..before })
            })
        })
    }
}

impl Runtime {
    fn handle_index(&self, h: u64) -> (r: RuntimeResult<usize>)
        ensures
            r is Ok <==> h < self.file_handles@.len(),
            r matches Ok(i) ==> i < self.file_handles@.len() && i == h,
    {
        if h < self.file_handles.len() as u64 {
            Ok(h as usize)
        } else {
            Err(RuntimeError::NativeError(string_of("unknown file handle")))
        }
    }

    fn set_handle(&mut self, i: usize, handle: FileHandle)
        requires
            i < old(self).file_handles@.len(),
        ensures
            final(self).file_handles@ == old(self).file_handles@.update(i as int, handle),
            *final(self) == (Runtime { file_handles: final(self).file_handles, ..*old(self) }),
    {
        self.file_handles.set(i, handle);
    }

    fn remove_file(&mut self, path: &String) -> (r: RuntimeResult<()>)
        ensures
            r is Ok <==> file_of(old(self).files@, path@) is Some,
            r is Ok ==> targets_view(final(self).files@) == without_name(targets_view(old(self).files@), path@),
            r is Ok ==> file_of(final(self).files@, path@) is None,
            r is Err ==> final(self).files == old(self).files,
            *final(self) == (Runtime { files: final(self).files, ..*old(self) }),
    {
        if find_file(&self.files, path.as_str()).is_none() {
            return Err(not_found(path));
        }
        let mut kept: Vec<(String, Vec<u8>)> = Vec::new();
        let mut i: usize = 0;
        let ghost tv = targets_view(self.files@);
        assert(targets_view(kept@) =~= without_name(tv.take(0), path@));
        while i < self.files.len()
            invariant
                i <= self.files@.len(),
                file_of(kept@, path@) is None,
                tv == targets_view(self.files@),
                targets_view(kept@) == without_name(tv.take(i as int), path@),
            decreases self.files@.len() - i,
        {
            assert(tv.take(i + 1).drop_last() =~= tv.take(i as int));
            assert(tv.take(i + 1).last() == tv[i as int]);
            if !str_eq(self.files[i].0.as_str(), path.as_str()) {
                let ghost prev = kept@;
                let bytes = self.files[i].1.clone();
                assert(bytes@ =~= self.files@[i as int].1@);
                kept.push((self.files[i].0.clone(), bytes));
                assert(kept@.drop_last() == prev);
                assert(targets_view(kept@) =~= targets_view(prev).push(tv[i as int]));
            }
            i = i + 1;
        }
        assert(tv.take(i as int) =~= tv);
        self.files = kept;
        Ok(())
    }

    /// Calls a method of a built-in type; the receiver is the first argument.
    #[verifier::loop_isolation(false)]
    pub fn call_builtin(&mut self, method: BuiltinMethod, args: Vec<RuntimeValue>, generics: &Vec<DataType>) -> (r: RuntimeResult<RuntimeValue>)
        requires
            old(self).wf(),
            all_below(args@, old(self).heap@.len()),
        ensures
            final(self).wf(),
            final(self).stable(*old(self)),
            final(self).scopes_same(*old(self)),
            r matches Ok(v) ==> value_addrs_below(v@, final(self).heap@.len()),
            builtin_without_arguments(*old(self), *final(self), method, args@, generics@, r),
            builtin_iterator_outcome(*old(self), *final(self), method, args@, generics@, r),
            builtin_file_new_outcome(*old(self), *final(self), method, args@, generics@, r),
            builtin_handle_outcome(*old(self), *final(self), method, args@, generics@, r),
    {
        if args.len() == 0 {
            return Err(missing_arguments("a method", 1, 0));
        }
        match method {
            BuiltinMethod::ArrayIterator => {
                let r = array_iterator(&self.heap, &args[0]);
                proof {
                    assert(value_addrs_below(args@[0]@, self.heap@.len()));
                    if args@[0]@ is Reference {
                        assert(value_addrs_below(self.heap@[args@[0]@->Reference_0 as int], self.heap@.len()));
                    }
                }
                r
            },
            BuiltinMethod::FileNew => {
                let path = string_argument(&self.heap, &args[0])?;
                let handle = self.file_handles.len() as u64;
                self.file_handles.push(FileHandle { path, open: false, position: 0 });
                Ok(RuntimeValue::NativeObject(NativeObject::File(handle)))
            },
            _ => {
                let h = handle_argument(&self.heap, &args[0])?;
                let i = self.handle_index(h)?;
                let path = self.file_handles[i].path.clone();
                let open = self.file_handles[i].open;
                let position = self.file_handles[i].position;
                match method {
                    BuiltinMethod::FileClose => {
                        self.set_handle(i, FileHandle { path, open: false, position });
                        Ok(RuntimeValue::NoValue)
                    },
                    BuiltinMethod::FileOpen => {
                        if find_file(&self.files, path.as_str()).is_none() {
                            return Err(not_found(&path));
                        }
                        self.set_handle(i, FileHandle { path, open: true, position: 0 });
                        Ok(RuntimeValue::NoValue)
                    },
                    BuiltinMethod::FileDelete => {
                        if open {
                            return Err(RuntimeError::NativeError(string_of("cannot delete an open file")));
                        }
                        self.remove_file(&path)?;
                        Ok(RuntimeValue::NoValue)
                    },
                    BuiltinMethod::FileRename => {
                        if args.len() < 2 {
                            return Err(missing_arguments("sg::FileHandle::rename", 2, args.len()));
                        }
                        let new_path = string_argument(&self.heap, &args[1])?;
                        if open {
                            return Err(RuntimeError::NativeError(string_of("cannot rename an open file")));
                        }
                        let bytes = self.read_file(&path)?;
                        self.remove_file(&path)?;
                        self.write_file(new_path.clone(), bytes);
                        self.set_handle(i, FileHandle { path: new_path, open, position });
                        Ok(RuntimeValue::NoValue)
                    },
                    _ => {
                        if generics.len() < 1 {
                            if method == BuiltinMethod::FileRead {
                                return Err(missing_generics("sg::FileHandle::read", 1, generics.len()));
                            }
                            return Err(missing_generics("sg::FileHandle::read_value", 1, generics.len()));
                        }
                        if !open {
                            return Err(RuntimeError::NativeError(string_of("file is closed")));
                        }
                        let contents = self.read_file(&path)?;
                        let start = if position < contents.len() {
                            position
                        } else {
                            contents.len()
                        };
                        let end = if method == BuiltinMethod::FileReadValue {
                            let size = generics[0].static_size(self)?;
                            if size > contents.len() - start {
                                self.set_handle(i, FileHandle { path, open, position: contents.len() });
                                return Err(RuntimeError::Io(string_of("failed to fill whole buffer")));
                            }
                            start + size
                        } else {
                            contents.len()
                        };
                        let mut bytes: Vec<u8> = Vec::new();
                        let mut k: usize = start;
                        while k < end
                            invariant
                                start <= k <= end,
                                end <= contents@.len(),
                                bytes@ == contents@.subrange(start as int, k as int),
                            decreases end - k,
                        {
                            bytes.push(contents[k]);
                            k = k + 1;
                            assert(bytes@ =~= contents@.subrange(start as int, k as int));
                        }
                        self.set_handle(i, FileHandle { path, open, position: end });
                        let ghost before = *self;
                        let r = self.deserialize(&generics[0], bytes.as_slice());
                        proof {
                            Runtime::lemma_wf_same_scopes(before, *self);
                        }
                        r
                    },
                }
            },
        }
    }
}

} // verus!
