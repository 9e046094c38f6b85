//! Copies, casts, coercions, default values and equality of runtime values.
use vstd::prelude::*;

use crate::ast::{
    DType, DataType, StructDefinition, clone_data_type, coercible, dt_name, spec_is_numeric,
};
use crate::error::{RuntimeError, RuntimeResult};
use crate::operators::{int_of, int_val, is_int, promotion, promotion_error};
use crate::runtime::{Runtime, find_struct, struct_def};
use crate::serialization::{field_cell, spec_fields};
use crate::text::{str_eq, string_of};
use crate::value::{
    Heap, RuntimeReference, RuntimeValue, ValueView, clone_value, fields_view,
    lemma_addrs_below_mono, type_error_is, value_addrs_below, value_type,
};

verus! {

/// `new` holds `old` as its first cells, and possibly more after them.
pub open spec fn heap_grows(old: Seq<ValueView>, new: Seq<ValueView>) -> bool {
    old.len() <= new.len() && forall|i: int| 0 <= i < old.len() ==> #[trigger] new[i] == old[i]
}

pub proof fn lemma_heap_grows_trans(a: Seq<ValueView>, b: Seq<ValueView>, c: Seq<ValueView>)
    requires
        heap_grows(a, b),
        heap_grows(b, c),
    ensures
        heap_grows(a, c),
{
    assert forall|i: int| 0 <= i < a.len() implies #[trigger] c[i] == a[i] by {
        assert(c[i] == b[i]);
    }
}

/* ---------- copies ---------- */

/// `c` is a copy of `v` as assignment makes one, both read in heap `h`: a
/// struct gets new cells, at or after `base`, each holding a copy of what
/// the original field's cell holds; anything else is the value itself.
/// Beyond `fuel` levels of nesting, field cells are shared.
pub open spec fn is_copy(h: Seq<ValueView>, base: nat, v: ValueView, c: ValueView, fuel: nat) -> bool
    decreases fuel,
{
    match v {
        ValueView::Struct { definition, fields } => if fuel == 0 {
            c == v
        } else {
            match c {
                ValueView::Struct { definition: d2, fields: f2 } => {
                    &&& d2 == definition
                    &&& f2.len() == fields.len()
                    &&& forall|i: int|
                        #![trigger f2[i]]
                        0 <= i < f2.len() ==> {
                            &&& f2[i].0 == fields[i].0
                            &&& base <= f2[i].1 < h.len()
                            &&& fields[i].1 < h.len()
                            &&& is_copy(h, base, h[fields[i].1 as int], h[f2[i].1 as int], (fuel - 1) as nat)
                        }
                },
                _ => false,
            }
        },
        _ => c == v,
    }
}

/// A copy stays one when the heap grows, and for any earlier base.
pub proof fn lemma_is_copy_grows(h: Seq<ValueView>, h2: Seq<ValueView>, base: nat, base2: nat, v: ValueView, c: ValueView, fuel: nat)
    requires
        is_copy(h, base, v, c, fuel),
        heap_grows(h, h2),
        base2 <= base,
    ensures
        is_copy(h2, base2, v, c, fuel),
    decreases fuel,
{
    if let (ValueView::Struct { fields, .. }, ValueView::Struct { fields: f2, .. }) = (v, c) {
        if fuel > 0 {
            assert forall|i: int| 0 <= i < f2.len() implies {
                &&& (#[trigger] f2[i]).0 == fields[i].0
                &&& base2 <= f2[i].1 < h2.len()
                &&& fields[i].1 < h2.len()
                &&& is_copy(h2, base2, h2[fields[i].1 as int], h2[f2[i].1 as int], (fuel - 1) as nat)
            } by {
                assert(h2[fields[i].1 as int] == h[fields[i].1 as int]);
                assert(h2[f2[i].1 as int] == h[f2[i].1 as int]);
                lemma_is_copy_grows(h, h2, base, base2, h[fields[i].1 as int], h[f2[i].1 as int], (fuel - 1) as nat);
            }
        }
    }
}

impl RuntimeValue {
    /// Copies a value as assignment does: a struct gets new cells holding
    /// copies of its fields' values; arrays, iterators and references keep
    /// sharing their cells. `fuel` bounds the nesting of structs; beyond it,
    /// field cells are shared.
    pub fn copy_value_within(&self, heap: &mut Heap, fuel: usize) -> (r: RuntimeValue)
        requires
            old(heap).wf(),
            value_addrs_below(self@, old(heap)@.len()),
        ensures
            final(heap).wf(),
            heap_grows(old(heap)@, final(heap)@),
            value_addrs_below(r@, final(heap)@.len()),
            !(self@ is Struct) ==> r@ == self@ && final(heap)@ == old(heap)@,
            is_copy(final(heap)@, old(heap)@.len(), self@, r@, fuel as nat),
        decreases fuel,
    {
        match self {
            RuntimeValue::Struct { definition, fields } => {
                if fuel == 0 {
                    return clone_value(self);
                }
                let ghost h0 = heap@;
                let mut copied: Vec<(String, RuntimeReference)> = Vec::new();
                let mut i: usize = 0;
                while i < fields.len()
                    invariant
                        i <= fields@.len(),
                        heap.wf(),
                        heap_grows(h0, heap@),
                        h0 == old(heap)@,
                        fuel > 0,
                        value_addrs_below(self@, h0.len()),
                        self@ == (ValueView::Struct { definition: definition@, fields: fields_view(fields@) }),
                        copied@.len() == i,
                        forall|j: int|
                            0 <= j < i ==> {
                                &&& (#[trigger] copied@[j]).0@ == fields@[j].0@
                                &&& h0.len() <= copied@[j].1 < heap@.len()
                                &&& fields@[j].1 < h0.len()
                                &&& is_copy(heap@, h0.len(), heap@[fields@[j].1 as int], heap@[copied@[j].1 as int], (fuel - 1) as nat)
                            },
                    decreases fields@.len() - i,
                {
                    let cell = fields[i].1;
                    assert(fields_view(fields@)[i as int].1 == cell);
                    let ghost hb = heap@;
                    proof {
                        let fv = fields_view(fields@);
                        assert(self@ matches ValueView::Struct { fields: f, .. } && f == fv);
                        assert(fv[i as int].1 < h0.len());
                    }
                    let inner = heap.read(cell);
                    let ghost iv = inner@;
                    assert(hb[cell as int] == iv);
                    let copy = {
                        let v = clone_value(inner);
                        v.copy_value_within(heap, fuel - 1)
                    };
                    let ghost hc = heap@;
                    let a = heap.allocate(copy);
                    let ghost cb = copied@;
                    proof {
                        lemma_heap_grows_trans(h0, hb, heap@);
                        lemma_heap_grows_trans(hb, hc, heap@);
                        lemma_is_copy_grows(hc, heap@, hb.len(), h0.len(), iv, copy@, (fuel - 1) as nat);
                        assert(heap@[cell as int] == iv);
                        assert(heap@[a as int] == copy@);
                        assert forall|j: int| 0 <= j < i implies is_copy(
                            heap@,
                            h0.len(),
                            heap@[fields@[j].1 as int],
                            heap@[cb[j].1 as int],
                            (fuel - 1) as nat,
                        ) by {
                            assert(cb[j] == copied@[j]);
                            lemma_is_copy_grows(hb, heap@, h0.len(), h0.len(), hb[fields@[j].1 as int], hb[cb[j].1 as int], (fuel - 1) as nat);
                        }
                    }
                    copied.push((fields[i].0.clone(), a));
                    proof {
                        assert forall|j: int| 0 <= j < i + 1 implies {
                            &&& (#[trigger] copied@[j]).0@ == fields@[j].0@
                            &&& h0.len() <= copied@[j].1 < heap@.len()
                            &&& fields@[j].1 < h0.len()
                            &&& is_copy(heap@, h0.len(), heap@[fields@[j].1 as int], heap@[copied@[j].1 as int], (fuel - 1) as nat)
                        } by {
                            if j < i {
                                assert(copied@[j] == cb[j]);
                            } else {
                                assert(fields_view(fields@)[j].1 == fields@[j].1);
                            }
                        }
                    }
                    i = i + 1;
                }
                let r = RuntimeValue::Struct { definition: definition.clone(), fields: copied };
                proof {
                    assert forall|j: int| 0 <= j < copied@.len() implies (#[trigger] fields_view(copied@)[j]).1 < heap@.len() by {}
                    let f2 = fields_view(copied@);
                    let fv = fields_view(fields@);
                    assert forall|j: int| 0 <= j < f2.len() implies {
                        &&& (#[trigger] f2[j]).0 == fv[j].0
                        &&& h0.len() <= f2[j].1 < heap@.len()
                        &&& fv[j].1 < heap@.len()
                        &&& is_copy(heap@, h0.len(), heap@[fv[j].1 as int], heap@[f2[j].1 as int], (fuel - 1) as nat)
                    } by {
                        assert(copied@[j].0@ == fields@[j].0@);
                    }
                }
                r
            },
            _ => clone_value(self),
        }
    }

    /// Copies a value as assignment does (see `copy_value_within`), with as
    /// much nesting as the heap has cells.
    pub fn copy_value(&self, heap: &mut Heap) -> (r: RuntimeValue)
        requires
            old(heap).wf(),
            value_addrs_below(self@, old(heap)@.len()),
        ensures
            final(heap).wf(),
            heap_grows(old(heap)@, final(heap)@),
            value_addrs_below(r@, final(heap)@.len()),
            !(self@ is Struct) ==> r@ == self@ && final(heap)@ == old(heap)@,
            is_copy(final(heap)@, old(heap)@.len(), self@, r@, old(heap)@.len()),
    {
        let n = heap.len();
        self.copy_value_within(heap, n)
    }
}

/* ---------- casts ---------- */

/// What `as` gives: an integer converted to an integer type (keeping the low
/// bits, as Rust's `as` does); any other cast is refused with both types'
/// names.
pub open spec fn cast_outcome(h: Seq<ValueView>, v: ValueView, t: DType, r: RuntimeResult<RuntimeValue>) -> bool {
    match value_type(h, v, h.len()) {
        None => r matches Err(e) && type_error_is(h, v, h.len(), e),
        Some(vt) => if spec_is_numeric(t) && is_int(v) {
            r matches Ok(x) && x@ == int_val(t, int_of(v))
        } else {
            r matches Err(e) && e matches RuntimeError::InvalidCast(a, b) && a@ == dt_name(vt) && b@ == dt_name(t)
        },
    }
}

impl RuntimeValue {
    /// Casts the value to the target type.
    pub fn cast_to(self, target: &DataType, heap: &Heap) -> (r: RuntimeResult<RuntimeValue>)
        ensures
            cast_outcome(heap@, self@, target@, r),
    {
        let data_type = self.data_type(heap)?;
        if target.is_numeric() {
            self.cast_numeric(target, &data_type)
        } else {
            Err(RuntimeError::InvalidCast(data_type.name(), target.name()))
        }
    }

    fn cast_numeric(self, target: &DataType, data_type: &DataType) -> (r: RuntimeResult<RuntimeValue>)
        requires
            spec_is_numeric(target@),
        ensures
            is_int(self@) ==> (r matches Ok(x) && x@ == int_val(target@, int_of(self@))),
            !is_int(self@) ==> (r matches Err(e) && e matches RuntimeError::InvalidCast(a, b) && a@ == dt_name(data_type@)
                && b@ == dt_name(target@)),
    {
        let value: i128 = match self.int_value() {
            Some(n) => n,
            None => {
                return Err(RuntimeError::InvalidCast(data_type.name(), target.name()));
            },
        };
        match target {
            DataType::S8 => Ok(RuntimeValue::S8(value as i8)),
            DataType::U8 => Ok(RuntimeValue::U8(value as u8)),
            DataType::S16 => Ok(RuntimeValue::S16(value as i16)),
            DataType::U16 => Ok(RuntimeValue::U16(value as u16)),
            DataType::S32 => Ok(RuntimeValue::S32(value as i32)),
            DataType::U32 => Ok(RuntimeValue::U32(value as u32)),
            _ => Ok(RuntimeValue::Usize(value as usize)),
        }
    }
}

/* ---------- references and field access ---------- */

/// The cell of the field that `v` names, looking through references (at most
/// `fuel` of them) to a struct.
pub open spec fn field_target(h: Seq<ValueView>, v: ValueView, name: Seq<char>, fuel: nat) -> Option<usize>
    decreases fuel,
{
    match v {
        ValueView::Struct { fields, .. } => match field_cell(fields, name) {
            Some(c) => if c < h.len() {
                Some(c)
            } else {
                None
            },
            None => None,
        },
        ValueView::Reference(a) => if fuel > 0 && a < h.len() {
            field_target(h, h[a as int], name, (fuel - 1) as nat)
        } else {
            None
        },
        _ => None,
    }
}

/// The cell of the newest field with the given name.
pub fn find_field_pub(fields: &Vec<(String, RuntimeReference)>, name: &str) -> (r: Option<RuntimeReference>)
    ensures
        r == field_cell(fields_view(fields@), name@),
{
    find_field(fields, name)
}

fn find_field(fields: &Vec<(String, RuntimeReference)>, name: &str) -> (r: Option<RuntimeReference>)
    ensures
        r == field_cell(fields_view(fields@), name@),
{
    let ghost fv = fields_view(fields@);
    let mut i = fields.len();
    assert(fv.take(i as int) == fv);
    while i > 0
        invariant
            i <= fields@.len(),
            fv == fields_view(fields@),
            fv.len() == fields@.len(),
            field_cell(fv, name@) == field_cell(fv.take(i as int), name@),
        decreases i,
    {
        assert(fv.take(i as int).drop_last() == fv.take(i - 1));
        assert(fv[i - 1] == (fields@[i - 1].0@, fields@[i - 1].1));
        if str_eq(fields[i - 1].0.as_str(), name) {
            return Some(fields[i - 1].1);
        }
        i = i - 1;
    }
    None
}

/// The error that reading field `name` of `v` gives: a struct without such a
/// field names the field and the struct; a value that is no struct (nor a
/// reference to one) names the field and its type.
pub open spec fn field_access_error(h: Seq<ValueView>, v: ValueView, name: Seq<char>, fuel: nat, e: RuntimeError) -> bool
    decreases fuel,
{
    match v {
        ValueView::Struct { definition, fields } => match field_cell(fields, name) {
            Some(_) => e is ReferenceCycle,
            None => e matches RuntimeError::InvalidStructFieldAccess { field_name, struct_name } && field_name@ == name
                && struct_name@ == definition,
        },
        ValueView::Reference(a) => if fuel > 0 && a < h.len() {
            field_access_error(h, h[a as int], name, (fuel - 1) as nat, e)
        } else {
            e is ReferenceCycle
        },
        _ => match value_type(h, v, h.len()) {
            Some(t) => e matches RuntimeError::InvalidStructFieldAccessTarget { field, data_type } && field@ == name
                && data_type@ == dt_name(t),
            None => type_error_is(h, v, h.len(), e),
        },
    }
}

/// Two field lists with the same names, in order, resolve a name at the same
/// position.
pub proof fn lemma_field_cell_parallel(f1: Seq<(Seq<char>, usize)>, f2: Seq<(Seq<char>, usize)>, name: Seq<char>)
    requires
        f1.len() == f2.len(),
        forall|i: int| 0 <= i < f1.len() ==> (#[trigger] f1[i]).0 == f2[i].0,
    ensures
        field_cell(f1, name) is None <==> field_cell(f2, name) is None,
        field_cell(f1, name) is Some ==> exists|i: int|
            0 <= i < f1.len() && field_cell(f1, name) == Some(f1[i].1) && field_cell(f2, name) == Some(#[trigger] f2[i].1),
    decreases f1.len(),
{
    if f1.len() > 0 {
        let n = f1.len() - 1;
        assert(f1[n].0 == f2[n].0);
        if f1.last().0 != name {
            assert forall|i: int| 0 <= i < f1.drop_last().len() implies (#[trigger] f1.drop_last()[i]).0 == f2.drop_last()[i].0 by {
                assert(f1[i].0 == f2[i].0);
            }
            lemma_field_cell_parallel(f1.drop_last(), f2.drop_last(), name);
            if field_cell(f1, name) is Some {
                let i = choose|i: int|
                    0 <= i < f1.drop_last().len() && field_cell(f1.drop_last(), name) == Some(f1.drop_last()[i].1) && field_cell(
                        f2.drop_last(),
                        name,
                    ) == Some(#[trigger] f2.drop_last()[i].1);
                assert(f2.drop_last()[i] == f2[i]);
            }
        }
    }
}

impl RuntimeValue {
    /// The value of a struct's field (of the struct a reference points at),
    /// copied as assignment copies.
    pub fn struct_access_within(&self, identifier: &str, heap: &mut Heap, fuel: usize) -> (r: RuntimeResult<RuntimeValue>)
        requires
            old(heap).wf(),
            value_addrs_below(self@, old(heap)@.len()),
        ensures
            final(heap).wf(),
            heap_grows(old(heap)@, final(heap)@),
            r is Ok <==> field_target(old(heap)@, self@, identifier@, fuel as nat) is Some,
            r matches Ok(v) ==> value_addrs_below(v@, final(heap)@.len()) && {
                let c = field_target(old(heap)@, self@, identifier@, fuel as nat)->Some_0;
                &&& !(old(heap)@[c as int] is Struct) ==> v@ == old(heap)@[c as int] && final(heap)@ == old(heap)@
                &&& is_copy(final(heap)@, old(heap)@.len(), old(heap)@[c as int], v@, old(heap)@.len())
            },
            r is Err ==> final(heap)@ == old(heap)@,
            r matches Err(e) ==> field_access_error(old(heap)@, self@, identifier@, fuel as nat, e),
        decreases fuel,
    {
        match self {
            RuntimeValue::Struct { definition, fields } => {
                match find_field(fields, identifier) {
                    Some(c) => {
                        if c >= heap.len() {
                            return Err(RuntimeError::ReferenceCycle);
                        }
                        let v = clone_value(heap.read(c));
                        Ok(v.copy_value(heap))
                    },
                    None => Err(
                        RuntimeError::InvalidStructFieldAccess {
                            field_name: String::from_str(identifier),
                            struct_name: definition.clone(),
                        },
                    ),
                }
            },
            RuntimeValue::Reference(a) => {
                if fuel == 0 || *a >= heap.len() {
                    return Err(RuntimeError::ReferenceCycle);
                }
                let target = clone_value(heap.read(*a));
                target.struct_access_within(identifier, heap, fuel - 1)
            },
            _ => {
                let data_type = self.data_type(heap)?;
                Err(
                    RuntimeError::InvalidStructFieldAccessTarget {
                        field: String::from_str(identifier),
                        data_type: data_type.name(),
                    },
                )
            },
        }
    }

    /// The value of a struct's field, looking through as many references as
    /// the heap has cells.
    pub fn struct_access(&self, identifier: &str, heap: &mut Heap) -> (r: RuntimeResult<RuntimeValue>)
        requires
            old(heap).wf(),
            value_addrs_below(self@, old(heap)@.len()),
        ensures
            final(heap).wf(),
            heap_grows(old(heap)@, final(heap)@),
            r is Ok <==> field_target(old(heap)@, self@, identifier@, old(heap)@.len()) is Some,
            r matches Ok(v) ==> value_addrs_below(v@, final(heap)@.len()) && {
                let c = field_target(old(heap)@, self@, identifier@, old(heap)@.len())->Some_0;
                &&& !(old(heap)@[c as int] is Struct) ==> v@ == old(heap)@[c as int] && final(heap)@ == old(heap)@
                &&& is_copy(final(heap)@, old(heap)@.len(), old(heap)@[c as int], v@, old(heap)@.len())
            },
            r is Err ==> final(heap)@ == old(heap)@,
            r matches Err(e) ==> field_access_error(old(heap)@, self@, identifier@, old(heap)@.len(), e),
    {
        let n = heap.len();
        self.struct_access_within(identifier, heap, n)
    }

    /// The value a reference points at, copied.
    pub fn dereference(&self, heap: &mut Heap) -> (r: RuntimeResult<RuntimeValue>)
        requires
            old(heap).wf(),
            value_addrs_below(self@, old(heap)@.len()),
        ensures
            final(heap).wf(),
            heap_grows(old(heap)@, final(heap)@),
            r is Ok <==> self@ is Reference,
            r matches Ok(v) ==> value_addrs_below(v@, final(heap)@.len()) && (!(old(heap)@[self@->Reference_0 as int] is Struct)
                ==> v@ == old(heap)@[self@->Reference_0 as int] && final(heap)@ == old(heap)@) && is_copy(
                final(heap)@,
                old(heap)@.len(),
                old(heap)@[self@->Reference_0 as int],
                v@,
                old(heap)@.len(),
            ),
            r matches Err(e) ==> e is CannotDereferenceNonReference && final(heap)@ == old(heap)@,
    {
        match self {
            RuntimeValue::Reference(a) => {
                let v = clone_value(heap.read(*a));
                proof {
                    assert(value_addrs_below(heap@[*a as int], heap@.len()));
                }
                Ok(v.copy_value(heap))
            },
            _ => Err(RuntimeError::CannotDereferenceNonReference),
        }
    }

    /// Refuses a value that is not a reference.
    pub fn assert_reference(&self, heap: &Heap) -> (r: RuntimeResult<()>)
        ensures
            r is Ok <==> self@ is Reference,
            r matches Err(e) ==> match value_type(heap@, self@, heap@.len()) {
                Some(t) => e matches RuntimeError::ExpectedReference(n) && n@ == dt_name(t),
                None => type_error_is(heap@, self@, heap@.len(), e),
            },
    {
        if !self.is_reference() {
            let t = self.data_type(heap)?;
            Err(RuntimeError::ExpectedReference(t.name()))
        } else {
            Ok(())
        }
    }

    /// The cell a reference points at.
    pub fn expect_reference(&self, heap: &Heap) -> (r: RuntimeResult<RuntimeReference>)
        ensures
            r is Ok <==> self@ is Reference,
            r matches Ok(a) ==> self@ == ValueView::Reference(a),
            r matches Err(e) ==> match value_type(heap@, self@, heap@.len()) {
                Some(t) => e matches RuntimeError::ExpectedReference(n) && n@ == dt_name(t),
                None => type_error_is(heap@, self@, heap@.len(), e),
            },
    {
        match self {
            RuntimeValue::Reference(a) => Ok(*a),
            _ => {
                let t = self.data_type(heap)?;
                Err(RuntimeError::ExpectedReference(t.name()))
            },
        }
    }
}

/* ---------- equality ---------- */

/// Two values are equal: the same kind and the same contents, where the
/// contents of cells are compared in turn (structs field by field in order,
/// arrays element by element, references by what they point at), to a depth
/// of `fuel`.
pub open spec fn deep_eq(h: Seq<ValueView>, a: ValueView, b: ValueView, fuel: nat) -> bool
    decreases fuel,
{
    match (a, b) {
        (ValueView::NoValue, ValueView::NoValue) => true,
        (ValueView::S8(x), ValueView::S8(y)) => x == y,
        (ValueView::U8(x), ValueView::U8(y)) => x == y,
        (ValueView::S16(x), ValueView::S16(y)) => x == y,
        (ValueView::U16(x), ValueView::U16(y)) => x == y,
        (ValueView::S32(x), ValueView::S32(y)) => x == y,
        (ValueView::U32(x), ValueView::U32(y)) => x == y,
        (ValueView::Usize(x), ValueView::Usize(y)) => x == y,
        (ValueView::String(x), ValueView::String(y)) => x == y,
        (ValueView::Bool(x), ValueView::Bool(y)) => x == y,
        (ValueView::NativeObject(x), ValueView::NativeObject(y)) => x == y,
        (ValueView::Reference(x), ValueView::Reference(y)) => fuel > 0 && x < h.len() && y < h.len()
            && deep_eq(h, h[x as int], h[y as int], (fuel - 1) as nat),
        (ValueView::Struct { definition: d1, fields: f1 }, ValueView::Struct { definition: d2, fields: f2 }) => {
            &&& d1 == d2
            &&& fuel > 0
            &&& f1.len() == f2.len()
            &&& forall|i: int|
                0 <= i < f1.len() ==> (#[trigger] f1[i]).0 == f2[i].0 && f1[i].1 < h.len() && f2[i].1 < h.len()
                    && deep_eq(h, h[f1[i].1 as int], h[f2[i].1 as int], (fuel - 1) as nat)
        },
        (ValueView::Array { inner_data_type: t1, contents: c1 }, ValueView::Array { inner_data_type: t2, contents: c2 }) => {
            &&& t1 == t2
            &&& fuel > 0
            &&& c1.len() == c2.len()
            &&& forall|i: int|
                0 <= i < c1.len() ==> (#[trigger] c1[i]) < h.len() && c2[i] < h.len() && deep_eq(h, h[c1[i] as int], h[c2[i] as int], (fuel - 1) as nat)
        },
        (ValueView::Iterator { inner_data_type: t1, contents: c1 }, ValueView::Iterator { inner_data_type: t2, contents: c2 }) => {
            &&& t1 == t2
            &&& fuel > 0
            &&& c1.len() == c2.len()
            &&& forall|i: int|
                0 <= i < c1.len() ==> (#[trigger] c1[i]) < h.len() && c2[i] < h.len() && deep_eq(h, h[c1[i] as int], h[c2[i] as int], (fuel - 1) as nat)
        },
        _ => false,
    }
}

/// Compares two lists of cells element by element.
fn cells_equal(heap: &Heap, c1: &Vec<RuntimeReference>, c2: &Vec<RuntimeReference>, fuel: usize) -> (r: bool)
    requires
        fuel > 0,
    ensures
        r == (c1@.len() == c2@.len() && forall|i: int|
            0 <= i < c1@.len() ==> (#[trigger] c1@[i]) < heap@.len() && c2@[i] < heap@.len()
                && deep_eq(heap@, heap@[c1@[i] as int], heap@[c2@[i] as int], (fuel - 1) as nat)),
    decreases fuel, 0nat,
{
    if c1.len() != c2.len() {
        return false;
    }
    let mut i: usize = 0;
    while i < c1.len()
        invariant
            i <= c1@.len(),
            c1@.len() == c2@.len(),
            fuel > 0,
            forall|j: int|
                0 <= j < i ==> (#[trigger] c1@[j]) < heap@.len() && c2@[j] < heap@.len()
                    && deep_eq(heap@, heap@[c1@[j] as int], heap@[c2@[j] as int], (fuel - 1) as nat),
        decreases c1@.len() - i,
    {
        if c1[i] >= heap.len() || c2[i] >= heap.len() {
            return false;
        }
        if !values_equal(heap, heap.read(c1[i]), heap.read(c2[i]), fuel - 1) {
            return false;
        }
        i = i + 1;
    }
    true
}

/// Compares two values as `deep_eq` says.
pub fn values_equal(heap: &Heap, a: &RuntimeValue, b: &RuntimeValue, fuel: usize) -> (r: bool)
    ensures
        r == deep_eq(heap@, a@, b@, fuel as nat),
    decreases fuel, 1nat,
{
    match (a, b) {
        (RuntimeValue::NoValue, RuntimeValue::NoValue) => true,
        (RuntimeValue::S8(x), RuntimeValue::S8(y)) => *x == *y,
        (RuntimeValue::U8(x), RuntimeValue::U8(y)) => *x == *y,
        (RuntimeValue::S16(x), RuntimeValue::S16(y)) => *x == *y,
        (RuntimeValue::U16(x), RuntimeValue::U16(y)) => *x == *y,
        (RuntimeValue::S32(x), RuntimeValue::S32(y)) => *x == *y,
        (RuntimeValue::U32(x), RuntimeValue::U32(y)) => *x == *y,
        (RuntimeValue::Usize(x), RuntimeValue::Usize(y)) => *x == *y,
        (RuntimeValue::String(x), RuntimeValue::String(y)) => str_eq(x.as_str(), y.as_str()),
        (RuntimeValue::Bool(x), RuntimeValue::Bool(y)) => *x == *y,
        (RuntimeValue::NativeObject(x), RuntimeValue::NativeObject(y)) => *x == *y,
        (RuntimeValue::Reference(x), RuntimeValue::Reference(y)) => {
            if fuel == 0 || *x >= heap.len() || *y >= heap.len() {
                false
            } else {
                values_equal(heap, heap.read(*x), heap.read(*y), fuel - 1)
            }
        },
        (RuntimeValue::Struct { definition: d1, fields: f1 }, RuntimeValue::Struct { definition: d2, fields: f2 }) => {
            if !str_eq(d1.as_str(), d2.as_str()) || fuel == 0 || f1.len() != f2.len() {
                return false;
            }
            let ghost v1 = fields_view(f1@);
            let ghost v2 = fields_view(f2@);
            let mut i: usize = 0;
            while i < f1.len()
                invariant
                    i <= f1@.len(),
                    f1@.len() == f2@.len(),
                    v1 == fields_view(f1@),
                    v2 == fields_view(f2@),
                    a@ == (ValueView::Struct { definition: d1@, fields: v1 }),
                    b@ == (ValueView::Struct { definition: d2@, fields: v2 }),
                    d1@ == d2@,
                    v1.len() == f1@.len(),
                    v2.len() == f2@.len(),
                    fuel > 0,
                    forall|j: int|
                        0 <= j < i ==> (#[trigger] v1[j]).0 == v2[j].0 && v1[j].1 < heap@.len() && v2[j].1 < heap@.len()
                            && deep_eq(heap@, heap@[v1[j].1 as int], heap@[v2[j].1 as int], (fuel - 1) as nat),
                decreases f1@.len() - i,
            {
                assert(v1[i as int] == (f1@[i as int].0@, f1@[i as int].1));
                assert(v2[i as int] == (f2@[i as int].0@, f2@[i as int].1));
                if !str_eq(f1[i].0.as_str(), f2[i].0.as_str()) {
                    return false;
                }
                if f1[i].1 >= heap.len() || f2[i].1 >= heap.len() {
                    return false;
                }
                if !values_equal(heap, heap.read(f1[i].1), heap.read(f2[i].1), fuel - 1) {
                    return false;
                }
                i = i + 1;
            }
            true
        },
        (RuntimeValue::Array { inner_data_type: t1, contents: c1 }, RuntimeValue::Array { inner_data_type: t2, contents: c2 }) => {
            if !crate::ast::data_type_eq(t1, t2) || fuel == 0 {
                return false;
            }
            cells_equal(heap, c1, c2, fuel)
        },
        (RuntimeValue::Iterator { inner_data_type: t1, contents: c1 }, RuntimeValue::Iterator { inner_data_type: t2, contents: c2 }) => {
            if !crate::ast::data_type_eq(t1, t2) || fuel == 0 {
                return false;
            }
            cells_equal(heap, c1, c2, fuel)
        },
        _ => false,
    }
}

/// What `==` gives: integers compared after promotion, booleans and strings
/// by value, structs of the same struct by their fields' contents; structs
/// of different structs, and any other pair of types, are refused.
pub open spec fn eq_outcome(h: Seq<ValueView>, l: ValueView, r: ValueView, res: RuntimeResult<RuntimeValue>, negate: bool) -> bool {
    let n = h.len();
    match value_type(h, l, n) {
        None => res matches Err(e) && type_error_is(h, l, n, e),
        Some(lt) => match value_type(h, r, n) {
            None => res matches Err(e) && type_error_is(h, r, n, e),
            Some(rt) => if spec_is_numeric(lt) && spec_is_numeric(rt) {
                match promotion(h, l, r) {
                    None => res matches Err(e) && promotion_error(h, l, r, e),
                    Some((t, a, b)) => res matches Ok(v) && v@ == ValueView::Bool((a == b) != negate),
                }
            } else {
                match (l, r) {
                    (ValueView::Bool(a), ValueView::Bool(b)) => res matches Ok(v) && v@ == ValueView::Bool((a == b) != negate),
                    (ValueView::String(a), ValueView::String(b)) => res matches Ok(v) && v@ == ValueView::Bool((a == b) != negate),
                    (ValueView::Struct { definition: d1, .. }, ValueView::Struct { definition: d2, .. }) => if d1 != d2 {
                        res matches Err(e) && e matches RuntimeError::InvalidStructComparison(x, y) && x@ == d1 && y@ == d2
                    } else {
                        res matches Ok(v) && v@ == ValueView::Bool(deep_eq(h, l, r, crate::serialization::depth_fuel(n)) != negate)
                    },
                    _ => res matches Err(e) && e matches RuntimeError::UnsupportedBinaryOperation { lhs_type, operation, rhs_type }
                        && lhs_type@ == dt_name(lt) && operation@ == (if negate { "!="@ } else { "=="@ }) && rhs_type@ == dt_name(rt),
                }
            },
        },
    }
}

impl RuntimeValue {
    fn equality(self, rhs: RuntimeValue, heap: &Heap, negate: bool) -> (r: RuntimeResult<Self>)
        ensures
            eq_outcome(heap@, self@, rhs@, r, negate),
    {
        proof {
            reveal_strlit("==");
            reveal_strlit("!=");
        }
        let lhs_type = self.data_type(heap)?;
        let rhs_type = rhs.data_type(heap)?;
        if lhs_type.is_numeric() && rhs_type.is_numeric() {
            let (l, r) = Self::promote_numeric_pair(self, rhs, heap)?;
            let a = l.int_value().unwrap();
            let b = r.int_value().unwrap();
            return Ok(RuntimeValue::Bool((a == b) != negate));
        }
        match (&self, &rhs) {
            (RuntimeValue::Bool(a), RuntimeValue::Bool(b)) => Ok(RuntimeValue::Bool((*a == *b) != negate)),
            (RuntimeValue::String(a), RuntimeValue::String(b)) => Ok(RuntimeValue::Bool(str_eq(a.as_str(), b.as_str()) != negate)),
            (RuntimeValue::Struct { definition: d1, .. }, RuntimeValue::Struct { definition: d2, .. }) => {
                if !str_eq(d1.as_str(), d2.as_str()) {
                    return Err(RuntimeError::InvalidStructComparison(d1.clone(), d2.clone()));
                }
                let n = heap.len();
                let fuel = if n < usize::MAX {
                    n + 1
                } else {
                    n
                };
                Ok(RuntimeValue::Bool(values_equal(heap, &self, &rhs, fuel) != negate))
            },
            _ => Err(
                RuntimeError::unsupported_binary_operation(
                    lhs_type.name(),
                    if negate {
                        string_of("!=")
                    } else {
                        string_of("==")
                    },
                    rhs_type.name(),
                ),
            ),
        }
    }

    pub fn compare_eq(self, rhs: RuntimeValue, heap: &Heap) -> (r: RuntimeResult<Self>)
        ensures
            eq_outcome(heap@, self@, rhs@, r, false),
    {
        self.equality(rhs, heap, false)
    }

    pub fn compare_neq(self, rhs: RuntimeValue, heap: &Heap) -> (r: RuntimeResult<Self>)
        ensures
            eq_outcome(heap@, self@, rhs@, r, true),
    {
        self.equality(rhs, heap, true)
    }
}

/* ---------- default values ---------- */

/// The default value of a type that needs no cells: zero, false, the empty
/// string.
pub open spec fn default_scalar(t: DType) -> Option<ValueView> {
    match t {
        DType::S8 | DType::U8 | DType::S16 | DType::U16 | DType::S32 | DType::U32 | DType::Usize => Some(int_val(t, 0)),
        DType::Bool => Some(ValueView::Bool(false)),
        DType::String => Some(ValueView::String(Seq::empty())),
        _ => None,
    }
}

/// The nesting of structs that the runtime allows when it builds a value:
/// one more than the number of definitions (deeper nesting repeats one).
pub open spec fn default_fuel(n: nat) -> nat {
    if n < usize::MAX {
        n + 1
    } else {
        n
    }
}

/// Whether a type has a default value: a scalar with a zero value, a
/// counted array of such a type, or a defined struct all of whose fields
/// have one. `fuel` bounds the nesting of structs.
pub open spec fn has_default(defs: Seq<StructDefinition>, t: DType, fuel: nat) -> bool
    decreases fuel, t,
{
    match t {
        DType::Array { inner_data_type, count } => count is Some && has_default(defs, *inner_data_type, fuel),
        DType::UserDefined(name) => fuel > 0 && match struct_def(defs, name) {
            Some(d) => forall|i: int|
                #![trigger spec_fields(d.members@)[i]]
                0 <= i < spec_fields(d.members@).len() ==> has_default(
                    defs,
                    spec_fields(d.members@)[i].data_type@,
                    (fuel - 1) as nat,
                ),
            None => false,
        },
        _ => default_scalar(t) is Some,
    }
}

/// `v` is a default value of `t` in heap `h`: the zero value of a scalar;
/// for a counted array, that many elements that all share one cell holding
/// a default of the element type; for a struct, its fields in order, each in
/// a cell holding a default of the field's type.
pub open spec fn is_default(defs: Seq<StructDefinition>, h: Seq<ValueView>, t: DType, v: ValueView, fuel: nat) -> bool
    decreases fuel, t,
{
    match t {
        DType::Array { inner_data_type, count } => match v {
            ValueView::Array { inner_data_type: it, contents } => {
                &&& count == Some(contents.len() as usize)
                &&& it == *inner_data_type
                &&& forall|i: int, j: int|
                    0 <= i < contents.len() && 0 <= j < contents.len() ==> #[trigger] contents[i] == #[trigger] contents[j]
                &&& forall|i: int|
                    0 <= i < contents.len() ==> #[trigger] contents[i] < h.len() && is_default(
                        defs,
                        h,
                        *inner_data_type,
                        h[contents[i] as int],
                        fuel,
                    )
            },
            _ => false,
        },
        DType::UserDefined(name) => fuel > 0 && match (struct_def(defs, name), v) {
            (Some(d), ValueView::Struct { definition, fields }) => {
                let fs = spec_fields(d.members@);
                &&& definition == name
                &&& fields.len() == fs.len()
                &&& forall|i: int|
                    0 <= i < fields.len() ==> (#[trigger] fields[i]).0 == fs[i].identifier@ && fields[i].1 < h.len()
                        && is_default(defs, h, fs[i].data_type@, h[fields[i].1 as int], (fuel - 1) as nat)
            },
            _ => false,
        },
        _ => default_scalar(t) == Some(v),
    }
}

/// `e` is the error that asking for a default value of `t` reports: for a
/// struct, that of its first field that has none.
pub open spec fn default_fails(defs: Seq<StructDefinition>, t: DType, fuel: nat, e: RuntimeError) -> bool
    decreases fuel, t,
{
    match t {
        DType::Reference(_) => e is CannotDefaultInitializeReference,
        DType::Iterator(_) => e is CannotDefaultInitializeIterator,
        DType::Array { inner_data_type, count } => if count is None {
            e is UncountedArray
        } else {
            default_fails(defs, *inner_data_type, fuel, e)
        },
        DType::UserDefined(name) => if fuel == 0 {
            e is ReferenceCycle
        } else {
            match struct_def(defs, name) {
                None => e matches RuntimeError::StructDefinitionNotFound(n) && n@ == name,
                Some(d) => exists|k: int|
                    #![trigger spec_fields(d.members@)[k]]
                    0 <= k < spec_fields(d.members@).len() && (forall|j: int|
                        #![trigger spec_fields(d.members@)[j]]
                        0 <= j < k ==> has_default(defs, spec_fields(d.members@)[j].data_type@, (fuel - 1) as nat))
                        && default_fails(defs, spec_fields(d.members@)[k].data_type@, (fuel - 1) as nat, e),
            }
        },
        _ => e matches RuntimeError::CannotDefaultInitialize(n) && n@ == dt_name(t),
    }
}

/// A default value never fails for want of an initializer.
pub proof fn lemma_default_fails_kind(defs: Seq<StructDefinition>, t: DType, fuel: nat, e: RuntimeError)
    requires
        default_fails(defs, t, fuel, e),
    ensures
        !(e is IncompleteStructInitialization),
    decreases fuel, t,
{
    match t {
        DType::Array { inner_data_type, count } => {
            if count is Some {
                lemma_default_fails_kind(defs, *inner_data_type, fuel, e);
            }
        },
        DType::UserDefined(name) => {
            if fuel > 0 {
                if let Some(d) = struct_def(defs, name) {
                    let k = choose|k: int|
                        #![trigger spec_fields(d.members@)[k]]
                        0 <= k < spec_fields(d.members@).len() && (forall|j: int|
                            #![trigger spec_fields(d.members@)[j]]
                            0 <= j < k ==> has_default(defs, spec_fields(d.members@)[j].data_type@, (fuel - 1) as nat))
                            && default_fails(defs, spec_fields(d.members@)[k].data_type@, (fuel - 1) as nat, e);
                    lemma_default_fails_kind(defs, spec_fields(d.members@)[k].data_type@, (fuel - 1) as nat, e);
                }
            }
        },
        _ => {},
    }
}

/// A default value stays one when the heap grows.
pub proof fn lemma_is_default_grows(defs: Seq<StructDefinition>, h: Seq<ValueView>, h2: Seq<ValueView>, t: DType, v: ValueView, fuel: nat)
    requires
        is_default(defs, h, t, v, fuel),
        heap_grows(h, h2),
    ensures
        is_default(defs, h2, t, v, fuel),
    decreases fuel, t,
{
    match t {
        DType::Array { inner_data_type, count } => {
            if let ValueView::Array { contents, .. } = v {
                assert forall|i: int| 0 <= i < contents.len() implies #[trigger] contents[i] < h2.len() && is_default(
                    defs,
                    h2,
                    *inner_data_type,
                    h2[contents[i] as int],
                    fuel,
                ) by {
                    assert(h2[contents[i] as int] == h[contents[i] as int]);
                    lemma_is_default_grows(defs, h, h2, *inner_data_type, h[contents[i] as int], fuel);
                }
            }
        },
        DType::UserDefined(name) => {
            if let (Some(d), ValueView::Struct { fields, .. }) = (struct_def(defs, name), v) {
                let fs = spec_fields(d.members@);
                assert forall|i: int| 0 <= i < fields.len() implies (#[trigger] fields[i]).0 == fs[i].identifier@ && fields[i].1
                    < h2.len() && is_default(defs, h2, fs[i].data_type@, h2[fields[i].1 as int], (fuel - 1) as nat) by {
                    assert(h2[fields[i].1 as int] == h[fields[i].1 as int]);
                    lemma_is_default_grows(defs, h, h2, fs[i].data_type@, h[fields[i].1 as int], (fuel - 1) as nat);
                }
            }
        },
        _ => {},
    }
}

/// The default value of a type (see `is_default`), or the error of
/// `default_fails` where it has none. `fuel` bounds the nesting of structs.
pub fn default_in(structs: &Vec<StructDefinition>, heap: &mut Heap, data_type: &DataType, fuel: usize) -> (r: RuntimeResult<RuntimeValue>)
    requires
        old(heap).wf(),
    ensures
        final(heap).wf(),
        heap_grows(old(heap)@, final(heap)@),
        r matches Ok(v) ==> value_addrs_below(v@, final(heap)@.len()),
        r is Ok <==> has_default(structs@, data_type@, fuel as nat),
        r matches Ok(v) ==> is_default(structs@, final(heap)@, data_type@, v@, fuel as nat),
        r matches Err(e) ==> default_fails(structs@, data_type@, fuel as nat, e),
    decreases fuel, crate::deserialization::dt_size(*data_type),
{
    match data_type {
        DataType::S8 => Ok(RuntimeValue::S8(0)),
        DataType::U8 => Ok(RuntimeValue::U8(0)),
        DataType::S16 => Ok(RuntimeValue::S16(0)),
        DataType::U16 => Ok(RuntimeValue::U16(0)),
        DataType::S32 => Ok(RuntimeValue::S32(0)),
        DataType::U32 => Ok(RuntimeValue::U32(0)),
        DataType::Usize => Ok(RuntimeValue::Usize(0)),
        DataType::Bool => Ok(RuntimeValue::Bool(false)),
        DataType::String => {
            let s = String::new();
            Ok(RuntimeValue::String(s))
        },
        DataType::Reference(_) => Err(RuntimeError::CannotDefaultInitializeReference),
        DataType::Iterator(_) => Err(RuntimeError::CannotDefaultInitializeIterator),
        DataType::Array { inner_data_type, count } => {
            let n = match count {
                Some(n) => *n,
                None => {
                    return Err(RuntimeError::UncountedArray);
                },
            };
            let element = default_in(structs, heap, inner_data_type, fuel)?;
            let ghost he = heap@;
            let a = heap.allocate(element);
            proof {
                lemma_is_default_grows(structs@, he, heap@, inner_data_type@, element@, fuel as nat);
            }
            let mut contents: Vec<RuntimeReference> = Vec::new();
            let mut i: usize = 0;
            while i < n
                invariant
                    i <= n,
                    contents@.len() == i,
                    a < heap@.len(),
                    forall|j: int| 0 <= j < i ==> #[trigger] contents@[j] == a,
                decreases n - i,
            {
                contents.push(a);
                i = i + 1;
            }
            let r = RuntimeValue::Array { inner_data_type: clone_data_type(inner_data_type), contents };
            proof {
                assert(heap@[a as int] == element@);
                assert forall|j: int| 0 <= j < contents@.len() implies #[trigger] contents@[j] < heap@.len() && is_default(
                    structs@,
                    heap@,
                    inner_data_type@,
                    heap@[contents@[j] as int],
                    fuel as nat,
                ) by {
                    assert(contents@[j] == a);
                }
            }
            Ok(r)
        },
        DataType::UserDefined(identifier) => {
            if fuel == 0 {
                return Err(RuntimeError::ReferenceCycle);
            }
            let definition = find_struct(structs, identifier.as_str())?;
            let field_definitions = definition.fields();
            let ghost fs = spec_fields(definition.members@);
            let ghost h0 = heap@;
            let mut fields: Vec<(String, RuntimeReference)> = Vec::new();
            let mut i: usize = 0;
            while i < field_definitions.len()
                invariant
                    i <= field_definitions@.len(),
                    field_definitions@.len() == fs.len(),
                    forall|j: int| 0 <= j < fs.len() ==> *(#[trigger] field_definitions@[j]) == fs[j],
                    fs == spec_fields(struct_def(structs@, identifier@)->Some_0.members@),
                    struct_def(structs@, identifier@) is Some,
                    heap.wf(),
                    heap_grows(h0, heap@),
                    h0 == old(heap)@,
                    fuel > 0,
                    data_type@ == DType::UserDefined(identifier@),
                    fields@.len() == i,
                    forall|j: int| 0 <= j < i ==> has_default(structs@, #[trigger] fs[j].data_type@, (fuel - 1) as nat),
                    forall|j: int|
                        0 <= j < i ==> (#[trigger] fields_view(fields@)[j]).0 == fs[j].identifier@ && fields@[j].1 < heap@.len()
                            && is_default(structs@, heap@, fs[j].data_type@, heap@[fields@[j].1 as int], (fuel - 1) as nat),
                decreases field_definitions@.len() - i,
            {
                let field = field_definitions[i];
                let ghost hb = heap@;
                let value = match default_in(structs, heap, &field.data_type, fuel - 1) {
                    Ok(v) => v,
                    Err(e) => {
                        proof {
                            let d = struct_def(structs@, identifier@)->Some_0;
                            assert(fs == spec_fields(d.members@));
                            assert(default_fails(structs@, fs[i as int].data_type@, (fuel - 1) as nat, e));
                            assert(spec_fields(d.members@)[i as int] == fs[i as int]);
                            assert(default_fails(structs@, DType::UserDefined(identifier@), fuel as nat, e));
                        }
                        return Err(e);
                    },
                };
                let ghost hv = heap@;
                let a = heap.allocate(value);
                proof {
                    lemma_heap_grows_trans(h0, hb, heap@);
                    lemma_is_default_grows(structs@, hv, heap@, fs[i as int].data_type@, value@, (fuel - 1) as nat);
                    assert forall|j: int| 0 <= j < i implies is_default(
                        structs@,
                        heap@,
                        fs[j].data_type@,
                        heap@[fields@[j].1 as int],
                        (fuel - 1) as nat,
                    ) by {
                        assert(fields_view(fields@)[j].0 == fs[j].identifier@);
                        lemma_heap_grows_trans(hb, hv, heap@);
                        lemma_is_default_grows(structs@, hb, heap@, fs[j].data_type@, hb[fields@[j].1 as int], (fuel - 1) as nat);
                    }
                }
                let ghost fb = fields@;
                fields.push((field.identifier.clone(), a));
                proof {
                    assert(fields_view(fields@)[i as int].0 == fs[i as int].identifier@);
                    assert forall|j: int| 0 <= j < i + 1 implies (#[trigger] fields_view(fields@)[j]).0 == fs[j].identifier@
                        && fields@[j].1 < heap@.len() && is_default(
                        structs@,
                        heap@,
                        fs[j].data_type@,
                        heap@[fields@[j].1 as int],
                        (fuel - 1) as nat,
                    ) by {
                        if j < i {
                            assert(fields@[j] == fb[j]);
                            assert(fields_view(fb)[j].0 == fs[j].identifier@);
                        }
                    }
                }
                i = i + 1;
            }
            proof {
                assert forall|j: int| 0 <= j < fields@.len() implies (#[trigger] fields_view(fields@)[j]).1 < heap@.len() by {}
            }
            Ok(RuntimeValue::Struct { definition: identifier.clone(), fields })
        },
        _ => Err(RuntimeError::CannotDefaultInitialize(data_type.name())),
    }
}

/* ---------- coercion ---------- */

/// What coercing a value into a type gives: the value itself when it has the
/// type; a widened integer; an array whose elements are coerced (elements that
/// cannot be are dropped) and which is filled up to the target count with a
/// shared default element; an error when the type does not coerce.
pub open spec fn coerce_outcome(h: Seq<ValueView>, v: ValueView, into: DType, r: RuntimeResult<RuntimeValue>) -> bool {
    match value_type(h, v, h.len()) {
        None => r matches Err(e) && type_error_is(h, v, h.len(), e),
        Some(vt) => if vt == into {
            r matches Ok(x) && x@ == v
        } else if !coercible(vt, into) {
            r matches Err(e) && e matches RuntimeError::TypeCoercionFail { from, to } && from@ == dt_name(vt) && to@ == dt_name(into)
        } else if is_int(v) {
            if crate::operators::fits(into, int_of(v)) {
                r matches Ok(x) && x@ == int_val(into, int_of(v))
            } else {
                r matches Err(e) && e is TypeCoercionFail
            }
        } else {
            r matches Ok(x) ==> (x@ matches ValueView::Array { inner_data_type, contents } && into matches DType::Array {
                inner_data_type: t,
                count: Some(m),
            } && inner_data_type == *t && contents.len() == m)
        },
    }
}

/// What an integer becomes when coerced into `t`: itself where it has that
/// type, else the same number in `t` where `t` is wider and holds it; `None`
/// where coercion refuses it.
pub open spec fn int_coerced(v: ValueView, t: DType) -> Option<ValueView> {
    match crate::value::direct_type(v) {
        None => None,
        Some(vt) => if vt == t {
            Some(v)
        } else if coercible(vt, t) && is_int(v) && crate::operators::fits(t, int_of(v)) {
            Some(int_val(t, int_of(v)))
        } else {
            None
        },
    }
}

/// The cells hold integers that each coerce into `t`.
pub open spec fn ints_coerce(h: Seq<ValueView>, contents: Seq<RuntimeReference>, t: DType) -> bool {
    forall|j: int|
        0 <= j < contents.len() ==> #[trigger] contents[j] < h.len() && is_int(h[contents[j] as int]) && int_coerced(
            h[contents[j] as int],
            t,
        ) is Some
}

/// On an integer, coercion gives `int_coerced`.
pub proof fn lemma_int_coerced(h: Seq<ValueView>, v: ValueView, t: DType, r: RuntimeResult<RuntimeValue>)
    requires
        is_int(v),
        coerce_outcome(h, v, t, r),
    ensures
        r is Ok <==> int_coerced(v, t) is Some,
        r matches Ok(x) ==> x@ == int_coerced(v, t)->Some_0,
{
}

/// Coerces a value into a type (see `coerce_outcome`).
pub fn coerce_in(structs: &Vec<StructDefinition>, heap: &mut Heap, value: RuntimeValue, into: &DataType, fuel: usize) -> (r:
    RuntimeResult<RuntimeValue>)
    requires
        old(heap).wf(),
        value_addrs_below(value@, old(heap)@.len()),
    ensures
        final(heap).wf(),
        heap_grows(old(heap)@, final(heap)@),
        r matches Ok(v) ==> value_addrs_below(v@, final(heap)@.len()),
        coerce_outcome(old(heap)@, value@, into@, r),
        value_type(old(heap)@, value@, old(heap)@.len()) matches Some(vt) ==> (vt != into@ && coercible(vt, into@) && !is_int(
            value@,
        ) ==> into@ is Array && (r is Ok <==> has_default(structs@, *into@->inner_data_type, fuel as nat)) && (r matches Err(
            e,
        ) ==> default_fails(structs@, *into@->inner_data_type, fuel as nat, e))),
        value_type(old(heap)@, value@, old(heap)@.len()) matches Some(vt) ==> (vt != into@ && coercible(vt, into@) ==> (
        value@ matches ValueView::Array { contents: src, .. } ==> (into@ matches DType::Array {
            inner_data_type: it,
            count: Some(m),
        } ==> (ints_coerce(old(heap)@, src, *it) ==> (r matches Ok(x) ==> (x@ matches ValueView::Array { contents: out, .. }
            && out.len() == m && forall|j: int|
            0 <= j < out.len() ==> if j < src.len() {
                final(heap)@[(#[trigger] out[j]) as int] == int_coerced(old(heap)@[src[j] as int], *it)->Some_0
            } else {
                is_default(structs@, final(heap)@, *it, final(heap)@[out[j] as int], fuel as nat)
            })))))),
    decreases crate::deserialization::dt_size(*into),
{
    let data_type = value.data_type(heap)?;
    if crate::ast::data_type_eq(&data_type, into) {
        return Ok(value);
    }
    if !data_type.can_be_coerced_into(into) {
        return Err(RuntimeError::TypeCoercionFail { from: data_type.name(), to: into.name() });
    }
    match value.int_value() {
        Some(n) => {
            return match crate::operators::make_int(into, n) {
                Some(v) => Ok(v),
                None => Err(RuntimeError::TypeCoercionFail { from: data_type.name(), to: into.name() }),
            };
        },
        None => {},
    }
    let ghost h0 = heap@;
    match (&value, into) {
        (RuntimeValue::Array { contents, .. }, DataType::Array { inner_data_type, count }) => {
            let m = match count {
                Some(m) => *m,
                None => {
                    assert(false);
                    return Err(RuntimeError::TypeCoercionFail { from: data_type.name(), to: into.name() });
                },
            };
            let mut cells: Vec<RuntimeReference> = Vec::new();
            let mut i: usize = 0;
            while i < contents.len()
                invariant
                    i <= contents@.len(),
                    heap.wf(),
                    heap_grows(h0, heap@),
                    h0 == old(heap)@,
                    value_addrs_below(value@, h0.len()),
                    value@ matches ValueView::Array { contents: c, .. } && c == contents@,
                    crate::deserialization::dt_size(**inner_data_type) < crate::deserialization::dt_size(*into),
                    cells@.len() <= i,
                    forall|j: int| 0 <= j < cells@.len() ==> #[trigger] cells@[j] < heap@.len(),
                    ints_coerce(h0, contents@, inner_data_type@) ==> cells@.len() == i && forall|j: int|
                        0 <= j < i ==> heap@[(#[trigger] cells@[j]) as int] == int_coerced(
                            h0[contents@[j] as int],
                            inner_data_type@,
                        )->Some_0,
                decreases contents@.len() - i,
            {
                let c = contents[i];
                let ghost hb = heap@;
                let element = clone_value(heap.read(c));
                proof {
                    assert(value_addrs_below(hb[c as int], hb.len()));
                }
                let copy = element.copy_value(heap);
                proof {
                    lemma_heap_grows_trans(h0, hb, heap@);
                }
                let ghost hc = heap@;
                let ghost cells_before = cells@;
                match coerce_in(structs, heap, copy, inner_data_type, fuel) {
                    Ok(v) => {
                        proof {
                            if ints_coerce(h0, contents@, inner_data_type@) {
                                assert(contents@[i as int] < h0.len() && is_int(h0[contents@[i as int] as int]));
                                assert(hb[c as int] == h0[c as int]);
                                lemma_int_coerced(hc, copy@, inner_data_type@, Ok(v));
                            }
                        }
                        let ghost hv = heap@;
                        let a = heap.allocate(v);
                        cells.push(a);
                        proof {
                            if ints_coerce(h0, contents@, inner_data_type@) {
                                assert forall|j: int| 0 <= j < i + 1 implies heap@[(#[trigger] cells@[j]) as int] == int_coerced(
                                    h0[contents@[j] as int],
                                    inner_data_type@,
                                )->Some_0 by {
                                    if j < i {
                                        assert(cells@[j] == cells_before[j]);
                                        lemma_heap_grows_trans(hb, hc, hv);
                                        assert(heap@[cells@[j] as int] == hb[cells@[j] as int]);
                                    }
                                }
                            }
                        }
                    },
                    Err(e) => {
                        proof {
                            if ints_coerce(h0, contents@, inner_data_type@) {
                                assert(contents@[i as int] < h0.len() && is_int(h0[contents@[i as int] as int]));
                                assert(hb[c as int] == h0[c as int]);
                                lemma_int_coerced(hc, copy@, inner_data_type@, Err(e));
                            }
                        }
                    },
                }
                proof {
                    lemma_heap_grows_trans(h0, hc, heap@);
                }
                i = i + 1;
            }
            let ghost hd = heap@;
            let ghost cells0 = cells@;
            let element = default_in(structs, heap, inner_data_type, fuel)?;
            let ghost he = heap@;
            let a = heap.allocate(element);
            proof {
                lemma_heap_grows_trans(h0, hd, heap@);
                lemma_heap_grows_trans(hd, he, heap@);
                lemma_is_default_grows(structs@, he, heap@, inner_data_type@, element@, fuel as nat);
            }
            while cells.len() > m
                invariant
                    forall|j: int| 0 <= j < cells@.len() ==> #[trigger] cells@[j] < heap@.len(),
                    cells@.len() <= cells0.len(),
                    cells@.len() == cells0.len() || cells@.len() >= m,
                    forall|j: int| 0 <= j < cells@.len() ==> #[trigger] cells@[j] == cells0[j],
                decreases cells@.len(),
            {
                let _ = cells.pop();
            }
            let ghost kept = cells@.len();
            while cells.len() < m
                invariant
                    cells@.len() <= m,
                    kept <= cells@.len(),
                    kept <= cells0.len(),
                    kept == cells0.len() || kept == m,
                    kept <= m,
                    a < heap@.len(),
                    forall|j: int| 0 <= j < cells@.len() ==> #[trigger] cells@[j] < heap@.len(),
                    forall|j: int| 0 <= j < kept ==> #[trigger] cells@[j] == cells0[j],
                    forall|j: int| kept <= j < cells@.len() ==> #[trigger] cells@[j] == a,
                decreases m - cells@.len(),
            {
                cells.push(a);
            }
            proof {
                if ints_coerce(h0, contents@, inner_data_type@) {
                    assert(cells0.len() == contents@.len());
                    assert forall|j: int| 0 <= j < cells@.len() implies if j < contents@.len() {
                        heap@[(#[trigger] cells@[j]) as int] == int_coerced(h0[contents@[j] as int], inner_data_type@)->Some_0
                    } else {
                        is_default(structs@, heap@, inner_data_type@, heap@[cells@[j] as int], fuel as nat)
                    } by {
                        if j < kept {
                            assert(cells@[j] == cells0[j]);
                            assert(heap@[cells0[j] as int] == hd[cells0[j] as int]);
                        } else {
                            assert(cells@[j] == a);
                        }
                    }
                }
            }
            Ok(RuntimeValue::Array { inner_data_type: clone_data_type(inner_data_type), contents: cells })
        },
        _ => {
            assert(false);
            Err(RuntimeError::TypeCoercionFail { from: data_type.name(), to: into.name() })
        },
    }
}

/// What a type annotation makes of a value: a non-negative `s32` becomes a
/// `u32`; booleans, strings and structs of the annotated struct stay as they
/// are; anything that coerces into the type is coerced; the rest is refused.
pub open spec fn annotation_outcome(h: Seq<ValueView>, v: ValueView, t: DType, r: RuntimeResult<RuntimeValue>) -> bool {
    match value_type(h, v, h.len()) {
        None => r matches Err(e) && type_error_is(h, v, h.len(), e),
        Some(vt) => match (v, t) {
            (ValueView::S32(i), DType::U32) if i >= 0 => r matches Ok(x) && x@ == ValueView::U32(i as u32),
            (ValueView::Bool(_), DType::Bool) => r matches Ok(x) && x@ == v,
            (ValueView::String(_), DType::String) => r matches Ok(x) && x@ == v,
            (_, DType::UserDefined(_)) if vt == t => r matches Ok(x) && x@ == v,
            _ => if coercible(vt, t) {
                coerce_outcome(h, v, t, r)
            } else {
                r matches Err(e) && e matches RuntimeError::AnnotationError { expected, found } && expected@ == dt_name(t)
                    && found@ == dt_name(vt)
            },
        },
    }
}

/// What a type annotation makes of a plain value (a number, a text or a
/// boolean): `None` where it refuses it.
pub open spec fn literal_annotation(v: ValueView, t: DType) -> Option<ValueView> {
    match (v, t) {
        (ValueView::S32(i), DType::U32) if i >= 0 => Some(ValueView::U32(i as u32)),
        _ => match crate::value::direct_type(v) {
            None => None,
            Some(vt) => if vt == t {
                Some(v)
            } else if coercible(vt, t) && is_int(v) && crate::operators::fits(t, int_of(v)) {
                Some(int_val(t, int_of(v)))
            } else {
                None
            },
        },
    }
}

/// On a plain value, a type annotation gives `literal_annotation`.
pub proof fn lemma_literal_annotation(h: Seq<ValueView>, v: ValueView, t: DType, r: RuntimeResult<RuntimeValue>)
    requires
        is_int(v) || v is String || v is Bool,
        annotation_outcome(h, v, t, r),
    ensures
        r is Ok <==> literal_annotation(v, t) is Some,
        r matches Ok(x) ==> x@ == literal_annotation(v, t)->Some_0,
{
}

/// Applies a type annotation to a value (see `annotation_outcome`).
pub fn annotate_in(structs: &Vec<StructDefinition>, heap: &mut Heap, value: RuntimeValue, expected: &DataType, fuel: usize) -> (r:
    RuntimeResult<RuntimeValue>)
    requires
        old(heap).wf(),
        value_addrs_below(value@, old(heap)@.len()),
    ensures
        final(heap).wf(),
        heap_grows(old(heap)@, final(heap)@),
        r matches Ok(v) ==> value_addrs_below(v@, final(heap)@.len()),
        annotation_outcome(old(heap)@, value@, expected@, r),
{
    let data_type = value.data_type(heap)?;
    match (&value, expected) {
        (RuntimeValue::S32(i), DataType::U32) if *i >= 0 => {
            return Ok(RuntimeValue::U32(*i as u32));
        },
        (RuntimeValue::Bool(_), DataType::Bool) => {
            return Ok(value);
        },
        (RuntimeValue::String(_), DataType::String) => {
            return Ok(value);
        },
        (_, DataType::UserDefined(_)) => {
            if crate::ast::data_type_eq(&data_type, expected) {
                return Ok(value);
            }
        },
        _ => {},
    }
    if data_type.can_be_coerced_into(expected) {
        coerce_in(structs, heap, value, expected, fuel)
    } else {
        Err(RuntimeError::AnnotationError { expected: expected.name(), found: data_type.name() })
    }
}

/* ---------- the runtime's view ---------- */

impl Runtime {
    /// What evaluation keeps: the heap only grows, and the definitions and
    /// settings stay.
    pub open spec fn stable(&self, old: Runtime) -> bool {
        &&& old.heap@.len() <= self.heap@.len()
        &&& self.functions == old.functions
        &&& self.structs == old.structs
        &&& self.struct_impls == old.struct_impls
        &&& self.builtin_methods == old.builtin_methods
        &&& self.config == old.config
    }

    /// Only the heap changed, and it only grew.
    pub open spec fn only_heap_grew(&self, old: Runtime) -> bool {
        &&& heap_grows(old.heap@, self.heap@)
        &&& self.global_scope == old.global_scope
        &&& self.global_sub_scopes == old.global_sub_scopes
        &&& self.call_stack == old.call_stack
        &&& self.dead_frames == old.dead_frames
        &&& self.functions == old.functions
        &&& self.structs == old.structs
        &&& self.struct_impls == old.struct_impls
        &&& self.builtin_methods == old.builtin_methods
        &&& self.config == old.config
        &&& self.byte_order == old.byte_order
        &&& self.serialization_targets == old.serialization_targets
        &&& self.output == old.output
        &&& self.files == old.files
        &&& self.file_handles == old.file_handles
    }

    pub proof fn lemma_wf_after_growth(old: Runtime, new: Runtime)
        requires
            old.wf(),
            new.heap.wf(),
            new.only_heap_grew(old),
        ensures
            new.wf(),
    {
        let n = old.heap@.len();
        let m = new.heap@.len();
        crate::scopes::lemma_scopes_mono(new.global_sub_scopes@, n, m);
        crate::scopes::lemma_frames_mono(new.call_stack@, n, m);
        crate::scopes::lemma_frames_mono(new.dead_frames@, n, m);
        assert forall|i: int| 0 <= i < new.global_scope.variables@.len() implies (#[trigger] new.global_scope.variables@[i]).1 < m by {
            assert(crate::scopes::scope_cells_below(old.global_scope, n));
        }
    }

    /// The cell a name is bound to is a cell of the heap.
    pub proof fn lemma_lookup_below(&self, name: Seq<char>)
        requires
            self.wf(),
        ensures
            self.lookup(name) matches Some(c) ==> c < self.heap@.len(),
    {
        let n = self.heap@.len();
        let local = self.local_scopes();
        assert(crate::scopes::scopes_cells_below(local, n)) by {
            if self.call_stack@.len() > 0 {
                assert(crate::scopes::scopes_cells_below(self.call_stack@[self.call_stack@.len() - 1].scopes@, n));
            }
        }
        Self::lemma_scopes_lookup_below(local, name, n);
        Self::lemma_binding_below(self.global_scope.variables@, name, n);
    }

    pub proof fn lemma_scopes_lookup_below(ss: Seq<crate::runtime::RuntimeScope>, name: Seq<char>, n: nat)
        requires
            crate::scopes::scopes_cells_below(ss, n),
        ensures
            crate::scopes::scopes_lookup(ss, name) matches Some(c) ==> c < n,
        decreases ss.len(),
    {
        if ss.len() > 0 {
            assert(crate::scopes::scope_cells_below(ss[ss.len() - 1], n));
            Self::lemma_binding_below(ss.last().variables@, name, n);
            assert forall|i: int| 0 <= i < ss.drop_last().len() implies crate::scopes::scope_cells_below(#[trigger] ss.drop_last()[i], n) by {
                assert(ss.drop_last()[i] == ss[i]);
            }
            Self::lemma_scopes_lookup_below(ss.drop_last(), name, n);
        }
    }

    pub proof fn lemma_binding_below(vars: Seq<(String, RuntimeReference)>, name: Seq<char>, n: nat)
        requires
            forall|i: int| 0 <= i < vars.len() ==> (#[trigger] vars[i]).1 < n,
        ensures
            crate::runtime::binding(vars, name) matches Some(c) ==> c < n,
        decreases vars.len(),
    {
        if vars.len() > 0 {
            assert(vars[vars.len() - 1].1 < n);
            assert forall|i: int| 0 <= i < vars.drop_last().len() implies (#[trigger] vars.drop_last()[i]).1 < n by {
                assert(vars.drop_last()[i] == vars[i]);
            }
            Self::lemma_binding_below(vars.drop_last(), name, n);
        }
    }

    /// The default value of a type (see `default_in`), looking up structs
    /// among the runtime's definitions.
    pub fn default_value(&mut self, data_type: &DataType) -> (r: RuntimeResult<RuntimeValue>)
        requires
            old(self).wf(),
        ensures
            final(self).wf(),
            final(self).only_heap_grew(*old(self)),
            r matches Ok(v) ==> value_addrs_below(v@, final(self).heap@.len()),
            r is Ok <==> has_default(old(self).structs@, data_type@, default_fuel(old(self).structs@.len())),
            r matches Ok(v) ==> is_default(
                old(self).structs@,
                final(self).heap@,
                data_type@,
                v@,
                default_fuel(old(self).structs@.len()),
            ),
            r matches Err(e) ==> default_fails(old(self).structs@, data_type@, default_fuel(old(self).structs@.len()), e),
    {
        let n = self.structs.len();
        let fuel = if n < usize::MAX {
            n + 1
        } else {
            n
        };
        let r = default_in(&self.structs, &mut self.heap, data_type, fuel);
        proof {
            Self::lemma_wf_after_growth(*old(self), *self);
        }
        r
    }

    /// Coerces a value into a type (see `coerce_outcome`).
    pub fn coerce(&mut self, value: RuntimeValue, into: &DataType) -> (r: RuntimeResult<RuntimeValue>)
        requires
            old(self).wf(),
            value_addrs_below(value@, old(self).heap@.len()),
        ensures
            final(self).wf(),
            final(self).only_heap_grew(*old(self)),
            r matches Ok(v) ==> value_addrs_below(v@, final(self).heap@.len()),
            coerce_outcome(old(self).heap@, value@, into@, r),
            value_type(old(self).heap@, value@, old(self).heap@.len()) matches Some(vt) ==> (vt != into@ && coercible(vt, into@)
                && !is_int(value@) ==> into@ is Array && (r is Ok <==> has_default(
                old(self).structs@,
                *into@->inner_data_type,
                default_fuel(old(self).structs@.len()),
            ))),
            value_type(old(self).heap@, value@, old(self).heap@.len()) matches Some(vt) ==> (vt != into@ && coercible(vt, into@)
                ==> (value@ matches ValueView::Array { contents: src, .. } ==> (into@ matches DType::Array {
                inner_data_type: it,
                count: Some(m),
            } ==> (ints_coerce(old(self).heap@, src, *it) ==> (r matches Ok(x) ==> (x@ matches ValueView::Array {
                contents: out,
                ..
            } && out.len() == m && forall|j: int|
                0 <= j < out.len() ==> if j < src.len() {
                    final(self).heap@[(#[trigger] out[j]) as int] == int_coerced(old(self).heap@[src[j] as int], *it)->Some_0
                } else {
                    is_default(
                        old(self).structs@,
                        final(self).heap@,
                        *it,
                        final(self).heap@[out[j] as int],
                        default_fuel(old(self).structs@.len()),
                    )
                })))))),
    {
        let n = self.structs.len();
        let fuel = if n < usize::MAX {
            n + 1
        } else {
            n
        };
        let r = coerce_in(&self.structs, &mut self.heap, value, into, fuel);
        proof {
            Self::lemma_wf_after_growth(*old(self), *self);
        }
        r
    }

    /// Applies a type annotation to a value (see `annotation_outcome`).
    pub fn apply_type_annotation(&mut self, value: RuntimeValue, expected: &DataType) -> (r: RuntimeResult<RuntimeValue>)
        requires
            old(self).wf(),
            value_addrs_below(value@, old(self).heap@.len()),
        ensures
            final(self).wf(),
            final(self).only_heap_grew(*old(self)),
            r matches Ok(v) ==> value_addrs_below(v@, final(self).heap@.len()),
            annotation_outcome(old(self).heap@, value@, expected@, r),
    {
        let n = self.structs.len();
        let fuel = if n < usize::MAX {
            n + 1
        } else {
            n
        };
        let r = annotate_in(&self.structs, &mut self.heap, value, expected, fuel);
        proof {
            Self::lemma_wf_after_growth(*old(self), *self);
        }
        r
    }
}

impl Runtime {
    /// The scopes and frames are as in `old`.
    pub open spec fn scopes_same(&self, old: Runtime) -> bool {
        &&& self.global_scope == old.global_scope
        &&& self.global_sub_scopes == old.global_sub_scopes
        &&& self.call_stack == old.call_stack
        &&& self.dead_frames == old.dead_frames
    }

    pub proof fn lemma_wf_same_scopes(old: Runtime, new: Runtime)
        requires
            old.wf(),
            new.heap.wf(),
            old.heap@.len() <= new.heap@.len(),
            new.scopes_same(old),
        ensures
            new.wf(),
    {
        let n = old.heap@.len();
        let m = new.heap@.len();
        crate::scopes::lemma_scopes_mono(new.global_sub_scopes@, n, m);
        crate::scopes::lemma_frames_mono(new.call_stack@, n, m);
        crate::scopes::lemma_frames_mono(new.dead_frames@, n, m);
        assert forall|i: int| 0 <= i < new.global_scope.variables@.len() implies (#[trigger] new.global_scope.variables@[i]).1 < m by {
            assert(crate::scopes::scope_cells_below(old.global_scope, n));
        }
    }
}

/// Every value of the list points only at cells below `n`.
pub open spec fn all_below(vals: Seq<RuntimeValue>, n: nat) -> bool {
    forall|i: int| 0 <= i < vals.len() ==> value_addrs_below((#[trigger] vals[i])@, n)
}

pub proof fn lemma_all_below_mono(vals: Seq<RuntimeValue>, n: nat, m: nat)
    requires
        all_below(vals, n),
        n <= m,
    ensures
        all_below(vals, m),
{
    assert forall|i: int| 0 <= i < vals.len() implies value_addrs_below((#[trigger] vals[i])@, m) by {
        lemma_addrs_below_mono(vals[i]@, n, m);
    }
}

} // verus!
