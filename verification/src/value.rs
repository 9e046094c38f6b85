//! Runtime values and the heap of cells that variables, struct fields and
//! array elements live in.
use vstd::prelude::*;

use crate::ast::{DType, DataType, NativeObjectKind, clone_data_type};
use crate::error::{RuntimeError, RuntimeResult};

verus! {

/// The address of a cell of the heap.
pub type RuntimeReference = usize;

/// An object that the host provides, known by the host's handle number.
#[derive(Debug, PartialEq, Eq, Structural, Clone, Copy)]
pub enum NativeObject {
    File(u64),
}

impl NativeObject {
    fn data_type_name(&self) -> (s: &'static str)
        ensures
            s@ == crate::ast::native_kind_name(NativeObjectKind::FileHandle),
    {
        match self {
            NativeObject::File(_) => "sg::FileHandle",
        }
    }

    pub fn data_type(&self) -> (t: DataType)
        ensures
            t@ == DType::NativeObject(NativeObjectKind::FileHandle),
    {
        let _name = self.data_type_name();
        DataType::NativeObject(NativeObjectKind::FileHandle)
    }
}

/// A value of the language. Struct fields and array elements are cells of the
/// heap, so that copies of an array share its elements and references can
/// point into them; a struct value names the struct definition it was built
/// from.
#[derive(Debug, PartialEq)]
pub enum RuntimeValue {
    NoValue,
    S8(i8),
    U8(u8),
    S16(i16),
    U16(u16),
    S32(i32),
    U32(u32),
    Usize(usize),
    String(String),
    Bool(bool),
    Struct { definition: String, fields: Vec<(String, RuntimeReference)> },
    Reference(RuntimeReference),
    Iterator { inner_data_type: DataType, contents: Vec<RuntimeReference> },
    Array { inner_data_type: DataType, contents: Vec<RuntimeReference> },
    NativeObject(NativeObject),
}

/// What a value is, with text as characters and lists as sequences.
pub enum ValueView {
    NoValue,
    S8(i8),
    U8(u8),
    S16(i16),
    U16(u16),
    S32(i32),
    U32(u32),
    Usize(usize),
    String(Seq<char>),
    Bool(bool),
    Struct { definition: Seq<char>, fields: Seq<(Seq<char>, RuntimeReference)> },
    Reference(RuntimeReference),
    Iterator { inner_data_type: DType, contents: Seq<RuntimeReference> },
    Array { inner_data_type: DType, contents: Seq<RuntimeReference> },
    NativeObject(NativeObject),
}

pub open spec fn fields_view(fields: Seq<(String, RuntimeReference)>) -> Seq<(Seq<char>, RuntimeReference)> {
    fields.map_values(|p: (String, RuntimeReference)| (p.0@, p.1))
}

impl View for RuntimeValue {
    type V = ValueView;

    open spec fn view(&self) -> ValueView {
        match *self {
            RuntimeValue::NoValue => ValueView::NoValue,
            RuntimeValue::S8(x) => ValueView::S8(x),
            RuntimeValue::U8(x) => ValueView::U8(x),
            RuntimeValue::S16(x) => ValueView::S16(x),
            RuntimeValue::U16(x) => ValueView::U16(x),
            RuntimeValue::S32(x) => ValueView::S32(x),
            RuntimeValue::U32(x) => ValueView::U32(x),
            RuntimeValue::Usize(x) => ValueView::Usize(x),
            RuntimeValue::String(s) => ValueView::String(s@),
            RuntimeValue::Bool(b) => ValueView::Bool(b),
            RuntimeValue::Struct { definition, fields } => ValueView::Struct {
                definition: definition@,
                fields: fields_view(fields@),
            },
            RuntimeValue::Reference(a) => ValueView::Reference(a),
            RuntimeValue::Iterator { inner_data_type, contents } => ValueView::Iterator {
                inner_data_type: inner_data_type@,
                contents: contents@,
            },
            RuntimeValue::Array { inner_data_type, contents } => ValueView::Array {
                inner_data_type: inner_data_type@,
                contents: contents@,
            },
            RuntimeValue::NativeObject(o) => ValueView::NativeObject(o),
        }
    }
}

/// Copies a value shallowly: cells are shared, not copied.
pub fn clone_value(v: &RuntimeValue) -> (r: RuntimeValue)
    ensures
        r@ == v@,
{
    match v {
        RuntimeValue::NoValue => RuntimeValue::NoValue,
        RuntimeValue::S8(x) => RuntimeValue::S8(*x),
        RuntimeValue::U8(x) => RuntimeValue::U8(*x),
        RuntimeValue::S16(x) => RuntimeValue::S16(*x),
        RuntimeValue::U16(x) => RuntimeValue::U16(*x),
        RuntimeValue::S32(x) => RuntimeValue::S32(*x),
        RuntimeValue::U32(x) => RuntimeValue::U32(*x),
        RuntimeValue::Usize(x) => RuntimeValue::Usize(*x),
        RuntimeValue::String(s) => RuntimeValue::String(s.clone()),
        RuntimeValue::Bool(b) => RuntimeValue::Bool(*b),
        RuntimeValue::Struct { definition, fields } => RuntimeValue::Struct {
            definition: definition.clone(),
            fields: clone_fields(fields),
        },
        RuntimeValue::Reference(a) => RuntimeValue::Reference(*a),
        RuntimeValue::Iterator { inner_data_type, contents } => RuntimeValue::Iterator {
            inner_data_type: clone_data_type(inner_data_type),
            contents: clone_cells(contents),
        },
        RuntimeValue::Array { inner_data_type, contents } => RuntimeValue::Array {
            inner_data_type: clone_data_type(inner_data_type),
            contents: clone_cells(contents),
        },
        RuntimeValue::NativeObject(o) => RuntimeValue::NativeObject(*o),
    }
}

/// Copies a list of cell addresses.
pub fn clone_cells(cells: &Vec<RuntimeReference>) -> (r: Vec<RuntimeReference>)
    ensures
        r@ == cells@,
{
    let mut r: Vec<RuntimeReference> = Vec::new();
    let mut i: usize = 0;
    while i < cells.len()
        invariant
            i <= cells.len(),
            r@ == cells@.take(i as int),
        decreases cells.len() - i,
    {
        r.push(cells[i]);
        assert(r@ == cells@.take(i + 1));
        i = i + 1;
    }
    assert(cells@.take(cells.len() as int) == cells@);
    r
}

pub proof fn lemma_fields_view_push(s: Seq<(String, RuntimeReference)>, x: (String, RuntimeReference))
    ensures
        fields_view(s.push(x)) == fields_view(s).push((x.0@, x.1)),
{
    let a = fields_view(s.push(x));
    let b = fields_view(s).push((x.0@, x.1));
    assert(a.len() == b.len());
    assert forall|j: int| 0 <= j < a.len() implies a[j] == b[j] by {
        if j < s.len() {
            assert(s.push(x)[j] == s[j]);
        }
    }
    assert(a =~= b);
}

/// Copies a list of struct fields (names and cells).
pub fn clone_fields(fields: &Vec<(String, RuntimeReference)>) -> (r: Vec<(String, RuntimeReference)>)
    ensures
        fields_view(r@) == fields_view(fields@),
{
    let mut r: Vec<(String, RuntimeReference)> = Vec::new();
    let mut i: usize = 0;
    while i < fields.len()
        invariant
            i <= fields.len(),
            fields_view(r@) == fields_view(fields@.take(i as int)),
        decreases fields.len() - i,
    {
        let (name, cell) = &fields[i];
        let ghost prev = r@;
        r.push((name.clone(), *cell));
        assert(r@ == prev.push(fields@[i as int]));
        assert(fields@.take(i + 1) == fields@.take(i as int).push(fields@[i as int]));
        proof {
            lemma_fields_view_push(prev, fields@[i as int]);
            lemma_fields_view_push(fields@.take(i as int), fields@[i as int]);
        }
        assert(fields_view(r@) =~= fields_view(fields@.take(i + 1)));
        i = i + 1;
    }
    assert(fields@.take(fields.len() as int) == fields@);
    r
}

/// The cells a value points at are all below `n`.
pub open spec fn value_addrs_below(v: ValueView, n: nat) -> bool {
    match v {
        ValueView::Struct { fields, .. } => forall|i: int|
            0 <= i < fields.len() ==> (#[trigger] fields[i]).1 < n,
        ValueView::Reference(a) => a < n,
        ValueView::Iterator { contents, .. } => forall|i: int|
            0 <= i < contents.len() ==> #[trigger] contents[i] < n,
        ValueView::Array { contents, .. } => forall|i: int|
            0 <= i < contents.len() ==> #[trigger] contents[i] < n,
        _ => true,
    }
}

pub proof fn lemma_addrs_below_mono(v: ValueView, n: nat, m: nat)
    requires
        value_addrs_below(v, n),
        n <= m,
    ensures
        value_addrs_below(v, m),
{
}

pub proof fn lemma_struct_cell_below(v: ValueView, n: nat, i: int)
    requires
        value_addrs_below(v, n),
        v is Struct,
        0 <= i < v->Struct_fields.len(),
    ensures
        v->Struct_fields[i].1 < n,
{
}

pub proof fn lemma_array_cell_below(v: ValueView, n: nat, i: int)
    requires
        value_addrs_below(v, n),
        v is Array,
        0 <= i < v->Array_contents.len(),
    ensures
        v->Array_contents[i] < n,
{
}

pub proof fn lemma_iterator_cell_below(v: ValueView, n: nat, i: int)
    requires
        value_addrs_below(v, n),
        v is Iterator,
        0 <= i < v->Iterator_contents.len(),
    ensures
        v->Iterator_contents[i] < n,
{
}

/// The heap of cells.
#[derive(Debug)]
pub struct Heap {
    pub cells: Vec<RuntimeValue>,
}

/// Every cell only points at cells of the heap.
pub open spec fn heap_wf(cells: Seq<ValueView>) -> bool {
    forall|i: int| 0 <= i < cells.len() ==> value_addrs_below(#[trigger] cells[i], cells.len())
}

impl View for Heap {
    type V = Seq<ValueView>;

    open spec fn view(&self) -> Seq<ValueView> {
        self.cells@.map_values(|v: RuntimeValue| v@)
    }
}

impl Heap {
    pub open spec fn wf(&self) -> bool {
        heap_wf(self@)
    }

    pub fn new() -> (h: Heap)
        ensures
            h@ == Seq::<ValueView>::empty(),
            h.wf(),
    {
        let h = Heap { cells: Vec::new() };
        assert(h@ =~= Seq::<ValueView>::empty());
        h
    }

    pub fn len(&self) -> (n: usize)
        ensures
            n == self@.len(),
    {
        self.cells.len()
    }

    /// Puts a value into a new cell and returns the cell's address.
    pub fn allocate(&mut self, v: RuntimeValue) -> (a: RuntimeReference)
        requires
            old(self).wf(),
            value_addrs_below(v@, old(self)@.len()),
        ensures
            a == old(self)@.len(),
            final(self)@ == old(self)@.push(v@),
            final(self).wf(),
    {
        let a = self.cells.len();
        let ghost vv = v@;
        self.cells.push(v);
        proof {
            assert(self@ =~= old(self)@.push(vv));
            assert forall|i: int| 0 <= i < self@.len() implies value_addrs_below(
                #[trigger] self@[i],
                self@.len(),
            ) by {
                if i < a {
                    lemma_addrs_below_mono(old(self)@[i], a as nat, self@.len());
                } else {
                    lemma_addrs_below_mono(vv, a as nat, self@.len());
                }
            }
        }
        a
    }

    pub fn read(&self, a: RuntimeReference) -> (v: &RuntimeValue)
        requires
            a < self@.len(),
        ensures
            v@ == self@[a as int],
    {
        &self.cells[a]
    }

    /// Replaces the value in a cell.
    pub fn write(&mut self, a: RuntimeReference, v: RuntimeValue)
        requires
            old(self).wf(),
            a < old(self)@.len(),
            value_addrs_below(v@, old(self)@.len()),
        ensures
            final(self)@ == old(self)@.update(a as int, v@),
            final(self).wf(),
    {
        let ghost vv = v@;
        self.cells.set(a, v);
        assert(self@ =~= old(self)@.update(a as int, vv));
    }
}

/// Follows references from `v` for at most `fuel` steps and gives the value
/// that is not a reference at the end of the chain.
pub open spec fn chain_end(cells: Seq<ValueView>, v: ValueView, fuel: nat) -> Option<ValueView>
    decreases fuel,
{
    match v {
        ValueView::Reference(a) => if fuel == 0 || a >= cells.len() {
            None
        } else {
            chain_end(cells, cells[a as int], (fuel - 1) as nat)
        },
        _ => Some(v),
    }
}

/// The data type of a value that is not a reference.
pub open spec fn direct_type(v: ValueView) -> Option<DType> {
    match v {
        ValueView::NoValue => None,
        ValueView::S8(_) => Some(DType::S8),
        ValueView::U8(_) => Some(DType::U8),
        ValueView::S16(_) => Some(DType::S16),
        ValueView::U16(_) => Some(DType::U16),
        ValueView::S32(_) => Some(DType::S32),
        ValueView::U32(_) => Some(DType::U32),
        ValueView::Usize(_) => Some(DType::Usize),
        ValueView::String(_) => Some(DType::String),
        ValueView::Bool(_) => Some(DType::Bool),
        ValueView::Struct { definition, .. } => Some(DType::UserDefined(definition)),
        ValueView::Iterator { inner_data_type, .. } => Some(
            DType::Iterator(Box::new(inner_data_type)),
        ),
        ValueView::Array { inner_data_type, contents } => Some(
            DType::Array {
                inner_data_type: Box::new(inner_data_type),
                count: Some(contents.len() as usize),
            },
        ),
        ValueView::NativeObject(_) => Some(DType::NativeObject(NativeObjectKind::FileHandle)),
        ValueView::Reference(_) => None,
    }
}

/// The data type of a value: references have the type of what they point at,
/// wrapped once per reference; `None` when the chain ends in no value or is
/// longer than `fuel`.
pub open spec fn value_type(cells: Seq<ValueView>, v: ValueView, fuel: nat) -> Option<DType>
    decreases fuel,
{
    match v {
        ValueView::Reference(a) => if fuel == 0 || a >= cells.len() {
            None
        } else {
            match value_type(cells, cells[a as int], (fuel - 1) as nat) {
                Some(t) => Some(DType::Reference(Box::new(t))),
                None => None,
            }
        },
        _ => direct_type(v),
    }
}

/// The error that asking a value for its type gives: no type when the chain of
/// references ends in no value, a cycle when it does not end within `fuel`.
pub open spec fn type_error_is(cells: Seq<ValueView>, v: ValueView, fuel: nat, e: RuntimeError) -> bool {
    match chain_end(cells, v, fuel) {
        Some(_) => e is NoDataTypeAttached,
        None => e is ReferenceCycle,
    }
}

impl RuntimeValue {
    /// Puts the value into a new cell of the heap: the reference to it.
    pub fn into_runtime_reference(self, heap: &mut Heap) -> (a: RuntimeReference)
        requires
            old(heap).wf(),
            value_addrs_below(self@, old(heap)@.len()),
        ensures
            a == old(heap)@.len(),
            final(heap)@ == old(heap)@.push(self@),
            final(heap).wf(),
    {
        heap.allocate(self)
    }
}

impl RuntimeValue {
    pub fn is_reference(&self) -> (r: bool)
        ensures
            r == (self@ is Reference),
    {
        matches!(self, RuntimeValue::Reference(_))
    }

    /// The value's data type, looking through references with at most `fuel`
    /// steps.
    pub fn data_type_within(&self, heap: &Heap, fuel: usize) -> (r: RuntimeResult<DataType>)
        ensures
            r is Ok <==> value_type(heap@, self@, fuel as nat) is Some,
            r matches Ok(t) ==> t@ == value_type(heap@, self@, fuel as nat)->Some_0,
            r matches Err(e) ==> type_error_is(heap@, self@, fuel as nat, e),
        decreases fuel,
    {
        match self {
            RuntimeValue::NoValue => Err(RuntimeError::NoDataTypeAttached),
            RuntimeValue::S8(_) => Ok(DataType::S8),
            RuntimeValue::U8(_) => Ok(DataType::U8),
            RuntimeValue::S16(_) => Ok(DataType::S16),
            RuntimeValue::U16(_) => Ok(DataType::U16),
            RuntimeValue::S32(_) => Ok(DataType::S32),
            RuntimeValue::U32(_) => Ok(DataType::U32),
            RuntimeValue::Usize(_) => Ok(DataType::Usize),
            RuntimeValue::String(_) => Ok(DataType::String),
            RuntimeValue::Bool(_) => Ok(DataType::Bool),
            RuntimeValue::Struct { definition, .. } => Ok(DataType::UserDefined(definition.clone())),
            RuntimeValue::Iterator { inner_data_type, .. } => Ok(
                DataType::Iterator(Box::new(clone_data_type(inner_data_type))),
            ),
            RuntimeValue::Array { inner_data_type, contents } => Ok(
                DataType::Array {
                    inner_data_type: Box::new(clone_data_type(inner_data_type)),
                    count: Some(contents.len()),
                },
            ),
            RuntimeValue::NativeObject(o) => Ok(o.data_type()),
            RuntimeValue::Reference(a) => {
                if fuel == 0 || *a >= heap.len() {
                    Err(RuntimeError::ReferenceCycle)
                } else {
                    let inner = heap.read(*a).data_type_within(heap, fuel - 1)?;
                    Ok(DataType::Reference(Box::new(inner)))
                }
            },
        }
    }

    /// The value's data type; a chain of references is followed through at most
    /// as many cells as the heap holds.
    pub fn data_type(&self, heap: &Heap) -> (r: RuntimeResult<DataType>)
        ensures
            r is Ok <==> value_type(heap@, self@, heap@.len()) is Some,
            r matches Ok(t) ==> t@ == value_type(heap@, self@, heap@.len())->Some_0,
            r matches Err(e) ==> type_error_is(heap@, self@, heap@.len(), e),
    {
        self.data_type_within(heap, heap.len())
    }
}

} // verus!
