//! The evaluator and the executor: expressions to values, statements to
//! control flow, and calls of functions and methods.
//!
//! Every step takes a budget (`fuel`): nested steps get less of it and every
//! loop iteration uses some, so that running a program always ends; a run
//! that uses it up stops with `OutOfFuel`.
use vstd::prelude::*;

use crate::ast::{
    ArrayInitialization, Assignment, AssignmentTarget, BinaryOperator, Block, ControlStatement,
    DType, DataType, Expression, FunctionDefinition, MethodDefinition, Program, Return, Statement, StructDefinition,
    Parameter, StructFieldDefinition, StructFieldInitialization, StructInitialization, UnaryOperator, Value, clone_data_type, clone_function_definition,
    same_block,
};
use crate::error::{RuntimeError, RuntimeResult};
use crate::runtime::{
    BuiltinMethod, BuiltinMethodTarget, ControlFlow, NativeFunction, Runtime, RuntimeFunction,
    struct_def,
};
use crate::natives::{array_of, builtin_call, native_outcome};
use crate::serialization::{find_attr, spec_fields};
use crate::text::{str_eq, string_of};
use crate::scopes::{scope_closed, scope_opened};
use crate::value::{
    Heap, RuntimeReference, RuntimeValue, ValueView, clone_value, fields_view, value_addrs_below,
    lemma_addrs_below_mono, value_type,
};
use crate::evaluation::{
    args_pure, args_values, deref_chain, pure_index, lemma_binary_value, lemma_cast_value, lemma_pure_eval_unchanged,
    lemma_unary_value, lemma_unchanged_trans, pure_eval, pure_outcome, unchanged,
};
use crate::functions::{fn_lookup, impl_lookup, struct_method};
use crate::operators::{
    arith_outcome, bitwise_outcome, logical_outcome, order_outcome, shift_outcome,
};
use crate::values::{
    all_below, coerce_outcome, default_fuel, eq_outcome, has_default, is_copy, is_default, lemma_all_below_mono,
    lemma_is_default_grows, lemma_literal_annotation, literal_annotation, heap_grows, lemma_heap_grows_trans,
};

verus! {

/// A returned value points only at cells below `n`.
pub open spec fn flow_below(f: ControlFlow, n: nat) -> bool {
    match f {
        ControlFlow::Return(v) => value_addrs_below(v@, n),
        _ => true,
    }
}

/// The runtime value of a literal.
pub open spec fn literal_view(v: Value) -> Option<ValueView> {
    match v {
        Value::S8(x) => Some(ValueView::S8(x)),
        Value::U8(x) => Some(ValueView::U8(x)),
        Value::S16(x) => Some(ValueView::S16(x)),
        Value::U16(x) => Some(ValueView::U16(x)),
        Value::S32(x) => Some(ValueView::S32(x)),
        Value::U32(x) => Some(ValueView::U32(x)),
        Value::Usize(x) => Some(ValueView::Usize(x)),
        Value::String(s) => Some(ValueView::String(s@)),
        Value::Bool(b) => Some(ValueView::Bool(b)),
        Value::Identifier(_) => None,
    }
}

fn out_of_fuel() -> (e: RuntimeError)
    ensures
        e is OutOfFuel,
{
    RuntimeError::OutOfFuel
}

/// An index into an array: a `u32`, or an `s32` that is not negative.
fn array_index(heap: &Heap, v: &RuntimeValue) -> (r: RuntimeResult<usize>)
    ensures
        r matches Ok(i) ==> (v@ matches ValueView::U32(x) && i == x) || (v@ matches ValueView::S32(x) && x >= 0 && i == x),
        (v@ is U32 || (v@ matches ValueView::S32(x) && x >= 0)) ==> r is Ok,
{
    match v {
        RuntimeValue::U32(x) => Ok(*x as usize),
        RuntimeValue::S32(x) if *x >= 0 => Ok(*x as usize),
        _ => {
            let t = v.data_type(heap)?;
            Err(RuntimeError::InvalidArrayIndex(t.name()))
        },
    }
}

impl Runtime {
    /// The value of a literal, or a copy of the value a variable is bound to.
    pub fn resolve_ast_value(&mut self, value: &Value) -> (r: RuntimeResult<RuntimeValue>)
        requires
            old(self).wf(),
        ensures
            final(self).wf(),
            final(self).only_heap_grew(*old(self)),
            r matches Ok(v) ==> value_addrs_below(v@, final(self).heap@.len()),
            literal_view(*value) matches Some(l) ==> (r matches Ok(v) && v@ == l) && *final(self) == *old(self),
            value matches Value::Identifier(n) ==> (r is Ok <==> old(self).lookup(n@) is Some),
            value matches Value::Identifier(n) ==> (r matches Err(e) ==> e matches RuntimeError::VariableNotFound(m) && m@ == n@),
            value matches Value::Identifier(n) ==> (old(self).lookup(n@) matches Some(c) && !(old(self).heap@[c as int] is Struct)
                ==> final(self).heap@ == old(self).heap@),
            value matches Value::Identifier(n) ==> (old(self).lookup(n@) is None ==> *final(self) == *old(self)),
            value matches Value::Identifier(n) ==> (r matches Ok(v) ==> {
                let bound = old(self).heap@[old(self).lookup(n@)->Some_0 as int];
                &&& !(bound is Struct) ==> v@ == bound
                &&& is_copy(final(self).heap@, old(self).heap@.len(), bound, v@, old(self).heap@.len())
            }),
    {
        match value {
            Value::S8(x) => Ok(RuntimeValue::S8(*x)),
            Value::U8(x) => Ok(RuntimeValue::U8(*x)),
            Value::S16(x) => Ok(RuntimeValue::S16(*x)),
            Value::U16(x) => Ok(RuntimeValue::U16(*x)),
            Value::S32(x) => Ok(RuntimeValue::S32(*x)),
            Value::U32(x) => Ok(RuntimeValue::U32(*x)),
            Value::Usize(x) => Ok(RuntimeValue::Usize(*x)),
            Value::String(s) => Ok(RuntimeValue::String(s.clone())),
            Value::Bool(b) => Ok(RuntimeValue::Bool(*b)),
            Value::Identifier(name) => {
                let cell = self.get_variable(name.as_str())?;
                proof {
                    self.lemma_lookup_below(name@);
                }
                let v = clone_value(self.heap.read(cell));
                proof {
                    assert(value_addrs_below(self.heap@[cell as int], self.heap@.len()));
                }
                let ghost before = *self;
                let r = v.copy_value(&mut self.heap);
                proof {
                    Runtime::lemma_wf_same_scopes(before, *self);
                }
                Ok(r)
            },
        }
    }

    /// Applies a binary operator to two values.
    fn evaluate_binary(&self, operator: BinaryOperator, lhs: RuntimeValue, rhs: RuntimeValue) -> (r: RuntimeResult<RuntimeValue>)
        ensures
            r matches Ok(v) ==> value_addrs_below(v@, 0),
            binary_outcome(self.heap@, operator, lhs@, rhs@, r),
    {
        let heap = &self.heap;
        let r = match operator {
            BinaryOperator::Add => lhs.add(rhs, heap),
            BinaryOperator::Subtract => lhs.subtract(rhs, heap),
            BinaryOperator::Multiply => lhs.multiply(rhs, heap),
            BinaryOperator::Divide => lhs.divide(rhs, heap),
            BinaryOperator::Modulo => lhs.modulo(rhs, heap),
            BinaryOperator::ShiftLeft => lhs.shift_left(rhs),
            BinaryOperator::ShiftRight => lhs.shift_right(rhs),
            BinaryOperator::LessThan => lhs.compare_lt(rhs, heap),
            BinaryOperator::LessThanOrEqualTo => lhs.compare_lte(rhs, heap),
            BinaryOperator::GreaterThan => lhs.compare_gt(rhs, heap),
            BinaryOperator::GreaterThanOrEqualTo => lhs.compare_gte(rhs, heap),
            BinaryOperator::EqualTo => lhs.compare_eq(rhs, heap),
            BinaryOperator::NotEqualTo => lhs.compare_neq(rhs, heap),
            BinaryOperator::BitwiseAnd => lhs.bitwise_and(rhs, heap),
            BinaryOperator::BitwiseOr => lhs.bitwise_or(rhs, heap),
            BinaryOperator::BitwiseXor => lhs.bitwise_xor(rhs, heap),
            BinaryOperator::LogicalAnd => lhs.logical_and(rhs, heap),
            BinaryOperator::LogicalOr => lhs.logical_or(rhs, heap),
        };
        r
    }
}

/// What a declaration does: `let name = ..` binds the name to a new cell,
/// the last of the heap, holding the value; without a type annotation and
/// with an expression that only reads the runtime, it adds just that cell,
/// holding the expression's value, and leaves every other name bound as it
/// was (or fails, changing nothing, where the expression fails).
pub open spec fn declaration_outcome(before: Runtime, after: Runtime, a: Assignment, fuel: u64, r: RuntimeResult<ControlFlow>) -> bool {
    &&& (a.declarative && r is Ok ==> (a.target matches AssignmentTarget::Identifier(name) && after.heap@.len() > 0
        && after.lookup(name@) == Some((after.heap@.len() - 1) as RuntimeReference)))
    &&& (fuel > 0 && a.declarative && a.data_type is None ==> (a.target matches AssignmentTarget::Identifier(name) ==> (
    pure_eval(before, a.expression, (fuel - 1) as nat) matches Some(p) ==> match p {
        Some(v) => {
            &&& r matches Ok(f) && f is Continue
            &&& after.heap@ == before.heap@.push(v)
            &&& after.lookup(name@) == Some(before.heap@.len() as RuntimeReference)
            &&& forall|n: Seq<char>| n != name@ ==> #[trigger] after.lookup(n) == before.lookup(n)
        },
        None => r is Err && unchanged(after, before),
    })))
}

/// Where an assignment carries a type, its value goes through the annotation
/// (see `annotation_outcome`); else it stays as it is.
pub open spec fn annotated(before: Runtime, after: Runtime, t: Option<DataType>, v: RuntimeValue, r: RuntimeResult<RuntimeValue>) -> bool {
    match t {
        None => after == before && r == Ok::<RuntimeValue, RuntimeError>(v),
        Some(d) => after.only_heap_grew(before) && crate::values::annotation_outcome(before.heap@, v@, d@, r),
    }
}

/// What an assignment does with the budget `fuel`, for any expression: the
/// expression is evaluated (see `eval_run`) and its value goes through the
/// type annotation (see `annotated`); then a declaration binds the result
/// to its name in a new cell (see `variable_bound`), a declaration of
/// anything but a name is refused, and an assignment writes the result into
/// the cell its target names (see `target_written`); where finding that
/// cell only reads the runtime, this is also as `written` and
/// `lvalue_fault` say of the runtime the assignment started from.
pub open spec fn assignment_run(before: Runtime, after: Runtime, a: Assignment, fuel: u64, r: RuntimeResult<ControlFlow>) -> bool {
    fuel > 0 ==> exists|mid: Runtime, r1: RuntimeResult<RuntimeValue>|
        #![trigger step(mid, r1)]
        eval_run(before, mid, a.expression, (fuel - 1) as nat, r1) && match r1 {
            Err(x) => after == mid && r == Err::<ControlFlow, RuntimeError>(x),
            Ok(v) => exists|mid2: Runtime, r2: RuntimeResult<RuntimeValue>|
                #![trigger step(mid2, r2)]
                annotated(mid, mid2, a.data_type, v, r2) && match r2 {
                    Err(x) => after == mid2 && r == Err::<ControlFlow, RuntimeError>(x),
                    Ok(w) => if a.declarative {
                        match a.target {
                            AssignmentTarget::Identifier(name) => variable_bound(mid2, after, name@, w@) && r == Ok::<
                                ControlFlow,
                                RuntimeError,
                            >(ControlFlow::Continue),
                            _ => after == mid2 && (r matches Err(x) && x is UnexpectedExpression),
                        }
                    } else {
                        &&& (r is Ok ==> r == Ok::<ControlFlow, RuntimeError>(ControlFlow::Continue))
                        &&& exists|r3: RuntimeResult<()>|
                            #[trigger] target_written(mid2, after, a.target, w@, (fuel - 1) as u64, r3) && match r3 {
                                Ok(_) => r == Ok::<ControlFlow, RuntimeError>(ControlFlow::Continue),
                                Err(x) => r == Err::<ControlFlow, RuntimeError>(x),
                            }
                        &&& (fuel > 1 ==> (lvalue_cell(mid2, a.target, (fuel - 2) as nat) matches Some(p) ==> written(
                            mid2,
                            after,
                            p,
                            w@,
                            r is Ok,
                        )))
                        &&& (fuel > 1 ==> (lvalue_fault(mid2, a.target, (fuel - 2) as nat) matches Some((i, n)) ==> (
                        r matches Err(RuntimeError::ArrayIndexOutOfBounds { index, length }) && index == i && length
                            == n)))
                    },
                },
        }
}

/// What assigning `v` to the variable `name` does: the variable's cell gets
/// `v` coerced to the type of the value it holds, and no other cell of
/// `before` changes; the assignment fails where the name is unbound (and
/// nothing changes), or where the value does not coerce.
pub open spec fn assigned(before: Runtime, after: Runtime, name: Seq<char>, v: ValueView, ok: bool) -> bool {
    written(before, after, before.lookup(name), v, ok)
}

/// What writing `v` to the cell an assignment target names did: where the
/// target names no cell, it failed and nothing changed; else `v` was coerced
/// to the type of the value in the cell, and, where that succeeded, the cell
/// holds the result and every other cell is as it was.
pub open spec fn written(before: Runtime, after: Runtime, cell: Option<usize>, v: ValueView, ok: bool) -> bool {
    match cell {
        None => !ok && unchanged(after, before),
        Some(c) => match value_type(before.heap@, before.heap@[c as int], before.heap@.len()) {
            None => !ok,
            Some(t) => exists|res: RuntimeResult<RuntimeValue>|
                #[trigger] coerce_outcome(before.heap@, v, t, res) && (ok <==> res is Ok) && (res matches Ok(x) ==> {
                    &&& after.heap@[c as int] == x@
                    &&& forall|k: int| 0 <= k < before.heap@.len() && k != c ==> #[trigger] after.heap@[k] == before.heap@[k]
                }),
        },
    }
}

/// The cell an assignment target names, where finding it only reads the
/// runtime (a variable; an element, at an index that only reads, of an array
/// that such a target names; the cell a reference there points at; a field
/// of a struct there): `Some(Some(c))` for cell `c`, `Some(None)` where there
/// is none (an unbound name, an index that is no `u32` nor a non-negative
/// `s32`, a value that is no array, an index past the end, a value that is
/// no reference, no struct or a struct without the field), `None` for an
/// index that may change the runtime.
pub open spec fn lvalue_cell(rt: Runtime, target: AssignmentTarget, fuel: nat) -> Option<Option<usize>>
    decreases fuel,
{
    if fuel == 0 {
        Some(None)
    } else {
        match target {
            AssignmentTarget::Identifier(n) => Some(rt.lookup(n@)),
            AssignmentTarget::ArrayAccess { target: inner, index_expression } => match lvalue_cell(rt, *inner, (fuel - 1) as nat) {
                Some(Some(c)) => match pure_eval(rt, index_expression, (fuel - 1) as nat) {
                    Some(Some(iv)) => match crate::evaluation::index_value(iv) {
                        None => Some(None),
                        Some(i) => match rt.heap@[c as int] {
                            ValueView::Array { contents, .. } => if i < contents.len() {
                                Some(Some(contents[i]))
                            } else {
                                Some(None)
                            },
                            _ => Some(None),
                        },
                    },
                    Some(None) => Some(None),
                    None => None,
                },
                other => other,
            },
            AssignmentTarget::Dereference(inner) => match lvalue_cell(rt, *inner, (fuel - 1) as nat) {
                Some(Some(c)) => match rt.heap@[c as int] {
                    ValueView::Reference(a) => Some(Some(a)),
                    _ => Some(None),
                },
                other => other,
            },
            AssignmentTarget::FieldAccess { target: inner, field_identifier } => match lvalue_cell(rt, *inner, (fuel - 1) as nat) {
                Some(Some(c)) => match rt.heap@[c as int] {
                    ValueView::Struct { fields, .. } => Some(crate::serialization::field_cell(fields, field_identifier@)),
                    _ => Some(None),
                },
                other => other,
            },
        }
    }
}

/// The index and the length of the first array access past the end that
/// finding the cell of a target meets, where finding it only reads the
/// runtime (see `lvalue_cell`).
pub open spec fn lvalue_fault(rt: Runtime, target: AssignmentTarget, fuel: nat) -> Option<(usize, usize)>
    decreases fuel,
{
    if fuel == 0 {
        None
    } else {
        match target {
            AssignmentTarget::Identifier(_) => None,
            AssignmentTarget::ArrayAccess { target: inner, index_expression } => match lvalue_fault(rt, *inner, (fuel - 1) as nat) {
                Some(f) => Some(f),
                None => match lvalue_cell(rt, *inner, (fuel - 1) as nat) {
                    Some(Some(c)) => match pure_eval(rt, index_expression, (fuel - 1) as nat) {
                        Some(Some(iv)) => match crate::evaluation::index_value(iv) {
                            Some(i) => match rt.heap@[c as int] {
                                ValueView::Array { contents, .. } => if i >= contents.len() {
                                    Some((i as usize, contents.len() as usize))
                                } else {
                                    None
                                },
                                _ => None,
                            },
                            None => None,
                        },
                        _ => None,
                    },
                    _ => None,
                },
            },
            AssignmentTarget::Dereference(inner) => lvalue_fault(rt, *inner, (fuel - 1) as nat),
            AssignmentTarget::FieldAccess { target: inner, .. } => lvalue_fault(rt, *inner, (fuel - 1) as nat),
        }
    }
}

/// A runtime and a cell, or an error, as a pair.
pub open spec fn cell_step(s: Runtime, r: RuntimeResult<usize>) -> (Runtime, RuntimeResult<usize>) {
    (s, r)
}

/// Finding the cell an assignment target names with the budget `fuel`, for
/// any index expressions: a variable's cell (an unbound name is an error);
/// the cell that the value in the inner target's cell refers to; the cell
/// of an element of the array there, at the index its index expression
/// evaluates to (see `eval_run`), an index past the end an error naming the
/// index and the length; the cell of a field of the struct there (a missing
/// field is an error naming it and the struct). Values of other kinds are
/// errors, and a budget of zero is out of fuel.
pub open spec fn lvalue_run(before: Runtime, after: Runtime, target: AssignmentTarget, fuel: nat, r: RuntimeResult<usize>) -> bool
    decreases fuel,
{
    if fuel == 0 {
        after == before && (r matches Err(x) && x is OutOfFuel)
    } else {
        match target {
            AssignmentTarget::Identifier(name) => after == before && match before.lookup(name@) {
                None => r matches Err(x) && x matches RuntimeError::VariableNotFound(n) && n@ == name@,
                Some(c) => r == Ok::<usize, RuntimeError>(c),
            },
            AssignmentTarget::Dereference(inner) => exists|mid: Runtime, rc: RuntimeResult<usize>|
                #![trigger cell_step(mid, rc)]
                lvalue_run(before, mid, *inner, (fuel - 1) as nat, rc) && after == mid && match rc {
                    Err(x) => r == Err::<usize, RuntimeError>(x),
                    Ok(c) => match mid.heap@[c as int] {
                        ValueView::Reference(a) => r == Ok::<usize, RuntimeError>(a),
                        _ => r is Err,
                    },
                },
            AssignmentTarget::ArrayAccess { target: inner, index_expression } => exists|mid: Runtime, rc: RuntimeResult<usize>|
                #![trigger cell_step(mid, rc)]
                lvalue_run(before, mid, *inner, (fuel - 1) as nat, rc) && match rc {
                    Err(x) => after == mid && r == Err::<usize, RuntimeError>(x),
                    Ok(c) => exists|mid2: Runtime, ri: RuntimeResult<RuntimeValue>|
                        #![trigger step(mid2, ri)]
                        eval_run(mid, mid2, index_expression, (fuel - 1) as nat, ri) && after == mid2 && match ri {
                            Err(x) => r == Err::<usize, RuntimeError>(x),
                            Ok(iv) => match crate::evaluation::index_value(iv@) {
                                None => r is Err,
                                Some(i) => match mid2.heap@[c as int] {
                                    ValueView::Array { contents, .. } => if i < contents.len() {
                                        r == Ok::<usize, RuntimeError>(contents[i])
                                    } else {
                                        r matches Err(x) && x matches RuntimeError::ArrayIndexOutOfBounds { index, length }
                                            && index == i && length == contents.len()
                                    },
                                    _ => r is Err,
                                },
                            },
                        },
                },
            AssignmentTarget::FieldAccess { target: inner, field_identifier } => exists|mid: Runtime, rc: RuntimeResult<usize>|
                #![trigger cell_step(mid, rc)]
                lvalue_run(before, mid, *inner, (fuel - 1) as nat, rc) && after == mid && match rc {
                    Err(x) => r == Err::<usize, RuntimeError>(x),
                    Ok(c) => match mid.heap@[c as int] {
                        ValueView::Struct { definition, fields } => match crate::serialization::field_cell(fields, field_identifier@) {
                            Some(f) => r == Ok::<usize, RuntimeError>(f),
                            None => r matches Err(x) && x matches RuntimeError::InvalidStructFieldAccess { field_name, struct_name }
                                && field_name@ == field_identifier@ && struct_name@ == definition,
                        },
                        _ => r is Err,
                    },
                },
        }
    }
}

/// What writing `w` to an assignment target does with the budget `fuel`,
/// for any index expressions: the target's cell is found (see
/// `lvalue_run`), and the value is written there as `written` says; an
/// error in finding the cell is the write's error.
pub open spec fn target_written(
    before: Runtime,
    after: Runtime,
    target: AssignmentTarget,
    w: ValueView,
    fuel: u64,
    r: RuntimeResult<()>,
) -> bool {
    &&& fuel == 0 ==> after == before && (r matches Err(x) && x is OutOfFuel)
    &&& fuel > 0 ==> exists|mid: Runtime, rc: RuntimeResult<usize>|
        #![trigger cell_step(mid, rc)]
        lvalue_run(before, mid, target, (fuel - 1) as nat, rc) && match rc {
            Err(x) => after == mid && r == Err::<(), RuntimeError>(x),
            Ok(c) => written(mid, after, Some(c), w, r is Ok),
        }
}

/// A target meets the same fault in a runtime that nothing observable
/// changed.
pub proof fn lemma_lvalue_fault_unchanged(a: Runtime, b: Runtime, target: AssignmentTarget, fuel: nat)
    requires
        unchanged(b, a),
    ensures
        lvalue_fault(b, target, fuel) == lvalue_fault(a, target, fuel),
    decreases fuel,
{
    if fuel > 0 {
        match target {
            AssignmentTarget::ArrayAccess { target: inner, index_expression } => {
                lemma_lvalue_fault_unchanged(a, b, *inner, (fuel - 1) as nat);
                lemma_lvalue_cell_unchanged(a, b, *inner, (fuel - 1) as nat);
                lemma_pure_eval_unchanged(a, b, index_expression, (fuel - 1) as nat);
            },
            AssignmentTarget::Dereference(inner) => {
                lemma_lvalue_fault_unchanged(a, b, *inner, (fuel - 1) as nat);
            },
            AssignmentTarget::FieldAccess { target: inner, .. } => {
                lemma_lvalue_fault_unchanged(a, b, *inner, (fuel - 1) as nat);
            },
            _ => {},
        }
    }
}

/// A target names the same cell in a runtime that nothing observable
/// changed.
pub proof fn lemma_lvalue_cell_unchanged(a: Runtime, b: Runtime, target: AssignmentTarget, fuel: nat)
    requires
        unchanged(b, a),
    ensures
        lvalue_cell(b, target, fuel) == lvalue_cell(a, target, fuel),
    decreases fuel,
{
    assert forall|n: Seq<char>| #[trigger] b.lookup(n) == a.lookup(n) by {}
    if fuel > 0 {
        match target {
            AssignmentTarget::ArrayAccess { target: inner, index_expression } => {
                lemma_lvalue_cell_unchanged(a, b, *inner, (fuel - 1) as nat);
                lemma_pure_eval_unchanged(a, b, index_expression, (fuel - 1) as nat);
            },
            AssignmentTarget::Dereference(inner) => {
                lemma_lvalue_cell_unchanged(a, b, *inner, (fuel - 1) as nat);
            },
            AssignmentTarget::FieldAccess { target: inner, .. } => {
                lemma_lvalue_cell_unchanged(a, b, *inner, (fuel - 1) as nat);
            },
            _ => {},
        }
    }
}

/// What running a statement does, as far as it is stated: the bindings it
/// keeps, what the runtime keeps, and, by the kind of statement, its result
/// and effect.
pub open spec fn statement_outcome(before: Runtime, after: Runtime, s: Statement, fuel: u64, r: RuntimeResult<ControlFlow>) -> bool {
    &&& after.bindings_kept(before)
    &&& after.wf()
    &&& after.stable(before)
    &&& (r matches Ok(f) ==> flow_below(f, after.heap@.len()))
    &&& (fuel > 0 && s is Break ==> (r matches Ok(f) && f is Break))
    &&& (fuel > 1 ==> (s matches Statement::Return(ret) ==> statement_value_outcome(
        before,
        after,
        ret.expression,
        (fuel - 2) as nat,
        r,
        true,
    )))
    &&& (fuel > 0 ==> (s matches Statement::Expression(e) ==> statement_value_outcome(
        before,
        after,
        e,
        (fuel - 1) as nat,
        r,
        false,
    )))
    &&& (fuel > 0 ==> (s matches Statement::Assignment(a) ==> declaration_outcome(before, after, a, (fuel - 1) as u64, r)))
    &&& (fuel > 3 ==> (s matches Statement::Assignment(a) ==> (!a.declarative && a.data_type is None ==> (
    a.target matches AssignmentTarget::Identifier(name) ==> (pure_eval(before, a.expression, (fuel - 2) as nat) matches Some(
        Some(v),
    ) ==> assigned(before, after, name@, v, r is Ok))))))
    &&& (fuel > 3 ==> (s matches Statement::Assignment(a) ==> (!a.declarative && a.data_type is None ==> (pure_eval(
        before,
        a.expression,
        (fuel - 2) as nat,
    ) matches Some(Some(v)) ==> (lvalue_cell(before, a.target, (fuel - 3) as nat) matches Some(p) ==> written(
        before,
        after,
        p,
        v,
        r is Ok,
    ))))))
    &&& (fuel > 3 ==> (s matches Statement::Assignment(a) ==> (!a.declarative && a.data_type is None ==> (pure_eval(
        before,
        a.expression,
        (fuel - 2) as nat,
    ) matches Some(Some(v)) ==> (lvalue_fault(before, a.target, (fuel - 3) as nat) matches Some((i, n)) ==> (r matches Err(
        RuntimeError::ArrayIndexOutOfBounds { index, length },
    ) && index == i && length == n))))))
    &&& (fuel > 0 && (s is FunctionDefinition || s is StructDefinition || s is StructImpl || s is Import) ==> (r matches Err(
        e,
    ) && e is UnexpectedExpression))
}


/// Running the statements `stmts[i..]` in turn from `before` ends in `after`
/// with `r`: each does what `statement_outcome` says, and the first that does
/// not continue (it fails, or ends with a `break` or a `return`) ends the run
/// with its result; when every one continues, so does the run.
pub open spec fn statements_run(
    before: Runtime,
    after: Runtime,
    stmts: Seq<Statement>,
    i: int,
    fuel: u64,
    r: RuntimeResult<ControlFlow>,
) -> bool
    decreases stmts.len() - i,
{
    if i < 0 || i >= stmts.len() {
        after == before && r matches Ok(ControlFlow::Continue)
    } else {
        exists|mid: Runtime, r1: RuntimeResult<ControlFlow>|
            #[trigger] statement_outcome(before, mid, stmts[i], fuel, r1) && if r1 matches Ok(ControlFlow::Continue) {
                statements_run(mid, after, stmts, i + 1, fuel, r)
            } else {
                after == mid && r == r1
            }
    }
}

/// Running a block's statements in the current scope with the budget
/// `fuel`: out of fuel at zero, else the statements in turn.
pub open spec fn contents_run(before: Runtime, after: Runtime, stmts: Seq<Statement>, fuel: u64, r: RuntimeResult<ControlFlow>) -> bool {
    &&& fuel == 0 ==> (r matches Err(e) && e is OutOfFuel) && after == before
    &&& fuel > 0 ==> statements_run(before, after, stmts, 0, (fuel - 1) as u64, r)
}

/// Running a block in a scope of its own: a scope is opened, the statements
/// run in it, and the scope is closed.
pub open spec fn block_run(before: Runtime, after: Runtime, block: Block, fuel: u64, r: RuntimeResult<ControlFlow>) -> bool {
    &&& fuel == 0 ==> (r matches Err(e) && e is OutOfFuel) && after == before
    &&& fuel > 0 ==> exists|inner: Runtime, done: Runtime|
        scope_opened(before, inner) && #[trigger] contents_run(inner, done, block.statements@, (fuel - 1) as u64, r)
            && scope_closed(done, after)
}

/// Running a `loop` with the budget `fuel`: each turn the block runs (see
/// `block_run`) with one less; a `break` ends the loop, an error ends it with
/// that error, and anything else runs the block again. The loop is out of
/// fuel when the budget is spent.
pub open spec fn loop_run(before: Runtime, after: Runtime, block: Block, fuel: u64, r: RuntimeResult<ControlFlow>) -> bool
    decreases fuel,
{
    if fuel == 0 {
        (r matches Err(e) && e is OutOfFuel) && after == before
    } else {
        exists|mid: Runtime, r1: RuntimeResult<ControlFlow>|
            #[trigger] block_run(before, mid, block, (fuel - 1) as u64, r1) && match r1 {
                Err(_) => after == mid && r == r1,
                Ok(ControlFlow::Break) => after == mid && r matches Ok(ControlFlow::Continue),
                _ => loop_run(mid, after, block, (fuel - 1) as u64, r),
            }
    }
}

/// Evaluating a condition with the budget `fuel`: the expression is
/// evaluated (see `eval_run`); a boolean gives itself, any other value is an
/// error, and so is a failed evaluation. A budget of zero is out of fuel.
pub open spec fn cond_run(before: Runtime, after: Runtime, e: Expression, fuel: u64, r: RuntimeResult<bool>) -> bool {
    &&& fuel == 0 ==> after == before && (r matches Err(x) && x is OutOfFuel)
    &&& fuel > 0 ==> exists|r1: RuntimeResult<RuntimeValue>|
        #![trigger step(after, r1)]
        eval_run(before, after, e, (fuel - 1) as nat, r1) && match r1 {
            Err(x) => r == Err::<bool, RuntimeError>(x),
            Ok(v) => match v {
                RuntimeValue::Bool(b) => r == Ok::<bool, RuntimeError>(b),
                _ => r matches Err(x) && x is ExpectedBoolean,
            },
        }
}

/// The `else if` and `else` branches `children[i..]` of an `if` whose
/// condition was false, each with the budget `fuel`: an `else if` evaluates
/// its condition (see `cond_run`) and runs its block (see `block_run`) where
/// it holds, else goes on to the next branch; an `else` runs its block; any
/// other branch is an error; with no branch left, nothing more happens.
pub open spec fn branches_run(
    before: Runtime,
    after: Runtime,
    children: Seq<ControlStatement>,
    i: int,
    fuel: u64,
    r: RuntimeResult<ControlFlow>,
) -> bool
    decreases children.len() - i,
{
    if i < 0 || i >= children.len() {
        after == before && r == Ok::<ControlFlow, RuntimeError>(ControlFlow::Continue)
    } else {
        match children[i] {
            ControlStatement::ElseIf { expression, block } => exists|mid: Runtime, c: RuntimeResult<bool>|
                #[trigger] cond_run(before, mid, expression, fuel, c) && match c {
                    Err(x) => after == mid && r == Err::<ControlFlow, RuntimeError>(x),
                    Ok(true) => block_run(mid, after, block, fuel, r),
                    Ok(false) => branches_run(mid, after, children, i + 1, fuel, r),
                },
            ControlStatement::Else { block } => block_run(before, after, block, fuel, r),
            _ => after == before && (r matches Err(x) && x is UnexpectedExpression),
        }
    }
}

/// Running an `if` with the budget `fuel`: its condition is evaluated (see
/// `cond_run`), its block runs where it holds (see `block_run`), and the
/// `else if` and `else` branches take over where it does not (see
/// `branches_run`). A budget of zero is out of fuel.
pub open spec fn if_run(
    before: Runtime,
    after: Runtime,
    expression: Expression,
    block: Block,
    children: Seq<ControlStatement>,
    fuel: u64,
    r: RuntimeResult<ControlFlow>,
) -> bool {
    &&& fuel == 0 ==> after == before && (r matches Err(x) && x is OutOfFuel)
    &&& fuel > 0 ==> exists|mid: Runtime, c: RuntimeResult<bool>|
        #[trigger] cond_run(before, mid, expression, (fuel - 1) as u64, c) && match c {
            Err(x) => after == mid && r == Err::<ControlFlow, RuntimeError>(x),
            Ok(true) => block_run(mid, after, block, (fuel - 1) as u64, r),
            Ok(false) => branches_run(mid, after, children, 0, (fuel - 1) as u64, r),
        }
}

/// Running a `while` with the budget `fuel`: each turn, with one less, the
/// condition is evaluated (see `cond_run`); an error ends the loop with it, a
/// false condition ends it; else the block runs (see `block_run`), an error
/// ends the loop with it, a `break` ends it, and anything else goes on to the
/// next turn. The loop is out of fuel when the budget is spent.
pub open spec fn while_run(before: Runtime, after: Runtime, expression: Expression, block: Block, fuel: u64, r: RuntimeResult<ControlFlow>) -> bool
    decreases fuel,
{
    if fuel == 0 {
        after == before && (r matches Err(x) && x is OutOfFuel)
    } else {
        exists|mid: Runtime, c: RuntimeResult<bool>|
            #[trigger] cond_run(before, mid, expression, (fuel - 1) as u64, c) && match c {
                Err(x) => after == mid && r == Err::<ControlFlow, RuntimeError>(x),
                Ok(false) => after == mid && r == Ok::<ControlFlow, RuntimeError>(ControlFlow::Continue),
                Ok(true) => exists|mid2: Runtime, r2: RuntimeResult<ControlFlow>|
                    #[trigger] block_run(mid, mid2, block, (fuel - 1) as u64, r2) && match r2 {
                        Err(x) => after == mid2 && r == Err::<ControlFlow, RuntimeError>(x),
                        Ok(ControlFlow::Break) => after == mid2 && r == Ok::<ControlFlow, RuntimeError>(ControlFlow::Continue),
                        _ => while_run(mid2, after, expression, block, (fuel - 1) as u64, r),
                    },
            }
    }
}

/// What running an `if`, a `while` or a `for` does with the budget `fuel`,
/// for any conditions, bounds and iterables (see `if_run`, `while_run` and
/// `for_run`); a `loop` and a stray `else` are as `control_outcome` says.
pub open spec fn control_run(before: Runtime, after: Runtime, c: ControlStatement, fuel: u64, r: RuntimeResult<ControlFlow>) -> bool {
    fuel > 0 ==> match c {
        ControlStatement::If { expression, block, children } => if_run(before, after, expression, block, children@, (fuel - 1) as u64, r),
        ControlStatement::While { expression, block } => while_run(before, after, expression, block, (fuel - 1) as u64, r),
        ControlStatement::For { identifier, iterable, block } => for_run(before, after, identifier@, iterable, block, (fuel - 1) as u64, r),
        _ => true,
    }
}

/// What running a statement does, as `statement_outcome` says and, for any
/// expressions in it, as `value_statement_run`, `assignment_run` and
/// `control_run` say.
pub open spec fn statement_run(before: Runtime, after: Runtime, s: Statement, fuel: u64, r: RuntimeResult<ControlFlow>) -> bool {
    &&& statement_outcome(before, after, s, fuel, r)
    &&& (fuel > 1 ==> (s matches Statement::Return(ret) ==> value_statement_run(before, after, ret.expression, (fuel - 2) as nat, r, true)))
    &&& (fuel > 0 ==> (s matches Statement::Expression(e) ==> value_statement_run(before, after, e, (fuel - 1) as nat, r, false)))
    &&& (fuel > 0 ==> (s matches Statement::Assignment(a) ==> assignment_run(before, after, a, (fuel - 1) as u64, r)))
    &&& (fuel > 0 ==> (s matches Statement::ControlStatement(c) ==> control_run(before, after, c, (fuel - 1) as u64, r)))
}

/// Running the statements `stmts[i..]` in turn, each as `statement_run`
/// says; the first that does not continue ends the run with its result.
pub open spec fn block_statements_run(
    before: Runtime,
    after: Runtime,
    stmts: Seq<Statement>,
    i: int,
    fuel: u64,
    r: RuntimeResult<ControlFlow>,
) -> bool
    decreases stmts.len() - i,
{
    if i < 0 || i >= stmts.len() {
        after == before && r matches Ok(ControlFlow::Continue)
    } else {
        exists|mid: Runtime, r1: RuntimeResult<ControlFlow>|
            #[trigger] statement_run(before, mid, stmts[i], fuel, r1) && if r1 matches Ok(ControlFlow::Continue) {
                block_statements_run(mid, after, stmts, i + 1, fuel, r)
            } else {
                after == mid && r == r1
            }
    }
}

/// `after` is `before` with `name` bound, in the innermost scope, to a new
/// cell holding `v`; every other name is bound as before.
pub open spec fn variable_bound(before: Runtime, after: Runtime, name: Seq<char>, v: ValueView) -> bool {
    &&& after.heap@ =~= before.heap@.push(v)
    &&& after.lookup(name) == Some(before.heap@.len() as RuntimeReference)
    &&& forall|n: Seq<char>| n != name ==> #[trigger] after.lookup(n) == before.lookup(n)
    &&& after.bindings_kept(before)
    &&& after.stable(before)
}

/// One turn of a `for` loop with the budget `fuel`: a scope is opened, the
/// loop variable is bound in it to `v`, the block's statements run there
/// (see `contents_run`), and the scope is closed.
pub open spec fn for_turn_run(
    before: Runtime,
    after: Runtime,
    name: Seq<char>,
    v: ValueView,
    block: Block,
    fuel: u64,
    r: RuntimeResult<ControlFlow>,
) -> bool {
    &&& fuel == 0 ==> (r matches Err(e) && e is OutOfFuel) && after == before
    &&& fuel > 0 ==> exists|inner: Runtime, bound: Runtime, done: Runtime|
        #![trigger scope_opened(before, inner), contents_run(bound, done, block.statements@, (fuel - 1) as u64, r)]
        scope_opened(before, inner) && variable_bound(inner, bound, name, v) && contents_run(
            bound,
            done,
            block.statements@,
            (fuel - 1) as u64,
            r,
        ) && scope_closed(done, after)
}

/// The value a `for` loop binds for a cell: a reference to it, or a copy of
/// what it holds (in `after`, which differs from `before` only by the cells
/// the copy adds).
pub open spec fn turn_value(before: Runtime, after: Runtime, cell: RuntimeReference, by_reference: bool, v: ValueView) -> bool {
    if by_reference {
        after == before && v == ValueView::Reference(cell)
    } else {
        &&& after.only_heap_grew(before)
        &&& is_copy(after.heap@, before.heap@.len(), before.heap@[cell as int], v, before.heap@.len())
        &&& !(before.heap@[cell as int] is Struct) ==> after.heap@ == before.heap@
    }
}

/// Running a `for` loop over the cells `cells[k..]` from `before`: each turn
/// binds the value for its cell (see `turn_value`) and runs the block (see
/// `for_turn_run`); a `break` ends the loop, a `return` or an error ends it
/// with that result, and when every turn continues, so does the loop.
pub open spec fn iteration_run(
    before: Runtime,
    after: Runtime,
    name: Seq<char>,
    cells: Seq<RuntimeReference>,
    by_reference: bool,
    block: Block,
    k: int,
    fuel: u64,
    r: RuntimeResult<ControlFlow>,
) -> bool
    decreases cells.len() - k,
{
    if k < 0 || k >= cells.len() {
        after == before && r matches Ok(ControlFlow::Continue)
    } else {
        exists|c: Runtime, v: ValueView, mid: Runtime, r1: RuntimeResult<ControlFlow>|
            #![trigger turn_value(before, c, cells[k], by_reference, v), for_turn_run(c, mid, name, v, block, fuel, r1)]
            turn_value(before, c, cells[k], by_reference, v) && for_turn_run(c, mid, name, v, block, fuel, r1) && match r1 {
                Ok(ControlFlow::Continue) => iteration_run(mid, after, name, cells, by_reference, block, k + 1, fuel, r),
                Ok(ControlFlow::Break) => after == mid && r matches Ok(ControlFlow::Continue),
                _ => after == mid && r == r1,
            }
    }
}

/// What running a control statement does, as far as it is stated: out of
/// fuel at zero; else, by kind, what `if_outcome`, `while_outcome`,
/// `loop_run` and `for_range_outcome` say, and an error for an `else`
/// without its `if`.
pub open spec fn control_outcome(before: Runtime, after: Runtime, c: ControlStatement, fuel: u64, r: RuntimeResult<ControlFlow>) -> bool {
    &&& fuel == 0 ==> (r matches Err(e) && e is OutOfFuel) && after == before
    &&& fuel > 0 ==> match c {
        ControlStatement::If { expression, children, .. } => if_outcome(before, after, expression, children@, (fuel - 1) as u64, r),
        ControlStatement::While { expression, .. } => while_outcome(before, after, expression, (fuel - 1) as u64, r),
        ControlStatement::Loop { block } => loop_run(before, after, block, (fuel - 1) as u64, r),
        ControlStatement::For { iterable, .. } => for_range_outcome(before, after, iterable, (fuel - 1) as u64, r),
        _ => (r matches Err(e) && e is UnexpectedExpression) && after == before,
    }
}

/// What an `if` gives where its condition only reads the runtime: an error
/// for a condition that fails or is not a boolean, and nothing done for a
/// false condition without `else` branches.
pub open spec fn if_outcome(
    before: Runtime,
    after: Runtime,
    expression: Expression,
    children: Seq<ControlStatement>,
    fuel: u64,
    r: RuntimeResult<ControlFlow>,
) -> bool {
    fuel > 1 ==> (pure_eval(before, expression, (fuel - 2) as nat) matches Some(p) ==> {
        &&& !(p matches Some(ValueView::Bool(_))) ==> r is Err && unchanged(after, before)
        &&& (p == Some(ValueView::Bool(false)) && children.len() == 0) ==> (r matches Ok(f) && f is Continue) && unchanged(
            after,
            before,
        )
    })
}

/// What a `while` gives where its condition only reads the runtime: an error
/// for a condition that fails or is not a boolean, and nothing done for a
/// false one.
pub open spec fn while_outcome(before: Runtime, after: Runtime, expression: Expression, fuel: u64, r: RuntimeResult<ControlFlow>) -> bool {
    fuel > 1 ==> (pure_eval(before, expression, (fuel - 2) as nat) matches Some(p) ==> {
        &&& !(p matches Some(ValueView::Bool(_))) ==> r is Err && unchanged(after, before)
        &&& p == Some(ValueView::Bool(false)) ==> (r matches Ok(f) && f is Continue) && unchanged(after, before)
    })
}

/// What a `for` over a range gives where its bounds only read the runtime:
/// an error for a bound that is not a count, and nothing done for an empty
/// range.
pub open spec fn for_range_outcome(before: Runtime, after: Runtime, iterable: Expression, fuel: u64, r: RuntimeResult<ControlFlow>) -> bool {
    fuel > 0 ==> (iterable matches Expression::Range { start, end } ==> (pure_eval(before, *start, (fuel - 1) as nat) matches Some(
        Some(a),
    ) ==> (pure_eval(before, *end, (fuel - 1) as nat) matches Some(Some(b)) ==> {
        &&& (range_bound_of(a) is None || range_bound_of(b) is None) ==> r is Err
        &&& (range_bound_of(a) matches Some(x) && range_bound_of(b) matches Some(y) && x >= y) ==> (r matches Ok(f)
            && f is Continue && unchanged(after, before))
    })))
}

/// Running a function's body with the budget `fuel`: out of fuel at zero,
/// else its statements in turn (see `statements_run`), with a `break` that
/// reaches the body's end an error.
pub open spec fn body_run(before: Runtime, after: Runtime, body: Block, fuel: u64, r: RuntimeResult<ControlFlow>) -> bool {
    &&& fuel == 0 ==> (r matches Err(e) && e is OutOfFuel) && after == before
    &&& fuel > 0 ==> exists|r0: RuntimeResult<ControlFlow>|
        #[trigger] statements_run(before, after, body.statements@, 0, (fuel - 1) as u64, r0) && r == (if r0 matches Ok(
            ControlFlow::Break,
        ) {
            Err(RuntimeError::UnexpectedBreak)
        } else {
            r0
        })
}

/// `after` is `before` with a call of `name` started: each argument in a
/// new cell, bound to its parameter's name in the new frame's one scope.
pub open spec fn frame_pushed(before: Runtime, after: Runtime, name: Seq<char>, params: Seq<Parameter>, args: Seq<ValueView>) -> bool {
    let n = before.heap@.len();
    &&& after.heap@.len() == n + args.len()
    &&& after.heap@.take(n as int) =~= before.heap@
    &&& forall|i: int| 0 <= i < args.len() ==> after.heap@[n + i] == #[trigger] args[i]
    &&& after.call_stack@.drop_last() =~= before.call_stack@
    &&& after.call_stack@.len() == before.call_stack@.len() + 1
    &&& after.call_stack@.last().name@ == name
    &&& after.call_stack@.last().scopes@.len() == 1
    &&& after.call_stack@.last().scopes@[0].variables@.len() == args.len()
    &&& forall|i: int|
        0 <= i < args.len() ==> (#[trigger] after.call_stack@.last().scopes@[0].variables@[i]).0 == params[i].identifier
            && after.call_stack@.last().scopes@[0].variables@[i].1 == n + i
    &&& after.global_scope == before.global_scope
    &&& after.global_sub_scopes == before.global_sub_scopes
    &&& after.dead_frames == before.dead_frames
    &&& after.functions == before.functions
    &&& after.structs == before.structs
    &&& after.struct_impls == before.struct_impls
    &&& after.builtin_methods == before.builtin_methods
    &&& after.config == before.config
    &&& after.byte_order == before.byte_order
}

/// `after` is `before` with its innermost call ended; the frame is kept among
/// the finished ones where the runtime keeps them.
pub open spec fn frame_popped(before: Runtime, after: Runtime) -> bool {
    &&& after.call_stack@ =~= if before.call_stack@.len() > 0 {
        before.call_stack@.drop_last()
    } else {
        before.call_stack@
    }
    &&& after.dead_frames@ =~= if before.call_stack@.len() > 0 && before.config.preserve_expired_frames {
        before.dead_frames@.push(before.call_stack@.last())
    } else {
        before.dead_frames@
    }
    &&& after.heap == before.heap
    &&& after.global_scope == before.global_scope
    &&& after.global_sub_scopes == before.global_sub_scopes
    &&& after.functions == before.functions
    &&& after.structs == before.structs
    &&& after.struct_impls == before.struct_impls
    &&& after.builtin_methods == before.builtin_methods
    &&& after.config == before.config
    &&& after.byte_order == before.byte_order
}

/// What a call gives from what its body gave: nothing for a body that ran
/// to its end, the returned value (a reference is refused), or the error.
pub open spec fn call_result(name: Seq<char>, r0: RuntimeResult<ControlFlow>, r: RuntimeResult<RuntimeValue>) -> bool {
    match r0 {
        Err(e) => r matches Err(e2) && e2 == e,
        Ok(ControlFlow::Continue) => r matches Ok(v) && v@ is NoValue,
        Ok(ControlFlow::Return(v)) => if v@ is Reference {
            r matches Err(e) && e matches RuntimeError::ReturnedReference(n) && n@ == name
        } else {
            r matches Ok(w) && w == v
        },
        Ok(ControlFlow::Break) => r matches Err(e) && e is UnexpectedBreak,
    }
}

/// What calling the user-defined function `def` as `name` with `args` does:
/// a function marked `#[run_on_import]` is refused, as is a call with the
/// wrong number of arguments (and nothing changes); else a frame binds the
/// arguments, a copy of the body runs in it (see `body_run`), the frame
/// ends, and `call_result` gives the result.
pub open spec fn user_call_run(
    before: Runtime,
    after: Runtime,
    name: Seq<char>,
    def: FunctionDefinition,
    args: Seq<ValueView>,
    fuel: u64,
    r: RuntimeResult<RuntimeValue>,
) -> bool {
    if find_attr(def.attributes@, "run_on_import"@) is Some {
        (r matches Err(e) && e matches RuntimeError::RunOnImportCalled(n) && n@ == name) && after == before
    } else if def.parameters@.len() != args.len() {
        (r matches Err(e) && e is InvalidFunctionArguments) && after == before
    } else {
        exists|body: Block, pushed: Runtime, ran: Runtime, r0: RuntimeResult<ControlFlow>|
            #![trigger body_run(pushed, ran, body, (fuel - 1) as u64, r0)]
            same_block(def.body, body) && frame_pushed(before, pushed, name, def.parameters@, args) && body_run(
                pushed,
                ran,
                body,
                (fuel - 1) as u64,
                r0,
            ) && frame_popped(ran, after) && call_result(name, r0, r)
    }
}

/// Running a function's body with the budget `fuel` as `body_run` does, with
/// each statement as `statement_run` says.
pub open spec fn body_full(before: Runtime, after: Runtime, body: Block, fuel: u64, r: RuntimeResult<ControlFlow>) -> bool {
    &&& fuel == 0 ==> (r matches Err(e) && e is OutOfFuel) && after == before
    &&& fuel > 0 ==> exists|r0: RuntimeResult<ControlFlow>|
        #[trigger] block_statements_run(before, after, body.statements@, 0, (fuel - 1) as u64, r0) && r == (if r0 matches Ok(
            ControlFlow::Break,
        ) {
            Err(RuntimeError::UnexpectedBreak)
        } else {
            r0
        })
}

/// Calling the user-defined function `def` as `user_call_run` says, with the
/// body's statements as `statement_run` says.
pub open spec fn user_call_full(
    before: Runtime,
    after: Runtime,
    name: Seq<char>,
    def: FunctionDefinition,
    args: Seq<ValueView>,
    fuel: u64,
    r: RuntimeResult<RuntimeValue>,
) -> bool {
    &&& user_call_run(before, after, name, def, args, fuel, r)
    &&& (find_attr(def.attributes@, "run_on_import"@) is None && def.parameters@.len() == args.len() ==> exists|
        body: Block,
        pushed: Runtime,
        ran: Runtime,
        r0: RuntimeResult<ControlFlow>,
    |
        #![trigger body_full(pushed, ran, body, (fuel - 1) as u64, r0)]
        same_block(def.body, body) && frame_pushed(before, pushed, name, def.parameters@, args) && body_full(
            pushed,
            ran,
            body,
            (fuel - 1) as u64,
            r0,
        ) && frame_popped(ran, after) && call_result(name, r0, r))
}

/// `after` is `before` with a call of the method `name` started: the
/// receiver and then each argument in a new cell, bound in the new frame's
/// one scope to `self` and then to its parameter's name.
pub open spec fn method_frame_pushed(
    before: Runtime,
    after: Runtime,
    name: Seq<char>,
    params: Seq<Parameter>,
    receiver: ValueView,
    args: Seq<ValueView>,
) -> bool {
    let n = before.heap@.len();
    let vars = after.call_stack@.last().scopes@[0].variables@;
    &&& after.heap@.len() == n + 1 + args.len()
    &&& after.heap@.take(n as int) =~= before.heap@
    &&& after.heap@[n as int] == receiver
    &&& forall|i: int| 0 <= i < args.len() ==> after.heap@[n + 1 + i] == #[trigger] args[i]
    &&& after.call_stack@.drop_last() =~= before.call_stack@
    &&& after.call_stack@.len() == before.call_stack@.len() + 1
    &&& after.call_stack@.last().name@ == name
    &&& after.call_stack@.last().scopes@.len() == 1
    &&& vars.len() == args.len() + 1
    &&& vars[0].0@ == "self"@ && vars[0].1 == n
    &&& forall|i: int|
        #![trigger params[i]]
        0 <= i < args.len() ==> vars[i + 1].0 == params[i].identifier && vars[i + 1].1 == n + 1 + i
    &&& after.global_scope == before.global_scope
    &&& after.global_sub_scopes == before.global_sub_scopes
    &&& after.dead_frames == before.dead_frames
    &&& after.functions == before.functions
    &&& after.structs == before.structs
    &&& after.struct_impls == before.struct_impls
    &&& after.builtin_methods == before.builtin_methods
    &&& after.config == before.config
    &&& after.byte_order == before.byte_order
}

/// Calling the method `m` of the struct `sname` under the name `mname` on
/// `receiver` with `args`: a frame named `sname::mname` binds the receiver
/// and the arguments (see `method_frame_pushed`), a copy of the body runs in
/// it (see `body_full`), the frame ends, and the call gives nothing for a
/// body that ran to its end, the returned value, or the error.
pub open spec fn method_run(
    before: Runtime,
    after: Runtime,
    sname: Seq<char>,
    mname: Seq<char>,
    m: MethodDefinition,
    receiver: ValueView,
    args: Seq<ValueView>,
    fuel: u64,
    r: RuntimeResult<RuntimeValue>,
) -> bool {
    exists|body: Block, pushed: Runtime, ran: Runtime, r0: RuntimeResult<ControlFlow>|
        #![trigger body_full(pushed, ran, body, (fuel - 1) as u64, r0)]
        same_block(m.body, body) && method_frame_pushed(before, pushed, sname + "::"@ + mname, m.parameters@, receiver, args)
            && body_full(pushed, ran, body, (fuel - 1) as u64, r0) && frame_popped(ran, after) && match r0 {
            Err(e) => r == Err::<RuntimeValue, RuntimeError>(e),
            Ok(ControlFlow::Continue) => r matches Ok(v) && v@ is NoValue,
            Ok(ControlFlow::Return(v)) => r == Ok::<RuntimeValue, RuntimeError>(v),
            Ok(ControlFlow::Break) => r matches Err(e) && e is UnexpectedBreak,
        }
}

/// The values of the expressions `es[i..]`, evaluated in turn (see
/// `eval_run`); those whose evaluation fails are left out.
pub open spec fn args_kept_run(
    before: Runtime,
    after: Runtime,
    es: Seq<Expression>,
    i: int,
    fuel: nat,
    vs: Seq<RuntimeValue>,
) -> bool
    decreases es.len() - i,
{
    if i < 0 || i >= es.len() {
        after == before && vs.len() == 0
    } else {
        exists|mid: Runtime, r1: RuntimeResult<RuntimeValue>|
            #![trigger step(mid, r1)]
            eval_run(before, mid, es[i], fuel, r1) && match r1 {
                Err(_) => args_kept_run(mid, after, es, i + 1, fuel, vs),
                Ok(v) => vs.len() > 0 && vs[0] == v && args_kept_run(mid, after, es, i + 1, fuel, vs.drop_first()),
            }
    }
}

proof fn lemma_kept_step(
    before: Runtime,
    mid: Runtime,
    after: Runtime,
    es: Seq<Expression>,
    i: int,
    fuel: nat,
    r1: RuntimeResult<RuntimeValue>,
    vs: Seq<RuntimeValue>,
)
    requires
        0 <= i < es.len(),
        eval_run(before, mid, es[i], fuel, r1),
        r1 is Err ==> args_kept_run(mid, after, es, i + 1, fuel, vs),
        r1 matches Ok(v) ==> vs.len() > 0 && vs[0] == v && args_kept_run(mid, after, es, i + 1, fuel, vs.drop_first()),
    ensures
        args_kept_run(before, after, es, i, fuel, vs),
{
    let _ = step(mid, r1);
}

/// The receiver of a method call: a reference (`&x`) is evaluated (see
/// `eval_run`); a variable gives a reference to its cell; anything else is
/// refused.
pub open spec fn receiver_run(before: Runtime, after: Runtime, receiver: Expression, fuel: nat, r: RuntimeResult<RuntimeValue>) -> bool {
    match receiver {
        Expression::Unary { operator: UnaryOperator::Reference, .. } => eval_run(before, after, receiver, fuel, r),
        Expression::Value(Value::Identifier(name)) => after == before && match before.lookup(name@) {
            None => r matches Err(x) && x matches RuntimeError::VariableNotFound(n) && n@ == name@,
            Some(c) => r == Ok::<RuntimeValue, RuntimeError>(RuntimeValue::Reference(c)),
        },
        _ => after == before && (r matches Err(x) && x is InvalidReferenceTarget),
    }
}

/// What calling the method `mname` on a reference to a value of type `t`
/// with the arguments `vs` does: a built-in method of arrays or of native
/// objects as `builtin_call` says (the receiver first), one that is not
/// registered refused; a struct's method as `method_run` says, with the
/// errors of a missing definition, impl block or method and of a wrong
/// number of arguments.
pub open spec fn dispatched(
    before: Runtime,
    after: Runtime,
    t: DType,
    mname: Seq<char>,
    receiver: RuntimeValue,
    vs: Seq<RuntimeValue>,
    fuel: u64,
    r: RuntimeResult<RuntimeValue>,
) -> bool {
    match t {
        DType::Array { .. } => match builtin_lookup(before.builtin_methods@, BuiltinMethodTarget::Array, mname) {
            None => after == before && (r matches Err(x) && x is NotABuiltInMethod),
            Some(m) => builtin_call(before, after, m, seq![receiver] + vs, Seq::empty(), r),
        },
        DType::NativeObject(kind) => match builtin_lookup(before.builtin_methods@, BuiltinMethodTarget::NativeObject(kind), mname) {
            None => after == before && (r matches Err(x) && x is NotABuiltInMethod),
            Some(m) => builtin_call(before, after, m, seq![receiver] + vs, Seq::empty(), r),
        },
        DType::UserDefined(sname) => fuel > 0 ==> if struct_def(before.structs@, sname) is None {
            after == before && (r matches Err(x) && x matches RuntimeError::StructDefinitionNotFound(n) && n@ == sname)
        } else if impl_lookup(before.struct_impls@, sname) is None {
            after == before && (r matches Err(x) && x matches RuntimeError::StructImplNotFound(n) && n@ == sname)
        } else {
            match struct_method(before, sname, mname) {
                None => after == before && (r matches Err(x) && x matches RuntimeError::MethodNotFound {
                    method_identifier: a,
                    struct_identifier: b,
                } && a@ == mname && b@ == sname),
                Some(m) => if m.parameters@.len() != vs.len() {
                    after == before && (r matches Err(x) && x is InvalidFunctionArguments)
                } else {
                    method_run(before, after, sname, mname, m, receiver@, vs.map_values(|v: RuntimeValue| v@), fuel, r)
                },
            }
        },
        _ => true,
    }
}

/// What a method call does with the budget `fuel`: its receiver is taken
/// (see `receiver_run`); a value that is no reference, or whose target has
/// no type, is an error, and a target of a type without methods is refused;
/// else the arguments are evaluated, those that fail left out (see
/// `args_kept_run`), and the method is called (see `dispatched`).
pub open spec fn method_dispatch_run(
    before: Runtime,
    after: Runtime,
    receiver: Expression,
    mname: Seq<char>,
    arguments: Seq<Expression>,
    fuel: u64,
    r: RuntimeResult<RuntimeValue>,
) -> bool {
    fuel > 0 ==> exists|mid: Runtime, rv: RuntimeResult<RuntimeValue>|
        #![trigger step(mid, rv)]
        receiver_run(before, mid, receiver, (fuel - 1) as nat, rv) && match rv {
            Err(x) => after == mid && r == Err::<RuntimeValue, RuntimeError>(x),
            Ok(value) => match value@ {
                ValueView::Reference(c) => match value_type(mid.heap@, mid.heap@[c as int], mid.heap@.len()) {
                    None => after == mid && r is Err,
                    Some(t) => if t is Array || t is UserDefined || t is NativeObject {
                        &&& fuel == 1 ==> after == mid && (r matches Err(x) && x is OutOfFuel)
                        &&& fuel > 1 ==> exists|mid2: Runtime, vs: Seq<RuntimeValue>|
                            #[trigger] args_kept_run(mid, mid2, arguments, 0, (fuel - 2) as nat, vs) && dispatched(
                                mid2,
                                after,
                                t,
                                mname,
                                value,
                                vs,
                                (fuel - 1) as u64,
                                r,
                            )
                    } else {
                        after == mid && (r matches Err(x) && x is CannotInvokeMethodOnType)
                    },
                },
                _ => after == mid && r is Err,
            },
        }
}

/// Running a `for` loop over the numbers `i..end` with the budget `fuel`:
/// each turn binds the loop variable to the number (a `usize`) and runs the
/// block (see `for_turn_run`), with one less each turn; a `break` ends the
/// loop, a `return` or an error ends it with that result, and the loop is
/// out of fuel when the budget is spent before the range is.
pub open spec fn range_run(
    before: Runtime,
    after: Runtime,
    name: Seq<char>,
    i: int,
    end: int,
    block: Block,
    fuel: u64,
    r: RuntimeResult<ControlFlow>,
) -> bool
    decreases end - i,
{
    if i >= end {
        after == before && r matches Ok(ControlFlow::Continue)
    } else if fuel == 0 {
        (r matches Err(e) && e is OutOfFuel) && after == before
    } else {
        exists|mid: Runtime, r1: RuntimeResult<ControlFlow>|
            #[trigger] for_turn_run(before, mid, name, ValueView::Usize(i as usize), block, (fuel - 1) as u64, r1) && match r1 {
                Ok(ControlFlow::Continue) => range_run(mid, after, name, i + 1, end, block, (fuel - 1) as u64, r),
                Ok(ControlFlow::Break) => after == mid && r matches Ok(ControlFlow::Continue),
                _ => after == mid && r == r1,
            }
    }
}

/// The turns of a `for` loop over an array written out element by element,
/// from the `k`-th element on: each element is evaluated (see `eval_run`)
/// with the budget `efuel`, and the turn binds its value to the name and runs
/// the block (see `for_turn_run`); an error ends the loop with it, a `break`
/// ends it, and a `return` ends it with the returned value.
pub open spec fn elem_turns_run(
    before: Runtime,
    after: Runtime,
    name: Seq<char>,
    es: Seq<Expression>,
    k: int,
    block: Block,
    efuel: nat,
    fuel: u64,
    r: RuntimeResult<ControlFlow>,
) -> bool
    decreases es.len() - k,
{
    if k < 0 || k >= es.len() {
        after == before && r matches Ok(ControlFlow::Continue)
    } else {
        exists|mid: Runtime, r1: RuntimeResult<RuntimeValue>|
            #![trigger step(mid, r1)]
            eval_run(before, mid, es[k], efuel, r1) && match r1 {
                Err(e) => after == mid && r == Err::<ControlFlow, RuntimeError>(e),
                Ok(v) => exists|mid2: Runtime, r2: RuntimeResult<ControlFlow>|
                    #[trigger] for_turn_run(mid, mid2, name, v@, block, fuel, r2) && match r2 {
                        Ok(ControlFlow::Continue) => elem_turns_run(mid2, after, name, es, k + 1, block, efuel, fuel, r),
                        Ok(ControlFlow::Break) => after == mid2 && r matches Ok(ControlFlow::Continue),
                        _ => after == mid2 && r == r2,
                    },
            }
    }
}

proof fn lemma_elem_turn_step(
    before: Runtime,
    mid: Runtime,
    mid2: Runtime,
    after: Runtime,
    name: Seq<char>,
    es: Seq<Expression>,
    k: int,
    block: Block,
    efuel: nat,
    fuel: u64,
    r1: RuntimeResult<RuntimeValue>,
    r2: RuntimeResult<ControlFlow>,
    r: RuntimeResult<ControlFlow>,
)
    requires
        0 <= k < es.len(),
        eval_run(before, mid, es[k], efuel, r1),
        r1 matches Err(e) ==> after == mid && r == Err::<ControlFlow, RuntimeError>(e),
        r1 matches Ok(v) ==> for_turn_run(mid, mid2, name, v@, block, fuel, r2) && match r2 {
            Ok(ControlFlow::Continue) => elem_turns_run(mid2, after, name, es, k + 1, block, efuel, fuel, r),
            Ok(ControlFlow::Break) => after == mid2 && r matches Ok(ControlFlow::Continue),
            _ => after == mid2 && r == r2,
        },
    ensures
        elem_turns_run(before, after, name, es, k, block, efuel, fuel, r),
{
    let _ = step(mid, r1);
}

/// What a `for` loop does with the budget `fuel`: over a range, its bounds
/// are evaluated in turn (see `eval_run`), a bound that is not a count is an
/// error, and the turns are those of `range_run`; over an array written out
/// element by element, the turns of `elem_turns_run`; over any other
/// expression, it is evaluated, and an array gives a turn per element with a
/// copy of it, an iterator a turn per element with a reference to it (see
/// `iteration_run`), and any other value an error.
pub open spec fn for_run(before: Runtime, after: Runtime, name: Seq<char>, iterable: Expression, block: Block, fuel: u64, r: RuntimeResult<ControlFlow>) -> bool {
    fuel > 0 ==> match iterable {
        Expression::Range { start, end } => exists|mid: Runtime, r1: RuntimeResult<RuntimeValue>|
            #![trigger step(mid, r1)]
            eval_run(before, mid, *start, (fuel - 1) as nat, r1) && match r1 {
                Err(e) => after == mid && r == Err::<ControlFlow, RuntimeError>(e),
                Ok(a) => exists|mid2: Runtime, r2: RuntimeResult<RuntimeValue>|
                    #![trigger step(mid2, r2)]
                    eval_run(mid, mid2, *end, (fuel - 1) as nat, r2) && match r2 {
                        Err(e) => after == mid2 && r == Err::<ControlFlow, RuntimeError>(e),
                        Ok(b) => match (range_bound_of(a@), range_bound_of(b@)) {
                            (Some(x), Some(y)) => range_run(mid2, after, name, x as int, y as int, block, (fuel - 1) as u64, r),
                            _ => after == mid2 && r is Err,
                        },
                    },
            },
        Expression::ArrayInitialization(init) => elem_turns_run(
            before,
            after,
            name,
            init.initialized_fields@,
            0,
            block,
            (fuel - 1) as nat,
            (fuel - 1) as u64,
            r,
        ),
        _ => exists|mid: Runtime, r1: RuntimeResult<RuntimeValue>|
            #![trigger step(mid, r1)]
            eval_run(before, mid, iterable, (fuel - 1) as nat, r1) && match r1 {
                Err(e) => after == mid && r == Err::<ControlFlow, RuntimeError>(e),
                Ok(v) => match v@ {
                    ValueView::Array { contents, .. } => fuel > 1 ==> iteration_run(
                        mid,
                        after,
                        name,
                        contents,
                        false,
                        block,
                        0,
                        (fuel - 2) as u64,
                        r,
                    ),
                    ValueView::Iterator { contents, .. } => fuel > 1 ==> iteration_run(
                        mid,
                        after,
                        name,
                        contents,
                        true,
                        block,
                        0,
                        (fuel - 2) as u64,
                        r,
                    ),
                    _ => after == mid && r is Err,
                },
            },
    }
}

/// The newest built-in method of the given type and name.
pub open spec fn builtin_lookup(
    table: Seq<(BuiltinMethodTarget, String, BuiltinMethod)>,
    target: BuiltinMethodTarget,
    name: Seq<char>,
) -> Option<BuiltinMethod>
    decreases table.len(),
{
    if table.len() == 0 {
        None
    } else if table.last().0 == target && table.last().1@ == name {
        Some(table.last().2)
    } else {
        builtin_lookup(table.drop_last(), target, name)
    }
}

/// The number a range bound gives: a `u32`, or an `s32` that is not
/// negative.
pub open spec fn range_bound_of(v: ValueView) -> Option<usize> {
    match v {
        ValueView::U32(x) => Some(x as usize),
        ValueView::S32(x) => if x >= 0 {
            Some(x as usize)
        } else {
            None
        },
        _ => None,
    }
}

/// The fields of a new struct value: those of its definition, in order, each
/// in a new cell, and each given by the initialization unless it fills the
/// rest with defaults.
pub open spec fn initialized_fields(d: StructDefinition, init: StructInitialization, v: ValueView, cells_before: nat) -> bool {
    v matches ValueView::Struct { fields, .. } && fields.len() == spec_fields(d.members@).len() && forall|j: int|
        0 <= j < fields.len() ==> {
            &&& (#[trigger] fields[j]).0 == spec_fields(d.members@)[j].identifier@
            &&& fields[j].1 >= cells_before
            &&& (!init.use_defaults ==> exists|k: int| 0 <= k < init.initialized_fields@.len()
                && #[trigger] init.initialized_fields@[k].identifier@ == fields[j].0)
        }
}

/// The first initializer, from position `from` on, that names `name`.
pub open spec fn first_initializer(inits: Seq<StructFieldInitialization>, name: Seq<char>, from: int) -> Option<int>
    decreases inits.len() - from,
{
    if from < 0 || from >= inits.len() {
        None
    } else if inits[from].identifier@ == name {
        Some(from)
    } else {
        first_initializer(inits, name, from + 1)
    }
}

/// Every initializer of the struct initialization is a literal.
pub open spec fn literal_inits(init: StructInitialization) -> bool {
    forall|k: int| 0 <= k < init.initialized_fields@.len() ==> is_literal(#[trigger] init.initialized_fields@[k].expression)
}

/// The literal that the `k`-th initializer is.
pub open spec fn init_literal(init: StructInitialization, k: int) -> ValueView {
    literal_view(init.initialized_fields@[k].expression->Value_0)->Some_0
}

/// The field is sure to start: its first initializer is a literal that the
/// field's type takes; or it has none, the initialization asks for defaults
/// and the field's type has one.
pub open spec fn field_starts(defs: Seq<StructDefinition>, init: StructInitialization, f: StructFieldDefinition) -> bool {
    match first_initializer(init.initialized_fields@, f.identifier@, 0) {
        Some(k) => is_literal(init.initialized_fields@[k].expression) && literal_annotation(
            init_literal(init, k),
            f.data_type@,
        ) is Some,
        None => init.use_defaults && has_default(defs, f.data_type@, default_fuel(defs.len())),
    }
}

/// What the cell of a new struct's field holds: where its first initializer
/// is a literal, that literal as the field's type takes it; where it has
/// none, a default of the field's type.
pub open spec fn field_started(
    defs: Seq<StructDefinition>,
    h: Seq<ValueView>,
    init: StructInitialization,
    f: StructFieldDefinition,
    v: ValueView,
) -> bool {
    match first_initializer(init.initialized_fields@, f.identifier@, 0) {
        Some(k) => is_literal(init.initialized_fields@[k].expression) ==> Some(v) == literal_annotation(
            init_literal(init, k),
            f.data_type@,
        ),
        None => is_default(defs, h, f.data_type@, v, default_fuel(defs.len())),
    }
}

/// Running the program's top-level statements from position `i` on, from
/// `before` to `after`: definitions and imports are passed over; each other
/// statement runs as `statement_run` says with `STATEMENT_FUEL`, whatever
/// it ends with but an error; the first error ends the run with it.
pub open spec fn top_level_run(before: Runtime, after: Runtime, stmts: Seq<Statement>, i: int, r: RuntimeResult<()>) -> bool
    decreases stmts.len() - i,
{
    if i < 0 || i >= stmts.len() {
        after == before && r is Ok
    } else if stmts[i] is FunctionDefinition || stmts[i] is StructDefinition || stmts[i] is StructImpl || stmts[i] is Import {
        top_level_run(before, after, stmts, i + 1, r)
    } else {
        exists|mid: Runtime, r1: RuntimeResult<ControlFlow>|
            #[trigger] statement_run(before, mid, stmts[i], STATEMENT_FUEL, r1) && match r1 {
                Err(e) => after == mid && r == Err::<(), RuntimeError>(e),
                Ok(_) => top_level_run(mid, after, stmts, i + 1, r),
            }
    }
}

/// A call's result taken as the program's: success, or the call's error.
pub open spec fn call_settles(r1: RuntimeResult<RuntimeValue>, r: RuntimeResult<()>) -> bool {
    match r1 {
        Ok(_) => r is Ok,
        Err(e) => r == Err::<(), RuntimeError>(e),
    }
}

/// The call of `main` that ends a run: where the program has a function by
/// that name, it is called with no arguments and no generics, as
/// `call_function` does it, and the run ends as the call does; else nothing
/// more happens.
pub open spec fn main_run(before: Runtime, after: Runtime, r: RuntimeResult<()>) -> bool {
    let main = seq!['m', 'a', 'i', 'n'];
    match fn_lookup(before.functions@, main) {
        None => after == before && r is Ok,
        Some(RuntimeFunction::User(definition)) => exists|r1: RuntimeResult<RuntimeValue>|
            #[trigger] user_call_full(before, after, main, definition, Seq::empty(), STATEMENT_FUEL, r1) && call_settles(r1, r),
        Some(RuntimeFunction::Native(native)) => exists|r1: RuntimeResult<RuntimeValue>|
            #[trigger] native_outcome(before, after, native, Seq::empty(), Seq::empty(), r1) && call_settles(r1, r),
    }
}

/// Running a program whose definitions are in place: its top-level
/// statements (see `top_level_run`), then, unless one failed, `main` (see
/// `main_run`).
pub open spec fn program_run(before: Runtime, after: Runtime, program: Program, r: RuntimeResult<()>) -> bool {
    exists|mid: Runtime, r1: RuntimeResult<()>|
        #[trigger] top_level_run(before, mid, program.statements@, 0, r1) && match r1 {
            Err(_) => after == mid && r == r1,
            Ok(_) => main_run(mid, after, r),
        }
}

/// `d` is `before` made ready to run the program: the native functions come
/// just after `before`'s functions, the program's definitions were added
/// after them with the result `rd`, and when that succeeded each of them
/// resolves.
pub open spec fn program_defined(before: Runtime, d: Runtime, program: Program, rd: RuntimeResult<()>) -> bool {
    &&& d.wf()
    &&& d.definitions_extend(before)
    &&& forall|k: int| 0 <= k < native_function_table().len() ==> {
        let e = #[trigger] d.functions@[before.functions@.len() + k];
        &&& e.0@ == native_function_table()[k].0
        &&& e.1 == RuntimeFunction::Native(native_function_table()[k].1)
    }
    &&& rd is Ok ==> forall|j: int|
        0 <= j < program.statements@.len() ==> #[trigger] d.defines_at(program.statements@, j, program.statements@.len() as int)
}

/// What reading field `name` of a variable gives, by the value `bound` in its
/// cell: for a struct, the field's value where that is no struct (the copy
/// that evaluation makes of it holds that value), or an error naming the
/// field and the struct where it has no such field; for a value that is
/// neither a struct nor a reference, an error naming the field and the
/// value's type.
pub open spec fn struct_field_outcome(h: Seq<ValueView>, bound: ValueView, name: Seq<char>, r: RuntimeResult<RuntimeValue>) -> bool {
    match bound {
        ValueView::Struct { definition, fields } => match crate::serialization::field_cell(fields, name) {
            None => r matches Err(e) && e matches RuntimeError::InvalidStructFieldAccess { field_name, struct_name }
                && field_name@ == name && struct_name@ == definition,
            Some(fc) => fc < h.len() && !(h[fc as int] is Struct) ==> (r matches Ok(v) && v@ == h[fc as int]),
        },
        ValueView::Reference(_) => true,
        _ => value_type(h, bound, h.len()) matches Some(t) ==> (r matches Err(e)
            && e matches RuntimeError::InvalidStructFieldAccessTarget { field, data_type } && field@ == name && data_type@
            == crate::ast::dt_name(t)),
    }
}

/// Every element of the array initialization is a literal.
pub open spec fn literal_elements(init: ArrayInitialization) -> bool {
    forall|k: int| 0 <= k < init.initialized_fields@.len() ==> is_literal(#[trigger] init.initialized_fields@[k])
}

/// The literal that the `k`-th element is.
pub open spec fn element_literal(init: ArrayInitialization, k: int) -> ValueView {
    literal_view(init.initialized_fields@[k]->Value_0)->Some_0
}

/// The literal elements all have the type of the first.
pub open spec fn elements_agree(init: ArrayInitialization) -> bool {
    forall|k: int|
        0 <= k < init.initialized_fields@.len() ==> crate::value::direct_type(#[trigger] element_literal(init, k))
            == crate::value::direct_type(element_literal(init, 0))
}

/// What building an array gives (see `initialize_array`): an error for no
/// elements; for literal elements, success exactly when they share one type,
/// and then cells that hold them.
pub open spec fn array_init_outcome(after: Runtime, init: ArrayInitialization, fuel: u64, r: RuntimeResult<RuntimeValue>) -> bool {
    &&& init.initialized_fields@.len() == 0 ==> (r matches Err(e) && e is CannotInferEmptyArrayType)
    &&& literal_elements(init) ==> (r matches Ok(v) ==> (v@ matches ValueView::Array { contents, .. } && forall|j: int|
        0 <= j < contents.len() ==> after.heap@[(#[trigger] contents[j]) as int] == element_literal(init, j)))
    &&& fuel > 1 && init.initialized_fields@.len() > 0 && literal_elements(init) ==> (r is Ok <==> elements_agree(init))
}

/// What building a struct gives (see `initialize_struct`): an error naming a
/// struct without a definition; success where every field is sure to start;
/// for literal initializers, field cells as `field_started` says; and the
/// error for the first field with neither an initializer nor a default.
pub open spec fn struct_init_outcome(
    before: Runtime,
    after: Runtime,
    init: StructInitialization,
    fuel: u64,
    r: RuntimeResult<RuntimeValue>,
) -> bool {
    match struct_def(before.structs@, init.identifier@) {
        None => fuel > 0 ==> (r matches Err(e) && e matches RuntimeError::StructDefinitionNotFound(n) && n@ == init.identifier@),
        Some(d) => {
            let fs = spec_fields(d.members@);
            &&& fuel > 1 && (forall|j: int| 0 <= j < fs.len() ==> field_starts(before.structs@, init, #[trigger] fs[j]))
                ==> r is Ok
            &&& literal_inits(init) ==> (r matches Ok(v) ==> (v@ matches ValueView::Struct { fields, .. } && forall|j: int|
                0 <= j < fields.len() ==> field_started(
                    before.structs@,
                    after.heap@,
                    init,
                    fs[j],
                    after.heap@[(#[trigger] fields[j]).1 as int],
                )))
            &&& fuel > 1 && !init.use_defaults && (exists|j: int|
                0 <= j < fs.len() && first_initializer(init.initialized_fields@, (#[trigger] fs[j]).identifier@, 0) is None
                    && forall|m: int| 0 <= m < j ==> field_starts(before.structs@, init, #[trigger] fs[m])) ==> (r matches Err(e)
                && e matches RuntimeError::IncompleteStructInitialization(n) && n@ == init.identifier@)
        },
    }
}

/// What a method call gives (see `evaluate_method_call`): the receiver must
/// be a variable or a reference to one; a variable holding a value without
/// methods is refused; `iter()` of an array variable gives an iterator over
/// its elements.
pub open spec fn method_call_outcome(
    before: Runtime,
    after: Runtime,
    receiver: Expression,
    method: Seq<char>,
    arguments: Seq<Expression>,
    fuel: u64,
    r: RuntimeResult<RuntimeValue>,
) -> bool {
    &&& fuel == 0 ==> (r matches Err(e) && e is OutOfFuel) && after == before
    &&& fuel > 0 && !(receiver is Value && receiver->Value_0 is Identifier) && !(receiver matches Expression::Unary {
        operator: UnaryOperator::Reference,
        ..
    }) ==> (r matches Err(e) && e is InvalidReferenceTarget) && after == before
    &&& fuel > 0 ==> (receiver matches Expression::Value(Value::Identifier(name)) ==> (before.lookup(name@) is None ==> (r matches Err(e)
        && e matches RuntimeError::VariableNotFound(n) && n@ == name@) && after == before))
    &&& fuel > 0 ==> (receiver matches Expression::Value(Value::Identifier(name)) ==> (before.lookup(name@) matches Some(c) ==> (
    value_type(before.heap@, before.heap@[c as int], before.heap@.len()) matches Some(t) ==> (!(t is Array) && !(t is UserDefined)
        && !(t is NativeObject) ==> (r matches Err(e) && e is CannotInvokeMethodOnType) && after == before))))
    &&& fuel > 1 ==> (receiver matches Expression::Value(Value::Identifier(name)) ==> (before.lookup(name@) matches Some(c) ==> (
    before.heap@[c as int] matches ValueView::Array { inner_data_type, contents } ==> (value_type(
        before.heap@,
        before.heap@[c as int],
        before.heap@.len(),
    ) is Some && args_pure(before, arguments, (fuel - 2) as nat) && builtin_lookup(
        before.builtin_methods@,
        BuiltinMethodTarget::Array,
        method,
    ) == Some(BuiltinMethod::ArrayIterator) ==> unchanged(after, before) && (r matches Ok(it) && it@ == (ValueView::Iterator {
        inner_data_type,
        contents,
    }))))))
}

/// A runtime and a result, as a pair: what a step of evaluation leaves.
pub open spec fn step(s: Runtime, r: RuntimeResult<RuntimeValue>) -> (Runtime, RuntimeResult<RuntimeValue>) {
    (s, r)
}

/// A runtime and the values of some expressions, as a pair.
pub open spec fn vals_step(s: Runtime, r: RuntimeResult<Seq<ValueView>>) -> (Runtime, RuntimeResult<Seq<ValueView>>) {
    (s, r)
}

/// One less than `n`, or zero.
pub open spec fn sub1(n: nat) -> nat {
    if n > 0 {
        (n - 1) as nat
    } else {
        0
    }
}

/// What evaluating `e` with the budget `fuel` does, from `before` to
/// `after`, with result `r`: the parts of an expression are evaluated left to
/// right, each from the runtime the one before left, and the first error ends
/// the evaluation with it. A literal gives its value; a variable a copy of
/// its value; an operator, a cast, a field read or an index applies to the
/// values of its parts; a call evaluates its arguments in turn and then runs
/// the function (see `call_run`); a struct's fields start as `struct_init_run`
/// says, an array's elements as `array_init_run` says; a method call gives
/// what `method_call_outcome` says; a range outside a `for` is refused. A
/// budget of zero is out of fuel.
pub open spec fn eval_run(before: Runtime, after: Runtime, e: Expression, fuel: nat, r: RuntimeResult<RuntimeValue>) -> bool
    decreases fuel, 0nat,
{
    if fuel == 0 {
        after == before && (r matches Err(x) && x is OutOfFuel)
    } else {
        let f = sub1(fuel);
        match e {
            Expression::Value(v) => match literal_view(v) {
                Some(l) => after == before && (r matches Ok(x) && x@ == l),
                None => match v {
                    Value::Identifier(n) => match before.lookup(n@) {
                        None => after == before && (r matches Err(x) && x matches RuntimeError::VariableNotFound(m) && m@ == n@),
                        Some(c) => after.only_heap_grew(before) && (r matches Ok(x) && is_copy(
                            after.heap@,
                            before.heap@.len(),
                            before.heap@[c as int],
                            x@,
                            before.heap@.len(),
                        )),
                    },
                    _ => true,
                },
            },
            Expression::Binary { lhs, rhs, operator } => exists|mid: Runtime, r1: RuntimeResult<RuntimeValue>|
                #![trigger step(mid, r1)] eval_run(before, mid, *lhs, f, r1) && match r1 {
                    Err(_) => after == mid && r == r1,
                    Ok(l) => exists|mid2: Runtime, r2: RuntimeResult<RuntimeValue>|
                        #![trigger step(mid2, r2)] eval_run(mid, mid2, *rhs, f, r2) && match r2 {
                            Err(_) => after == mid2 && r == r2,
                            Ok(rv) => after == mid2 && binary_outcome(mid2.heap@, operator, l@, rv@, r),
                        },
                },
            Expression::Unary { operator, expression } => if f == 0 {
                after == before && (r matches Err(x) && x is OutOfFuel)
            } else {
                match operator {
                    UnaryOperator::Reference => after == before && match *expression {
                        Expression::Value(Value::Identifier(n)) => match before.lookup(n@) {
                            None => r matches Err(x) && x matches RuntimeError::VariableNotFound(m) && m@ == n@,
                            Some(c) => r matches Ok(x) && x@ == ValueView::Reference(c),
                        },
                        _ => r matches Err(x) && x is InvalidReferenceTarget,
                    },
                    UnaryOperator::Dereference => exists|mid: Runtime, r1: RuntimeResult<RuntimeValue>|
                        #![trigger step(mid, r1)] eval_run(before, mid, *expression, sub1(f), r1) && match r1 {
                            Err(_) => after == mid && r == r1,
                            Ok(v) => after.only_heap_grew(mid) && match v@ {
                                ValueView::Reference(a) => r matches Ok(x) && is_copy(
                                    after.heap@,
                                    mid.heap@.len(),
                                    mid.heap@[a as int],
                                    x@,
                                    mid.heap@.len(),
                                ),
                                _ => after.heap@ == mid.heap@ && (r matches Err(x) && x is CannotDereferenceNonReference),
                            },
                        },
                    _ => exists|mid: Runtime, r1: RuntimeResult<RuntimeValue>|
                        #![trigger step(mid, r1)] eval_run(before, mid, *expression, sub1(f), r1) && match r1 {
                            Err(_) => after == mid && r == r1,
                            Ok(v) => after == mid && crate::operators::unary_outcome(mid.heap@, v@, operator, r),
                        },
                }
            },
            Expression::TypeCast { expression, target_type } => exists|mid: Runtime, r1: RuntimeResult<RuntimeValue>|
                #![trigger step(mid, r1)] eval_run(before, mid, *expression, f, r1) && match r1 {
                    Err(_) => after == mid && r == r1,
                    Ok(v) => after == mid && crate::values::cast_outcome(mid.heap@, v@, target_type@, r),
                },
            Expression::StructFieldAccess { expression, field_identifier } => exists|mid: Runtime, r1: RuntimeResult<RuntimeValue>|
                #![trigger step(mid, r1)] eval_run(before, mid, *expression, f, r1) && match r1 {
                    Err(_) => after == mid && r == r1,
                    Ok(v) => after.only_heap_grew(mid) && field_read(mid.heap@, after.heap@, v@, field_identifier@, r),
                },
            Expression::ArrayAccess { expression, index_expression } => if f == 0 {
                after == before && (r matches Err(x) && x is OutOfFuel)
            } else {
                exists|mid: Runtime, r1: RuntimeResult<RuntimeValue>|
                    #![trigger step(mid, r1)] eval_run(before, mid, *index_expression, sub1(f), r1) && match r1 {
                        Err(_) => after == mid && r == r1,
                        Ok(iv) => match crate::evaluation::index_value(iv@) {
                            None => after == mid && r is Err,
                            Some(i) => exists|mid2: Runtime, r2: RuntimeResult<RuntimeValue>|
                                #![trigger step(mid2, r2)] eval_run(mid, mid2, *expression, sub1(f), r2) && match r2 {
                                    Err(_) => after == mid2 && r == r2,
                                    Ok(av) => element_read(mid2, after, av@, i, r),
                                },
                        },
                    }
            },
            Expression::FunctionCall(call) => if f == 0 {
                after == before && (r matches Err(x) && x is OutOfFuel)
            } else {
                exists|mid: Runtime, ra: RuntimeResult<Seq<ValueView>>|
                    #![trigger vals_step(mid, ra)] args_run(before, mid, call.arguments@, 0, sub1(f), ra) && match ra {
                        Err(x) => after == mid && r == Err::<RuntimeValue, RuntimeError>(x),
                        Ok(vals) => call_run(mid, after, call.identifier@, vals, call.generics@, f as u64, r),
                    }
            },
            Expression::MethodCall { expression, method_identifier, arguments } => method_call_outcome(
                before,
                after,
                *expression,
                method_identifier@,
                arguments@,
                f as u64,
                r,
            ),
            Expression::StructInitialization(init) => struct_init_run(before, after, init, f, r),
            Expression::ArrayInitialization(init) => array_init_run(before, after, init, f, r),
            Expression::Range { .. } => after == before && (r matches Err(x) && x is UnexpectedExpression),
        }
    }
}

proof fn lemma_unary_err(before: Runtime, after: Runtime, op: UnaryOperator, inner: Expression, fuel: nat, e: RuntimeError)
    requires
        fuel >= 2,
        !(op is Reference),
        eval_run(before, after, inner, sub1(sub1(fuel)), Err(e)),
    ensures
        eval_run(before, after, Expression::Unary { operator: op, expression: Box::new(inner) }, fuel, Err(e)),
{
    let _ = step(after, Err(e));
}

proof fn lemma_unary_ok(
    before: Runtime,
    mid: Runtime,
    after: Runtime,
    op: UnaryOperator,
    inner: Expression,
    fuel: nat,
    v: RuntimeValue,
    r: RuntimeResult<RuntimeValue>,
)
    requires
        fuel >= 2,
        !(op is Reference),
        eval_run(before, mid, inner, sub1(sub1(fuel)), Ok(v)),
        op is Dereference ==> after.only_heap_grew(mid) && match v@ {
            ValueView::Reference(a) => r matches Ok(x) && is_copy(after.heap@, mid.heap@.len(), mid.heap@[a as int], x@, mid.heap@.len()),
            _ => after.heap@ == mid.heap@ && (r matches Err(x) && x is CannotDereferenceNonReference),
        },
        !(op is Dereference) ==> after == mid && crate::operators::unary_outcome(mid.heap@, v@, op, r),
    ensures
        eval_run(before, after, Expression::Unary { operator: op, expression: Box::new(inner) }, fuel, r),
{
    let _ = step(mid, Ok(v));
}

proof fn lemma_binary_run(
    before: Runtime,
    mid: Runtime,
    mid2: Runtime,
    after: Runtime,
    lhs: Expression,
    rhs: Expression,
    op: BinaryOperator,
    fuel: nat,
    r1: RuntimeResult<RuntimeValue>,
    r2: RuntimeResult<RuntimeValue>,
    r: RuntimeResult<RuntimeValue>,
)
    requires
        fuel >= 1,
        eval_run(before, mid, lhs, sub1(fuel), r1),
        r1 is Err ==> after == mid && r == r1,
        r1 matches Ok(l) ==> eval_run(mid, mid2, rhs, sub1(fuel), r2) && match r2 {
            Err(_) => after == mid2 && r == r2,
            Ok(rv) => after == mid2 && binary_outcome(mid2.heap@, op, l@, rv@, r),
        },
    ensures
        eval_run(before, after, Expression::Binary { lhs: Box::new(lhs), rhs: Box::new(rhs), operator: op }, fuel, r),
{
    let _ = step(mid, r1);
    let _ = step(mid2, r2);
}

proof fn lemma_cast_run(
    before: Runtime,
    mid: Runtime,
    after: Runtime,
    inner: Expression,
    t: DataType,
    fuel: nat,
    r1: RuntimeResult<RuntimeValue>,
    r: RuntimeResult<RuntimeValue>,
)
    requires
        fuel >= 1,
        eval_run(before, mid, inner, sub1(fuel), r1),
        r1 is Err ==> after == mid && r == r1,
        r1 matches Ok(v) ==> after == mid && crate::values::cast_outcome(mid.heap@, v@, t@, r),
    ensures
        eval_run(before, after, Expression::TypeCast { expression: Box::new(inner), target_type: t }, fuel, r),
{
    let _ = step(mid, r1);
}

proof fn lemma_field_run(
    before: Runtime,
    mid: Runtime,
    after: Runtime,
    inner: Expression,
    name: String,
    fuel: nat,
    r1: RuntimeResult<RuntimeValue>,
    r: RuntimeResult<RuntimeValue>,
)
    requires
        fuel >= 1,
        eval_run(before, mid, inner, sub1(fuel), r1),
        r1 is Err ==> after == mid && r == r1,
        r1 matches Ok(v) ==> after.only_heap_grew(mid) && field_read(mid.heap@, after.heap@, v@, name@, r),
    ensures
        eval_run(before, after, Expression::StructFieldAccess { expression: Box::new(inner), field_identifier: name }, fuel, r),
{
    let _ = step(mid, r1);
}

proof fn lemma_index_run(
    before: Runtime,
    mid: Runtime,
    mid2: Runtime,
    after: Runtime,
    arr: Expression,
    idx: Expression,
    fuel: nat,
    r1: RuntimeResult<RuntimeValue>,
    r2: RuntimeResult<RuntimeValue>,
    r: RuntimeResult<RuntimeValue>,
)
    requires
        fuel >= 2,
        eval_run(before, mid, idx, sub1(sub1(fuel)), r1),
        r1 is Err ==> after == mid && r == r1,
        r1 matches Ok(iv) ==> match crate::evaluation::index_value(iv@) {
            None => after == mid && r is Err,
            Some(i) => eval_run(mid, mid2, arr, sub1(sub1(fuel)), r2) && match r2 {
                Err(_) => after == mid2 && r == r2,
                Ok(av) => element_read(mid2, after, av@, i, r),
            },
        },
    ensures
        eval_run(before, after, Expression::ArrayAccess { expression: Box::new(arr), index_expression: Box::new(idx) }, fuel, r),
{
    let _ = step(mid, r1);
    let _ = step(mid2, r2);
}

proof fn lemma_call_run(
    before: Runtime,
    mid: Runtime,
    after: Runtime,
    call: crate::ast::FunctionCall,
    fuel: nat,
    ra: RuntimeResult<Seq<ValueView>>,
    r: RuntimeResult<RuntimeValue>,
)
    requires
        fuel >= 2,
        args_run(before, mid, call.arguments@, 0, sub1(sub1(fuel)), ra),
        ra matches Err(x) ==> after == mid && r == Err::<RuntimeValue, RuntimeError>(x),
        ra matches Ok(vals) ==> call_run(mid, after, call.identifier@, vals, call.generics@, sub1(fuel) as u64, r),
    ensures
        eval_run(before, after, Expression::FunctionCall(call), fuel, r),
{
    let _ = vals_step(mid, ra);
}

proof fn lemma_args_cons(
    before: Runtime,
    mid: Runtime,
    after: Runtime,
    es: Seq<Expression>,
    i: int,
    fuel: nat,
    r1: RuntimeResult<RuntimeValue>,
    r2: RuntimeResult<Seq<ValueView>>,
    r: RuntimeResult<Seq<ValueView>>,
)
    requires
        0 <= i < es.len(),
        eval_run(before, mid, es[i], fuel, r1),
        r1 matches Err(x) ==> after == mid && r == Err::<Seq<ValueView>, RuntimeError>(x),
        r1 matches Ok(v) ==> args_run(mid, after, es, i + 1, fuel, r2) && r == prepend_value(v@, r2),
    ensures
        args_run(before, after, es, i, fuel, r),
{
    let _ = step(mid, r1);
    let _ = vals_step(after, r2);
}

/// A runtime, as a step of starting a field leaves it.
pub open spec fn state_step(s: Runtime) -> Runtime {
    s
}

/// The error that starting field `name` of struct `dname` reports when the
/// type annotation refused its value with `x`: an annotation error becomes
/// one that names the field and the struct.
pub open spec fn field_init_error(x: RuntimeError, name: Seq<char>, dname: Seq<char>, r: RuntimeResult<RuntimeValue>) -> bool {
    match x {
        RuntimeError::AnnotationError { expected, found } => r matches Err(y) && y matches RuntimeError::InvalidStructFieldInitialization {
            field_name,
            struct_name,
            expected: e2,
            found: f2,
        } && field_name@ == name && struct_name@ == dname && e2 == expected && f2 == found,
        _ => r == Err::<RuntimeValue, RuntimeError>(x),
    }
}

/// `after` is `before` with one more cell, holding `v`.
pub open spec fn cell_added(before: Runtime, after: Runtime, v: ValueView) -> bool {
    after.heap@ == before.heap@.push(v) && after == (Runtime { heap: after.heap, ..before })
}

/// Starting the fields `fs[j..]` of a new struct named `dname`, each in a new
/// cell, with the cells of the fields before it in `acc`: a field's first
/// initializer is evaluated (see `eval_run`) with the budget `fuel` and the
/// field's type annotation applied to its value; a field without one gets a
/// default of its type where the initialization asks for defaults, else the
/// initialization is incomplete. The first error ends it; after the last
/// field, the struct holds the fields in order.
pub open spec fn fields_run(
    before: Runtime,
    after: Runtime,
    init: StructInitialization,
    dname: Seq<char>,
    fs: Seq<StructFieldDefinition>,
    j: int,
    fuel: nat,
    acc: Seq<(Seq<char>, usize)>,
    r: RuntimeResult<RuntimeValue>,
) -> bool
    decreases fuel, 2nat, fs.len() - j,
{
    if j < 0 || j >= fs.len() {
        after == before && (r matches Ok(x) && x@ == ValueView::Struct { definition: init.identifier@, fields: acc })
    } else {
        let fd = fs[j];
        match first_initializer(init.initialized_fields@, fd.identifier@, 0) {
            Some(k) => exists|mid: Runtime, r1: RuntimeResult<RuntimeValue>|
                #![trigger step(mid, r1)]
                eval_run(before, mid, init.initialized_fields@[k].expression, fuel, r1) && match r1 {
                    Err(_) => after == mid && r == r1,
                    Ok(v) => exists|mid2: Runtime, ra: RuntimeResult<RuntimeValue>|
                        #![trigger step(mid2, ra)]
                        mid2.only_heap_grew(mid) && crate::values::annotation_outcome(mid.heap@, v@, fd.data_type@, ra) && match ra {
                            Err(x) => after == mid2 && field_init_error(x, fd.identifier@, dname, r),
                            Ok(x) => exists|mid3: Runtime|
                                #![trigger state_step(mid3)]
                                cell_added(mid2, mid3, x@) && fields_run(
                                    mid3,
                                    after,
                                    init,
                                    dname,
                                    fs,
                                    j + 1,
                                    fuel,
                                    acc.push((fd.identifier@, mid2.heap@.len() as usize)),
                                    r,
                                ),
                        },
                },
            None => if !init.use_defaults {
                after == before && (r matches Err(x) && x matches RuntimeError::IncompleteStructInitialization(n) && n@ == dname)
            } else {
                exists|mid2: Runtime, ra: RuntimeResult<RuntimeValue>|
                    #![trigger step(mid2, ra)]
                    mid2.only_heap_grew(before) && (ra is Ok <==> has_default(
                        before.structs@,
                        fd.data_type@,
                        default_fuel(before.structs@.len()),
                    )) && (ra matches Ok(x) ==> is_default(
                        before.structs@,
                        mid2.heap@,
                        fd.data_type@,
                        x@,
                        default_fuel(before.structs@.len()),
                    )) && (ra matches Err(x) ==> crate::values::default_fails(
                        before.structs@,
                        fd.data_type@,
                        default_fuel(before.structs@.len()),
                        x,
                    )) && match ra {
                        Err(_) => after == mid2 && r == ra,
                        Ok(x) => exists|mid3: Runtime|
                            #![trigger state_step(mid3)]
                            cell_added(mid2, mid3, x@) && fields_run(
                                mid3,
                                after,
                                init,
                                dname,
                                fs,
                                j + 1,
                                fuel,
                                acc.push((fd.identifier@, mid2.heap@.len() as usize)),
                                r,
                            ),
                    }
            },
        }
    }
}

/// Building a struct value (see `initialize_struct`): out of fuel at zero; a
/// struct without a definition is refused; else its fields start in order
/// (see `fields_run`).
pub open spec fn struct_init_run(before: Runtime, after: Runtime, init: StructInitialization, fuel: nat, r: RuntimeResult<RuntimeValue>) -> bool
    decreases fuel, 3nat, 0int,
{
    if fuel == 0 {
        after == before && (r matches Err(x) && x is OutOfFuel)
    } else {
        match struct_def(before.structs@, init.identifier@) {
            None => after == before && (r matches Err(x) && x matches RuntimeError::StructDefinitionNotFound(n) && n@ == init.identifier@),
            Some(d) => fields_run(before, after, init, d.identifier@, spec_fields(d.members@), 0, sub1(fuel), Seq::empty(), r),
        }
    }
}

proof fn lemma_fields_end(
    s: Runtime,
    init: StructInitialization,
    dname: Seq<char>,
    fs: Seq<StructFieldDefinition>,
    fuel: nat,
    acc: Seq<(Seq<char>, usize)>,
    r: RuntimeResult<RuntimeValue>,
)
    requires
        r matches Ok(x) && x@ == (ValueView::Struct { definition: init.identifier@, fields: acc }),
    ensures
        fields_run(s, s, init, dname, fs, fs.len() as int, fuel, acc, r),
{
}

proof fn lemma_fields_eval_err(
    before: Runtime,
    after: Runtime,
    init: StructInitialization,
    dname: Seq<char>,
    fs: Seq<StructFieldDefinition>,
    j: int,
    fuel: nat,
    acc: Seq<(Seq<char>, usize)>,
    k: int,
    e: RuntimeError,
)
    requires
        0 <= j < fs.len(),
        first_initializer(init.initialized_fields@, fs[j].identifier@, 0) == Some(k),
        eval_run(before, after, init.initialized_fields@[k].expression, fuel, Err(e)),
    ensures
        fields_run(before, after, init, dname, fs, j, fuel, acc, Err(e)),
{
    let _ = step(after, Err(e));
}

proof fn lemma_fields_annotate_err(
    before: Runtime,
    mid: Runtime,
    after: Runtime,
    init: StructInitialization,
    dname: Seq<char>,
    fs: Seq<StructFieldDefinition>,
    j: int,
    fuel: nat,
    acc: Seq<(Seq<char>, usize)>,
    k: int,
    v: RuntimeValue,
    ra: RuntimeResult<RuntimeValue>,
    r: RuntimeResult<RuntimeValue>,
)
    requires
        0 <= j < fs.len(),
        first_initializer(init.initialized_fields@, fs[j].identifier@, 0) == Some(k),
        eval_run(before, mid, init.initialized_fields@[k].expression, fuel, Ok(v)),
        after.only_heap_grew(mid),
        crate::values::annotation_outcome(mid.heap@, v@, fs[j].data_type@, ra),
        ra matches Err(x) && field_init_error(x, fs[j].identifier@, dname, r),
    ensures
        fields_run(before, after, init, dname, fs, j, fuel, acc, r),
{
    let _ = step(mid, Ok(v));
    let _ = step(after, ra);
}

proof fn lemma_fields_given(
    before: Runtime,
    mid: Runtime,
    mid2: Runtime,
    mid3: Runtime,
    after: Runtime,
    init: StructInitialization,
    dname: Seq<char>,
    fs: Seq<StructFieldDefinition>,
    j: int,
    fuel: nat,
    acc: Seq<(Seq<char>, usize)>,
    k: int,
    v: RuntimeValue,
    x: RuntimeValue,
    r: RuntimeResult<RuntimeValue>,
)
    requires
        0 <= j < fs.len(),
        first_initializer(init.initialized_fields@, fs[j].identifier@, 0) == Some(k),
        eval_run(before, mid, init.initialized_fields@[k].expression, fuel, Ok(v)),
        mid2.only_heap_grew(mid),
        crate::values::annotation_outcome(mid.heap@, v@, fs[j].data_type@, Ok(x)),
        cell_added(mid2, mid3, x@),
        fields_run(mid3, after, init, dname, fs, j + 1, fuel, acc.push((fs[j].identifier@, mid2.heap@.len() as usize)), r),
    ensures
        fields_run(before, after, init, dname, fs, j, fuel, acc, r),
{
    let _ = step(mid, Ok(v));
    let _ = step(mid2, Ok(x));
    let _ = state_step(mid3);
}

proof fn lemma_fields_default(
    before: Runtime,
    mid2: Runtime,
    mid3: Runtime,
    after: Runtime,
    init: StructInitialization,
    dname: Seq<char>,
    fs: Seq<StructFieldDefinition>,
    j: int,
    fuel: nat,
    acc: Seq<(Seq<char>, usize)>,
    ra: RuntimeResult<RuntimeValue>,
    r: RuntimeResult<RuntimeValue>,
)
    requires
        0 <= j < fs.len(),
        first_initializer(init.initialized_fields@, fs[j].identifier@, 0) is None,
        init.use_defaults,
        mid2.only_heap_grew(before),
        ra is Ok <==> has_default(before.structs@, fs[j].data_type@, default_fuel(before.structs@.len())),
        ra matches Ok(x) ==> is_default(before.structs@, mid2.heap@, fs[j].data_type@, x@, default_fuel(before.structs@.len())),
        ra matches Err(x) ==> crate::values::default_fails(before.structs@, fs[j].data_type@, default_fuel(before.structs@.len()), x),
        ra is Err ==> after == mid2 && r == ra,
        ra matches Ok(x) ==> cell_added(mid2, mid3, x@) && fields_run(
            mid3,
            after,
            init,
            dname,
            fs,
            j + 1,
            fuel,
            acc.push((fs[j].identifier@, mid2.heap@.len() as usize)),
            r,
        ),
    ensures
        fields_run(before, after, init, dname, fs, j, fuel, acc, r),
{
    let _ = step(mid2, ra);
    let _ = state_step(mid3);
}

/// The check of a new array's elements from position `k` on: each has the
/// type `t` of the first (an element without a type, or of another type, is
/// an error naming the two types); when all have it, the array of them.
pub open spec fn checked_from(h: Seq<ValueView>, acc: Seq<usize>, t: DType, k: int, r: RuntimeResult<RuntimeValue>) -> bool
    decreases acc.len() - k,
{
    if k < 0 || k >= acc.len() {
        r matches Ok(x) && x@ == (ValueView::Array { inner_data_type: t, contents: acc })
    } else {
        match value_type(h, h[acc[k] as int], h.len()) {
            None => r matches Err(e) && crate::value::type_error_is(h, h[acc[k] as int], h.len(), e),
            Some(t2) => if t2 != t {
                r matches Err(e) && e matches RuntimeError::TypeCoercionFail { from, to } && from@ == crate::ast::dt_name(t2) && to@
                    == crate::ast::dt_name(t)
            } else {
                checked_from(h, acc, t, k + 1, r)
            },
        }
    }
}

/// The array of the cells `acc` (at least one), where all hold values of the
/// type of the first (see `checked_from`).
pub open spec fn array_result(h: Seq<ValueView>, acc: Seq<usize>, r: RuntimeResult<RuntimeValue>) -> bool {
    match value_type(h, h[acc[0] as int], h.len()) {
        None => r matches Err(e) && crate::value::type_error_is(h, h[acc[0] as int], h.len(), e),
        Some(t) => checked_from(h, acc, t, 1, r),
    }
}

/// Evaluating the elements `es[j..]` of a new array in turn with the budget
/// `fuel`, each value in a new cell after the cells `acc` of those before it;
/// the first error ends it; after the last, the array of the cells (see
/// `array_result`).
pub open spec fn elems_run(
    before: Runtime,
    after: Runtime,
    es: Seq<Expression>,
    j: int,
    fuel: nat,
    acc: Seq<usize>,
    r: RuntimeResult<RuntimeValue>,
) -> bool
    decreases fuel, 2nat, es.len() - j,
{
    if j < 0 || j >= es.len() {
        after == before && array_result(before.heap@, acc, r)
    } else {
        exists|mid: Runtime, r1: RuntimeResult<RuntimeValue>|
            #![trigger step(mid, r1)]
            eval_run(before, mid, es[j], fuel, r1) && match r1 {
                Err(_) => after == mid && r == r1,
                Ok(v) => exists|mid3: Runtime|
                    #![trigger state_step(mid3)]
                    cell_added(mid, mid3, v@) && elems_run(mid3, after, es, j + 1, fuel, acc.push(mid.heap@.len() as usize), r),
            }
    }
}

/// Building an array from its elements (see `initialize_array`): no elements
/// is refused; out of fuel at zero; else the elements in turn (see
/// `elems_run`).
pub open spec fn array_init_run(before: Runtime, after: Runtime, init: ArrayInitialization, fuel: nat, r: RuntimeResult<RuntimeValue>) -> bool
    decreases fuel, 3nat, 0int,
{
    if init.initialized_fields@.len() == 0 {
        after == before && (r matches Err(x) && x is CannotInferEmptyArrayType)
    } else if fuel == 0 {
        after == before && (r matches Err(x) && x is OutOfFuel)
    } else {
        elems_run(before, after, init.initialized_fields@, 0, sub1(fuel), Seq::empty(), r)
    }
}

proof fn lemma_elems_step(
    before: Runtime,
    mid: Runtime,
    mid3: Runtime,
    after: Runtime,
    es: Seq<Expression>,
    j: int,
    fuel: nat,
    acc: Seq<usize>,
    r1: RuntimeResult<RuntimeValue>,
    r: RuntimeResult<RuntimeValue>,
)
    requires
        0 <= j < es.len(),
        eval_run(before, mid, es[j], fuel, r1),
        r1 is Err ==> after == mid && r == r1,
        r1 matches Ok(v) ==> cell_added(mid, mid3, v@) && elems_run(mid3, after, es, j + 1, fuel, acc.push(mid.heap@.len() as usize), r),
    ensures
        elems_run(before, after, es, j, fuel, acc, r),
{
    let _ = step(mid, r1);
    let _ = state_step(mid3);
}

/// Evaluating the expressions `es[i..]` in turn, each with the budget
/// `fuel`, from `before` to `after`: their values in order, or the first
/// error.
pub open spec fn args_run(
    before: Runtime,
    after: Runtime,
    es: Seq<Expression>,
    i: int,
    fuel: nat,
    r: RuntimeResult<Seq<ValueView>>,
) -> bool
    decreases fuel, 1nat, es.len() - i,
{
    if i < 0 || i >= es.len() {
        after == before && r == Ok::<Seq<ValueView>, RuntimeError>(Seq::empty())
    } else {
        exists|mid: Runtime, r1: RuntimeResult<RuntimeValue>|
            #![trigger step(mid, r1)] eval_run(before, mid, es[i], fuel, r1) && match r1 {
                Err(x) => after == mid && r == Err::<Seq<ValueView>, RuntimeError>(x),
                Ok(v) => exists|r2: RuntimeResult<Seq<ValueView>>|
                    #![trigger vals_step(after, r2)] args_run(mid, after, es, i + 1, fuel, r2) && r == prepend_value(v@, r2),
            }
    }
}

/// Values put before the values of a result.
pub open spec fn prepend_values(vs: Seq<ValueView>, r: RuntimeResult<Seq<ValueView>>) -> RuntimeResult<Seq<ValueView>> {
    match r {
        Ok(s) => Ok(vs + s),
        Err(x) => Err(x),
    }
}

/// A value put before the values of a result.
pub open spec fn prepend_value(v: ValueView, r: RuntimeResult<Seq<ValueView>>) -> RuntimeResult<Seq<ValueView>> {
    match r {
        Ok(vs) => Ok(seq![v] + vs),
        Err(x) => Err(x),
    }
}

/// Calling the function `name` with the values `args`: refused where no
/// function has that name; else as the native function does it (see
/// `native_outcome`), or as `user_call_run` runs the user's function.
pub open spec fn call_run(
    before: Runtime,
    after: Runtime,
    name: Seq<char>,
    args: Seq<ValueView>,
    generics: Seq<DataType>,
    fuel: u64,
    r: RuntimeResult<RuntimeValue>,
) -> bool {
    match fn_lookup(before.functions@, name) {
        None => after == before && (r matches Err(x) && x matches RuntimeError::FunctionNotFound(n) && n@ == name),
        Some(RuntimeFunction::Native(native)) => native_outcome(before, after, native, args, generics, r),
        Some(RuntimeFunction::User(definition)) => user_call_run(before, after, name, definition, args, fuel, r),
    }
}

/// Reading field `name` of the value `v` (of what it refers to): the field's
/// value, copied, or the error that `field_access_error` names.
pub open spec fn field_read(h: Seq<ValueView>, h2: Seq<ValueView>, v: ValueView, name: Seq<char>, r: RuntimeResult<RuntimeValue>) -> bool {
    match crate::values::field_target(h, v, name, h.len()) {
        Some(c) => r matches Ok(x) && is_copy(h2, h.len(), h[c as int], x@, h.len()),
        None => h2 == h && (r matches Err(e) && crate::values::field_access_error(h, v, name, h.len(), e)),
    }
}

/// Reading element `i` of the array that `av` is (or refers to): a copy of
/// the element; an error naming the index and the length for an index past
/// the end; an error for a value that is no array.
pub open spec fn element_read(before: Runtime, after: Runtime, av: ValueView, i: int, r: RuntimeResult<RuntimeValue>) -> bool {
    match deref_chain(before.heap@, av, before.heap@.len()) {
        ValueView::Array { contents, .. } => if i >= contents.len() {
            after == before && (r matches Err(x) && x matches RuntimeError::ArrayIndexOutOfBounds { index, length }
                && index == i && length == contents.len())
        } else {
            after.only_heap_grew(before) && (r matches Ok(x) && is_copy(
                after.heap@,
                before.heap@.len(),
                before.heap@[contents[i] as int],
                x@,
                before.heap@.len(),
            ))
        },
        _ => after == before && r is Err,
    }
}

/// What `return e;` (with `returns`) or `e;` does where `e` only reads the
/// runtime: nothing changes, and it gives the return of `e`'s value, or
/// goes on, or fails where `e` fails.
pub open spec fn statement_value_outcome(
    before: Runtime,
    after: Runtime,
    e: Expression,
    fuel: nat,
    r: RuntimeResult<ControlFlow>,
    returns: bool,
) -> bool {
    &&& (pure_eval(before, e, fuel) matches Some(p) ==> {
        &&& unchanged(after, before)
        &&& (r is Ok <==> p is Some)
        &&& (r matches Ok(f) ==> if returns {
            f matches ControlFlow::Return(v) && v@ == p->Some_0
        } else {
            f is Continue
        })
    })
}

/// What `return e;` (with `returns`) or `e;` does, for any `e`: `e` is
/// evaluated (see `eval_run`), and the statement gives the return of its
/// value, or goes on, or fails with its error.
pub open spec fn value_statement_run(
    before: Runtime,
    after: Runtime,
    e: Expression,
    fuel: nat,
    r: RuntimeResult<ControlFlow>,
    returns: bool,
) -> bool {
    exists|r1: RuntimeResult<RuntimeValue>|
        #![trigger step(after, r1)]
        eval_run(before, after, e, fuel, r1) && match r1 {
            Err(x) => r == Err::<ControlFlow, RuntimeError>(x),
            Ok(v) => r == Ok::<ControlFlow, RuntimeError>(if returns {
                ControlFlow::Return(v)
            } else {
                ControlFlow::Continue
            }),
        }
}

/// The expression is a literal (of a number, text or a boolean).
pub open spec fn is_literal(e: Expression) -> bool {
    e is Value && literal_view(e->Value_0) is Some
}

/// What a binary operator gives on two values, as the operators module
/// states it for each operator.
pub open spec fn binary_outcome(
    h: Seq<ValueView>,
    operator: BinaryOperator,
    l: ValueView,
    r: ValueView,
    res: RuntimeResult<RuntimeValue>,
) -> bool {
    match operator {
        BinaryOperator::Add | BinaryOperator::Subtract | BinaryOperator::Multiply | BinaryOperator::Divide
        | BinaryOperator::Modulo => arith_outcome(h, l, r, operator, res),
        BinaryOperator::ShiftLeft => shift_outcome(l, r, true, res),
        BinaryOperator::ShiftRight => shift_outcome(l, r, false, res),
        BinaryOperator::LessThan | BinaryOperator::LessThanOrEqualTo | BinaryOperator::GreaterThan
        | BinaryOperator::GreaterThanOrEqualTo => order_outcome(h, l, r, operator, res),
        BinaryOperator::EqualTo => eq_outcome(h, l, r, res, false),
        BinaryOperator::NotEqualTo => eq_outcome(h, l, r, res, true),
        BinaryOperator::BitwiseAnd | BinaryOperator::BitwiseOr | BinaryOperator::BitwiseXor => bitwise_outcome(
            h,
            l,
            r,
            operator,
            res,
        ),
        BinaryOperator::LogicalAnd => logical_outcome(h, l, r, true, res),
        BinaryOperator::LogicalOr => logical_outcome(h, l, r, false, res),
    }
}

impl Runtime {
    /// Evaluates an expression to a value.
    pub fn evaluate_expression(&mut self, expression: &Expression, fuel: u64) -> (r: RuntimeResult<RuntimeValue>)
        requires
            old(self).wf(),
        ensures
            final(self).bindings_same(*old(self)),
            final(self).wf(),
            final(self).stable(*old(self)),
            r matches Ok(v) ==> value_addrs_below(v@, final(self).heap@.len()),
            fuel == 0 ==> (r matches Err(e) && e is OutOfFuel),
            fuel > 0 && is_literal(*expression) ==> (r matches Ok(v) && v@ == literal_view(expression->Value_0)->Some_0)
                && *final(self) == *old(self),
            fuel > 0 && expression is Range ==> (r matches Err(e) && e is UnexpectedExpression),
            pure_outcome(*old(self), *final(self), *expression, fuel as nat, r),
            eval_run(*old(self), *final(self), *expression, fuel as nat, r),
            fuel > 0 ==> (*expression matches Expression::Value(Value::Identifier(n)) ==> (old(self).lookup(n@) matches Some(c)
                ==> (r matches Ok(v) && is_copy(final(self).heap@, old(self).heap@.len(), old(self).heap@[c as int], v@, old(self).heap@.len()))
                && heap_grows(old(self).heap@, final(self).heap@))),
            fuel > 1 ==> (*expression matches Expression::StructFieldAccess { expression: inner, field_identifier } ==> (
            *inner matches Expression::Value(Value::Identifier(n)) ==> (old(self).lookup(n@) matches Some(c) ==> struct_field_outcome(
                old(self).heap@,
                old(self).heap@[c as int],
                field_identifier@,
                r,
            )))),
            fuel > 0 ==> (*expression matches Expression::MethodCall { expression: receiver, method_identifier, arguments }
                ==> method_call_outcome(
                *old(self),
                *final(self),
                *receiver,
                method_identifier@,
                arguments@,
                (fuel - 1) as u64,
                r,
            )),
            fuel > 0 ==> (*expression matches Expression::ArrayInitialization(init) ==> array_init_outcome(
                *final(self),
                init,
                (fuel - 1) as u64,
                r,
            )),
            fuel > 0 ==> (*expression matches Expression::StructInitialization(init) ==> struct_init_outcome(
                *old(self),
                *final(self),
                init,
                (fuel - 1) as u64,
                r,
            )),
            fuel > 1 ==> (*expression matches Expression::FunctionCall(call) ==> (fn_lookup(
                old(self).functions@,
                call.identifier@,
            ) matches Some(RuntimeFunction::User(definition)) ==> (args_pure(*old(self), call.arguments@, (fuel - 2) as nat)
                ==> exists|mid: Runtime|
                unchanged(mid, *old(self)) && #[trigger] user_call_run(
                    mid,
                    *final(self),
                    call.identifier@,
                    definition,
                    args_values(*old(self), call.arguments@, (fuel - 2) as nat),
                    (fuel - 1) as u64,
                    r,
                )))),
            fuel > 1 ==> (*expression matches Expression::FunctionCall(call) ==> (fn_lookup(
                old(self).functions@,
                call.identifier@,
            ) matches Some(RuntimeFunction::Native(native)) ==> (args_pure(*old(self), call.arguments@, (fuel - 2) as nat)
                ==> exists|mid: Runtime|
                unchanged(mid, *old(self)) && #[trigger] native_outcome(
                    mid,
                    *final(self),
                    native,
                    args_values(*old(self), call.arguments@, (fuel - 2) as nat),
                    call.generics@,
                    r,
                )))),
        decreases fuel,
    {
        if fuel == 0 {
            return Err(out_of_fuel());
        }
        let f = fuel - 1;
        match expression {
            Expression::Value(value) => self.resolve_ast_value(value),
            Expression::FunctionCall(call) => {
                proof {
                    assert(sub1(fuel as nat) == f as nat);
                    if f > 0 {
                        assert(sub1(sub1(fuel as nat)) == (f - 1) as nat);
                    }
                }
                let args = match self.evaluate_arguments(&call.arguments, false, f) {
                    Ok(a) => a,
                    Err(e) => {
                        proof {
                            if f > 0 {
                                lemma_call_run(*old(self), *self, *self, *call, fuel as nat, Err(e), Err(e));
                            }
                        }
                        return Err(e);
                    },
                };
                let ghost mid = *self;
                let ghost vals = args@.map_values(|v: RuntimeValue| v@);
                let r = self.call_function(call.identifier.as_str(), args, &call.generics, f);
                proof {
                    assert(sub1(fuel as nat) as u64 == f);
                    lemma_call_run(*old(self), mid, *self, *call, fuel as nat, Ok(vals), r);
                    if fuel > 1 && args_pure(*old(self), call.arguments@, (fuel - 2) as nat) {
                        if let Some(RuntimeFunction::User(definition)) = fn_lookup(old(self).functions@, call.identifier@) {
                            assert(user_call_run(
                                mid,
                                *self,
                                call.identifier@,
                                definition,
                                args_values(*old(self), call.arguments@, (fuel - 2) as nat),
                                (fuel - 1) as u64,
                                r,
                            ));
                        }
                        if let Some(RuntimeFunction::Native(native)) = fn_lookup(old(self).functions@, call.identifier@) {
                            assert(native_outcome(
                                mid,
                                *self,
                                native,
                                args_values(*old(self), call.arguments@, (fuel - 2) as nat),
                                call.generics@,
                                r,
                            ));
                        }
                    }
                }
                r
            },
            Expression::Binary { lhs, rhs, operator } => {
                let ghost s0 = *self;
                proof {
                    assert(sub1(fuel as nat) == f as nat);
                }
                let l = match self.evaluate_expression(lhs, f) {
                    Ok(l) => l,
                    Err(e) => {
                        proof {
                            lemma_binary_run(s0, *self, *self, *self, **lhs, **rhs, *operator, fuel as nat, Err(e), Err(e), Err(e));
                        }
                        return Err(e);
                    },
                };
                let ghost s1 = *self;
                proof {
                    if unchanged(s1, s0) {
                        lemma_pure_eval_unchanged(s0, s1, **rhs, f as nat);
                    }
                }
                let r = match self.evaluate_expression(rhs, f) {
                    Ok(r) => r,
                    Err(e) => {
                        proof {
                            lemma_binary_run(s0, s1, *self, *self, **lhs, **rhs, *operator, fuel as nat, Ok(l), Err(e), Err(e));
                        }
                        return Err(e);
                    },
                };
                let ghost s2 = *self;
                let res = self.evaluate_binary(*operator, l, r);
                proof {
                    lemma_binary_value(self.heap@, *operator, l@, r@, res);
                    if unchanged(s1, s0) && unchanged(s2, s1) {
                        lemma_unchanged_trans(s0, s1, s2);
                    }
                    lemma_binary_run(s0, s1, s2, *self, **lhs, **rhs, *operator, fuel as nat, Ok(l), Ok(r), res);
                }
                let v = res?;
                proof {
                    lemma_addrs_below_mono(v@, 0, self.heap@.len());
                }
                Ok(v)
            },
            Expression::Unary { operator, expression: inner } => self.evaluate_unary(*operator, inner, f),
            Expression::StructInitialization(init) => {
                let r = self.initialize_struct(init, f);
                proof {
                    assert(struct_init_outcome(*old(self), *self, *init, f, r));
                    assert(sub1(fuel as nat) == f as nat);
                }
                r
            },
            Expression::ArrayInitialization(init) => {
                let r = self.initialize_array(init, f);
                proof {
                    assert(array_init_outcome(*self, *init, f, r));
                }
                r
            },
            Expression::StructFieldAccess { expression: inner, field_identifier } => {
                let ghost s0 = *self;
                let ghost ie: Expression = **inner;
                proof {
                    assert(sub1(fuel as nat) == f as nat);
                }
                let v = match self.evaluate_expression(inner, f) {
                    Ok(v) => v,
                    Err(e) => {
                        proof {
                            lemma_field_run(s0, *self, *self, ie, *field_identifier, fuel as nat, Err(e), Err(e));
                        }
                        return Err(e);
                    },
                };
                let ghost before = *self;
                let r = v.struct_access(field_identifier.as_str(), &mut self.heap);
                proof {
                    Runtime::lemma_wf_same_scopes(before, *self);
                    assert(self.only_heap_grew(before));
                    lemma_field_run(s0, before, *self, ie, *field_identifier, fuel as nat, Ok(v), r);
                    if fuel > 1 {
                        if let Expression::Value(Value::Identifier(n)) = ie {
                            if let Some(c) = s0.lookup(n@) {
                                s0.lemma_lookup_below(n@);
                                let h0 = s0.heap@;
                                let h1 = before.heap@;
                                let bound = h0[c as int];
                                if let ValueView::Struct { definition, fields } = bound {
                                    if let ValueView::Struct { fields: f2, .. } = v@ {
                                        crate::values::lemma_field_cell_parallel(fields, f2, field_identifier@);
                                        if crate::serialization::field_cell(fields, field_identifier@) is Some {
                                            let i = choose|i: int|
                                                0 <= i < fields.len() && crate::serialization::field_cell(fields, field_identifier@)
                                                    == Some(fields[i].1) && crate::serialization::field_cell(
                                                    f2,
                                                    field_identifier@,
                                                ) == Some(#[trigger] f2[i].1);
                                            assert(f2[i].0 == fields[i].0);
                                            assert(h1[fields[i].1 as int] == h0[fields[i].1 as int]);
                                            assert(crate::values::field_target(h1, v@, field_identifier@, h1.len()) == Some(f2[i].1));
                                            if !(h0[fields[i].1 as int] is Struct) {
                                                assert(h0.len() > 0);
                                                assert(is_copy(h1, h0.len(), h1[fields[i].1 as int], h1[f2[i].1 as int], (h0.len() - 1) as nat));
                                                assert(h1[f2[i].1 as int] == h0[fields[i].1 as int]);
                                                assert(r matches Ok(x) && x@ == h0[fields[i].1 as int]);
                                            }
                                        } else {
                                            assert(r is Err);
                                        }
                                    }
                                    assert(struct_field_outcome(h0, bound, field_identifier@, r));
                                } else if !(bound is Reference) {
                                    assert(v@ == bound);
                                    assert(value_type(h1, bound, h1.len()) == value_type(h0, bound, h0.len()));
                                    assert(r is Err);
                                    assert(struct_field_outcome(h0, bound, field_identifier@, r));
                                }
                            }
                        }
                    }
                }
                r
            },
            Expression::ArrayAccess { expression: inner, index_expression } => self.evaluate_array_access(inner, index_expression, f),
            Expression::MethodCall { expression: receiver, method_identifier, arguments } => {
                let r = self.evaluate_method_call(receiver, method_identifier.as_str(), arguments, f);
                proof {
                    assert(method_call_outcome(*old(self), *self, **receiver, method_identifier@, arguments@, f, r));
                }
                r
            },
            Expression::Range { .. } => Err(RuntimeError::UnexpectedExpression(string_of("a range outside a for loop"))),
            Expression::TypeCast { expression: inner, target_type } => {
                let ghost s0 = *self;
                proof {
                    assert(sub1(fuel as nat) == f as nat);
                }
                let v = match self.evaluate_expression(inner, f) {
                    Ok(v) => v,
                    Err(e) => {
                        proof {
                            lemma_cast_run(s0, *self, *self, **inner, *target_type, fuel as nat, Err(e), Err(e));
                        }
                        return Err(e);
                    },
                };
                let res = v.cast_to(target_type, &self.heap);
                proof {
                    lemma_cast_value(self.heap@, v@, target_type@, res);
                    lemma_cast_run(s0, *self, *self, **inner, *target_type, fuel as nat, Ok(v), res);
                }
                let c = res?;
                proof {
                    lemma_addrs_below_mono(c@, 0, self.heap@.len());
                }
                Ok(c)
            },
        }
    }

    /// Evaluates an expression that must give a boolean.
    pub fn evaluate_boolean_expression(&mut self, expression: &Expression, fuel: u64) -> (r: RuntimeResult<bool>)
        requires
            old(self).wf(),
        ensures
            final(self).bindings_same(*old(self)),
            final(self).wf(),
            final(self).stable(*old(self)),
            fuel > 0 ==> (pure_eval(*old(self), *expression, (fuel - 1) as nat) matches Some(p) ==> {
                &&& unchanged(*final(self), *old(self))
                &&& (r is Ok <==> p matches Some(ValueView::Bool(_)))
                &&& (r matches Ok(b) ==> p == Some(ValueView::Bool(b)))
            }),
            cond_run(*old(self), *final(self), *expression, fuel, r),
        decreases fuel,
    {
        if fuel == 0 {
            return Err(out_of_fuel());
        }
        let vr = self.evaluate_expression(expression, fuel - 1);
        let ghost r1 = vr;
        proof {
            let _ = step(*self, r1);
        }
        match vr {
            Ok(RuntimeValue::Bool(b)) => Ok(b),
            Ok(_) => Err(RuntimeError::ExpectedBoolean),
            Err(e) => Err(e),
        }
    }

    /// Evaluates arguments in order; with `skip_errors`, those that fail are
    /// left out, else the first failure is the result.
    fn evaluate_arguments(&mut self, arguments: &Vec<Expression>, skip_errors: bool, fuel: u64) -> (r: RuntimeResult<Vec<RuntimeValue>>)
        requires
            old(self).wf(),
        ensures
            final(self).bindings_same(*old(self)),
            final(self).wf(),
            final(self).stable(*old(self)),
            r matches Ok(args) ==> all_below(args@, final(self).heap@.len()),
            fuel > 0 && args_pure(*old(self), arguments@, (fuel - 1) as nat) ==> (r matches Ok(args) && args@.map_values(
                |v: RuntimeValue| v@,
            ) == args_values(*old(self), arguments@, (fuel - 1) as nat)) && unchanged(*final(self), *old(self)),
            fuel == 0 ==> (r matches Err(e) && e is OutOfFuel) && *final(self) == *old(self),
            fuel > 0 && !skip_errors ==> args_run(*old(self), *final(self), arguments@, 0, (fuel - 1) as nat, match r {
                Ok(vs) => Ok(vs@.map_values(|v: RuntimeValue| v@)),
                Err(x) => Err(x),
            }),
            fuel > 0 && skip_errors ==> (r matches Ok(vs) && args_kept_run(*old(self), *final(self), arguments@, 0, (fuel - 1) as nat, vs@)),
        decreases fuel,
    {
        if fuel == 0 {
            return Err(out_of_fuel());
        }
        let mut values: Vec<RuntimeValue> = Vec::new();
        let mut i: usize = 0;
        let ghost g = (fuel - 1) as nat;
        let ghost es = arguments@;
        while i < arguments.len()
            invariant
                i <= arguments@.len(),
                fuel > 0,
                g == (fuel - 1) as nat,
                es == arguments@,
                !skip_errors ==> values@.len() == i,
                !skip_errors ==> forall|after: Runtime, rr: RuntimeResult<Seq<ValueView>>|
                    #[trigger] args_run(*self, after, es, i as int, g, rr) ==> args_run(
                        *old(self),
                        after,
                        es,
                        0,
                        g,
                        prepend_values(values@.map_values(|v: RuntimeValue| v@), rr),
                    ),
                self.wf(),
                self.stable(*old(self)),
                self.bindings_same(*old(self)),
                all_below(values@, self.heap@.len()),
                skip_errors ==> forall|after: Runtime, ws: Seq<RuntimeValue>|
                    #[trigger] args_kept_run(*self, after, es, i as int, g, ws) ==> args_kept_run(
                        *old(self),
                        after,
                        es,
                        0,
                        g,
                        values@ + ws,
                    ),
                args_pure(*old(self), arguments@, (fuel - 1) as nat) ==> {
                    &&& unchanged(*self, *old(self))
                    &&& values@.len() == i
                    &&& forall|j: int| 0 <= j < i ==> (#[trigger] values@[j])@ == args_values(
                        *old(self),
                        arguments@,
                        (fuel - 1) as nat,
                    )[j]
                },
            decreases arguments@.len() - i,
        {
            let ghost n = self.heap@.len();
            proof {
                if args_pure(*old(self), arguments@, (fuel - 1) as nat) {
                    lemma_pure_eval_unchanged(*old(self), *self, arguments@[i as int], (fuel - 1) as nat);
                }
            }
            let ghost s_before = *self;
            let er = self.evaluate_expression(&arguments[i], fuel - 1);
            let ghost r1 = er;
            match er {
                Ok(v) => {
                    proof {
                        lemma_all_below_mono(values@, n, self.heap@.len());
                    }
                    let ghost old_values = values@;
                    values.push(v);
                    proof {
                        if skip_errors {
                            assert forall|after: Runtime, ws: Seq<RuntimeValue>|
                                #[trigger] args_kept_run(*self, after, es, i + 1, g, ws) implies args_kept_run(
                                *old(self),
                                after,
                                es,
                                0,
                                g,
                                values@ + ws,
                            ) by {
                                let w2 = seq![v] + ws;
                                assert(w2.drop_first() =~= ws);
                                lemma_kept_step(s_before, *self, after, es, i as int, g, r1, w2);
                                assert(old_values + w2 =~= values@ + ws);
                            }
                        }
                        if !skip_errors {
                            assert forall|after: Runtime, rr: RuntimeResult<Seq<ValueView>>|
                                #[trigger] args_run(*self, after, es, i + 1, g, rr) implies args_run(
                                *old(self),
                                after,
                                es,
                                0,
                                g,
                                prepend_values(values@.map_values(|v: RuntimeValue| v@), rr),
                            ) by {
                                lemma_args_cons(s_before, *self, after, es, i as int, g, Ok(v), rr, prepend_value(v@, rr));
                                assert(args_run(s_before, after, es, i as int, g, prepend_value(v@, rr)));
                                let a = old_values.map_values(|v: RuntimeValue| v@);
                                let b = values@.map_values(|v: RuntimeValue| v@);
                                assert(b =~= a.push(v@));
                                if let Ok(sv) = rr {
                                    assert(a + (seq![v@] + sv) =~= b + sv);
                                }
                            }
                        }
                    }
                },
                Err(e) => {
                    proof {
                        lemma_all_below_mono(values@, n, self.heap@.len());
                    }
                    if !skip_errors {
                        proof {
                            lemma_args_cons(s_before, *self, *self, es, i as int, g, Err(e), Err(e), Err(e));
                            assert(args_run(s_before, *self, es, i as int, g, Err(e)));
                        }
                        return Err(e);
                    }
                    proof {
                        assert forall|after: Runtime, ws: Seq<RuntimeValue>|
                            #[trigger] args_kept_run(*self, after, es, i + 1, g, ws) implies args_kept_run(
                            *old(self),
                            after,
                            es,
                            0,
                            g,
                            values@ + ws,
                        ) by {
                            lemma_kept_step(s_before, *self, after, es, i as int, g, r1, ws);
                        }
                    }
                },
            }
            proof {
                if args_pure(*old(self), arguments@, (fuel - 1) as nat) {
                    lemma_unchanged_trans(*old(self), s_before, *self);
                }
            }
            i = i + 1;
        }
        proof {
            if args_pure(*old(self), arguments@, (fuel - 1) as nat) {
                assert(values@.map_values(|v: RuntimeValue| v@) =~= args_values(*old(self), arguments@, (fuel - 1) as nat));
            }
            if !skip_errors {
                assert(args_run(*self, *self, es, i as int, g, Ok(Seq::<ValueView>::empty())));
                let vv = values@.map_values(|v: RuntimeValue| v@);
                assert(vv + Seq::<ValueView>::empty() =~= vv);
            } else {
                assert(args_kept_run(*self, *self, es, i as int, g, Seq::<RuntimeValue>::empty()));
                assert(values@ + Seq::<RuntimeValue>::empty() =~= values@);
            }
        }
        Ok(values)
    }

    fn evaluate_unary(&mut self, operator: UnaryOperator, inner: &Expression, fuel: u64) -> (r: RuntimeResult<RuntimeValue>)
        requires
            old(self).wf(),
        ensures
            final(self).bindings_same(*old(self)),
            final(self).wf(),
            final(self).stable(*old(self)),
            r matches Ok(v) ==> value_addrs_below(v@, final(self).heap@.len()),
            pure_outcome(*old(self), *final(self), Expression::Unary { operator, expression: Box::new(*inner) }, (fuel + 1) as nat, r),
            eval_run(*old(self), *final(self), Expression::Unary { operator, expression: Box::new(*inner) }, (fuel + 1) as nat, r),
        decreases fuel,
    {
        if fuel == 0 {
            return Err(out_of_fuel());
        }
        match operator {
            UnaryOperator::Reference => match inner {
                Expression::Value(Value::Identifier(name)) => {
                    let cell = self.get_variable(name.as_str())?;
                    proof {
                        self.lemma_lookup_below(name@);
                    }
                    Ok(RuntimeValue::Reference(cell))
                },
                _ => Err(RuntimeError::InvalidReferenceTarget),
            },
            UnaryOperator::Dereference => {
                let ghost whole = Expression::Unary { operator, expression: Box::new(*inner) };
                let v = match self.evaluate_expression(inner, fuel - 1) {
                    Ok(v) => v,
                    Err(e) => {
                        proof {
                            assert(sub1(sub1((fuel + 1) as nat)) == (fuel - 1) as nat);
                            lemma_unary_err(*old(self), *self, operator, *inner, (fuel + 1) as nat, e);
                        }
                        return Err(e);
                    },
                };
                let ghost mid = *self;
                let ghost before = *self;
                let r = v.dereference(&mut self.heap);
                proof {
                    Runtime::lemma_wf_same_scopes(before, *self);
                    assert(sub1(sub1((fuel + 1) as nat)) == (fuel - 1) as nat);
                    lemma_unary_ok(*old(self), mid, *self, operator, *inner, (fuel + 1) as nat, v, r);
                }
                r
            },
            _ => {
                let ghost whole = Expression::Unary { operator, expression: Box::new(*inner) };
                let v = match self.evaluate_expression(inner, fuel - 1) {
                    Ok(v) => v,
                    Err(e) => {
                        proof {
                            assert(sub1(sub1((fuel + 1) as nat)) == (fuel - 1) as nat);
                            lemma_unary_err(*old(self), *self, operator, *inner, (fuel + 1) as nat, e);
                        }
                        return Err(e);
                    },
                };
                let r = match operator {
                    UnaryOperator::Negate => v.negate(&self.heap),
                    UnaryOperator::LogicalNot => v.logical_not(&self.heap),
                    _ => v.bitwise_not(&self.heap),
                };
                proof {
                    lemma_unary_value(self.heap@, v@, operator, r);
                    assert(sub1(sub1((fuel + 1) as nat)) == (fuel - 1) as nat);
                    lemma_unary_ok(*old(self), *self, *self, operator, *inner, (fuel + 1) as nat, v, r);
                }
                match r {
                    Ok(x) => {
                        proof {
                            lemma_addrs_below_mono(x@, 0, self.heap@.len());
                        }
                        Ok(x)
                    },
                    Err(e) => Err(e),
                }
            },
        }
    }

    /// Follows references from a value to the first value that is not one.
    fn resolve_references(&self, v: RuntimeValue) -> (r: RuntimeValue)
        requires
            self.wf(),
            value_addrs_below(v@, self.heap@.len()),
        ensures
            value_addrs_below(r@, self.heap@.len()),
            r@ == deref_chain(self.heap@, v@, self.heap@.len()),
    {
        let mut cur = v;
        let mut steps = self.heap.len();
        while steps > 0
            invariant
                self.wf(),
                value_addrs_below(cur@, self.heap@.len()),
                deref_chain(self.heap@, v@, self.heap@.len()) == deref_chain(self.heap@, cur@, steps as nat),
            decreases steps,
        {
            match &cur {
                RuntimeValue::Reference(a) => {
                    let next = clone_value(self.heap.read(*a));
                    proof {
                        assert(value_addrs_below(self.heap@[*a as int], self.heap@.len()));
                    }
                    cur = next;
                },
                _ => {
                    return cur;
                },
            }
            steps = steps - 1;
        }
        cur
    }

    /// Indexes an array (through references): a copy of the element.
    fn evaluate_array_access(&mut self, inner: &Expression, index_expression: &Expression, fuel: u64) -> (r: RuntimeResult<RuntimeValue>)
        requires
            old(self).wf(),
        ensures
            final(self).bindings_same(*old(self)),
            final(self).wf(),
            final(self).stable(*old(self)),
            r matches Ok(v) ==> value_addrs_below(v@, final(self).heap@.len()),
            fuel == 0 ==> r is Err && *final(self) == *old(self),
            fuel > 0 ==> (pure_index(*old(self), *inner, *index_expression, (fuel - 1) as nat) matches Some(p) ==> {
                &&& unchanged(*final(self), *old(self))
                &&& (r is Ok <==> p is Some)
                &&& (r matches Ok(v) ==> v@ == p->Some_0)
            }),
            eval_run(
                *old(self),
                *final(self),
                Expression::ArrayAccess { expression: Box::new(*inner), index_expression: Box::new(*index_expression) },
                (fuel + 1) as nat,
                r,
            ),
        decreases fuel,
    {
        if fuel == 0 {
            return Err(out_of_fuel());
        }
        let ghost big = (fuel + 1) as nat;
        proof {
            assert(sub1(sub1(big)) == (fuel - 1) as nat);
        }
        let index_value = match self.evaluate_expression(index_expression, fuel - 1) {
            Ok(x) => x,
            Err(e) => {
                proof {
                    lemma_index_run(*old(self), *self, *self, *self, *inner, *index_expression, big, Err(e), Err(e), Err(e));
                }
                return Err(e);
            },
        };
        let ghost s1 = *self;
        let index = match array_index(&self.heap, &index_value) {
            Ok(i) => i,
            Err(e) => {
                proof {
                    lemma_index_run(*old(self), s1, s1, s1, *inner, *index_expression, big, Ok(index_value), Err(e), Err(e));
                }
                return Err(e);
            },
        };
        proof {
            if unchanged(s1, *old(self)) {
                lemma_pure_eval_unchanged(*old(self), s1, *inner, (fuel - 1) as nat);
            }
        }
        let v = match self.evaluate_expression(inner, fuel - 1) {
            Ok(v) => v,
            Err(e) => {
                proof {
                    lemma_index_run(*old(self), s1, *self, *self, *inner, *index_expression, big, Ok(index_value), Err(e), Err(e));
                }
                return Err(e);
            },
        };
        let ghost s2 = *self;
        proof {
            if unchanged(s1, *old(self)) && unchanged(s2, s1) {
                lemma_unchanged_trans(*old(self), s1, s2);
            }
        }
        let target = self.resolve_references(v);
        match &target {
            RuntimeValue::Array { contents, .. } => {
                if index >= contents.len() {
                    let r = Err(RuntimeError::ArrayIndexOutOfBounds { index, length: contents.len() });
                    proof {
                        lemma_index_run(*old(self), s1, s2, *self, *inner, *index_expression, big, Ok(index_value), Ok(v), r);
                    }
                    return r;
                }
                let cell = contents[index];
                proof {
                    assert(target@->Array_contents == contents@);
                    crate::value::lemma_array_cell_below(target@, self.heap@.len(), index as int);
                }
                let element = clone_value(self.heap.read(cell));
                proof {
                    assert(value_addrs_below(self.heap@[cell as int], self.heap@.len()));
                }
                let ghost before = *self;
                let r = element.copy_value(&mut self.heap);
                proof {
                    Runtime::lemma_wf_same_scopes(before, *self);
                    if !(element@ is Struct) {
                        assert(self.heap@ == before.heap@);
                        assert(unchanged(*self, before));
                        if unchanged(before, *old(self)) {
                            lemma_unchanged_trans(*old(self), before, *self);
                        }
                    }
                    assert(self.only_heap_grew(s2));
                    lemma_index_run(*old(self), s1, s2, *self, *inner, *index_expression, big, Ok(index_value), Ok(v), Ok(r));
                }
                Ok(r)
            },
            _ => {
                let res = match target.data_type(&self.heap) {
                    Ok(t) => Err(RuntimeError::CannotIndexNonArrayType(t.name())),
                    Err(e) => Err(e),
                };
                proof {
                    lemma_index_run(*old(self), s1, s2, *self, *inner, *index_expression, big, Ok(index_value), Ok(v), res);
                }
                res
            },
        }
    }

    /// Calls a method on a receiver (a variable, or a reference to one).
    fn evaluate_method_call(&mut self, receiver: &Expression, method_identifier: &str, arguments: &Vec<Expression>, fuel: u64) -> (r:
        RuntimeResult<RuntimeValue>)
        requires
            old(self).wf(),
        ensures
            final(self).bindings_same(*old(self)),
            final(self).wf(),
            final(self).stable(*old(self)),
            r matches Ok(v) ==> value_addrs_below(v@, final(self).heap@.len()),
            fuel == 0 ==> (r matches Err(e) && e is OutOfFuel) && *final(self) == *old(self),
            fuel > 0 && !(receiver is Value && receiver->Value_0 is Identifier) && !(*receiver matches Expression::Unary {
                operator: UnaryOperator::Reference,
                ..
            }) ==> (r matches Err(e) && e is InvalidReferenceTarget) && *final(self) == *old(self),
            fuel > 0 ==> (*receiver matches Expression::Value(Value::Identifier(name)) ==> (old(self).lookup(name@) is None ==> (r matches Err(e)
                && e matches RuntimeError::VariableNotFound(n) && n@ == name@) && *final(self) == *old(self))),
            fuel > 0 ==> (*receiver matches Expression::Value(Value::Identifier(name)) ==> (old(self).lookup(name@) matches Some(c) ==> (
            value_type(old(self).heap@, old(self).heap@[c as int], old(self).heap@.len()) matches Some(t) ==> (!(t is Array)
                && !(t is UserDefined) && !(t is NativeObject) ==> (r matches Err(e) && e is CannotInvokeMethodOnType)
                && *final(self) == *old(self))))),
            fuel > 1 ==> (*receiver matches Expression::Value(Value::Identifier(name)) ==> (old(self).lookup(name@) matches Some(c) ==> (
            old(self).heap@[c as int] matches ValueView::Array { inner_data_type, contents } ==> (value_type(
                old(self).heap@,
                old(self).heap@[c as int],
                old(self).heap@.len(),
            ) is Some && args_pure(*old(self), arguments@, (fuel - 2) as nat) && builtin_lookup(
                old(self).builtin_methods@,
                BuiltinMethodTarget::Array,
                method_identifier@,
            ) == Some(BuiltinMethod::ArrayIterator) ==> unchanged(*final(self), *old(self)) && (r matches Ok(it) && it@
                == (ValueView::Iterator { inner_data_type, contents })))))),
            method_dispatch_run(*old(self), *final(self), *receiver, method_identifier@, arguments@, fuel, r),
        decreases fuel,
    {
        if fuel == 0 {
            return Err(out_of_fuel());
        }
        let vr = match receiver {
            Expression::Unary { operator: UnaryOperator::Reference, .. } => self.evaluate_expression(receiver, fuel - 1),
            Expression::Value(Value::Identifier(name)) => {
                match self.get_variable(name.as_str()) {
                    Ok(cell) => {
                        proof {
                            self.lemma_lookup_below(name@);
                        }
                        Ok(RuntimeValue::Reference(cell))
                    },
                    Err(e) => Err(e),
                }
            },
            _ => Err(RuntimeError::InvalidReferenceTarget),
        };
        let ghost mid = *self;
        let ghost rv = vr;
        proof {
            assert(receiver_run(*old(self), mid, *receiver, (fuel - 1) as nat, rv));
            let _ = step(mid, rv);
        }
        let value = match vr {
            Ok(v) => v,
            Err(e) => {
                return Err(e);
            },
        };
        let cell = value.expect_reference(&self.heap)?;
        let data_type = self.heap.read(cell).data_type(&self.heap)?;
        let ghost t = data_type@;
        match &data_type {
            DataType::Array { .. } => {
                let ghost n = self.heap@.len();
                let args = self.evaluate_arguments(arguments, true, fuel - 1)?;
                let ghost mid2 = *self;
                let ghost vs = args@;
                proof {
                    lemma_addrs_below_mono(value@, n, self.heap@.len());
                }
                let r = self.invoke_method_for_array(&data_type, method_identifier, value, args);
                proof {
                    assert(dispatched(mid2, *self, t, method_identifier@, value, vs, (fuel - 1) as u64, r));
                    assert(args_kept_run(mid, mid2, arguments@, 0, (fuel - 2) as nat, vs));
                }
                r
            },
            DataType::UserDefined(name) => {
                let ghost n = self.heap@.len();
                let args = self.evaluate_arguments(arguments, true, fuel - 1)?;
                let ghost mid2 = *self;
                let ghost vs = args@;
                proof {
                    lemma_addrs_below_mono(value@, n, self.heap@.len());
                }
                let r = self.invoke_method_for_struct(name.as_str(), method_identifier, value, args, fuel - 1);
                proof {
                    assert(dispatched(mid2, *self, t, method_identifier@, value, vs, (fuel - 1) as u64, r));
                    assert(args_kept_run(mid, mid2, arguments@, 0, (fuel - 2) as nat, vs));
                }
                r
            },
            DataType::NativeObject(kind) => {
                let ghost n = self.heap@.len();
                let args = self.evaluate_arguments(arguments, true, fuel - 1)?;
                let ghost mid2 = *self;
                let ghost vs = args@;
                proof {
                    lemma_addrs_below_mono(value@, n, self.heap@.len());
                }
                let generics: Vec<DataType> = Vec::new();
                let r = self.invoke_method_for_native_object(&data_type, method_identifier, value, args, &generics);
                proof {
                    assert(dispatched(mid2, *self, t, method_identifier@, value, vs, (fuel - 1) as u64, r));
                    assert(args_kept_run(mid, mid2, arguments@, 0, (fuel - 2) as nat, vs));
                }
                r
            },
            _ => Err(RuntimeError::CannotInvokeMethodOnType(data_type.name())),
        }
    }

    /// The built-in method registered for a target under a name.
    fn find_builtin(&self, target: BuiltinMethodTarget, method_identifier: &str) -> (r: Option<BuiltinMethod>)
        ensures
            r == builtin_lookup(self.builtin_methods@, target, method_identifier@),
    {
        let mut i = self.builtin_methods.len();
        assert(self.builtin_methods@.take(i as int) == self.builtin_methods@);
        while i > 0
            invariant
                i <= self.builtin_methods@.len(),
                builtin_lookup(self.builtin_methods@, target, method_identifier@) == builtin_lookup(
                    self.builtin_methods@.take(i as int),
                    target,
                    method_identifier@,
                ),
            decreases i,
        {
            assert(self.builtin_methods@.take(i as int).drop_last() == self.builtin_methods@.take(i - 1));
            let (t, name, m) = &self.builtin_methods[i - 1];
            if *t == target && str_eq(name.as_str(), method_identifier) {
                return Some(*m);
            }
            i = i - 1;
        }
        None
    }

    /// Calls a built-in method of arrays on a reference to an array.
    pub fn invoke_method_for_array(&mut self, data_type: &DataType, method_identifier: &str, arr_reference: RuntimeValue, args: Vec<RuntimeValue>) -> (r:
        RuntimeResult<RuntimeValue>)
        requires
            old(self).wf(),
            value_addrs_below(arr_reference@, old(self).heap@.len()),
            all_below(args@, old(self).heap@.len()),
        ensures
            final(self).bindings_same(*old(self)),
            final(self).wf(),
            final(self).stable(*old(self)),
            r matches Ok(v) ==> value_addrs_below(v@, final(self).heap@.len()),
            !(arr_reference@ is Reference) ==> r is Err && *final(self) == *old(self),
            arr_reference@ is Reference && builtin_lookup(old(self).builtin_methods@, BuiltinMethodTarget::Array, method_identifier@)
                is None ==> (r matches Err(e) && e is NotABuiltInMethod) && *final(self) == *old(self),
            arr_reference@ is Reference && builtin_lookup(old(self).builtin_methods@, BuiltinMethodTarget::Array, method_identifier@)
                == Some(BuiltinMethod::ArrayIterator) ==> {
                &&& (r is Ok <==> array_of(old(self).heap@, arr_reference@) is Some)
                &&& (r matches Ok(it) ==> array_of(old(self).heap@, arr_reference@) matches Some(
                    ValueView::Array { inner_data_type, contents },
                ) && it@ == (ValueView::Iterator { inner_data_type, contents }))
                &&& *final(self) == *old(self)
            },
            arr_reference@ is Reference ==> (builtin_lookup(old(self).builtin_methods@, BuiltinMethodTarget::Array, method_identifier@)
                matches Some(m) ==> builtin_call(*old(self), *final(self), m, seq![arr_reference] + args@, Seq::empty(), r)),
    {
        arr_reference.assert_reference(&self.heap)?;
        let method = match self.find_builtin(BuiltinMethodTarget::Array, method_identifier) {
            Some(m) => m,
            None => {
                return Err(RuntimeError::NotABuiltInMethod { method: String::from_str(method_identifier), data_type: data_type.name() });
            },
        };
        let ghost receiver = arr_reference;
        let mut all = args;
        all.insert(0, arr_reference);
        proof {
            assert forall|i: int| 0 <= i < all@.len() implies value_addrs_below((#[trigger] all@[i])@, self.heap@.len()) by {
                if i > 0 {
                    assert(all@[i] == args@[i - 1]);
                }
            }
            assert(all@ =~= seq![receiver] + args@);
        }
        let generics: Vec<DataType> = Vec::new();
        self.call_builtin(method, all, &generics)
    }

    /// Calls a built-in method of a native object on a reference to it.
    pub fn invoke_method_for_native_object(&mut self, data_type: &DataType, method_identifier: &str, object_reference: RuntimeValue, args: Vec<RuntimeValue>, generics: &Vec<DataType>) -> (r:
        RuntimeResult<RuntimeValue>)
        requires
            old(self).wf(),
            value_addrs_below(object_reference@, old(self).heap@.len()),
            all_below(args@, old(self).heap@.len()),
        ensures
            final(self).bindings_same(*old(self)),
            final(self).wf(),
            final(self).stable(*old(self)),
            r matches Ok(v) ==> value_addrs_below(v@, final(self).heap@.len()),
            !(object_reference@ is Reference) ==> r is Err && *final(self) == *old(self),
            object_reference@ is Reference && !(data_type@ is NativeObject) ==> (r matches Err(e) && e is CannotInvokeMethodOnType)
                && *final(self) == *old(self),
            object_reference@ is Reference && (data_type@ matches DType::NativeObject(kind) && builtin_lookup(
                old(self).builtin_methods@,
                BuiltinMethodTarget::NativeObject(kind),
                method_identifier@,
            ) is None) ==> (r matches Err(e) && e is NotABuiltInMethod) && *final(self) == *old(self),
            object_reference@ is Reference ==> (data_type@ matches DType::NativeObject(kind) ==> (builtin_lookup(
                old(self).builtin_methods@,
                BuiltinMethodTarget::NativeObject(kind),
                method_identifier@,
            ) matches Some(m) ==> builtin_call(*old(self), *final(self), m, seq![object_reference] + args@, generics@, r))),
    {
        object_reference.assert_reference(&self.heap)?;
        let kind = match data_type {
            DataType::NativeObject(kind) => *kind,
            _ => {
                return Err(RuntimeError::CannotInvokeMethodOnType(data_type.name()));
            },
        };
        let method = match self.find_builtin(BuiltinMethodTarget::NativeObject(kind), method_identifier) {
            Some(m) => m,
            None => {
                return Err(RuntimeError::NotABuiltInMethod { method: String::from_str(method_identifier), data_type: string_of(kind.name()) });
            },
        };
        let ghost receiver = object_reference;
        let mut all = args;
        all.insert(0, object_reference);
        proof {
            assert forall|i: int| 0 <= i < all@.len() implies value_addrs_below((#[trigger] all@[i])@, self.heap@.len()) by {
                if i > 0 {
                    assert(all@[i] == args@[i - 1]);
                }
            }
            assert(all@ =~= seq![receiver] + args@);
        }
        self.call_builtin(method, all, generics)
    }

    /// Calls a function with the given arguments: a native one directly, a
    /// user-defined one in a new frame that binds its parameters. The frame is
    /// gone afterwards: every name is bound as it was before the call.
    pub fn call_function(&mut self, identifier: &str, args: Vec<RuntimeValue>, generics: &Vec<DataType>, fuel: u64) -> (r:
        RuntimeResult<RuntimeValue>)
        requires
            old(self).wf(),
            all_below(args@, old(self).heap@.len()),
        ensures
            forall|n: Seq<char>| #[trigger] final(self).lookup(n) == old(self).lookup(n),
            final(self).bindings_same(*old(self)),
            final(self).wf(),
            final(self).stable(*old(self)),
            r matches Ok(v) ==> value_addrs_below(v@, final(self).heap@.len()),
            fuel > 0 ==> (fn_lookup(old(self).functions@, identifier@) matches Some(RuntimeFunction::Native(native)) ==> native_outcome(
                *old(self),
                *final(self),
                native,
                args@.map_values(|v: RuntimeValue| v@),
                generics@,
                r,
            )),
            fuel > 0 && fn_lookup(old(self).functions@, identifier@) is None ==> (r matches Err(e) && e matches RuntimeError::FunctionNotFound(
                n,
            ) && n@ == identifier@) && *final(self) == *old(self),
            fuel > 0 ==> (fn_lookup(old(self).functions@, identifier@) matches Some(RuntimeFunction::User(definition)) ==> user_call_full(
                *old(self),
                *final(self),
                identifier@,
                definition,
                args@.map_values(|v: RuntimeValue| v@),
                fuel,
                r,
            )),
        decreases fuel,
    {
        if fuel == 0 {
            return Err(out_of_fuel());
        }
        let definition = match self.get_function(identifier)? {
            RuntimeFunction::Native(native) => {
                let native = *native;
                return self.call_native(native, args, generics);
            },
            RuntimeFunction::User(definition) => clone_function_definition(definition),
        };
        let ghost av = args@.map_values(|v: RuntimeValue| v@);
        proof {
            if let Some(RuntimeFunction::User(d)) = fn_lookup(old(self).functions@, identifier@) {
                crate::serialization::lemma_same_attrs_find(d.attributes@, definition.attributes@, "run_on_import"@);
            }
            assert(av.len() == args@.len());
        }
        if crate::serialization::find_attribute(&definition.attributes, "run_on_import").is_some() {
            return Err(RuntimeError::RunOnImportCalled(String::from_str(identifier)));
        }
        let arguments = Self::collect_runtime_function_arguments(&definition.parameters, args)?;
        let ghost before = *self;
        let ghost pairs = arguments@;
        let frame_name = String::from_str(identifier);
        self.push_frame(frame_name, arguments);
        let ghost pushed = *self;
        proof {
            assert forall|i: int| 0 <= i < av.len() implies pushed.heap@[before.heap@.len() + i] == #[trigger] av[i] by {
                assert(pairs[i].1 == args@[i]);
            }
            assert forall|i: int| 0 <= i < av.len() implies (#[trigger] pushed.call_stack@.last().scopes@[0].variables@[i]).0
                == definition.parameters@[i].identifier by {
                assert(pairs[i].0 == definition.parameters@[i].identifier);
            }
            assert(pushed.heap@.take(before.heap@.len() as int) =~= before.heap@);
        }
        let result = self.execute_function_body(&definition.body, fuel - 1);
        let ghost ran = *self;
        self.pop_frame();
        proof {
            assert(frame_pushed(before, pushed, identifier@, definition.parameters@, av));
            assert(frame_popped(ran, *self));
            assert(body_run(pushed, ran, definition.body, (fuel - 1) as u64, result));
            assert(body_full(pushed, ran, definition.body, (fuel - 1) as u64, result));
        }
        match result {
            Ok(ControlFlow::Continue) => Ok(RuntimeValue::NoValue),
            Ok(ControlFlow::Return(v)) => {
                if v.is_reference() {
                    Err(RuntimeError::ReturnedReference(String::from_str(identifier)))
                } else {
                    Ok(v)
                }
            },
            Ok(ControlFlow::Break) => Err(RuntimeError::UnexpectedBreak),
            Err(e) => Err(e),
        }
    }

    /// Runs a function's body: to its end, or to a `return`.
    pub fn execute_function_body(&mut self, block: &Block, fuel: u64) -> (r: RuntimeResult<ControlFlow>)
        requires
            old(self).wf(),
        ensures
            final(self).bindings_kept(*old(self)),
            final(self).wf(),
            final(self).stable(*old(self)),
            r matches Ok(f) ==> flow_below(f, final(self).heap@.len()) && !(f is Break),
            body_run(*old(self), *final(self), *block, fuel, r),
            body_full(*old(self), *final(self), *block, fuel, r),
        decreases fuel,
    {
        if fuel == 0 {
            return Err(out_of_fuel());
        }
        let ghost stmts = block.statements@;
        let ghost f = (fuel - 1) as u64;
        let mut i: usize = 0;
        while i < block.statements.len()
            invariant
                i <= block.statements@.len(),
                fuel > 0,
                stmts == block.statements@,
                f == fuel - 1,
                self.wf(),
                self.stable(*old(self)),
                self.bindings_kept(*old(self)),
                forall|after: Runtime, rr: RuntimeResult<ControlFlow>|
                    #[trigger] statements_run(*self, after, stmts, i as int, f, rr) ==> statements_run(
                        *old(self),
                        after,
                        stmts,
                        0,
                        f,
                        rr,
                    ),
                forall|after: Runtime, rr: RuntimeResult<ControlFlow>|
                    #[trigger] block_statements_run(*self, after, stmts, i as int, f, rr) ==> block_statements_run(
                        *old(self),
                        after,
                        stmts,
                        0,
                        f,
                        rr,
                    ),
            decreases block.statements@.len() - i,
        {
            let ghost before = *self;
            let res = self.execute_statement(&block.statements[i], fuel - 1);
            let ghost g = res;
            proof {
                assert(statement_outcome(before, *self, stmts[i as int], f, g));
                assert(statement_run(before, *self, stmts[i as int], f, g));
                if !(g matches Ok(ControlFlow::Continue)) {
                    assert(statements_run(before, *self, stmts, i as int, f, g));
                    assert(statements_run(*old(self), *self, stmts, 0, f, g));
                    assert(block_statements_run(before, *self, stmts, i as int, f, g));
                    assert(block_statements_run(*old(self), *self, stmts, 0, f, g));
                }
            }
            match res {
                Ok(ControlFlow::Continue) => {
                    proof {
                        assert forall|after: Runtime, rr: RuntimeResult<ControlFlow>|
                            #[trigger] statements_run(*self, after, stmts, i + 1, f, rr) implies statements_run(
                            *old(self),
                            after,
                            stmts,
                            0,
                            f,
                            rr,
                        ) by {
                            assert(statements_run(before, after, stmts, i as int, f, rr));
                        }
                        assert forall|after: Runtime, rr: RuntimeResult<ControlFlow>|
                            #[trigger] block_statements_run(*self, after, stmts, i + 1, f, rr) implies block_statements_run(
                            *old(self),
                            after,
                            stmts,
                            0,
                            f,
                            rr,
                        ) by {
                            assert(block_statements_run(before, after, stmts, i as int, f, rr));
                        }
                    }
                },
                Ok(ControlFlow::Return(v)) => {
                    return Ok(ControlFlow::Return(v));
                },
                Ok(ControlFlow::Break) => {
                    return Err(RuntimeError::UnexpectedBreak);
                },
                Err(e) => {
                    return Err(e);
                },
            }
            i = i + 1;
        }
        proof {
            assert(statements_run(*self, *self, stmts, i as int, f, Ok(ControlFlow::Continue)));
            assert(block_statements_run(*self, *self, stmts, i as int, f, Ok(ControlFlow::Continue)));
        }
        Ok(ControlFlow::Continue)
    }

    /// Calls a method of a struct's impl block on a reference to a struct:
    /// the reference is bound to `self` in the new frame.
    pub fn invoke_method_for_struct(&mut self, struct_identifier: &str, method_identifier: &str, struct_reference: RuntimeValue, args: Vec<RuntimeValue>, fuel: u64) -> (r:
        RuntimeResult<RuntimeValue>)
        requires
            old(self).wf(),
            value_addrs_below(struct_reference@, old(self).heap@.len()),
            all_below(args@, old(self).heap@.len()),
        ensures
            forall|n: Seq<char>| #[trigger] final(self).lookup(n) == old(self).lookup(n),
            final(self).bindings_same(*old(self)),
            final(self).wf(),
            final(self).stable(*old(self)),
            r matches Ok(v) ==> value_addrs_below(v@, final(self).heap@.len()),
            fuel > 0 && struct_def(old(self).structs@, struct_identifier@) is None ==> (r matches Err(e)
                && e matches RuntimeError::StructDefinitionNotFound(n) && n@ == struct_identifier@) && *final(self) == *old(self),
            fuel > 0 && struct_def(old(self).structs@, struct_identifier@) is Some && impl_lookup(
                old(self).struct_impls@,
                struct_identifier@,
            ) is None ==> (r matches Err(e) && e matches RuntimeError::StructImplNotFound(n) && n@ == struct_identifier@)
                && *final(self) == *old(self),
            fuel > 0 ==> (struct_method(*old(self), struct_identifier@, method_identifier@) is None && struct_def(
                old(self).structs@,
                struct_identifier@,
            ) is Some && impl_lookup(old(self).struct_impls@, struct_identifier@) is Some ==> (r matches Err(e)
                && e matches RuntimeError::MethodNotFound { method_identifier: m, struct_identifier: s } && m@
                == method_identifier@ && s@ == struct_identifier@) && *final(self) == *old(self)),
            fuel > 0 ==> (struct_method(*old(self), struct_identifier@, method_identifier@) matches Some(m) ==> (
            m.parameters@.len() != args@.len() ==> (r matches Err(e) && e is InvalidFunctionArguments) && *final(self)
                == *old(self))),
            fuel > 0 ==> (struct_method(*old(self), struct_identifier@, method_identifier@) matches Some(m) ==> (
            m.parameters@.len() == args@.len() && !(struct_reference@ is Reference) ==> r is Err && *final(self) == *old(self))),
            fuel > 0 ==> (struct_method(*old(self), struct_identifier@, method_identifier@) matches Some(m) ==> (
            m.parameters@.len() == args@.len() && struct_reference@ is Reference ==> method_run(
                *old(self),
                *final(self),
                struct_identifier@,
                method_identifier@,
                m,
                struct_reference@,
                args@.map_values(|v: RuntimeValue| v@),
                fuel,
                r,
            ))),
        decreases fuel,
    {
        if fuel == 0 {
            return Err(out_of_fuel());
        }
        self.get_struct_definition(struct_identifier)?;
        proof {
            crate::functions::lemma_impl_lookup_name(self.struct_impls@, struct_identifier@);
        }
        let method = crate::ast::clone_method_definition_pub(self.get_struct_impl(struct_identifier)?.get_method_definition(method_identifier)?);
        let mut arguments = Self::collect_runtime_function_arguments(&method.parameters, args)?;
        struct_reference.assert_reference(&self.heap)?;
        let mut name = String::from_str(struct_identifier);
        name.append("::");
        name.append(method_identifier);
        arguments.insert(0, (string_of("self"), struct_reference));
        proof {
            assert forall|i: int| 0 <= i < arguments@.len() implies value_addrs_below((#[trigger] arguments@[i]).1@, self.heap@.len()) by {
                if i > 0 {
                    assert(arguments@[i].1 == args@[i - 1]);
                }
            }
        }
        let ghost before = *self;
        let ghost pairs = arguments@;
        let ghost av = args@.map_values(|v: RuntimeValue| v@);
        self.push_frame(name, arguments);
        let ghost pushed = *self;
        proof {
            assert(pairs[0].0@ == "self"@);
            assert forall|i: int| 0 <= i < av.len() implies pushed.heap@[before.heap@.len() + 1 + i] == #[trigger] av[i] by {
                assert(pairs[i + 1].1 == args@[i]);
            }
            assert forall|i: int|
                #![trigger method.parameters@[i]]
                0 <= i < av.len() implies pushed.call_stack@.last().scopes@[0].variables@[i + 1].0 == method.parameters@[i].identifier
                    && pushed.call_stack@.last().scopes@[0].variables@[i + 1].1 == before.heap@.len() + 1 + i by {
                assert(pairs[i + 1].0 == method.parameters@[i].identifier);
                assert(pushed.call_stack@.last().scopes@[0].variables@[i + 1].0 == pairs[i + 1].0);
            }
            assert(pushed.heap@.take(before.heap@.len() as int) =~= before.heap@);
            assert(method_frame_pushed(before, pushed, struct_identifier@ + "::"@ + method_identifier@, method.parameters@, struct_reference@, av));
        }
        let result = self.execute_function_body(&method.body, fuel - 1);
        let ghost ran = *self;
        self.pop_frame();
        proof {
            assert(frame_popped(ran, *self));
            assert(body_full(pushed, ran, method.body, (fuel - 1) as u64, result));
        }
        match result {
            Ok(ControlFlow::Continue) => Ok(RuntimeValue::NoValue),
            Ok(ControlFlow::Return(v)) => Ok(v),
            Ok(ControlFlow::Break) => Err(RuntimeError::UnexpectedBreak),
            Err(e) => Err(e),
        }
    }
}

impl Runtime {
    /// Builds a struct value: each field from its initializer (with the
    /// field's type applied as an annotation), or its default where the
    /// initialization asks for defaults.
    pub fn initialize_struct(&mut self, init: &StructInitialization, fuel: u64) -> (r: RuntimeResult<RuntimeValue>)
        requires
            old(self).wf(),
        ensures
            final(self).bindings_same(*old(self)),
            final(self).wf(),
            final(self).stable(*old(self)),
            r matches Ok(v) ==> value_addrs_below(v@, final(self).heap@.len()) && (v@ matches ValueView::Struct {
                definition,
                ..
            } && definition == init.identifier@),
            fuel > 0 && struct_def(old(self).structs@, init.identifier@) is None ==> (r matches Err(e)
                && e matches RuntimeError::StructDefinitionNotFound(n) && n@ == init.identifier@) && *final(self) == *old(self),
            r matches Ok(v) ==> struct_def(old(self).structs@, init.identifier@) matches Some(d) && initialized_fields(
                d,
                *init,
                v@,
                old(self).heap@.len(),
            ),
            struct_def(old(self).structs@, init.identifier@) matches Some(d) && fuel > 1 && (forall|j: int|
                0 <= j < spec_fields(d.members@).len() ==> field_starts(
                    old(self).structs@,
                    *init,
                    #[trigger] spec_fields(d.members@)[j],
                )) ==> r is Ok,
            literal_inits(*init) ==> (r matches Ok(v) ==> (struct_def(old(self).structs@, init.identifier@) matches Some(d) && (
            v@ matches ValueView::Struct { fields, .. } && forall|j: int|
                0 <= j < fields.len() ==> field_started(
                    old(self).structs@,
                    final(self).heap@,
                    *init,
                    spec_fields(d.members@)[j],
                    final(self).heap@[(#[trigger] fields[j]).1 as int],
                )))),
            literal_inits(*init) ==> (r matches Err(e) ==> (e is IncompleteStructInitialization ==> (struct_def(old(self).structs@, init.identifier@) matches Some(d)
                && !init.use_defaults && e->IncompleteStructInitialization_0@ == init.identifier@ && exists|j: int|
                0 <= j < spec_fields(d.members@).len() && first_initializer(
                    init.initialized_fields@,
                    (#[trigger] spec_fields(d.members@)[j]).identifier@,
                    0,
                ) is None))),
            struct_def(old(self).structs@, init.identifier@) matches Some(d) && fuel > 1 && !init.use_defaults && (exists|j: int|
                0 <= j < spec_fields(d.members@).len() && first_initializer(
                    init.initialized_fields@,
                    (#[trigger] spec_fields(d.members@)[j]).identifier@,
                    0,
                ) is None && forall|m: int| 0 <= m < j ==> field_starts(old(self).structs@, *init, #[trigger] spec_fields(d.members@)[m]))
                ==> (r matches Err(e) && e matches RuntimeError::IncompleteStructInitialization(n) && n@ == init.identifier@),
            struct_init_run(*old(self), *final(self), *init, fuel as nat, r),
        decreases fuel,
    {
        if fuel == 0 {
            return Err(out_of_fuel());
        }
        let definition = self.get_struct_definition(init.identifier.as_str())?;
        let ghost d = *definition;
        proof {
            crate::serialization::lemma_struct_def_name(self.structs@, init.identifier@);
        }
        let struct_name = definition.identifier.clone();
        let field_definitions = definition.fields();
        let mut layout: Vec<(String, DataType)> = Vec::new();
        let mut i: usize = 0;
        while i < field_definitions.len()
            invariant
                i <= field_definitions@.len(),
                field_definitions@.len() == spec_fields(d.members@).len(),
                forall|j: int| 0 <= j < field_definitions@.len() ==> *field_definitions@[j] == spec_fields(d.members@)[j],
                layout@.len() == i,
                forall|j: int| 0 <= j < i ==> (#[trigger] layout@[j]).0@ == spec_fields(d.members@)[j].identifier@
                    && layout@[j].1@ == spec_fields(d.members@)[j].data_type@,
            decreases field_definitions@.len() - i,
        {
            layout.push((field_definitions[i].identifier.clone(), clone_data_type(&field_definitions[i].data_type)));
            i = i + 1;
        }
        let ghost fs = spec_fields(d.members@);
        let ghost defs = self.structs@;
        let ghost inits = init.initialized_fields@;
        let ghost incomplete = fuel > 1 && !init.use_defaults && exists|j: int|
            0 <= j < fs.len() && first_initializer(inits, (#[trigger] fs[j]).identifier@, 0) is None && forall|m: int|
                0 <= m < j ==> field_starts(defs, *init, #[trigger] fs[m]);
        let ghost j0: int = choose|j: int|
            0 <= j < fs.len() && first_initializer(inits, (#[trigger] fs[j]).identifier@, 0) is None && forall|m: int|
                0 <= m < j ==> field_starts(defs, *init, #[trigger] fs[m]);
        let ghost all_start = fuel > 1 && forall|j: int| 0 <= j < fs.len() ==> field_starts(defs, *init, #[trigger] fs[j]);
        let ghost dname = d.identifier@;
        let ghost g = (fuel - 1) as nat;
        proof {
            assert(sub1(fuel as nat) == g);
            assert(fields_view(Seq::<(String, RuntimeReference)>::empty()) =~= Seq::<(Seq<char>, usize)>::empty());
        }
        let mut fields: Vec<(String, RuntimeReference)> = Vec::new();
        let mut i: usize = 0;
        while i < layout.len()
            invariant
                i <= layout@.len(),
                fuel > 0,
                self.wf(),
                self.stable(*old(self)),
                self.bindings_same(*old(self)),
                defs == old(self).structs@,
                fs == spec_fields(d.members@),
                inits == init.initialized_fields@,
                layout@.len() == fs.len(),
                struct_name@ == init.identifier@,
                struct_def(old(self).structs@, init.identifier@) == Some(d),
                forall|j: int| 0 <= j < layout@.len() ==> (#[trigger] layout@[j]).0@ == fs[j].identifier@
                    && layout@[j].1@ == fs[j].data_type@,
                fields@.len() == i,
                forall|j: int| 0 <= j < fields@.len() ==> (#[trigger] fields@[j]).1 < self.heap@.len(),
                forall|j: int| 0 <= j < fields@.len() ==> {
                    &&& (#[trigger] fields@[j]).0@ == fs[j].identifier@
                    &&& fields@[j].1 >= old(self).heap@.len()
                    &&& (!init.use_defaults ==> exists|k: int| 0 <= k < init.initialized_fields@.len()
                        && #[trigger] init.initialized_fields@[k].identifier@ == fields@[j].0@)
                },
                literal_inits(*init) ==> forall|j: int| 0 <= j < fields@.len() ==> field_started(
                    defs,
                    self.heap@,
                    *init,
                    fs[j],
                    self.heap@[(#[trigger] fields@[j]).1 as int],
                ),
                incomplete == (fuel > 1 && !init.use_defaults && exists|j: int|
                    0 <= j < fs.len() && first_initializer(inits, (#[trigger] fs[j]).identifier@, 0) is None && forall|m: int|
                        0 <= m < j ==> field_starts(defs, *init, #[trigger] fs[m])),
                incomplete ==> i <= j0 && 0 <= j0 < fs.len() && first_initializer(inits, fs[j0].identifier@, 0) is None
                    && forall|m: int| 0 <= m < j0 ==> field_starts(defs, *init, #[trigger] fs[m]),
                all_start ==> fuel > 1 && forall|j: int| 0 <= j < fs.len() ==> field_starts(defs, *init, #[trigger] fs[j]),
                dname == d.identifier@,
                dname == init.identifier@,
                g == (fuel - 1) as nat,
                forall|after: Runtime, rr: RuntimeResult<RuntimeValue>|
                    #[trigger] fields_run(*self, after, *init, dname, fs, i as int, g, fields_view(fields@), rr) ==> struct_init_run(
                        *old(self),
                        after,
                        *init,
                        fuel as nat,
                        rr,
                    ),
            decreases layout@.len() - i,
        {
            let ghost h0 = self.heap@;
            let ghost s_iter = *self;
            let ghost acc = fields_view(fields@);
            let name = &layout[i].0;
            let data_type = &layout[i].1;
            let mut found: Option<usize> = None;
            let mut k: usize = 0;
            while found.is_none() && k < init.initialized_fields.len()
                invariant
                    k <= init.initialized_fields@.len(),
                    inits == init.initialized_fields@,
                    found matches Some(x) ==> x < init.initialized_fields@.len()
                        && init.initialized_fields@[x as int].identifier@ == name@
                        && first_initializer(inits, name@, 0) == Some(x as int),
                    found is None ==> first_initializer(inits, name@, 0) == first_initializer(inits, name@, k as int),
                decreases init.initialized_fields@.len() - k + (if found is None { 1int } else { 0int }),
            {
                if str_eq(init.initialized_fields[k].identifier.as_str(), name.as_str()) {
                    proof {
                        assert(first_initializer(inits, name@, k as int) == Some(k as int));
                    }
                    found = Some(k);
                } else {
                    proof {
                        assert(first_initializer(inits, name@, k as int) == first_initializer(inits, name@, k + 1));
                    }
                    k = k + 1;
                }
            }
            proof {
                if found is None {
                    assert(first_initializer(inits, name@, k as int) is None);
                }
                assert(name@ == fs[i as int].identifier@);
                assert(data_type@ == fs[i as int].data_type@);
                if incomplete && i < j0 {
                    assert(field_starts(defs, *init, fs[i as int]));
                }
            }
            let ghost mut mid2_rt = *self;
            let ghost mut mid_rt_o = *self;
            let ghost mut v_o = RuntimeValue::Bool(false);
            let ghost mut ra_o: RuntimeResult<RuntimeValue> = Err(RuntimeError::OutOfFuel);
            let value = match found {
                Some(k) => {
                    let ghost e = init.initialized_fields@[k as int].expression;
                    let v = match self.evaluate_expression(&init.initialized_fields[k].expression, fuel - 1) {
                        Ok(v) => v,
                        Err(e3) => {
                            proof {
                                lemma_fields_eval_err(s_iter, *self, *init, dname, fs, i as int, g, acc, k as int, e3);
                            }
                            return Err(e3);
                        },
                    };
                    let ghost mid = self.heap@;
                    let ghost mid_rt = *self;
                    let ghost v_g = v;
                    let ann = self.apply_type_annotation(v, data_type);
                    let ghost g_ann = ann;
                    proof {
                        mid2_rt = *self;
                        mid_rt_o = mid_rt;
                        v_o = v_g;
                        ra_o = g_ann;
                    }
                    match ann {
                        Ok(x) => {
                            proof {
                                if is_literal(e) {
                                    let lit = literal_view(e->Value_0)->Some_0;
                                    assert(crate::operators::is_int(lit) || lit is String || lit is Bool);
                                    lemma_literal_annotation(mid, v@, data_type@, Ok(x));
                                }
                            }
                            x
                        },
                        Err(RuntimeError::AnnotationError { expected, found }) => {
                            proof {
                                if is_literal(e) {
                                    let lit = literal_view(e->Value_0)->Some_0;
                                    assert(crate::operators::is_int(lit) || lit is String || lit is Bool);
                                    lemma_literal_annotation(
                                        mid,
                                        v@,
                                        data_type@,
                                        Err(RuntimeError::AnnotationError { expected, found }),
                                    );
                                }
                            }
                            let res = Err(
                                RuntimeError::InvalidStructFieldInitialization {
                                    field_name: name.clone(),
                                    struct_name: struct_name.clone(),
                                    expected,
                                    found,
                                },
                            );
                            proof {
                                lemma_fields_annotate_err(s_iter, mid_rt, *self, *init, dname, fs, i as int, g, acc, k as int, v, g_ann, res);
                            }
                            return res;
                        },
                        Err(e2) => {
                            proof {
                                if is_literal(e) {
                                    let lit = literal_view(e->Value_0)->Some_0;
                                    assert(crate::operators::is_int(lit) || lit is String || lit is Bool);
                                    lemma_literal_annotation(mid, v@, data_type@, Err(e2));
                                }
                                lemma_fields_annotate_err(s_iter, mid_rt, *self, *init, dname, fs, i as int, g, acc, k as int, v, g_ann, Err(e2));
                            }
                            return Err(e2);
                        },
                    }
                },
                None => {
                    if init.use_defaults {
                        let dv = self.default_value(data_type);
                        let ghost g_dv = dv;
                        proof {
                            mid2_rt = *self;
                            ra_o = g_dv;
                        }
                        match dv {
                            Ok(x) => x,
                            Err(e2) => {
                                proof {
                                    crate::values::lemma_default_fails_kind(
                                        defs,
                                        data_type@,
                                        default_fuel(defs.len()),
                                        e2,
                                    );
                                    lemma_fields_default(s_iter, *self, *self, *self, *init, dname, fs, i as int, g, acc, g_dv, g_dv);
                                }
                                return Err(e2);
                            },
                        }
                    } else {
                        let res = Err(RuntimeError::IncompleteStructInitialization(struct_name.clone()));
                        proof {
                            assert(fields_run(*self, *self, *init, dname, fs, i as int, g, acc, res));
                        }
                        return res;
                    }
                },
            };
            let ghost before = *self;
            let a = self.heap.allocate(value);
            proof {
                Runtime::lemma_wf_same_scopes(before, *self);
                assert(cell_added(before, *self, value@));
                if literal_inits(*init) {
                    assert(heap_grows(h0, self.heap@));
                    assert forall|j: int| 0 <= j < i implies field_started(
                        defs,
                        self.heap@,
                        *init,
                        fs[j],
                        self.heap@[(#[trigger] fields@[j]).1 as int],
                    ) by {
                        let c = fields@[j].1 as int;
                        assert(self.heap@[c] == h0[c]);
                        if first_initializer(inits, fs[j].identifier@, 0) is None {
                            lemma_is_default_grows(defs, h0, self.heap@, fs[j].data_type@, h0[c], default_fuel(defs.len()));
                        }
                    }
                    if found is None {
                        lemma_is_default_grows(
                            defs,
                            before.heap@,
                            self.heap@,
                            fs[i as int].data_type@,
                            value@,
                            default_fuel(defs.len()),
                        );
                    }
                }
            }
            let ghost fields_before = fields@;
            let entry = (name.clone(), a);
            let ghost g_entry = entry;
            fields.push(entry);
            proof {
                crate::value::lemma_fields_view_push(fields_before, g_entry);
                assert(fields_view(fields@) == acc.push((fs[i as int].identifier@, a)));
                assert(a == mid2_rt.heap@.len());
                assert forall|after: Runtime, rr: RuntimeResult<RuntimeValue>|
                    #[trigger] fields_run(*self, after, *init, dname, fs, i + 1, g, fields_view(fields@), rr) implies struct_init_run(
                    *old(self),
                    after,
                    *init,
                    fuel as nat,
                    rr,
                ) by {
                    if let Some(k0) = found {
                        lemma_fields_given(s_iter, mid_rt_o, mid2_rt, *self, after, *init, dname, fs, i as int, g, acc, k0 as int, v_o, value, rr);
                    } else {
                        lemma_fields_default(s_iter, mid2_rt, *self, after, *init, dname, fs, i as int, g, acc, ra_o, rr);
                    }
                }
            }
            i = i + 1;
        }
        proof {
            assert forall|j: int| 0 <= j < fields@.len() implies (#[trigger] crate::value::fields_view(fields@)[j]).1 < self.heap@.len() by {}
        }
        let res = Ok(RuntimeValue::Struct { definition: init.identifier.clone(), fields });
        proof {
            lemma_fields_end(*self, *init, dname, fs, g, fields_view(fields@), res);
        }
        res
    }

    /// Builds an array value from its elements, which must all have the type
    /// of the first.
    pub fn initialize_array(&mut self, init: &ArrayInitialization, fuel: u64) -> (r: RuntimeResult<RuntimeValue>)
        requires
            old(self).wf(),
        ensures
            final(self).bindings_same(*old(self)),
            final(self).wf(),
            final(self).stable(*old(self)),
            r matches Ok(v) ==> value_addrs_below(v@, final(self).heap@.len()) && (v@ matches ValueView::Array {
                contents,
                inner_data_type: t,
            } && contents.len() == init.initialized_fields@.len() && (forall|j: int|
                0 <= j < contents.len() ==> old(self).heap@.len() <= #[trigger] contents[j] < final(self).heap@.len()
                    && value_type(final(self).heap@, final(self).heap@[contents[j] as int], final(self).heap@.len()) == Some(t))
                && forall|i: int, j: int| 0 <= i < j < contents.len() ==> #[trigger] contents[i] < #[trigger] contents[j]),
            init.initialized_fields@.len() == 0 ==> (r matches Err(e) && e is CannotInferEmptyArrayType),
            literal_elements(*init) ==> (r matches Ok(v) ==> (v@ matches ValueView::Array { contents, .. } && forall|j: int|
                0 <= j < contents.len() ==> final(self).heap@[(#[trigger] contents[j]) as int] == element_literal(*init, j))),
            fuel > 1 && init.initialized_fields@.len() > 0 && literal_elements(*init) ==> (r is Ok <==> elements_agree(*init)),
            fuel > 1 && init.initialized_fields@.len() > 0 && literal_elements(*init) && !elements_agree(*init) ==> (r matches Err(
                e,
            ) && e is TypeCoercionFail),
            array_init_run(*old(self), *final(self), *init, fuel as nat, r),
        decreases fuel,
    {
        if init.initialized_fields.len() == 0 {
            return Err(RuntimeError::CannotInferEmptyArrayType);
        }
        if fuel == 0 {
            return Err(out_of_fuel());
        }
        let ghost all_lit = fuel > 1 && literal_elements(*init);
        let ghost es = init.initialized_fields@;
        let ghost g = (fuel - 1) as nat;
        proof {
            assert(sub1(fuel as nat) == g);
        }
        let mut contents: Vec<RuntimeReference> = Vec::new();
        let mut i: usize = 0;
        while i < init.initialized_fields.len()
            invariant
                i <= init.initialized_fields@.len(),
                fuel > 0,
                contents@.len() == i,
                self.wf(),
                self.stable(*old(self)),
                self.bindings_same(*old(self)),
                forall|j: int| 0 <= j < contents@.len() ==> old(self).heap@.len() <= #[trigger] contents@[j] < self.heap@.len(),
                forall|x: int, y: int| 0 <= x < y < contents@.len() ==> #[trigger] contents@[x] < #[trigger] contents@[y],
                all_lit == (fuel > 1 && literal_elements(*init)),
                literal_elements(*init) ==> forall|j: int|
                    0 <= j < contents@.len() ==> self.heap@[(#[trigger] contents@[j]) as int] == element_literal(*init, j),
                es == init.initialized_fields@,
                g == (fuel - 1) as nat,
                forall|after: Runtime, rr: RuntimeResult<RuntimeValue>|
                    #[trigger] elems_run(*self, after, es, i as int, g, contents@, rr) ==> array_init_run(
                        *old(self),
                        after,
                        *init,
                        fuel as nat,
                        rr,
                    ),
            decreases init.initialized_fields@.len() - i,
        {
            let ghost s_iter = *self;
            let ghost acc = contents@;
            proof {
                if literal_elements(*init) {
                    assert(is_literal(init.initialized_fields@[i as int]));
                }
            }
            let ghost h0 = self.heap@;
            let v = match self.evaluate_expression(&init.initialized_fields[i], fuel - 1) {
                Ok(v) => v,
                Err(e) => {
                    proof {
                        lemma_elems_step(s_iter, *self, *self, *self, es, i as int, g, acc, Err(e), Err(e));
                    }
                    return Err(e);
                },
            };
            let ghost before = *self;
            let ghost v_g = v;
            let a = self.heap.allocate(v);
            proof {
                Runtime::lemma_wf_same_scopes(before, *self);
                assert(cell_added(before, *self, v_g@));
                if literal_elements(*init) {
                    assert forall|j: int| 0 <= j < i implies self.heap@[(#[trigger] contents@[j]) as int] == element_literal(
                        *init,
                        j,
                    ) by {
                        assert(self.heap@[contents@[j] as int] == h0[contents@[j] as int]);
                    }
                }
            }
            contents.push(a);
            proof {
                assert(contents@ == acc.push(before.heap@.len() as usize));
                assert forall|after: Runtime, rr: RuntimeResult<RuntimeValue>|
                    #[trigger] elems_run(*self, after, es, i + 1, g, contents@, rr) implies array_init_run(
                    *old(self),
                    after,
                    *init,
                    fuel as nat,
                    rr,
                ) by {
                    lemma_elems_step(s_iter, before, *self, after, es, i as int, g, acc, Ok(v_g), rr);
                }
            }
            i = i + 1;
        }
        let ghost s_end = *self;
        proof {
            assert forall|rr: RuntimeResult<RuntimeValue>| array_result(s_end.heap@, contents@, rr) implies array_init_run(
                *old(self),
                s_end,
                *init,
                fuel as nat,
                rr,
            ) by {
                assert(elems_run(s_end, s_end, es, i as int, g, contents@, rr));
            }
        }
        let data_type = match self.heap.read(contents[0]).data_type(&self.heap) {
            Ok(t) => t,
            Err(e) => {
                proof {
                    assert(array_result(s_end.heap@, contents@, Err(e)));
                }
                return Err(e);
            },
        };
        let mut k: usize = 1;
        while k < contents.len()
            invariant
                1 <= k <= contents@.len(),
                contents@.len() == init.initialized_fields@.len(),
                self.wf(),
                self.stable(*old(self)),
                self.bindings_same(*old(self)),
                forall|j: int| 0 <= j < contents@.len() ==> old(self).heap@.len() <= #[trigger] contents@[j] < self.heap@.len(),
                forall|x: int, y: int| 0 <= x < y < contents@.len() ==> #[trigger] contents@[x] < #[trigger] contents@[y],
                forall|j: int|
                    0 <= j < k ==> value_type(self.heap@, self.heap@[#[trigger] contents@[j] as int], self.heap@.len()) == Some(
                        data_type@,
                    ),
                *self == s_end,
                value_type(s_end.heap@, s_end.heap@[contents@[0] as int], s_end.heap@.len()) == Some(data_type@),
                forall|rr: RuntimeResult<RuntimeValue>|
                    #[trigger] checked_from(s_end.heap@, contents@, data_type@, k as int, rr) ==> array_result(
                        s_end.heap@,
                        contents@,
                        rr,
                    ),
                forall|rr: RuntimeResult<RuntimeValue>| array_result(s_end.heap@, contents@, rr) ==> array_init_run(
                    *old(self),
                    s_end,
                    *init,
                    fuel as nat,
                    rr,
                ),
                literal_elements(*init) ==> forall|j: int|
                    0 <= j < contents@.len() ==> self.heap@[(#[trigger] contents@[j]) as int] == element_literal(*init, j),
                literal_elements(*init) ==> forall|j: int|
                    0 <= j < k ==> crate::value::direct_type(#[trigger] element_literal(*init, j)) == crate::value::direct_type(
                        element_literal(*init, 0),
                    ),
            decreases contents@.len() - k,
        {
            let t = match self.heap.read(contents[k]).data_type(&self.heap) {
                Ok(t) => t,
                Err(e) => {
                    proof {
                        assert(checked_from(s_end.heap@, contents@, data_type@, k as int, Err(e)));
                    }
                    return Err(e);
                },
            };
            if !crate::ast::data_type_eq(&t, &data_type) {
                proof {
                    if literal_elements(*init) {
                        assert(is_literal(init.initialized_fields@[k as int]));
                        assert(is_literal(init.initialized_fields@[0]));
                        assert(self.heap@[contents@[k as int] as int] == element_literal(*init, k as int));
                        assert(self.heap@[contents@[0] as int] == element_literal(*init, 0));
                        assert(!elements_agree(*init));
                    }
                }
                let res = Err(RuntimeError::TypeCoercionFail { from: t.name(), to: data_type.name() });
                proof {
                    assert(checked_from(s_end.heap@, contents@, data_type@, k as int, res));
                }
                return res;
            }
            proof {
                if literal_elements(*init) {
                    assert(is_literal(init.initialized_fields@[k as int]));
                    assert(is_literal(init.initialized_fields@[0]));
                    assert(self.heap@[contents@[k as int] as int] == element_literal(*init, k as int));
                    assert(self.heap@[contents@[0] as int] == element_literal(*init, 0));
                }
            }
            proof {
                assert forall|rr: RuntimeResult<RuntimeValue>|
                    #[trigger] checked_from(s_end.heap@, contents@, data_type@, k + 1, rr) implies array_result(
                    s_end.heap@,
                    contents@,
                    rr,
                ) by {
                    assert(checked_from(s_end.heap@, contents@, data_type@, k as int, rr));
                }
            }
            k = k + 1;
        }
        proof {
            if literal_elements(*init) {
                assert(elements_agree(*init));
            }
        }
        let res = Ok(RuntimeValue::Array { inner_data_type: data_type, contents });
        proof {
            assert(checked_from(s_end.heap@, contents@, data_type@, k as int, res));
        }
        res
    }

    /// Runs a statement.
    pub fn execute_statement(&mut self, statement: &Statement, fuel: u64) -> (r: RuntimeResult<ControlFlow>)
        requires
            old(self).wf(),
        ensures
            statement_outcome(*old(self), *final(self), *statement, fuel, r),
            fuel > 1 ==> (*statement matches Statement::Return(ret) ==> value_statement_run(
                *old(self),
                *final(self),
                ret.expression,
                (fuel - 2) as nat,
                r,
                true,
            )),
            fuel > 0 ==> (*statement matches Statement::ControlStatement(c) ==> control_run(
                *old(self),
                *final(self),
                c,
                (fuel - 1) as u64,
                r,
            )),
            fuel > 0 ==> (*statement matches Statement::Assignment(a) ==> assignment_run(
                *old(self),
                *final(self),
                a,
                (fuel - 1) as u64,
                r,
            )),
            fuel > 0 ==> (*statement matches Statement::Expression(e) ==> value_statement_run(
                *old(self),
                *final(self),
                e,
                (fuel - 1) as nat,
                r,
                false,
            )),
        decreases fuel,
    {
        if fuel == 0 {
            return Err(out_of_fuel());
        }
        let f = fuel - 1;
        match statement {
            Statement::Assignment(assignment) => self.execute_assignment(assignment, f),
            Statement::Expression(expression) => {
                let vr = self.evaluate_expression(expression, f);
                let ghost r1 = vr;
                proof {
                    let _ = step(*self, r1);
                }
                match vr {
                    Ok(_) => Ok(ControlFlow::Continue),
                    Err(e) => Err(e),
                }
            },
            Statement::Return(ret) => self.execute_return(ret, f),
            Statement::ControlStatement(control_statement) => self.execute_control_statement(control_statement, f),
            Statement::Break => Ok(ControlFlow::Break),
            _ => Err(RuntimeError::UnexpectedExpression(string_of("a definition inside a block"))),
        }
    }

    fn execute_return(&mut self, ret: &Return, fuel: u64) -> (r: RuntimeResult<ControlFlow>)
        requires
            old(self).wf(),
        ensures
            final(self).bindings_same(*old(self)),
            final(self).wf(),
            final(self).stable(*old(self)),
            r matches Ok(f) ==> flow_below(f, final(self).heap@.len()) && f is Return,
            fuel > 0 ==> statement_value_outcome(*old(self), *final(self), ret.expression, (fuel - 1) as nat, r, true),
            fuel > 0 ==> value_statement_run(*old(self), *final(self), ret.expression, (fuel - 1) as nat, r, true),
        decreases fuel,
    {
        if fuel == 0 {
            return Err(out_of_fuel());
        }
        let vr = self.evaluate_expression(&ret.expression, fuel - 1);
        let ghost r1 = vr;
        proof {
            let _ = step(*self, r1);
        }
        match vr {
            Ok(value) => Ok(ControlFlow::Return(value)),
            Err(e) => Err(e),
        }
    }

    fn execute_control_statement(&mut self, control_statement: &ControlStatement, fuel: u64) -> (r: RuntimeResult<ControlFlow>)
        requires
            old(self).wf(),
        ensures
            final(self).bindings_same(*old(self)),
            final(self).wf(),
            final(self).stable(*old(self)),
            r matches Ok(f) ==> flow_below(f, final(self).heap@.len()),
            control_outcome(*old(self), *final(self), *control_statement, fuel, r),
            control_run(*old(self), *final(self), *control_statement, fuel, r),
        decreases fuel,
    {
        if fuel == 0 {
            return Err(out_of_fuel());
        }
        let f = fuel - 1;
        match control_statement {
            ControlStatement::If { expression, block, children } => self.execute_if(expression, block, children, f),
            ControlStatement::While { expression, block } => self.execute_while(expression, block, f),
            ControlStatement::Loop { block } => self.execute_loop(block, f),
            ControlStatement::For { identifier, iterable, block } => self.execute_for(identifier, iterable, block, f),
            _ => Err(RuntimeError::UnexpectedExpression(string_of("an else without an if"))),
        }
    }

    /// Runs the block of the first branch whose condition holds (the `else`
    /// block when none does).
    #[verifier::loop_isolation(false)]
    fn execute_if(&mut self, expression: &Expression, block: &Block, children: &Vec<ControlStatement>, fuel: u64) -> (r:
        RuntimeResult<ControlFlow>)
        requires
            old(self).wf(),
        ensures
            final(self).bindings_same(*old(self)),
            final(self).wf(),
            final(self).stable(*old(self)),
            r matches Ok(f) ==> flow_below(f, final(self).heap@.len()),
            if_outcome(*old(self), *final(self), *expression, children@, fuel, r),
            if_run(*old(self), *final(self), *expression, *block, children@, fuel, r),
        decreases fuel,
    {
        if fuel == 0 {
            return Err(out_of_fuel());
        }
        let ghost f = (fuel - 1) as u64;
        let cr = self.evaluate_boolean_expression(expression, fuel - 1);
        let ghost entry = *self;
        let ghost c = cr;
        let holds = match cr {
            Ok(b) => b,
            Err(e) => {
                return Err(e);
            },
        };
        if holds {
            return self.execute_block(block, fuel - 1);
        }
        let mut i: usize = 0;
        while i < children.len()
            invariant
                i <= children@.len(),
                i == 0 ==> *self == entry,
                self.wf(),
                self.stable(*old(self)),
                self.bindings_same(*old(self)),
                fuel > 0,
                f == fuel - 1,
                cond_run(*old(self), entry, *expression, f, Ok(false)),
                forall|after: Runtime, rr: RuntimeResult<ControlFlow>|
                    #[trigger] branches_run(*self, after, children@, i as int, f, rr) ==> branches_run(
                        entry,
                        after,
                        children@,
                        0,
                        f,
                        rr,
                    ),
            decreases children@.len() - i,
        {
            let ghost s0 = *self;
            match &children[i] {
                ControlStatement::ElseIf { expression, block } => {
                    let cr2 = self.evaluate_boolean_expression(expression, fuel - 1);
                    let ghost c2 = cr2;
                    match cr2 {
                        Err(e) => {
                            proof {
                                assert(branches_run(s0, *self, children@, i as int, f, Err(e)));
                            }
                            return Err(e);
                        },
                        Ok(true) => {
                            let ghost mid = *self;
                            let r = self.execute_block(block, fuel - 1);
                            proof {
                                assert(cond_run(s0, mid, *expression, f, c2));
                                assert(branches_run(s0, *self, children@, i as int, f, r));
                            }
                            return r;
                        },
                        Ok(false) => {
                            proof {
                                assert forall|after: Runtime, rr: RuntimeResult<ControlFlow>|
                                    #[trigger] branches_run(*self, after, children@, i + 1, f, rr) implies branches_run(
                                    entry,
                                    after,
                                    children@,
                                    0,
                                    f,
                                    rr,
                                ) by {
                                    assert(cond_run(s0, *self, *expression, f, c2));
                                    assert(branches_run(s0, after, children@, i as int, f, rr));
                                }
                            }
                        },
                    }
                },
                ControlStatement::Else { block } => {
                    let r = self.execute_block(block, fuel - 1);
                    proof {
                        assert(branches_run(s0, *self, children@, i as int, f, r));
                    }
                    return r;
                },
                _ => {
                    let e = RuntimeError::UnexpectedExpression(string_of("a branch that is not else or else if"));
                    proof {
                        assert(branches_run(s0, *self, children@, i as int, f, Err(e)));
                    }
                    return Err(e);
                },
            }
            i = i + 1;
        }
        proof {
            assert(branches_run(*self, *self, children@, i as int, f, Ok(ControlFlow::Continue)));
        }
        Ok(ControlFlow::Continue)
    }

    /// Runs the block while the condition holds, until a `break`.
    fn execute_while(&mut self, expression: &Expression, block: &Block, fuel: u64) -> (r: RuntimeResult<ControlFlow>)
        requires
            old(self).wf(),
        ensures
            final(self).bindings_same(*old(self)),
            final(self).wf(),
            final(self).stable(*old(self)),
            r matches Ok(f) ==> f is Continue,
            while_outcome(*old(self), *final(self), *expression, fuel, r),
            while_run(*old(self), *final(self), *expression, *block, fuel, r),
        decreases fuel,
    {
        let mut budget = fuel;
        while budget > 0
            invariant
                budget <= fuel,
                self.wf(),
                self.stable(*old(self)),
                self.bindings_same(*old(self)),
                budget == fuel ==> *self == *old(self),
                budget < fuel && fuel > 1 ==> (pure_eval(*old(self), *expression, (fuel - 2) as nat) matches Some(p) ==> p == Some(
                    ValueView::Bool(true),
                )),
                forall|after: Runtime, rr: RuntimeResult<ControlFlow>|
                    #[trigger] while_run(*self, after, *expression, *block, budget, rr) ==> while_run(
                        *old(self),
                        after,
                        *expression,
                        *block,
                        fuel,
                        rr,
                    ),
            decreases budget,
        {
            let ghost at = budget;
            let ghost before = *self;
            budget = budget - 1;
            let cr = self.evaluate_boolean_expression(expression, budget);
            let ghost mid = *self;
            let ghost c = cr;
            let holds = match cr {
                Ok(b) => b,
                Err(e) => {
                    proof {
                        assert(while_run(before, *self, *expression, *block, at, Err(e)));
                    }
                    return Err(e);
                },
            };
            if !holds {
                proof {
                    assert(while_run(before, *self, *expression, *block, at, Ok(ControlFlow::Continue)));
                }
                return Ok(ControlFlow::Continue);
            }
            let fr = self.execute_block(block, budget);
            let ghost g = fr;
            let flow = match fr {
                Ok(x) => x,
                Err(e) => {
                    proof {
                        assert(cond_run(before, mid, *expression, budget, c));
                        assert(while_run(before, *self, *expression, *block, at, Err(e)));
                    }
                    return Err(e);
                },
            };
            if let ControlFlow::Break = flow {
                proof {
                    assert(cond_run(before, mid, *expression, budget, c));
                    assert(while_run(before, *self, *expression, *block, at, Ok(ControlFlow::Continue)));
                }
                return Ok(ControlFlow::Continue);
            }
            proof {
                assert forall|after: Runtime, rr: RuntimeResult<ControlFlow>|
                    #[trigger] while_run(*self, after, *expression, *block, budget, rr) implies while_run(
                    *old(self),
                    after,
                    *expression,
                    *block,
                    fuel,
                    rr,
                ) by {
                    assert(cond_run(before, mid, *expression, budget, c));
                    assert(block_run(mid, *self, *block, budget, g));
                    assert(while_run(before, after, *expression, *block, at, rr));
                }
            }
        }
        let e = out_of_fuel();
        proof {
            assert(while_run(*self, *self, *expression, *block, 0, Err(e)));
        }
        Err(e)
    }

    /// Runs the block again and again, until a `break`.
    fn execute_loop(&mut self, block: &Block, fuel: u64) -> (r: RuntimeResult<ControlFlow>)
        requires
            old(self).wf(),
        ensures
            final(self).bindings_same(*old(self)),
            final(self).wf(),
            final(self).stable(*old(self)),
            r matches Ok(f) ==> f is Continue,
            loop_run(*old(self), *final(self), *block, fuel, r),
        decreases fuel,
    {
        let mut budget = fuel;
        while budget > 0
            invariant
                budget <= fuel,
                self.wf(),
                self.stable(*old(self)),
                self.bindings_same(*old(self)),
                forall|after: Runtime, rr: RuntimeResult<ControlFlow>|
                    #[trigger] loop_run(*self, after, *block, budget, rr) ==> loop_run(*old(self), after, *block, fuel, rr),
            decreases budget,
        {
            let ghost at = budget;
            budget = budget - 1;
            let ghost before = *self;
            let res = self.execute_block(block, budget);
            let ghost g = res;
            match res {
                Err(e) => {
                    proof {
                        assert(loop_run(before, *self, *block, at, g));
                    }
                    return Err(e);
                },
                Ok(ControlFlow::Break) => {
                    proof {
                        assert(loop_run(before, *self, *block, at, Ok(ControlFlow::Continue)));
                    }
                    return Ok(ControlFlow::Continue);
                },
                _ => {
                    proof {
                        assert forall|after: Runtime, rr: RuntimeResult<ControlFlow>|
                            #[trigger] loop_run(*self, after, *block, budget, rr) implies loop_run(
                            *old(self),
                            after,
                            *block,
                            fuel,
                            rr,
                        ) by {
                            assert(block_run(before, *self, *block, budget, g));
                            assert(loop_run(before, after, *block, at, rr));
                        }
                    }
                },
            }
        }
        let e = out_of_fuel();
        proof {
            assert(loop_run(*self, *self, *block, 0, Err(e)));
        }
        Err(e)
    }

    /// One turn of a `for` loop: binds the loop variable in a new scope and
    /// runs the block's statements there.
    fn execute_for_turn(&mut self, identifier: &String, value: RuntimeValue, block: &Block, fuel: u64) -> (r: RuntimeResult<ControlFlow>)
        requires
            old(self).wf(),
            value_addrs_below(value@, old(self).heap@.len()),
        ensures
            final(self).bindings_same(*old(self)),
            final(self).wf(),
            final(self).stable(*old(self)),
            r matches Ok(f) ==> flow_below(f, final(self).heap@.len()),
            for_turn_run(*old(self), *final(self), identifier@, value@, *block, fuel, r),
        decreases fuel,
    {
        if fuel == 0 {
            return Err(out_of_fuel());
        }
        let ghost v = value@;
        self.push_scope();
        let ghost inner = *self;
        proof {
            lemma_addrs_below_mono(value@, old(self).heap@.len(), self.heap@.len());
        }
        self.assign_variable(identifier.clone(), value);
        let ghost bound = *self;
        let result = self.execute_block_contents(block, fuel - 1);
        let ghost done = *self;
        self.pop_scope();
        proof {
            assert(scope_opened(*old(self), inner));
            assert(variable_bound(inner, bound, identifier@, v));
            assert(contents_run(bound, done, block.statements@, (fuel - 1) as u64, result));
            assert(scope_closed(done, *self));
        }
        result
    }

    fn range_bound(&self, v: &RuntimeValue) -> (r: RuntimeResult<usize>)
        ensures
            r is Ok <==> range_bound_of(v@) is Some,
            r matches Ok(n) ==> range_bound_of(v@) == Some(n),
            r matches Err(e) ==> e is ExpectedIntegerForRange || value_type(self.heap@, v@, self.heap@.len()) is None,
    {
        match v {
            RuntimeValue::U32(x) => Ok(*x as usize),
            RuntimeValue::S32(x) if *x >= 0 => Ok(*x as usize),
            _ => {
                let t = v.data_type(&self.heap)?;
                Err(RuntimeError::ExpectedIntegerForRange(t.name()))
            },
        }
    }

    /// Runs the block once for each value of a range, of the elements of an
    /// array literal, of an array (copies of its elements) or of an iterator
    /// (references to its elements), until a `break` or a `return`.
    #[verifier::loop_isolation(false)]
    fn execute_for(&mut self, identifier: &String, iterable: &Expression, block: &Block, fuel: u64) -> (r: RuntimeResult<ControlFlow>)
        requires
            old(self).wf(),
        ensures
            forall|n: Seq<char>| #[trigger] final(self).lookup(n) == old(self).lookup(n),
            final(self).bindings_same(*old(self)),
            final(self).wf(),
            final(self).stable(*old(self)),
            r matches Ok(f) ==> flow_below(f, final(self).heap@.len()) && !(f is Break),
            for_range_outcome(*old(self), *final(self), *iterable, fuel, r),
            for_run(*old(self), *final(self), identifier@, *iterable, *block, fuel, r),
        decreases fuel,
    {
        if fuel == 0 {
            return Err(out_of_fuel());
        }
        match iterable {
            Expression::Range { start, end } => {
                let ghost s0 = *self;
                let ghost se = **start;
                let ghost ee = **end;
                proof {
                    assert(*iterable == Expression::Range { start: Box::new(se), end: Box::new(ee) });
                }
                let sr = self.evaluate_expression(start, fuel - 1);
                let ghost s1 = *self;
                let ghost r1 = sr;
                let start = match sr {
                    Ok(v) => v,
                    Err(e) => {
                        proof {
                            let _ = step(s1, r1);
                        }
                        return Err(e);
                    },
                };
                proof {
                    if unchanged(s1, s0) {
                        lemma_pure_eval_unchanged(s0, s1, **end, (fuel - 1) as nat);
                    }
                }
                let er = self.evaluate_expression(end, fuel - 1);
                let ghost s2 = *self;
                let ghost r2 = er;
                let end = match er {
                    Ok(v) => v,
                    Err(e) => {
                        proof {
                            let _ = step(s1, r1);
                            let _ = step(s2, r2);
                        }
                        return Err(e);
                    },
                };
                proof {
                    if unchanged(s1, s0) && unchanged(*self, s1) {
                        lemma_unchanged_trans(s0, s1, *self);
                    }
                    let _ = step(s1, r1);
                    let _ = step(s2, r2);
                }
                let ghost sv = start@;
                let ghost ev = end@;
                let start = self.range_bound(&start)?;
                let end = self.range_bound(&end)?;
                let ghost entry = *self;
                let ghost pure_bounds = pure_eval(s0, se, (fuel - 1) as nat) is Some && pure_eval(s0, ee, (fuel - 1) as nat) is Some;
                proof {
                    if pure_bounds {
                        assert(unchanged(entry, s0));
                        assert(pure_eval(s0, se, (fuel - 1) as nat) == Some(Some(sv)));
                        assert(pure_eval(s0, ee, (fuel - 1) as nat) == Some(Some(ev)));
                        assert(range_bound_of(sv) == Some(start));
                        assert(range_bound_of(ev) == Some(end));
                    }
                }
                let r = self.execute_range(identifier, start, end, block, fuel - 1);
                proof {
                    if pure_bounds {
                        assert(unchanged(entry, *old(self)));
                        assert(range_run(entry, *self, identifier@, start as int, end as int, *block, (fuel - 1) as u64, r));
                    }
                    let _ = step(s1, r1);
                    let _ = step(s2, r2);
                }
                r
            },
            Expression::ArrayInitialization(init) => {
                let ghost ef = (fuel - 1) as nat;
                let ghost f = (fuel - 1) as u64;
                let ghost es = init.initialized_fields@;
                let mut k: usize = 0;
                while k < init.initialized_fields.len()
                    invariant
                        k <= es.len(),
                        es == init.initialized_fields@,
                        fuel > 0,
                        f == fuel - 1,
                        ef == fuel - 1,
                        self.wf(),
                        self.stable(*old(self)),
                        self.bindings_same(*old(self)),
                        forall|n: Seq<char>| #[trigger] self.lookup(n) == old(self).lookup(n),
                        forall|after: Runtime, rr: RuntimeResult<ControlFlow>|
                            #[trigger] elem_turns_run(*self, after, identifier@, es, k as int, *block, ef, f, rr) ==> elem_turns_run(
                                *old(self),
                                after,
                                identifier@,
                                es,
                                0,
                                *block,
                                ef,
                                f,
                                rr,
                            ),
                    decreases es.len() - k,
                {
                    let ghost s0 = *self;
                    let vr = self.evaluate_expression(&init.initialized_fields[k], fuel - 1);
                    let ghost before = *self;
                    let ghost r1 = vr;
                    let value = match vr {
                        Ok(v) => v,
                        Err(e) => {
                            proof {
                                lemma_elem_turn_step(s0, before, before, before, identifier@, es, k as int, *block, ef, f, r1, Ok(ControlFlow::Continue), Err(e));
                            }
                            return Err(e);
                        },
                    };
                    let turn = self.execute_for_turn(identifier, value, block, fuel - 1);
                    let ghost g = turn;
                    proof {
                        assert(forall|n: Seq<char>| #[trigger] self.lookup(n) == before.lookup(n));
                    }
                    match turn {
                        Ok(ControlFlow::Continue) => {
                            proof {
                                assert forall|after: Runtime, rr: RuntimeResult<ControlFlow>|
                                    #[trigger] elem_turns_run(*self, after, identifier@, es, k + 1, *block, ef, f, rr) implies elem_turns_run(
                                    *old(self),
                                    after,
                                    identifier@,
                                    es,
                                    0,
                                    *block,
                                    ef,
                                    f,
                                    rr,
                                ) by {
                                    lemma_elem_turn_step(s0, before, *self, after, identifier@, es, k as int, *block, ef, f, r1, g, rr);
                                }
                            }
                        },
                        Ok(ControlFlow::Break) => {
                            proof {
                                lemma_elem_turn_step(s0, before, *self, *self, identifier@, es, k as int, *block, ef, f, r1, g, Ok(ControlFlow::Continue));
                            }
                            return Ok(ControlFlow::Continue);
                        },
                        Ok(ControlFlow::Return(v)) => {
                            proof {
                                lemma_elem_turn_step(s0, before, *self, *self, identifier@, es, k as int, *block, ef, f, r1, g, g);
                            }
                            return Ok(ControlFlow::Return(v));
                        },
                        Err(e) => {
                            proof {
                                lemma_elem_turn_step(s0, before, *self, *self, identifier@, es, k as int, *block, ef, f, r1, g, g);
                            }
                            return Err(e);
                        },
                    }
                    k = k + 1;
                }
                proof {
                    assert(elem_turns_run(*self, *self, identifier@, es, k as int, *block, ef, f, Ok(ControlFlow::Continue)));
                }
                Ok(ControlFlow::Continue)
            },
            _ => {
                let vr = self.evaluate_expression(iterable, fuel - 1);
                let ghost mid = *self;
                let ghost r1 = vr;
                proof {
                    let _ = step(mid, r1);
                }
                let value = match vr {
                    Ok(v) => v,
                    Err(e) => {
                        return Err(e);
                    },
                };
                match &value {
                    RuntimeValue::Array { contents, .. } => {
                        proof {
                            assert(value@->Array_contents == contents@);
                            assert forall|j: int| 0 <= j < contents@.len() implies #[trigger] contents@[j] < self.heap@.len() by {
                                crate::value::lemma_array_cell_below(value@, self.heap@.len(), j);
                            }
                        }
                        let r = self.execute_iteration(identifier, contents, false, block, fuel - 1);
                        proof {
                            if fuel > 1 {
                                assert(iteration_run(mid, *self, identifier@, contents@, false, *block, 0, (fuel - 2) as u64, r));
                            }
                            let _ = step(mid, r1);
                        }
                        r
                    },
                    RuntimeValue::Iterator { contents, .. } => {
                        proof {
                            assert(value@->Iterator_contents == contents@);
                            assert forall|j: int| 0 <= j < contents@.len() implies #[trigger] contents@[j] < self.heap@.len() by {
                                crate::value::lemma_iterator_cell_below(value@, self.heap@.len(), j);
                            }
                        }
                        let r = self.execute_iteration(identifier, contents, true, block, fuel - 1);
                        proof {
                            if fuel > 1 {
                                assert(iteration_run(mid, *self, identifier@, contents@, true, *block, 0, (fuel - 2) as u64, r));
                            }
                            let _ = step(mid, r1);
                        }
                        r
                    },
                    _ => {
                        let t = value.data_type(&self.heap)?;
                        Err(RuntimeError::CannotIterateOnType(t.name()))
                    },
                }
            },
        }
    }

    /// Runs a `for` loop's turns over the numbers `start..end` (see
    /// `range_run`).
    #[verifier::loop_isolation(false)]
    fn execute_range(&mut self, identifier: &String, start: usize, end: usize, block: &Block, fuel: u64) -> (r: RuntimeResult<ControlFlow>)
        requires
            old(self).wf(),
        ensures
            final(self).bindings_same(*old(self)),
            final(self).wf(),
            final(self).stable(*old(self)),
            r matches Ok(f) ==> flow_below(f, final(self).heap@.len()) && !(f is Break),
            start >= end ==> (r matches Ok(f) && f is Continue) && *final(self) == *old(self),
            range_run(*old(self), *final(self), identifier@, start as int, end as int, *block, fuel, r),
        decreases fuel,
    {
        let mut i = start;
        let mut budget = fuel;
        while i < end
            invariant
                budget <= fuel,
                start <= i,
                i == start || start < end,
                i == start ==> *self == *old(self),
                self.wf(),
                self.stable(*old(self)),
                self.bindings_same(*old(self)),
                forall|after: Runtime, rr: RuntimeResult<ControlFlow>|
                    #[trigger] range_run(*self, after, identifier@, i as int, end as int, *block, budget, rr) ==> range_run(*old(self), after, identifier@, start as int, end as int, *block, fuel, rr),
            decreases end - i,
        {
            if budget == 0 {
                let e = out_of_fuel();
                proof {
                    assert(range_run(*self, *self, identifier@, i as int, end as int, *block, budget, Err(e)));
                }
                return Err(e);
            }
            let ghost at = budget;
            budget = budget - 1;
            let ghost before = *self;
            let res = self.execute_for_turn(identifier, RuntimeValue::Usize(i), block, budget);
            let ghost g = res;
            proof {
                assert(for_turn_run(before, *self, identifier@, ValueView::Usize(i), *block, budget, g));
                assert((i as int) as usize == i);
                assert(for_turn_run(before, *self, identifier@, ValueView::Usize((i as int) as usize), *block, budget, g));
                if !(g matches Ok(ControlFlow::Continue)) {
                    let out = if g matches Ok(ControlFlow::Break) {
                        Ok(ControlFlow::Continue)
                    } else {
                        g
                    };
                    assert(range_run(before, *self, identifier@, i as int, end as int, *block, at, out));
                }
            }
            match res {
                Ok(ControlFlow::Continue) => {
                    proof {
                        assert forall|after: Runtime, rr: RuntimeResult<ControlFlow>|
                            #[trigger] range_run(*self, after, identifier@, i + 1, end as int, *block, budget, rr) implies range_run(*old(self), after, identifier@, start as int, end as int, *block, fuel, rr) by {
                            assert(range_run(before, after, identifier@, i as int, end as int, *block, at, rr));
                        }
                    }
                },
                Ok(ControlFlow::Break) => {
                    return Ok(ControlFlow::Continue);
                },
                Ok(ControlFlow::Return(v)) => {
                    return Ok(ControlFlow::Return(v));
                },
                Err(e) => {
                    return Err(e);
                },
            }
            i = i + 1;
        }
        proof {
            assert(range_run(*self, *self, identifier@, i as int, end as int, *block, budget, Ok(ControlFlow::Continue)));
        }
        Ok(ControlFlow::Continue)
    }

    /// Runs the block for each cell: with a copy of its value, or with a
    /// reference to it.
    fn execute_iteration(&mut self, identifier: &String, contents: &Vec<RuntimeReference>, by_reference: bool, block: &Block, fuel: u64) -> (r:
        RuntimeResult<ControlFlow>)
        requires
            old(self).wf(),
            forall|j: int| 0 <= j < contents@.len() ==> #[trigger] contents@[j] < old(self).heap@.len(),
        ensures
            final(self).bindings_same(*old(self)),
            final(self).wf(),
            final(self).stable(*old(self)),
            r matches Ok(f) ==> flow_below(f, final(self).heap@.len()) && !(f is Break),
            fuel > 0 && contents@.len() == 0 ==> (r matches Ok(f) && f is Continue) && *final(self) == *old(self),
            fuel == 0 ==> (r matches Err(e) && e is OutOfFuel) && *final(self) == *old(self),
            fuel > 0 ==> iteration_run(*old(self), *final(self), identifier@, contents@, by_reference, *block, 0, (fuel - 1) as u64, r),
        decreases fuel,
    {
        if fuel == 0 {
            return Err(out_of_fuel());
        }
        let ghost f = (fuel - 1) as u64;
        let mut k: usize = 0;
        while k < contents.len()
            invariant
                k <= contents@.len(),
                fuel > 0,
                f == fuel - 1,
                self.wf(),
                self.stable(*old(self)),
                self.bindings_same(*old(self)),
                forall|j: int| 0 <= j < contents@.len() ==> #[trigger] contents@[j] < self.heap@.len(),
                contents@.len() == 0 ==> *self == *old(self),
                forall|after: Runtime, rr: RuntimeResult<ControlFlow>|
                    #[trigger] iteration_run(*self, after, identifier@, contents@, by_reference, *block, k as int, f, rr)
                        ==> iteration_run(*old(self), after, identifier@, contents@, by_reference, *block, 0, f, rr),
            decreases contents@.len() - k,
        {
            let cell = contents[k];
            let ghost before = *self;
            let value = if by_reference {
                RuntimeValue::Reference(cell)
            } else {
                let v = clone_value(self.heap.read(cell));
                proof {
                    assert(value_addrs_below(self.heap@[cell as int], self.heap@.len()));
                }
                let ghost before = *self;
                let copy = v.copy_value(&mut self.heap);
                proof {
                    Runtime::lemma_wf_same_scopes(before, *self);
                }
                copy
            };
            let ghost c = *self;
            let ghost v = value@;
            proof {
                assert(turn_value(before, c, contents@[k as int], by_reference, v));
            }
            let res = self.execute_for_turn(identifier, value, block, fuel - 1);
            let ghost g = res;
            proof {
                assert(for_turn_run(c, *self, identifier@, v, *block, f, g));
                if !(g matches Ok(ControlFlow::Continue)) {
                    let out = if g matches Ok(ControlFlow::Break) {
                        Ok(ControlFlow::Continue)
                    } else {
                        g
                    };
                    assert(iteration_run(before, *self, identifier@, contents@, by_reference, *block, k as int, f, out));
                }
            }
            match res {
                Ok(ControlFlow::Continue) => {
                    proof {
                        assert forall|after: Runtime, rr: RuntimeResult<ControlFlow>|
                            #[trigger] iteration_run(*self, after, identifier@, contents@, by_reference, *block, k + 1, f, rr)
                            implies iteration_run(*old(self), after, identifier@, contents@, by_reference, *block, 0, f, rr) by {
                            assert(iteration_run(before, after, identifier@, contents@, by_reference, *block, k as int, f, rr));
                        }
                    }
                },
                Ok(ControlFlow::Break) => {
                    return Ok(ControlFlow::Continue);
                },
                Ok(ControlFlow::Return(v)) => {
                    return Ok(ControlFlow::Return(v));
                },
                Err(e) => {
                    return Err(e);
                },
            }
            k = k + 1;
        }
        proof {
            assert(iteration_run(*self, *self, identifier@, contents@, by_reference, *block, k as int, f, Ok(ControlFlow::Continue)));
        }
        Ok(ControlFlow::Continue)
    }

    /// Runs a block in a scope of its own: what the block declares is gone
    /// afterwards, and every name is bound as it was before the block.
    pub fn execute_block(&mut self, block: &Block, fuel: u64) -> (r: RuntimeResult<ControlFlow>)
        requires
            old(self).wf(),
        ensures
            forall|n: Seq<char>| #[trigger] final(self).lookup(n) == old(self).lookup(n),
            final(self).bindings_same(*old(self)),
            final(self).wf(),
            final(self).stable(*old(self)),
            r matches Ok(f) ==> flow_below(f, final(self).heap@.len()),
            block_run(*old(self), *final(self), *block, fuel, r),
        decreases fuel,
    {
        if fuel == 0 {
            return Err(out_of_fuel());
        }
        self.push_scope();
        let ghost inner = *self;
        let result = self.execute_block_contents(block, fuel - 1);
        let ghost done = *self;
        self.pop_scope();
        proof {
            assert(scope_opened(*old(self), inner));
            assert(scope_closed(done, *self));
            assert(contents_run(inner, done, block.statements@, (fuel - 1) as u64, result));
        }
        result
    }

    /// Runs a block's statements in the current scope, until one ends the
    /// block with a `return` or a `break`.
    pub fn execute_block_contents(&mut self, block: &Block, fuel: u64) -> (r: RuntimeResult<ControlFlow>)
        requires
            old(self).wf(),
        ensures
            final(self).bindings_kept(*old(self)),
            final(self).wf(),
            final(self).stable(*old(self)),
            r matches Ok(f) ==> flow_below(f, final(self).heap@.len()),
            contents_run(*old(self), *final(self), block.statements@, fuel, r),
            fuel > 0 ==> block_statements_run(*old(self), *final(self), block.statements@, 0, (fuel - 1) as u64, r),
        decreases fuel,
    {
        if fuel == 0 {
            return Err(out_of_fuel());
        }
        let ghost stmts = block.statements@;
        let ghost f = (fuel - 1) as u64;
        let mut i: usize = 0;
        while i < block.statements.len()
            invariant
                i <= block.statements@.len(),
                fuel > 0,
                stmts == block.statements@,
                f == fuel - 1,
                self.wf(),
                self.stable(*old(self)),
                self.bindings_kept(*old(self)),
                forall|after: Runtime, rr: RuntimeResult<ControlFlow>|
                    #[trigger] statements_run(*self, after, stmts, i as int, f, rr) ==> statements_run(
                        *old(self),
                        after,
                        stmts,
                        0,
                        f,
                        rr,
                    ),
                forall|after: Runtime, rr: RuntimeResult<ControlFlow>|
                    #[trigger] block_statements_run(*self, after, stmts, i as int, f, rr) ==> block_statements_run(
                        *old(self),
                        after,
                        stmts,
                        0,
                        f,
                        rr,
                    ),
            decreases block.statements@.len() - i,
        {
            let ghost before = *self;
            let res = self.execute_statement(&block.statements[i], fuel - 1);
            let ghost g = res;
            proof {
                assert(statement_run(before, *self, stmts[i as int], f, g));
            }
            match res {
                Ok(ControlFlow::Continue) => {
                    proof {
                        assert forall|after: Runtime, rr: RuntimeResult<ControlFlow>|
                            #[trigger] block_statements_run(*self, after, stmts, i + 1, f, rr) implies block_statements_run(
                            *old(self),
                            after,
                            stmts,
                            0,
                            f,
                            rr,
                        ) by {
                            assert(statement_run(before, *self, stmts[i as int], f, g));
                            assert(block_statements_run(before, after, stmts, i as int, f, rr));
                        }
                        assert forall|after: Runtime, rr: RuntimeResult<ControlFlow>|
                            #[trigger] statements_run(*self, after, stmts, i + 1, f, rr) implies statements_run(
                            *old(self),
                            after,
                            stmts,
                            0,
                            f,
                            rr,
                        ) by {
                            assert(statement_outcome(before, *self, stmts[i as int], f, g));
                            assert(statements_run(before, after, stmts, i as int, f, rr));
                        }
                    }
                },
                other => {
                    proof {
                        assert(statement_outcome(before, *self, stmts[i as int], f, g));
                        assert(statements_run(before, *self, stmts, i as int, f, g));
                        assert(block_statements_run(before, *self, stmts, i as int, f, g));
                    }
                    return other;
                },
            }
            i = i + 1;
        }
        proof {
            assert(statements_run(*self, *self, stmts, i as int, f, Ok(ControlFlow::Continue)));
            assert(block_statements_run(*self, *self, stmts, i as int, f, Ok(ControlFlow::Continue)));
        }
        Ok(ControlFlow::Continue)
    }

    /// Runs an assignment: a declaration binds the name to a new cell; any
    /// other assignment writes the cell its target names, coerced to the type
    /// of the value there.
    fn execute_assignment(&mut self, assignment: &Assignment, fuel: u64) -> (r: RuntimeResult<ControlFlow>)
        requires
            old(self).wf(),
        ensures
            final(self).bindings_kept(*old(self)),
            final(self).wf(),
            final(self).stable(*old(self)),
            r matches Ok(f) ==> f is Continue,
            declaration_outcome(*old(self), *final(self), *assignment, fuel, r),
            assignment_run(*old(self), *final(self), *assignment, fuel, r),
            fuel > 2 && !assignment.declarative && assignment.data_type is None ==> (assignment.target matches AssignmentTarget::Identifier(
                name,
            ) ==> (pure_eval(*old(self), assignment.expression, (fuel - 1) as nat) matches Some(Some(v)) ==> assigned(
                *old(self),
                *final(self),
                name@,
                v,
                r is Ok,
            ))),
            fuel > 2 && !assignment.declarative && assignment.data_type is None ==> (pure_eval(
                *old(self),
                assignment.expression,
                (fuel - 1) as nat,
            ) matches Some(Some(v)) ==> (lvalue_cell(*old(self), assignment.target, (fuel - 2) as nat) matches Some(p) ==> written(
                *old(self),
                *final(self),
                p,
                v,
                r is Ok,
            ))),
            fuel > 2 && !assignment.declarative && assignment.data_type is None ==> (pure_eval(
                *old(self),
                assignment.expression,
                (fuel - 1) as nat,
            ) matches Some(Some(v)) ==> (lvalue_fault(*old(self), assignment.target, (fuel - 2) as nat) matches Some((i, n)) ==> (
            r matches Err(RuntimeError::ArrayIndexOutOfBounds { index, length }) && index == i && length == n))),
        decreases fuel,
    {
        if fuel == 0 {
            return Err(out_of_fuel());
        }
        let vr = self.evaluate_expression(&assignment.expression, fuel - 1);
        let ghost evaluated = *self;
        let ghost r1 = vr;
        let mut value = match vr {
            Ok(v) => v,
            Err(e) => {
                proof {
                    let _ = step(evaluated, r1);
                }
                return Err(e);
            },
        };
        let ghost v1 = value;
        let ghost mut annotated_state = *self;
        let ghost mut r2: RuntimeResult<RuntimeValue> = Ok(value);
        match &assignment.data_type {
            Some(expected) => {
                let ar = self.apply_type_annotation(value, expected);
                proof {
                    annotated_state = *self;
                    r2 = ar;
                }
                value = match ar {
                    Ok(v) => v,
                    Err(e) => {
                        proof {
                            let _ = step(evaluated, r1);
                            let _ = step(annotated_state, r2);
                        }
                        return Err(e);
                    },
                };
            },
            None => {},
        }
        proof {
            assert(annotated(evaluated, annotated_state, assignment.data_type, v1, r2));
            assert(r2 == Ok::<RuntimeValue, RuntimeError>(value));
        }
        if assignment.declarative {
            match &assignment.target {
                AssignmentTarget::Identifier(name) => {
                    self.assign_variable(name.clone(), value);
                    proof {
                        assert(variable_bound(annotated_state, *self, name@, value@));
                        let _ = step(evaluated, r1);
                        let _ = step(annotated_state, r2);
                    }
                },
                _ => {
                    let e = RuntimeError::UnexpectedExpression(string_of("a declaration of something that is not a name"));
                    proof {
                        let _ = step(evaluated, r1);
                        let _ = step(annotated_state, r2);
                    }
                    return Err(e);
                },
            }
        } else {
            let ghost mid = *self;
            let done = self.assign_to_target(&assignment.target, value, fuel - 1);
            proof {
                assert(target_written(mid, *self, assignment.target, value@, (fuel - 1) as u64, done));
                if fuel > 2 && assignment.data_type is None && pure_eval(
                    *old(self),
                    assignment.expression,
                    (fuel - 1) as nat,
                ) is Some {
                    lemma_lvalue_cell_unchanged(*old(self), mid, assignment.target, (fuel - 2) as nat);
                    lemma_lvalue_fault_unchanged(*old(self), mid, assignment.target, (fuel - 2) as nat);
                    if lvalue_cell(*old(self), assignment.target, (fuel - 2) as nat) == Some(None::<usize>) {
                        lemma_unchanged_trans(*old(self), mid, *self);
                    }
                }
                if fuel > 2 && assignment.data_type is None && assignment.target is Identifier && pure_eval(
                    *old(self),
                    assignment.expression,
                    (fuel - 1) as nat,
                ) is Some {
                    if let AssignmentTarget::Identifier(name) = &assignment.target {
                        assert(unchanged(mid, *old(self)));
                        assert(forall|n: Seq<char>| #[trigger] mid.lookup(n) == old(self).lookup(n));
                        if mid.lookup(name@) is None {
                            lemma_unchanged_trans(*old(self), mid, *self);
                        }
                    }
                }
            }
            proof {
                let _ = step(evaluated, r1);
                let _ = step(annotated_state, r2);
            }
            done?;
        }
        Ok(ControlFlow::Continue)
    }

    /// Writes a value into the cell a target names, coerced to the type of the
    /// value there.
    fn assign_to_target(&mut self, target: &AssignmentTarget, value: RuntimeValue, fuel: u64) -> (r: RuntimeResult<()>)
        requires
            old(self).wf(),
            value_addrs_below(value@, old(self).heap@.len()),
        ensures
            final(self).bindings_same(*old(self)),
            final(self).wf(),
            final(self).stable(*old(self)),
            fuel > 1 ==> (*target matches AssignmentTarget::Identifier(name) ==> assigned(
                *old(self),
                *final(self),
                name@,
                value@,
                r is Ok,
            )),
            fuel > 0 ==> (lvalue_cell(*old(self), *target, (fuel - 1) as nat) matches Some(p) ==> written(
                *old(self),
                *final(self),
                p,
                value@,
                r is Ok,
            )),
            fuel > 0 ==> (lvalue_fault(*old(self), *target, (fuel - 1) as nat) matches Some((i, n)) ==> (r matches Err(
                RuntimeError::ArrayIndexOutOfBounds { index, length },
            ) && index == i && length == n)),
            target_written(*old(self), *final(self), *target, value@, fuel, r),
        decreases fuel,
    {
        if fuel == 0 {
            return Err(out_of_fuel());
        }
        let ghost n = self.heap@.len();
        let cr = self.evaluate_lvalue(target, fuel - 1);
        let ghost rc = cr;
        proof {
            let _ = cell_step(*self, rc);
        }
        let cell = cr?;
        let ghost mid = *self;
        proof {
            lemma_addrs_below_mono(value@, n, self.heap@.len());
        }
        let existing_type = self.heap.read(cell).data_type(&self.heap)?;
        let res = self.coerce(value, &existing_type);
        proof {
            assert(coerce_outcome(mid.heap@, value@, existing_type@, res));
            let _ = cell_step(mid, rc);
        }
        let coerced = res?;
        let ghost before = *self;
        self.heap.write(cell, coerced);
        proof {
            Runtime::lemma_wf_same_scopes(before, *self);
            assert(coerce_outcome(mid.heap@, value@, existing_type@, res));
            assert forall|k: int| 0 <= k < mid.heap@.len() && k != cell implies #[trigger] self.heap@[k] == mid.heap@[k] by {
                assert(before.heap@[k] == mid.heap@[k]);
            }
            let _ = cell_step(mid, rc);
        }
        Ok(())
    }

    /// The cell an assignment target names: a variable's cell, the cell a
    /// reference points at, an array element's cell, a struct field's cell.
    fn evaluate_lvalue(&mut self, target: &AssignmentTarget, fuel: u64) -> (r: RuntimeResult<RuntimeReference>)
        requires
            old(self).wf(),
        ensures
            final(self).bindings_same(*old(self)),
            final(self).wf(),
            final(self).stable(*old(self)),
            r matches Ok(c) ==> c < final(self).heap@.len(),
            fuel > 0 ==> (*target matches AssignmentTarget::Identifier(name) ==> *final(self) == *old(self) && (r is Ok
                <==> old(self).lookup(name@) is Some) && (r matches Ok(c) ==> old(self).lookup(name@) == Some(c))),
            lvalue_cell(*old(self), *target, fuel as nat) matches Some(p) ==> unchanged(*final(self), *old(self)) && (r is Ok
                <==> p is Some) && (r matches Ok(c) ==> p == Some(c)),
            lvalue_fault(*old(self), *target, fuel as nat) matches Some((i, n)) ==> (r matches Err(
                RuntimeError::ArrayIndexOutOfBounds { index, length },
            ) && index == i && length == n),
            lvalue_run(*old(self), *final(self), *target, fuel as nat, r),
        decreases fuel,
    {
        if fuel == 0 {
            return Err(out_of_fuel());
        }
        match target {
            AssignmentTarget::Identifier(name) => {
                let cell = self.get_variable(name.as_str())?;
                proof {
                    self.lemma_lookup_below(name@);
                }
                Ok(cell)
            },
            AssignmentTarget::Dereference(inner) => {
                let cr = self.evaluate_lvalue(inner, fuel - 1);
                let ghost rc = cr;
                proof {
                    let _ = cell_step(*self, rc);
                }
                let cell = cr?;
                match self.heap.read(cell) {
                    RuntimeValue::Reference(a) => {
                        proof {
                            assert(value_addrs_below(self.heap@[cell as int], self.heap@.len()));
                        }
                        Ok(*a)
                    },
                    other => {
                        let t = other.data_type(&self.heap)?;
                        Err(RuntimeError::ExpectedReference(t.name()))
                    },
                }
            },
            AssignmentTarget::ArrayAccess { target: inner, index_expression } => {
                let cr = self.evaluate_lvalue(inner, fuel - 1);
                let ghost rc = cr;
                let ghost s1 = *self;
                proof {
                    let _ = cell_step(s1, rc);
                }
                let cell = cr?;
                proof {
                    if lvalue_cell(*old(self), **inner, (fuel - 1) as nat) is Some {
                        lemma_pure_eval_unchanged(*old(self), s1, *index_expression, (fuel - 1) as nat);
                    }
                }
                let ir = self.evaluate_expression(index_expression, fuel - 1);
                let ghost ri = ir;
                proof {
                    let _ = step(*self, ri);
                }
                let index_value = ir?;
                proof {
                    if lvalue_cell(*old(self), **inner, (fuel - 1) as nat) is Some && pure_eval(
                        *old(self),
                        *index_expression,
                        (fuel - 1) as nat,
                    ) is Some {
                        lemma_unchanged_trans(*old(self), s1, *self);
                    }
                }
                let index = array_index(&self.heap, &index_value)?;
                match self.heap.read(cell) {
                    RuntimeValue::Array { contents, .. } => {
                        proof {
                            assert(value_addrs_below(self.heap@[cell as int], self.heap@.len()));
                        }
                        if index >= contents.len() {
                            return Err(RuntimeError::ArrayIndexOutOfBounds { index, length: contents.len() });
                        }
                        proof {
                            assert(self.heap@[cell as int]->Array_contents == contents@);
                            crate::value::lemma_array_cell_below(self.heap@[cell as int], self.heap@.len(), index as int);
                        }
                        Ok(contents[index])
                    },
                    other => {
                        let t = other.data_type(&self.heap)?;
                        Err(RuntimeError::CannotIndexNonArrayType(t.name()))
                    },
                }
            },
            AssignmentTarget::FieldAccess { target: inner, field_identifier } => {
                let cr = self.evaluate_lvalue(inner, fuel - 1);
                let ghost rc = cr;
                proof {
                    let _ = cell_step(*self, rc);
                }
                let cell = cr?;
                match self.heap.read(cell) {
                    RuntimeValue::Struct { definition, fields } => {
                        proof {
                            assert(value_addrs_below(self.heap@[cell as int], self.heap@.len()));
                        }
                        match crate::values::find_field_pub(fields, field_identifier.as_str()) {
                            Some(c) => {
                                proof {
                                    let fv = crate::value::fields_view(fields@);
                                    crate::serialization::lemma_field_cell_in(fv, field_identifier@);
                                    let j = choose|j: int| 0 <= j < fv.len() && #[trigger] fv[j].1 == c;
                                    assert(value_addrs_below(self.heap@[cell as int], self.heap@.len()));
                                    assert(self.heap@[cell as int]->Struct_fields == fv);
                                    crate::value::lemma_struct_cell_below(self.heap@[cell as int], self.heap@.len(), j);
                                }
                                Ok(c)
                            },
                            None => Err(
                                RuntimeError::InvalidStructFieldAccess {
                                    field_name: field_identifier.clone(),
                                    struct_name: definition.clone(),
                                },
                            ),
                        }
                    },
                    other => {
                        let t = other.data_type(&self.heap)?;
                        Err(RuntimeError::InvalidStructFieldAccessTarget { field: field_identifier.clone(), data_type: t.name() })
                    },
                }
            },
        }
    }
}

/// The functions of the host, by the names scripts call them by.
pub open spec fn native_function_table() -> Seq<(Seq<char>, NativeFunction)> {
    seq![
        ("sg::print"@, NativeFunction::Print),
        ("sg::set_byte_order"@, NativeFunction::SetByteOrder),
        ("sg::write"@, NativeFunction::Write),
        ("sg::read"@, NativeFunction::Read),
        ("sg::open_file"@, NativeFunction::OpenFile),
        ("sg::create_serialization_target"@, NativeFunction::CreateSerializationTarget),
        ("sg::destroy_serialization_target"@, NativeFunction::DestroySerializationTarget),
        ("sg::serialize_to_target"@, NativeFunction::SerializeToTarget),
    ]
}

/// The methods of built-in types: the type, the method's name and what it
/// does.
pub open spec fn builtin_method_table() -> Seq<(BuiltinMethodTarget, Seq<char>, BuiltinMethod)> {
    let file = BuiltinMethodTarget::NativeObject(crate::ast::NativeObjectKind::FileHandle);
    seq![
        (BuiltinMethodTarget::Array, "iter"@, BuiltinMethod::ArrayIterator),
        (file, "close"@, BuiltinMethod::FileClose),
        (file, "delete"@, BuiltinMethod::FileDelete),
        (file, "new"@, BuiltinMethod::FileNew),
        (file, "open"@, BuiltinMethod::FileOpen),
        (file, "read"@, BuiltinMethod::FileRead),
        (file, "read_value"@, BuiltinMethod::FileReadValue),
        (file, "rename"@, BuiltinMethod::FileRename),
    ]
}

/// The budget of a top-level statement or of the call of `main`: in
/// practice, unlimited.
pub const STATEMENT_FUEL: u64 = 0xffff_ffff_ffff_ffff;

impl Runtime {
    fn register_native(&mut self, identifier: &str, func: NativeFunction)
        ensures
            final(self).functions@ == old(self).functions@.push((final(self).functions@.last().0, RuntimeFunction::Native(func))),
            final(self).functions@.last().0@ == identifier@,
            *final(self) == (Runtime { functions: final(self).functions, ..*old(self) }),
    {
        self.functions.push((String::from_str(identifier), RuntimeFunction::Native(func)));
    }

    /// Makes the `sg::` functions callable: adds the entries of
    /// `native_function_table`, in order.
    pub fn register_native_functions(&mut self)
        ensures
            final(self).functions@.len() == old(self).functions@.len() + native_function_table().len(),
            final(self).functions@.take(old(self).functions@.len() as int) == old(self).functions@,
            forall|k: int| 0 <= k < native_function_table().len() ==> {
                let e = #[trigger] final(self).functions@[old(self).functions@.len() + k];
                &&& e.0@ == native_function_table()[k].0
                &&& e.1 == RuntimeFunction::Native(native_function_table()[k].1)
            },
            *final(self) == (Runtime { functions: final(self).functions, ..*old(self) }),
    {
        let ghost start = self.functions@;
        self.register_native("sg::print", NativeFunction::Print);
        self.register_native("sg::set_byte_order", NativeFunction::SetByteOrder);
        self.register_native("sg::write", NativeFunction::Write);
        self.register_native("sg::read", NativeFunction::Read);
        self.register_native("sg::open_file", NativeFunction::OpenFile);
        self.register_native("sg::create_serialization_target", NativeFunction::CreateSerializationTarget);
        self.register_native("sg::destroy_serialization_target", NativeFunction::DestroySerializationTarget);
        self.register_native("sg::serialize_to_target", NativeFunction::SerializeToTarget);
        assert(self.functions@.take(start.len() as int) =~= start);
    }

    fn register_builtin(&mut self, target: BuiltinMethodTarget, identifier: &str, method: BuiltinMethod)
        ensures
            final(self).builtin_methods@.len() == old(self).builtin_methods@.len() + 1,
            final(self).builtin_methods@.drop_last() == old(self).builtin_methods@,
            final(self).builtin_methods@.last().0 == target,
            final(self).builtin_methods@.last().1@ == identifier@,
            final(self).builtin_methods@.last().2 == method,
            *final(self) == (Runtime { builtin_methods: final(self).builtin_methods, ..*old(self) }),
    {
        self.builtin_methods.push((target, String::from_str(identifier), method));
        assert(self.builtin_methods@.drop_last() =~= old(self).builtin_methods@);
    }

    /// Makes the methods of arrays and file handles callable: the table of
    /// built-in methods starts anew and holds exactly the entries of
    /// `builtin_method_table`, in order, so that running it again leaves the
    /// same table.
    pub fn register_builtin_methods(&mut self)
        ensures
            final(self).builtin_methods@.len() == builtin_method_table().len(),
            forall|k: int| 0 <= k < builtin_method_table().len() ==> {
                let e = #[trigger] final(self).builtin_methods@[k];
                &&& e.0 == builtin_method_table()[k].0
                &&& e.1@ == builtin_method_table()[k].1
                &&& e.2 == builtin_method_table()[k].2
            },
            *final(self) == (Runtime { builtin_methods: final(self).builtin_methods, ..*old(self) }),
    {
        self.builtin_methods = Vec::new();
        let file = BuiltinMethodTarget::NativeObject(crate::ast::NativeObjectKind::FileHandle);
        self.register_builtin(BuiltinMethodTarget::Array, "iter", BuiltinMethod::ArrayIterator);
        self.register_builtin(file, "close", BuiltinMethod::FileClose);
        self.register_builtin(file, "delete", BuiltinMethod::FileDelete);
        self.register_builtin(file, "new", BuiltinMethod::FileNew);
        self.register_builtin(file, "open", BuiltinMethod::FileOpen);
        self.register_builtin(file, "read", BuiltinMethod::FileRead);
        self.register_builtin(file, "read_value", BuiltinMethod::FileReadValue);
        self.register_builtin(file, "rename", BuiltinMethod::FileRename);
    }

    /// The function, struct or impl block that the `j`-th statement defines
    /// is the one its name resolves to: the same definition (an impl block
    /// may instead be replaced by a later one for the same struct, among the
    /// statements before `upto`). Other statements define nothing.
    pub open spec fn defines_at(&self, stmts: Seq<Statement>, j: int, upto: int) -> bool {
        match stmts[j] {
            Statement::FunctionDefinition(f) => fn_lookup(self.functions@, f.identifier@) matches Some(
                RuntimeFunction::User(g),
            ) && crate::ast::same_fn_def(f, g),
            Statement::StructDefinition(d) => struct_def(self.structs@, d.identifier@) matches Some(e)
                && crate::ast::same_struct_def(d, e),
            Statement::StructImpl(i) => impl_lookup(self.struct_impls@, i.struct_identifier@) matches Some(x) && (
            crate::ast::same_impl(i, x) || exists|k: int|
                j < k < upto && (#[trigger] stmts[k] matches Statement::StructImpl(i2) && i2.struct_identifier@
                    == i.struct_identifier@)),
            _ => true,
        }
    }

    /// The functions, structs and impl blocks of `old` come first, in order.
    pub open spec fn definitions_extend(&self, old: Runtime) -> bool {
        &&& old.functions@.len() <= self.functions@.len()
        &&& self.functions@.take(old.functions@.len() as int) == old.functions@
        &&& old.structs@.len() <= self.structs@.len()
        &&& self.structs@.take(old.structs@.len() as int) == old.structs@
        &&& old.struct_impls@.len() <= self.struct_impls@.len()
        &&& self.struct_impls@.take(old.struct_impls@.len() as int) == old.struct_impls@
    }

    /// Adding one definition after those of `b` keeps `a`'s first.
    proof fn lemma_extend_step(a: Runtime, b: Runtime, c: Runtime)
        requires
            b.definitions_extend(a),
            c.functions == b.functions || (c.functions@.len() > 0 && c.functions@.drop_last() == b.functions@),
            c.structs == b.structs || (c.structs@.len() > 0 && c.structs@.drop_last() == b.structs@),
            c.struct_impls == b.struct_impls || (c.struct_impls@.len() > 0 && c.struct_impls@.drop_last() == b.struct_impls@),
        ensures
            c.definitions_extend(a),
    {
        assert(c.functions@.take(a.functions@.len() as int) =~= b.functions@.take(a.functions@.len() as int));
        assert(c.structs@.take(a.structs@.len() as int) =~= b.structs@.take(a.structs@.len() as int));
        assert(c.struct_impls@.take(a.struct_impls@.len() as int) =~= b.struct_impls@.take(a.struct_impls@.len() as int));
    }

    /// Defines the program's functions, structs and impl blocks, in order,
    /// stopping at the first that fails. When all succeed, each has a
    /// definition by its name.
    pub fn define_from_program(&mut self, program: &Program) -> (r: RuntimeResult<()>)
        requires
            old(self).wf(),
        ensures
            final(self).wf(),
            final(self).heap == old(self).heap,
            final(self).scopes_same(*old(self)),
            final(self).definitions_extend(*old(self)),
            r is Ok ==> forall|j: int|
                0 <= j < program.statements@.len() ==> #[trigger] final(self).defines_at(
                    program.statements@,
                    j,
                    program.statements@.len() as int,
                ),
    {
        let mut i: usize = 0;
        proof {
            assert(self.functions@.take(self.functions@.len() as int) =~= self.functions@);
            assert(self.structs@.take(self.structs@.len() as int) =~= self.structs@);
            assert(self.struct_impls@.take(self.struct_impls@.len() as int) =~= self.struct_impls@);
        }
        while i < program.statements.len()
            invariant
                i <= program.statements@.len(),
                self.wf(),
                self.heap == old(self).heap,
                self.scopes_same(*old(self)),
                self.definitions_extend(*old(self)),
                forall|j: int| 0 <= j < i ==> #[trigger] self.defines_at(program.statements@, j, i as int),
            decreases program.statements@.len() - i,
        {
            let ghost before = *self;
            let ghost stmts = program.statements@;
            match &program.statements[i] {
                Statement::FunctionDefinition(func) => {
                    self.define_function(func)?;
                },
                Statement::StructDefinition(definition) => {
                    self.define_struct(definition)?;
                },
                Statement::StructImpl(struct_impl) => {
                    self.impl_struct(struct_impl)?;
                },
                _ => {},
            }
            proof {
                Self::lemma_extend_step(*old(self), before, *self);
                assert forall|j: int| 0 <= j < i + 1 implies #[trigger] self.defines_at(stmts, j, i + 1) by {
                    if j < i {
                        assert(before.defines_at(stmts, j, i as int));
                        match stmts[j] {
                            Statement::FunctionDefinition(f) => {
                                if self.functions != before.functions {
                                    assert(self.functions@.drop_last() == before.functions@);
                                    assert(self.functions@.last().0@ != f.identifier@);
                                }
                            },
                            Statement::StructDefinition(d) => {
                                if self.structs != before.structs {
                                    assert(self.structs@.drop_last() == before.structs@);
                                    assert(self.structs@.last().identifier@ != d.identifier@);
                                }
                            },
                            Statement::StructImpl(im) => {
                                if self.struct_impls != before.struct_impls {
                                    if self.struct_impls@.last().struct_identifier@ == im.struct_identifier@ {
                                        assert(stmts[i as int] matches Statement::StructImpl(i2) && i2.struct_identifier@
                                            == im.struct_identifier@);
                                    } else {
                                        assert(self.struct_impls@.drop_last() == before.struct_impls@);
                                    }
                                }
                            },
                            _ => {},
                        }
                    }
                }
            }
            i = i + 1;
        }
        Ok(())
    }

    /// Runs a program: registers the built-in functions and methods, defines
    /// the program's functions, structs and impl blocks, runs its other
    /// top-level statements in order, and then calls `main` when the program
    /// defines one. Imports are not followed.
    pub fn execute(&mut self, program: &Program) -> (r: RuntimeResult<()>)
        requires
            old(self).wf(),
        ensures
            final(self).wf(),
            final(self).definitions_extend(*old(self)),
            forall|k: int| 0 <= k < native_function_table().len() ==> {
                let e = #[trigger] final(self).functions@[old(self).functions@.len() + k];
                &&& e.0@ == native_function_table()[k].0
                &&& e.1 == RuntimeFunction::Native(native_function_table()[k].1)
            },
            r is Ok ==> forall|j: int|
                0 <= j < program.statements@.len() ==> #[trigger] final(self).defines_at(
                    program.statements@,
                    j,
                    program.statements@.len() as int,
                ),
            exists|d: Runtime, rd: RuntimeResult<()>|
                #[trigger] program_defined(*old(self), d, *program, rd) && match rd {
                    Err(_) => r == rd && *final(self) == d,
                    Ok(_) => program_run(d, *final(self), *program, r),
                },
    {
        self.register_builtin_methods();
        let ghost registered = *self;
        self.register_native_functions();
        let ghost natives = *self;
        proof {
            assert(self.functions@.take(old(self).functions@.len() as int) == old(self).functions@);
            assert(self.structs@.take(old(self).structs@.len() as int) =~= old(self).structs@);
            assert(self.struct_impls@.take(old(self).struct_impls@.len() as int) =~= old(self).struct_impls@);
        }
        let defining = self.define_from_program(program);
        let ghost defined = *self;
        proof {
            assert forall|k: int| 0 <= k < native_function_table().len() implies #[trigger] self.functions@[old(self).functions@.len()
                + k] == natives.functions@[old(self).functions@.len() + k] by {
                assert(self.functions@.take(natives.functions@.len() as int)[old(self).functions@.len() + k]
                    == self.functions@[old(self).functions@.len() + k]);
            }
            assert(self.functions@.take(old(self).functions@.len() as int) =~= old(self).functions@) by {
                assert(self.functions@.take(natives.functions@.len() as int) == natives.functions@);
                assert forall|x: int| 0 <= x < old(self).functions@.len() implies self.functions@[x] == old(self).functions@[x] by {
                    assert(self.functions@.take(natives.functions@.len() as int)[x] == self.functions@[x]);
                    assert(natives.functions@.take(old(self).functions@.len() as int)[x] == natives.functions@[x]);
                }
            }
            assert(self.structs@.take(old(self).structs@.len() as int) =~= old(self).structs@);
            assert(self.struct_impls@.take(old(self).struct_impls@.len() as int) =~= old(self).struct_impls@);
        }
        let ghost gd = defining;
        proof {
            assert(program_defined(*old(self), defined, *program, gd));
        }
        if let Err(e) = defining {
            return Err(e);
        }
        let ghost stmts = program.statements@;
        let mut i: usize = 0;
        while i < program.statements.len()
            invariant
                i <= program.statements@.len(),
                stmts == program.statements@,
                self.wf(),
                gd is Ok,
                program_defined(*old(self), defined, *program, gd),
                forall|after: Runtime, rr: RuntimeResult<()>|
                    #[trigger] top_level_run(*self, after, stmts, i as int, rr) ==> top_level_run(defined, after, stmts, 0, rr),
                defined.definitions_extend(*old(self)),
                forall|k: int| 0 <= k < native_function_table().len() ==> {
                    let e = #[trigger] defined.functions@[old(self).functions@.len() + k];
                    &&& e.0@ == native_function_table()[k].0
                    &&& e.1 == RuntimeFunction::Native(native_function_table()[k].1)
                },
                forall|j: int|
                    0 <= j < program.statements@.len() ==> #[trigger] defined.defines_at(
                        program.statements@,
                        j,
                        program.statements@.len() as int,
                    ),
                self.functions == defined.functions,
                self.structs == defined.structs,
                self.struct_impls == defined.struct_impls,
            decreases program.statements@.len() - i,
        {
            let ghost before = *self;
            match &program.statements[i] {
                Statement::FunctionDefinition(_) | Statement::StructDefinition(_) | Statement::StructImpl(_)
                | Statement::Import(_) => {
                    proof {
                        assert forall|after: Runtime, rr: RuntimeResult<()>|
                            #[trigger] top_level_run(*self, after, stmts, i + 1, rr) implies top_level_run(
                            defined,
                            after,
                            stmts,
                            0,
                            rr,
                        ) by {
                            assert(top_level_run(before, after, stmts, i as int, rr));
                        }
                    }
                },
                statement => {
                    let res = self.execute_statement(statement, STATEMENT_FUEL);
                    let ghost g = res;
                    proof {
                        assert(statement_run(before, *self, stmts[i as int], STATEMENT_FUEL, g));
                    }
                    match res {
                        Ok(_) => {
                            proof {
                                assert forall|after: Runtime, rr: RuntimeResult<()>|
                                    #[trigger] top_level_run(*self, after, stmts, i + 1, rr) implies top_level_run(
                                    defined,
                                    after,
                                    stmts,
                                    0,
                                    rr,
                                ) by {
                                    assert(top_level_run(before, after, stmts, i as int, rr));
                                }
                            }
                        },
                        Err(e) => {
                            proof {
                                assert(top_level_run(before, *self, stmts, i as int, Err::<(), RuntimeError>(e)));
                                assert(top_level_run(defined, *self, stmts, 0, Err::<(), RuntimeError>(e)));
                                assert(program_run(defined, *self, *program, Err::<(), RuntimeError>(e)));
                            }
                            return Err(e);
                        },
                    }
                },
            }
            i = i + 1;
        }
        proof {
            assert(top_level_run(*self, *self, stmts, i as int, Ok(())));
            assert(top_level_run(defined, *self, stmts, 0, Ok(())));
        }
        let ghost mid = *self;
        let ghost main = seq!['m', 'a', 'i', 'n'];
        proof {
            reveal_strlit("main");
            assert("main"@ == main);
        }
        if self.get_function("main").is_ok() {
            let generics: Vec<DataType> = Vec::new();
            let args: Vec<RuntimeValue> = Vec::new();
            proof {
                assert(args@.map_values(|v: RuntimeValue| v@) =~= Seq::<ValueView>::empty());
                assert(generics@ =~= Seq::<DataType>::empty());
            }
            let res = self.call_function("main", args, &generics, STATEMENT_FUEL);
            let ghost g = res;
            proof {
                assert(call_settles(g, match g {
                    Ok(_) => Ok(()),
                    Err(e) => Err::<(), RuntimeError>(e),
                }));
            }
            match res {
                Ok(_) => {
                    proof {
                        assert(main_run(mid, *self, Ok(())));
                        assert(program_run(defined, *self, *program, Ok(())));
                    }
                },
                Err(e) => {
                    proof {
                        assert(main_run(mid, *self, Err::<(), RuntimeError>(e)));
                        assert(program_run(defined, *self, *program, Err::<(), RuntimeError>(e)));
                    }
                    return Err(e);
                },
            }
        } else {
            proof {
                assert(main_run(mid, *self, Ok(())));
                assert(program_run(defined, *self, *program, Ok(())));
            }
        }
        proof {
            assert(self.functions == defined.functions && self.structs == defined.structs && self.struct_impls
                == defined.struct_impls);
            assert forall|j: int| 0 <= j < program.statements@.len() implies #[trigger] self.defines_at(
                program.statements@,
                j,
                program.statements@.len() as int,
            ) by {
                assert(defined.defines_at(program.statements@, j, program.statements@.len() as int));
            }
        }
        Ok(())
    }
}

} // verus!
