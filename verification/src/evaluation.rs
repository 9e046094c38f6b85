//! What evaluating an expression gives, for the expressions that only read
//! the runtime: literals, variables, references to variables, and the
//! operators and casts applied to them.
use vstd::prelude::*;

use crate::ast::{BinaryOperator, DType, Expression, UnaryOperator, Value, spec_is_numeric};
use crate::error::RuntimeResult;
use crate::execution::{binary_outcome, literal_view};
use crate::operators::{
    arith, arith_fits, bit_width, bitwise, int_of, int_val, is_int, order, promotion, shift_amount,
    shifted, unary_outcome, unary_result,
};
use crate::runtime::Runtime;
use crate::serialization::depth_fuel;
use crate::value::{RuntimeValue, ValueView, value_type};
use crate::values::{cast_outcome, deep_eq, field_target};

verus! {

/// The value an arithmetic operator gives, when it gives one.
pub open spec fn arith_value(h: Seq<ValueView>, l: ValueView, r: ValueView, op: BinaryOperator) -> Option<ValueView> {
    match promotion(h, l, r) {
        None => None,
        Some((t, a, b)) => match arith(op, a, b) {
            None => None,
            Some(n) => if arith_fits(op, t, a, b) {
                Some(int_val(t, n))
            } else {
                None
            },
        },
    }
}

/// The value `==` (or, negated, `!=`) gives, when it gives one.
pub open spec fn eq_value(h: Seq<ValueView>, l: ValueView, r: ValueView, negate: bool) -> Option<ValueView> {
    let n = h.len();
    match (value_type(h, l, n), value_type(h, r, n)) {
        (Some(lt), Some(rt)) => if spec_is_numeric(lt) && spec_is_numeric(rt) {
            match promotion(h, l, r) {
                None => None,
                Some((t, a, b)) => Some(ValueView::Bool((a == b) != negate)),
            }
        } else {
            match (l, r) {
                (ValueView::Bool(a), ValueView::Bool(b)) => Some(ValueView::Bool((a == b) != negate)),
                (ValueView::String(a), ValueView::String(b)) => Some(ValueView::Bool((a == b) != negate)),
                (ValueView::Struct { definition: d1, .. }, ValueView::Struct { definition: d2, .. }) => if d1 != d2 {
                    None
                } else {
                    Some(ValueView::Bool(deep_eq(h, l, r, depth_fuel(n)) != negate))
                },
                _ => None,
            }
        },
        _ => None,
    }
}

/// The value a binary operator gives on two values, when it gives one.
pub open spec fn binary_value(h: Seq<ValueView>, op: BinaryOperator, l: ValueView, r: ValueView) -> Option<ValueView> {
    match op {
        BinaryOperator::Add | BinaryOperator::Subtract | BinaryOperator::Multiply | BinaryOperator::Divide
        | BinaryOperator::Modulo => arith_value(h, l, r, op),
        BinaryOperator::ShiftLeft | BinaryOperator::ShiftRight => match shift_amount(r) {
            None => None,
            Some(n) => if !is_int(l) || n >= bit_width(l) {
                None
            } else {
                Some(shifted(l, op is ShiftLeft, n))
            },
        },
        BinaryOperator::LessThan | BinaryOperator::LessThanOrEqualTo | BinaryOperator::GreaterThan
        | BinaryOperator::GreaterThanOrEqualTo => match promotion(h, l, r) {
            None => None,
            Some((t, a, b)) => Some(ValueView::Bool(order(op, a, b))),
        },
        BinaryOperator::EqualTo => eq_value(h, l, r, false),
        BinaryOperator::NotEqualTo => eq_value(h, l, r, true),
        BinaryOperator::BitwiseAnd | BinaryOperator::BitwiseOr | BinaryOperator::BitwiseXor => match promotion(h, l, r) {
            None => None,
            Some((t, a, b)) => Some(bitwise(op, int_val(t, a), int_val(t, b))),
        },
        BinaryOperator::LogicalAnd | BinaryOperator::LogicalOr => match (
            value_type(h, l, h.len()),
            value_type(h, r, h.len()),
            l,
            r,
        ) {
            (Some(_), Some(_), ValueView::Bool(a), ValueView::Bool(b)) => Some(
                ValueView::Bool(if op is LogicalAnd { a && b } else { a || b }),
            ),
            _ => None,
        },
    }
}

/// The value a cast gives, when it gives one.
pub open spec fn cast_value(h: Seq<ValueView>, v: ValueView, t: DType) -> Option<ValueView> {
    match value_type(h, v, h.len()) {
        None => None,
        Some(_) => if spec_is_numeric(t) && is_int(v) {
            Some(int_val(t, int_of(v)))
        } else {
            None
        },
    }
}

/// The value a unary operator (`-`, `!`, `~`) gives, when it gives one.
pub open spec fn unary_value(v: ValueView, op: UnaryOperator) -> Option<ValueView> {
    match unary_result(v, op) {
        Some(Some(w)) => Some(w),
        _ => None,
    }
}

/// The value a reference chain ends at: `v` with up to `steps` references
/// followed.
pub open spec fn deref_chain(h: Seq<ValueView>, v: ValueView, steps: nat) -> ValueView
    decreases steps,
{
    if steps == 0 {
        v
    } else {
        match v {
            ValueView::Reference(a) => if a < h.len() {
                deref_chain(h, h[a as int], (steps - 1) as nat)
            } else {
                v
            },
            _ => v,
        }
    }
}

/// The position an index value gives: a `u32`, or an `s32` that is not
/// negative.
pub open spec fn index_value(v: ValueView) -> Option<int> {
    match v {
        ValueView::U32(x) => Some(x as int),
        ValueView::S32(x) => if x >= 0 {
            Some(x as int)
        } else {
            None
        },
        _ => None,
    }
}

/// Evaluating an expression that only reads the runtime, with the budget
/// `fuel`: `Some(Some(v))` when it gives `v`, `Some(None)` when it fails,
/// `None` for an expression that may change the runtime (a call, a method
/// call, an initialization) or that reads a struct (which evaluation copies
/// into new cells).
pub open spec fn pure_eval(rt: Runtime, e: Expression, fuel: nat) -> Option<Option<ValueView>>
    decreases fuel, 0nat,
{
    if fuel == 0 {
        Some(None)
    } else {
        match e {
            Expression::Value(v) => match literal_view(v) {
                Some(l) => Some(Some(l)),
                None => match v {
                    Value::Identifier(n) => match rt.lookup(n@) {
                        None => Some(None),
                        Some(c) => if rt.heap@[c as int] is Struct {
                            None
                        } else {
                            Some(Some(rt.heap@[c as int]))
                        },
                    },
                    _ => None,
                },
            },
            Expression::Binary { lhs, rhs, operator } => match pure_eval(rt, *lhs, (fuel - 1) as nat) {
                Some(None) => Some(None),
                Some(Some(a)) => match pure_eval(rt, *rhs, (fuel - 1) as nat) {
                    Some(None) => Some(None),
                    Some(Some(b)) => Some(binary_value(rt.heap@, operator, a, b)),
                    None => None,
                },
                None => None,
            },
            Expression::Unary { operator, expression } => if fuel < 2 {
                Some(None)
            } else {
                match operator {
                    UnaryOperator::Reference => match *expression {
                        Expression::Value(Value::Identifier(n)) => match rt.lookup(n@) {
                            None => Some(None),
                            Some(c) => Some(Some(ValueView::Reference(c))),
                        },
                        _ => Some(None),
                    },
                    UnaryOperator::Dereference => match pure_eval(rt, *expression, (fuel - 2) as nat) {
                        Some(Some(ValueView::Reference(a))) => if a < rt.heap@.len() && !(rt.heap@[a as int] is Struct) {
                            Some(Some(rt.heap@[a as int]))
                        } else {
                            None
                        },
                        Some(Some(_)) => Some(None),
                        other => other,
                    },
                    _ => match pure_eval(rt, *expression, (fuel - 2) as nat) {
                        Some(None) => Some(None),
                        Some(Some(a)) => Some(unary_value(a, operator)),
                        None => None,
                    },
                }
            },
            Expression::TypeCast { expression, target_type } => match pure_eval(rt, *expression, (fuel - 1) as nat) {
                Some(None) => Some(None),
                Some(Some(a)) => Some(cast_value(rt.heap@, a, target_type@)),
                None => None,
            },
            Expression::StructFieldAccess { expression, field_identifier } => match pure_eval(rt, *expression, (fuel - 1) as nat) {
                Some(Some(v)) => match field_target(rt.heap@, v, field_identifier@, rt.heap@.len()) {
                    None => Some(None),
                    Some(c) => if rt.heap@[c as int] is Struct {
                        None
                    } else {
                        Some(Some(rt.heap@[c as int]))
                    },
                },
                other => other,
            },
            Expression::ArrayAccess { expression, index_expression } => if fuel < 2 {
                Some(None)
            } else {
                pure_index(rt, *expression, *index_expression, (fuel - 2) as nat)
            },
            Expression::Range { .. } => Some(None),
            _ => None,
        }
    }
}

/// Indexing an array where that only reads the runtime (see `pure_eval`):
/// the index is evaluated first, then the array, whose references are
/// followed; an element that is a struct would be copied.
pub open spec fn pure_index(rt: Runtime, array: Expression, index: Expression, fuel: nat) -> Option<Option<ValueView>>
    decreases fuel, 1nat,
{
    match pure_eval(rt, index, fuel) {
        Some(Some(iv)) => match index_value(iv) {
            None => Some(None),
            Some(i) => match pure_eval(rt, array, fuel) {
                Some(Some(av)) => match deref_chain(rt.heap@, av, rt.heap@.len()) {
                    ValueView::Array { contents, .. } => if i >= contents.len() {
                        Some(None)
                    } else if contents[i] >= rt.heap@.len() || rt.heap@[contents[i] as int] is Struct {
                        None
                    } else {
                        Some(Some(rt.heap@[contents[i] as int]))
                    },
                    _ => Some(None),
                },
                other => other,
            },
        },
        other => other,
    }
}

/// Every argument only reads the runtime and gives a value.
pub open spec fn args_pure(rt: Runtime, es: Seq<Expression>, fuel: nat) -> bool {
    forall|i: int| 0 <= i < es.len() ==> #[trigger] pure_eval(rt, es[i], fuel) matches Some(Some(_))
}

/// The values the arguments give.
pub open spec fn args_values(rt: Runtime, es: Seq<Expression>, fuel: nat) -> Seq<ValueView> {
    Seq::new(es.len(), |i: int| pure_eval(rt, es[i], fuel)->Some_0->Some_0)
}

/// Nothing a script can observe changed: the heap holds the same values and
/// every name is bound as before.
pub open spec fn unchanged(after: Runtime, before: Runtime) -> bool {
    after.only_heap_grew(before) && after.heap@ == before.heap@
}

/// What evaluation did, where the expression only reads the runtime: nothing
/// changed, and the result is the value `pure_eval` gives, or an error where
/// it fails.
pub open spec fn pure_outcome(before: Runtime, after: Runtime, e: Expression, fuel: nat, r: RuntimeResult<RuntimeValue>) -> bool {
    pure_eval(before, e, fuel) matches Some(p) ==> {
        &&& unchanged(after, before)
        &&& (r is Ok <==> p is Some)
        &&& (r matches Ok(v) ==> v@ == p->Some_0)
    }
}

pub proof fn lemma_pure_eval_unchanged(a: Runtime, b: Runtime, e: Expression, fuel: nat)
    requires
        unchanged(b, a),
    ensures
        pure_eval(b, e, fuel) == pure_eval(a, e, fuel),
    decreases fuel,
{
    assert forall|n: Seq<char>| #[trigger] b.lookup(n) == a.lookup(n) by {}
    if fuel > 0 {
        match e {
            Expression::Binary { lhs, rhs, .. } => {
                lemma_pure_eval_unchanged(a, b, *lhs, (fuel - 1) as nat);
                lemma_pure_eval_unchanged(a, b, *rhs, (fuel - 1) as nat);
            },
            Expression::Unary { expression, .. } => {
                if fuel >= 2 {
                    lemma_pure_eval_unchanged(a, b, *expression, (fuel - 2) as nat);
                }
            },
            Expression::TypeCast { expression, .. } => {
                lemma_pure_eval_unchanged(a, b, *expression, (fuel - 1) as nat);
            },
            Expression::StructFieldAccess { expression, .. } => {
                lemma_pure_eval_unchanged(a, b, *expression, (fuel - 1) as nat);
            },
            Expression::ArrayAccess { expression, index_expression } => {
                if fuel >= 2 {
                    lemma_pure_eval_unchanged(a, b, *expression, (fuel - 2) as nat);
                    lemma_pure_eval_unchanged(a, b, *index_expression, (fuel - 2) as nat);
                    assert(pure_index(b, *expression, *index_expression, (fuel - 2) as nat) == pure_index(
                        a,
                        *expression,
                        *index_expression,
                        (fuel - 2) as nat,
                    ));
                }
            },
            _ => {},
        }
    }
}

pub proof fn lemma_unchanged_trans(a: Runtime, b: Runtime, c: Runtime)
    requires
        unchanged(b, a),
        unchanged(c, b),
    ensures
        unchanged(c, a),
{
    crate::values::lemma_heap_grows_trans(a.heap@, b.heap@, c.heap@);
}

/// The outcome of a binary operator, read as the value it gives.
pub proof fn lemma_binary_value(h: Seq<ValueView>, op: BinaryOperator, l: ValueView, r: ValueView, res: RuntimeResult<RuntimeValue>)
    requires
        binary_outcome(h, op, l, r, res),
    ensures
        res is Ok <==> binary_value(h, op, l, r) is Some,
        res matches Ok(v) ==> v@ == binary_value(h, op, l, r)->Some_0,
{
}

/// The outcome of a cast, read as the value it gives.
pub proof fn lemma_cast_value(h: Seq<ValueView>, v: ValueView, t: DType, res: RuntimeResult<RuntimeValue>)
    requires
        cast_outcome(h, v, t, res),
    ensures
        res is Ok <==> cast_value(h, v, t) is Some,
        res matches Ok(x) ==> x@ == cast_value(h, v, t)->Some_0,
{
}

/// The outcome of a unary operator, read as the value it gives.
pub proof fn lemma_unary_value(h: Seq<ValueView>, v: ValueView, op: UnaryOperator, res: RuntimeResult<RuntimeValue>)
    requires
        unary_outcome(h, v, op, res),
    ensures
        res is Ok <==> unary_value(v, op) is Some,
        res matches Ok(x) ==> x@ == unary_value(v, op)->Some_0,
{
}

} // verus!
