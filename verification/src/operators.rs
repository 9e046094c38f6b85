//! The operators of the language on runtime values.
use vstd::prelude::*;

use crate::ast::{BinaryOperator, DType, DataType, UnaryOperator, dt_name, spec_is_numeric};
use crate::error::{RuntimeError, RuntimeResult};
use crate::text::string_of;
use crate::value::{Heap, RuntimeValue, ValueView, type_error_is, value_type};

verus! {

/* ---------- integers ---------- */

/// The value is an integer.
pub open spec fn is_int(v: ValueView) -> bool {
    v is S8 || v is U8 || v is S16 || v is U16 || v is S32 || v is U32 || v is Usize
}

/// The number an integer value stands for.
pub open spec fn int_of(v: ValueView) -> int {
    match v {
        ValueView::S8(x) => x as int,
        ValueView::U8(x) => x as int,
        ValueView::S16(x) => x as int,
        ValueView::U16(x) => x as int,
        ValueView::S32(x) => x as int,
        ValueView::U32(x) => x as int,
        ValueView::Usize(x) => x as int,
        _ => 0,
    }
}

/// `n` is a value of the integer type `t`.
pub open spec fn fits(t: DType, n: int) -> bool {
    match t {
        DType::S8 => i8::MIN <= n <= i8::MAX,
        DType::U8 => 0 <= n <= u8::MAX,
        DType::S16 => i16::MIN <= n <= i16::MAX,
        DType::U16 => 0 <= n <= u16::MAX,
        DType::S32 => i32::MIN <= n <= i32::MAX,
        DType::U32 => 0 <= n <= u32::MAX,
        DType::Usize => 0 <= n <= usize::MAX,
        _ => false,
    }
}

/// The value of integer type `t` that stands for `n`.
pub open spec fn int_val(t: DType, n: int) -> ValueView {
    match t {
        DType::S8 => ValueView::S8(n as i8),
        DType::U8 => ValueView::U8(n as u8),
        DType::S16 => ValueView::S16(n as i16),
        DType::U16 => ValueView::U16(n as u16),
        DType::S32 => ValueView::S32(n as i32),
        DType::U32 => ValueView::U32(n as u32),
        _ => ValueView::Usize(n as usize),
    }
}

pub proof fn lemma_fits_bounds(t: DType, n: int)
    requires
        fits(t, n),
    ensures
        -0x1_0000_0000_0000_0000 < n < 0x1_0000_0000_0000_0000,
        spec_is_numeric(t),
{
}

impl RuntimeValue {
    /// The number of an integer value.
    pub(crate) fn int_value(&self) -> (r: Option<i128>)
        ensures
            r is Some <==> is_int(self@),
            r matches Some(n) ==> n == int_of(self@) && fits(crate::value::direct_type(self@)->Some_0, n as int),
    {
        match self {
            RuntimeValue::S8(x) => Some(*x as i128),
            RuntimeValue::U8(x) => Some(*x as i128),
            RuntimeValue::S16(x) => Some(*x as i128),
            RuntimeValue::U16(x) => Some(*x as i128),
            RuntimeValue::S32(x) => Some(*x as i128),
            RuntimeValue::U32(x) => Some(*x as i128),
            RuntimeValue::Usize(x) => Some(*x as i128),
            _ => None,
        }
    }
}

/// The integer value of type `t` for `n`, when `n` is one.
pub(crate) fn make_int(t: &DataType, n: i128) -> (r: Option<RuntimeValue>)
    ensures
        r is Some <==> fits(t@, n as int),
        r matches Some(v) ==> v@ == int_val(t@, n as int) && is_int(v@) && int_of(v@) == n,
{
    match t {
        DataType::S8 => if -128 <= n && n <= 127 {
            Some(RuntimeValue::S8(n as i8))
        } else {
            None
        },
        DataType::U8 => if 0 <= n && n <= 255 {
            Some(RuntimeValue::U8(n as u8))
        } else {
            None
        },
        DataType::S16 => if -32768 <= n && n <= 32767 {
            Some(RuntimeValue::S16(n as i16))
        } else {
            None
        },
        DataType::U16 => if 0 <= n && n <= 65535 {
            Some(RuntimeValue::U16(n as u16))
        } else {
            None
        },
        DataType::S32 => if -2147483648 <= n && n <= 2147483647 {
            Some(RuntimeValue::S32(n as i32))
        } else {
            None
        },
        DataType::U32 => if 0 <= n && n <= 4294967295 {
            Some(RuntimeValue::U32(n as u32))
        } else {
            None
        },
        DataType::Usize => if 0 <= n && n <= usize::MAX as i128 {
            Some(RuntimeValue::Usize(n as usize))
        } else {
            None
        },
        _ => None,
    }
}

/* ---------- promotion ---------- */

/// The type two integer operands are brought to before a binary operation:
/// `s32` when either is `s32`, else `u32` when either is `u32`, else `usize`
/// when either is `usize`, else the wider of the two, with mixed signedness
/// going to the next wider signed type. `None` for pairs without a common type.
pub open spec fn promote_target(a: DType, b: DType) -> Option<DType> {
    if !(spec_is_numeric(a) && spec_is_numeric(b)) {
        None
    } else if a is S32 || b is S32 {
        Some(DType::S32)
    } else if a is U32 || b is U32 {
        Some(DType::U32)
    } else if a is Usize || b is Usize {
        Some(DType::Usize)
    } else {
        match (a, b) {
            (DType::S16, DType::S16) => Some(DType::S16),
            (DType::S16, DType::S8) => Some(DType::S16),
            (DType::S8, DType::S16) => Some(DType::S16),
            (DType::U16, DType::U16) => Some(DType::U16),
            (DType::U16, DType::U8) => Some(DType::U16),
            (DType::U8, DType::U16) => Some(DType::U16),
            (DType::S8, DType::S8) => Some(DType::S8),
            (DType::U8, DType::U8) => Some(DType::U8),
            (DType::U8, DType::S8) => Some(DType::S16),
            (DType::S8, DType::U8) => Some(DType::S16),
            (DType::U16, DType::S16) => Some(DType::S32),
            (DType::S16, DType::U16) => Some(DType::S32),
            _ => None,
        }
    }
}

/// Both operands brought to their common type, as numbers; `None` when either
/// has no type, the types have no common type, or a value does not fit it.
pub open spec fn promotion(h: Seq<ValueView>, l: ValueView, r: ValueView) -> Option<(DType, int, int)> {
    match (value_type(h, l, h.len()), value_type(h, r, h.len())) {
        (Some(lt), Some(rt)) => match promote_target(lt, rt) {
            Some(t) => if fits(t, int_of(l)) && fits(t, int_of(r)) {
                Some((t, int_of(l), int_of(r)))
            } else {
                None
            },
            None => None,
        },
        _ => None,
    }
}

/// The error of a failed promotion: the type error of an operand without a
/// type, an unsupported operation naming both types, or an overflow when a
/// value does not fit the common type.
pub open spec fn promotion_error(h: Seq<ValueView>, l: ValueView, r: ValueView, e: RuntimeError) -> bool {
    let n = h.len();
    match value_type(h, l, n) {
        None => type_error_is(h, l, n, e),
        Some(lt) => match value_type(h, r, n) {
            None => type_error_is(h, r, n, e),
            Some(rt) => match promote_target(lt, rt) {
                None => e matches RuntimeError::UnsupportedBinaryOperation {
                    lhs_type,
                    operation,
                    rhs_type,
                } && lhs_type@ == dt_name(lt) && operation@ == "numeric promotion"@ && rhs_type@
                    == dt_name(rt),
                Some(_) => e is ArithmeticOverflow,
            },
        },
    }
}

fn promote_target_exec(a: &DataType, b: &DataType) -> (r: Option<DataType>)
    ensures
        r is Some <==> promote_target(a@, b@) is Some,
        r matches Some(t) ==> t@ == promote_target(a@, b@)->Some_0,
{
    if !(a.is_numeric() && b.is_numeric()) {
        return None;
    }
    match (a, b) {
        (DataType::S32, _) | (_, DataType::S32) => Some(DataType::S32),
        (DataType::U32, _) | (_, DataType::U32) => Some(DataType::U32),
        (DataType::Usize, _) | (_, DataType::Usize) => Some(DataType::Usize),
        (DataType::S16, DataType::S16) | (DataType::S16, DataType::S8) | (
            DataType::S8,
            DataType::S16,
        ) => Some(DataType::S16),
        (DataType::U16, DataType::U16) | (DataType::U16, DataType::U8) | (
            DataType::U8,
            DataType::U16,
        ) => Some(DataType::U16),
        (DataType::S8, DataType::S8) => Some(DataType::S8),
        (DataType::U8, DataType::U8) => Some(DataType::U8),
        (DataType::U8, DataType::S8) | (DataType::S8, DataType::U8) => Some(DataType::S16),
        (DataType::U16, DataType::S16) | (DataType::S16, DataType::U16) => Some(DataType::S32),
        _ => None,
    }
}

impl RuntimeValue {
    /// Converts an integer into the integer type `target`, when it holds the
    /// value.
    fn coerce_numeric(value: RuntimeValue, target: &DataType) -> (r: RuntimeResult<RuntimeValue>)
        requires
            is_int(value@),
        ensures
            r is Ok <==> fits(target@, int_of(value@)),
            r matches Ok(v) ==> v@ == int_val(target@, int_of(value@)) && is_int(v@) && int_of(v@)
                == int_of(value@),
            r matches Err(e) ==> e is ArithmeticOverflow,
    {
        let n = value.int_value().unwrap();
        match make_int(target, n) {
            Some(v) => Ok(v),
            None => Err(RuntimeError::ArithmeticOverflow(string_of("numeric promotion"))),
        }
    }

    /// Brings two integer operands to their common type.
    pub fn promote_numeric_pair(lhs: RuntimeValue, rhs: RuntimeValue, heap: &Heap) -> (r:
        RuntimeResult<(RuntimeValue, RuntimeValue)>)
        ensures
            r is Ok <==> promotion(heap@, lhs@, rhs@) is Some,
            r matches Ok(p) ==> ({
                let (t, a, b) = promotion(heap@, lhs@, rhs@)->Some_0;
                p.0@ == int_val(t, a) && p.1@ == int_val(t, b) && is_int(p.0@) && is_int(p.1@)
                    && int_of(p.0@) == a && int_of(p.1@) == b && fits(t, a) && fits(t, b)
            }),
            r matches Err(e) ==> promotion_error(heap@, lhs@, rhs@, e),
    {
        let lhs_type = lhs.data_type(heap)?;
        let rhs_type = rhs.data_type(heap)?;
        let target = match promote_target_exec(&lhs_type, &rhs_type) {
            Some(t) => t,
            None => {
                return Err(
                    RuntimeError::unsupported_binary_operation(
                        lhs_type.name(),
                        string_of("numeric promotion"),
                        rhs_type.name(),
                    ),
                );
            },
        };
        let l = Self::coerce_numeric(lhs, &target)?;
        let r = Self::coerce_numeric(rhs, &target)?;
        Ok((l, r))
    }
}

/* ---------- arithmetic ---------- */

pub open spec fn abs(a: int) -> nat {
    if a < 0 {
        (-a) as nat
    } else {
        a as nat
    }
}

/// Division rounding toward zero.
pub open spec fn trunc_div(a: int, b: int) -> int {
    if (a < 0) != (b < 0) {
        -((abs(a) / abs(b)) as int)
    } else {
        (abs(a) / abs(b)) as int
    }
}

/// The remainder of division rounding toward zero; it has the sign of `a`.
pub open spec fn trunc_rem(a: int, b: int) -> int {
    if a < 0 {
        -((abs(a) % abs(b)) as int)
    } else {
        (abs(a) % abs(b)) as int
    }
}

/// The exact result of an arithmetic operator, `None` for division by zero.
pub open spec fn arith(op: BinaryOperator, a: int, b: int) -> Option<int> {
    match op {
        BinaryOperator::Add => Some(a + b),
        BinaryOperator::Subtract => Some(a - b),
        BinaryOperator::Multiply => Some(a * b),
        BinaryOperator::Divide => if b == 0 {
            None
        } else {
            Some(trunc_div(a, b))
        },
        _ => if b == 0 {
            None
        } else {
            Some(trunc_rem(a, b))
        },
    }
}

/// The operation does not overflow type `t`: its result fits, and for a
/// remainder the quotient fits too.
pub open spec fn arith_fits(op: BinaryOperator, t: DType, a: int, b: int) -> bool {
    match op {
        BinaryOperator::Modulo => fits(t, trunc_div(a, b)) && fits(t, trunc_rem(a, b)),
        _ => fits(t, arith(op, a, b)->Some_0),
    }
}

pub open spec fn is_arith_op(op: BinaryOperator) -> bool {
    op is Add || op is Subtract || op is Multiply || op is Divide || op is Modulo
}

/// What an arithmetic operator gives on two values: the promoted operands'
/// exact result in their common type, or the error of the first step that
/// fails (promotion, division by zero, overflow).
pub open spec fn arith_outcome(
    h: Seq<ValueView>,
    l: ValueView,
    r: ValueView,
    op: BinaryOperator,
    res: RuntimeResult<RuntimeValue>,
) -> bool {
    match promotion(h, l, r) {
        None => res matches Err(e) && promotion_error(h, l, r, e),
        Some((t, a, b)) => match arith(op, a, b) {
            None => res matches Err(e) && e is DivisionByZero,
            Some(n) => if arith_fits(op, t, a, b) {
                res matches Ok(v) && v@ == int_val(t, n)
            } else {
                res matches Err(e) && e is ArithmeticOverflow
            },
        },
    }
}

/// How a binary operator is written in a script.
pub open spec fn op_symbol(op: BinaryOperator) -> Seq<char> {
    match op {
        BinaryOperator::Add => "+"@,
        BinaryOperator::Subtract => "-"@,
        BinaryOperator::Multiply => "*"@,
        BinaryOperator::Divide => "/"@,
        BinaryOperator::Modulo => "%"@,
        BinaryOperator::ShiftLeft => "<<"@,
        BinaryOperator::ShiftRight => ">>"@,
        BinaryOperator::LessThan => "<"@,
        BinaryOperator::LessThanOrEqualTo => "<="@,
        BinaryOperator::GreaterThan => ">"@,
        BinaryOperator::GreaterThanOrEqualTo => ">="@,
        BinaryOperator::EqualTo => "=="@,
        BinaryOperator::NotEqualTo => "!="@,
        BinaryOperator::BitwiseAnd => "&"@,
        BinaryOperator::BitwiseXor => "^"@,
        BinaryOperator::BitwiseOr => "|"@,
        BinaryOperator::LogicalAnd => "&&"@,
        BinaryOperator::LogicalOr => "||"@,
    }
}

/// The operator as a script writes it.
fn op_text(op: BinaryOperator) -> (s: String)
    ensures
        s@ == op_symbol(op),
{
    match op {
        BinaryOperator::Add => string_of("+"),
        BinaryOperator::Subtract => string_of("-"),
        BinaryOperator::Multiply => string_of("*"),
        BinaryOperator::Divide => string_of("/"),
        BinaryOperator::Modulo => string_of("%"),
        BinaryOperator::ShiftLeft => string_of("<<"),
        BinaryOperator::ShiftRight => string_of(">>"),
        BinaryOperator::LessThan => string_of("<"),
        BinaryOperator::LessThanOrEqualTo => string_of("<="),
        BinaryOperator::GreaterThan => string_of(">"),
        BinaryOperator::GreaterThanOrEqualTo => string_of(">="),
        BinaryOperator::EqualTo => string_of("=="),
        BinaryOperator::NotEqualTo => string_of("!="),
        BinaryOperator::BitwiseAnd => string_of("&"),
        BinaryOperator::BitwiseXor => string_of("^"),
        BinaryOperator::BitwiseOr => string_of("|"),
        BinaryOperator::LogicalAnd => string_of("&&"),
        BinaryOperator::LogicalOr => string_of("||"),
    }
}

/// Quotient and remainder rounding toward zero.
fn div_rem(a: i128, b: i128) -> (r: (i128, i128))
    requires
        b != 0,
        -0x1_0000_0000_0000_0000 < a < 0x1_0000_0000_0000_0000,
        -0x1_0000_0000_0000_0000 < b < 0x1_0000_0000_0000_0000,
    ensures
        r.0 == trunc_div(a as int, b as int),
        r.1 == trunc_rem(a as int, b as int),
{
    let ua: u128 = if a < 0 {
        (-a) as u128
    } else {
        a as u128
    };
    let ub: u128 = if b < 0 {
        (-b) as u128
    } else {
        b as u128
    };
    let q = ua / ub;
    let m = ua % ub;
    assert(q <= ua) by (nonlinear_arith)
        requires
            ub >= 1,
            q == ua / ub,
    ;
    assert(m < ub);
    let qi = q as i128;
    let mi = m as i128;
    let quot = if (a < 0) != (b < 0) {
        -qi
    } else {
        qi
    };
    let rem = if a < 0 {
        -mi
    } else {
        mi
    };
    (quot, rem)
}

impl RuntimeValue {
    /// An arithmetic operator (`+ - * / %`) on two integer values.
    fn arithmetic(self, rhs: RuntimeValue, op: BinaryOperator, heap: &Heap) -> (r: RuntimeResult<
        Self,
    >)
        requires
            is_arith_op(op),
        ensures
            arith_outcome(heap@, self@, rhs@, op, r),
    {
        let (l, r) = Self::promote_numeric_pair(self, rhs, heap)?;
        let ghost t = promotion(heap@, self@, rhs@)->Some_0.0;
        let a = l.int_value().unwrap();
        let b = r.int_value().unwrap();
        let target = l.data_type(heap)?;
        proof {
            crate::operators::lemma_fits_bounds(t, a as int);
            crate::operators::lemma_fits_bounds(t, b as int);
            assert(target@ == t) by {
                assert(l@ == int_val(t, a as int));
            }
        }
        let n: i128 = match op {
            BinaryOperator::Add => a + b,
            BinaryOperator::Subtract => a - b,
            BinaryOperator::Multiply => match a.checked_mul(b) {
                Some(n) => n,
                None => {
                    return Err(RuntimeError::ArithmeticOverflow(op_text(op)));
                },
            },
            BinaryOperator::Divide => {
                if b == 0 {
                    return Err(RuntimeError::DivisionByZero);
                }
                div_rem(a, b).0
            },
            _ => {
                if b == 0 {
                    return Err(RuntimeError::DivisionByZero);
                }
                let (q, m) = div_rem(a, b);
                if make_int(&target, q).is_none() {
                    return Err(RuntimeError::ArithmeticOverflow(op_text(op)));
                }
                m
            },
        };
        match make_int(&target, n) {
            Some(v) => Ok(v),
            None => Err(RuntimeError::ArithmeticOverflow(op_text(op))),
        }
    }

    pub fn add(self, rhs: RuntimeValue, heap: &Heap) -> (r: RuntimeResult<Self>)
        ensures
            arith_outcome(heap@, self@, rhs@, BinaryOperator::Add, r),
    {
        self.arithmetic(rhs, BinaryOperator::Add, heap)
    }

    pub fn subtract(self, rhs: RuntimeValue, heap: &Heap) -> (r: RuntimeResult<Self>)
        ensures
            arith_outcome(heap@, self@, rhs@, BinaryOperator::Subtract, r),
    {
        self.arithmetic(rhs, BinaryOperator::Subtract, heap)
    }

    pub fn multiply(self, rhs: RuntimeValue, heap: &Heap) -> (r: RuntimeResult<Self>)
        ensures
            arith_outcome(heap@, self@, rhs@, BinaryOperator::Multiply, r),
    {
        self.arithmetic(rhs, BinaryOperator::Multiply, heap)
    }

    pub fn divide(self, rhs: RuntimeValue, heap: &Heap) -> (r: RuntimeResult<Self>)
        ensures
            arith_outcome(heap@, self@, rhs@, BinaryOperator::Divide, r),
    {
        self.arithmetic(rhs, BinaryOperator::Divide, heap)
    }

    pub fn modulo(self, rhs: RuntimeValue, heap: &Heap) -> (r: RuntimeResult<Self>)
        ensures
            arith_outcome(heap@, self@, rhs@, BinaryOperator::Modulo, r),
    {
        self.arithmetic(rhs, BinaryOperator::Modulo, heap)
    }
}

/* ---------- comparisons ---------- */

pub open spec fn is_order_op(op: BinaryOperator) -> bool {
    op is LessThan || op is LessThanOrEqualTo || op is GreaterThan || op is GreaterThanOrEqualTo
}

pub open spec fn order(op: BinaryOperator, a: int, b: int) -> bool {
    match op {
        BinaryOperator::LessThan => a < b,
        BinaryOperator::LessThanOrEqualTo => a <= b,
        BinaryOperator::GreaterThan => a > b,
        _ => a >= b,
    }
}

/// What an ordering operator gives: the comparison of the promoted operands.
pub open spec fn order_outcome(
    h: Seq<ValueView>,
    l: ValueView,
    r: ValueView,
    op: BinaryOperator,
    res: RuntimeResult<RuntimeValue>,
) -> bool {
    match promotion(h, l, r) {
        None => res matches Err(e) && promotion_error(h, l, r, e),
        Some((t, a, b)) => res matches Ok(v) && v@ == ValueView::Bool(order(op, a, b)),
    }
}

impl RuntimeValue {
    fn ordering(self, rhs: RuntimeValue, op: BinaryOperator, heap: &Heap) -> (r: RuntimeResult<Self>)
        requires
            is_order_op(op),
        ensures
            order_outcome(heap@, self@, rhs@, op, r),
    {
        let (l, r) = Self::promote_numeric_pair(self, rhs, heap)?;
        let a = l.int_value().unwrap();
        let b = r.int_value().unwrap();
        let result = match op {
            BinaryOperator::LessThan => a < b,
            BinaryOperator::LessThanOrEqualTo => a <= b,
            BinaryOperator::GreaterThan => a > b,
            _ => a >= b,
        };
        Ok(RuntimeValue::Bool(result))
    }

    pub fn compare_lt(self, rhs: RuntimeValue, heap: &Heap) -> (r: RuntimeResult<Self>)
        ensures
            order_outcome(heap@, self@, rhs@, BinaryOperator::LessThan, r),
    {
        self.ordering(rhs, BinaryOperator::LessThan, heap)
    }

    pub fn compare_lte(self, rhs: RuntimeValue, heap: &Heap) -> (r: RuntimeResult<Self>)
        ensures
            order_outcome(heap@, self@, rhs@, BinaryOperator::LessThanOrEqualTo, r),
    {
        self.ordering(rhs, BinaryOperator::LessThanOrEqualTo, heap)
    }

    pub fn compare_gt(self, rhs: RuntimeValue, heap: &Heap) -> (r: RuntimeResult<Self>)
        ensures
            order_outcome(heap@, self@, rhs@, BinaryOperator::GreaterThan, r),
    {
        self.ordering(rhs, BinaryOperator::GreaterThan, heap)
    }

    pub fn compare_gte(self, rhs: RuntimeValue, heap: &Heap) -> (r: RuntimeResult<Self>)
        ensures
            order_outcome(heap@, self@, rhs@, BinaryOperator::GreaterThanOrEqualTo, r),
    {
        self.ordering(rhs, BinaryOperator::GreaterThanOrEqualTo, heap)
    }
}

/* ---------- bitwise ---------- */

pub open spec fn is_bitwise_op(op: BinaryOperator) -> bool {
    op is BitwiseAnd || op is BitwiseOr || op is BitwiseXor
}

/// A bitwise operator on two values of the same integer type, bit by bit in
/// that type's width.
pub open spec fn bitwise(op: BinaryOperator, l: ValueView, r: ValueView) -> ValueView {
    match (l, r) {
        (ValueView::S8(a), ValueView::S8(b)) => ValueView::S8(
            if op is BitwiseAnd { a & b } else if op is BitwiseOr { a | b } else { a ^ b },
        ),
        (ValueView::U8(a), ValueView::U8(b)) => ValueView::U8(
            if op is BitwiseAnd { a & b } else if op is BitwiseOr { a | b } else { a ^ b },
        ),
        (ValueView::S16(a), ValueView::S16(b)) => ValueView::S16(
            if op is BitwiseAnd { a & b } else if op is BitwiseOr { a | b } else { a ^ b },
        ),
        (ValueView::U16(a), ValueView::U16(b)) => ValueView::U16(
            if op is BitwiseAnd { a & b } else if op is BitwiseOr { a | b } else { a ^ b },
        ),
        (ValueView::S32(a), ValueView::S32(b)) => ValueView::S32(
            if op is BitwiseAnd { a & b } else if op is BitwiseOr { a | b } else { a ^ b },
        ),
        (ValueView::U32(a), ValueView::U32(b)) => ValueView::U32(
            if op is BitwiseAnd { a & b } else if op is BitwiseOr { a | b } else { a ^ b },
        ),
        (ValueView::Usize(a), ValueView::Usize(b)) => ValueView::Usize(
            if op is BitwiseAnd { a & b } else if op is BitwiseOr { a | b } else { a ^ b },
        ),
        _ => ValueView::NoValue,
    }
}

/// What a bitwise operator gives: the operation on the promoted operands.
pub open spec fn bitwise_outcome(
    h: Seq<ValueView>,
    l: ValueView,
    r: ValueView,
    op: BinaryOperator,
    res: RuntimeResult<RuntimeValue>,
) -> bool {
    match promotion(h, l, r) {
        None => res matches Err(e) && promotion_error(h, l, r, e),
        Some((t, a, b)) => res matches Ok(v) && v@ == bitwise(op, int_val(t, a), int_val(t, b)),
    }
}

impl RuntimeValue {
    fn bitwise_op(self, rhs: RuntimeValue, op: BinaryOperator, heap: &Heap) -> (r: RuntimeResult<
        Self,
    >)
        requires
            is_bitwise_op(op),
        ensures
            bitwise_outcome(heap@, self@, rhs@, op, r),
    {
        let (l, r) = Self::promote_numeric_pair(self, rhs, heap)?;
        let and = op == BinaryOperator::BitwiseAnd;
        let or = op == BinaryOperator::BitwiseOr;
        let v = match (l, r) {
            (RuntimeValue::S8(a), RuntimeValue::S8(b)) => RuntimeValue::S8(
                if and { a & b } else if or { a | b } else { a ^ b },
            ),
            (RuntimeValue::U8(a), RuntimeValue::U8(b)) => RuntimeValue::U8(
                if and { a & b } else if or { a | b } else { a ^ b },
            ),
            (RuntimeValue::S16(a), RuntimeValue::S16(b)) => RuntimeValue::S16(
                if and { a & b } else if or { a | b } else { a ^ b },
            ),
            (RuntimeValue::U16(a), RuntimeValue::U16(b)) => RuntimeValue::U16(
                if and { a & b } else if or { a | b } else { a ^ b },
            ),
            (RuntimeValue::S32(a), RuntimeValue::S32(b)) => RuntimeValue::S32(
                if and { a & b } else if or { a | b } else { a ^ b },
            ),
            (RuntimeValue::U32(a), RuntimeValue::U32(b)) => RuntimeValue::U32(
                if and { a & b } else if or { a | b } else { a ^ b },
            ),
            (RuntimeValue::Usize(a), RuntimeValue::Usize(b)) => RuntimeValue::Usize(
                if and { a & b } else if or { a | b } else { a ^ b },
            ),
            _ => RuntimeValue::NoValue,
        };
        Ok(v)
    }

    pub fn bitwise_and(self, rhs: RuntimeValue, heap: &Heap) -> (r: RuntimeResult<Self>)
        ensures
            bitwise_outcome(heap@, self@, rhs@, BinaryOperator::BitwiseAnd, r),
    {
        self.bitwise_op(rhs, BinaryOperator::BitwiseAnd, heap)
    }

    pub fn bitwise_or(self, rhs: RuntimeValue, heap: &Heap) -> (r: RuntimeResult<Self>)
        ensures
            bitwise_outcome(heap@, self@, rhs@, BinaryOperator::BitwiseOr, r),
    {
        self.bitwise_op(rhs, BinaryOperator::BitwiseOr, heap)
    }

    pub fn bitwise_xor(self, rhs: RuntimeValue, heap: &Heap) -> (r: RuntimeResult<Self>)
        ensures
            bitwise_outcome(heap@, self@, rhs@, BinaryOperator::BitwiseXor, r),
    {
        self.bitwise_op(rhs, BinaryOperator::BitwiseXor, heap)
    }
}

/* ---------- shifts ---------- */

/// The amount a value shifts by: a non-negative integer, a `usize` cut to its
/// low 32 bits.
pub open spec fn shift_amount(v: ValueView) -> Option<u32> {
    match v {
        ValueView::S8(x) => if x >= 0 { Some(x as u32) } else { None },
        ValueView::U8(x) => Some(x as u32),
        ValueView::S16(x) => if x >= 0 { Some(x as u32) } else { None },
        ValueView::U16(x) => Some(x as u32),
        ValueView::S32(x) => if x >= 0 { Some(x as u32) } else { None },
        ValueView::U32(x) => Some(x),
        ValueView::Usize(x) => Some(x as u32),
        _ => None,
    }
}

/// The bit width of an integer value.
pub open spec fn bit_width(v: ValueView) -> u32 {
    match v {
        ValueView::S8(_) => 8,
        ValueView::U8(_) => 8,
        ValueView::S16(_) => 16,
        ValueView::U16(_) => 16,
        ValueView::S32(_) => 32,
        ValueView::U32(_) => 32,
        _ => usize::BITS,
    }
}

/// A shift of an integer value within its own type; right shifts of signed
/// values keep the sign.
pub open spec fn shifted(v: ValueView, left: bool, n: u32) -> ValueView {
    match v {
        ValueView::S8(x) => ValueView::S8(if left { x << n } else { x >> n }),
        ValueView::U8(x) => ValueView::U8(if left { x << n } else { x >> n }),
        ValueView::S16(x) => ValueView::S16(if left { x << n } else { x >> n }),
        ValueView::U16(x) => ValueView::U16(if left { x << n } else { x >> n }),
        ValueView::S32(x) => ValueView::S32(if left { x << n } else { x >> n }),
        ValueView::U32(x) => ValueView::U32(if left { x << n } else { x >> n }),
        ValueView::Usize(x) => ValueView::Usize(if left { x << n } else { x >> n }),
        _ => ValueView::NoValue,
    }
}

/// What a shift gives: the left operand shifted within its own type by the
/// right operand's amount; an error when the amount is not a non-negative
/// integer, when the left operand is not an integer, or when the amount is at
/// least the left operand's width.
pub open spec fn shift_outcome(l: ValueView, r: ValueView, left: bool, res: RuntimeResult<RuntimeValue>) -> bool {
    match shift_amount(r) {
        None => res matches Err(e) && e is InvalidShiftAmount,
        Some(n) => if !is_int(l) {
            res matches Err(e) && e is ExpectedIntegerOperand
        } else if n >= bit_width(l) {
            res matches Err(e) && e is ShiftOverflow
        } else {
            res matches Ok(v) && v@ == shifted(l, left, n)
        },
    }
}

impl RuntimeValue {
    /// The amount a shift by this value shifts by.
    fn determine_shift_amount(value: &RuntimeValue) -> (r: RuntimeResult<u32>)
        ensures
            r is Ok <==> shift_amount(value@) is Some,
            r matches Ok(n) ==> n == shift_amount(value@)->Some_0,
            r matches Err(e) ==> e is InvalidShiftAmount,
    {
        match value {
            RuntimeValue::S8(v) if *v >= 0 => Ok(*v as u32),
            RuntimeValue::U8(v) => Ok(*v as u32),
            RuntimeValue::S16(v) if *v >= 0 => Ok(*v as u32),
            RuntimeValue::U16(v) => Ok(*v as u32),
            RuntimeValue::S32(v) if *v >= 0 => Ok(*v as u32),
            RuntimeValue::U32(v) => Ok(*v),
            RuntimeValue::Usize(v) => Ok(*v as u32),
            _ => Err(RuntimeError::InvalidShiftAmount),
        }
    }

    fn shift(self, rhs: RuntimeValue, left: bool) -> (r: RuntimeResult<Self>)
        ensures
            shift_outcome(self@, rhs@, left, r),
    {
        let amount = Self::determine_shift_amount(&rhs)?;
        let op = if left {
            string_of("<<")
        } else {
            string_of(">>")
        };
        match self {
            RuntimeValue::S8(v) => if amount >= 8 {
                Err(RuntimeError::ShiftOverflow(op))
            } else {
                Ok(RuntimeValue::S8(if left { v << amount } else { v >> amount }))
            },
            RuntimeValue::U8(v) => if amount >= 8 {
                Err(RuntimeError::ShiftOverflow(op))
            } else {
                Ok(RuntimeValue::U8(if left { v << amount } else { v >> amount }))
            },
            RuntimeValue::S16(v) => if amount >= 16 {
                Err(RuntimeError::ShiftOverflow(op))
            } else {
                Ok(RuntimeValue::S16(if left { v << amount } else { v >> amount }))
            },
            RuntimeValue::U16(v) => if amount >= 16 {
                Err(RuntimeError::ShiftOverflow(op))
            } else {
                Ok(RuntimeValue::U16(if left { v << amount } else { v >> amount }))
            },
            RuntimeValue::S32(v) => if amount >= 32 {
                Err(RuntimeError::ShiftOverflow(op))
            } else {
                Ok(RuntimeValue::S32(if left { v << amount } else { v >> amount }))
            },
            RuntimeValue::U32(v) => if amount >= 32 {
                Err(RuntimeError::ShiftOverflow(op))
            } else {
                Ok(RuntimeValue::U32(if left { v << amount } else { v >> amount }))
            },
            RuntimeValue::Usize(v) => if amount >= usize::BITS {
                Err(RuntimeError::ShiftOverflow(op))
            } else {
                Ok(RuntimeValue::Usize(if left { v << amount } else { v >> amount }))
            },
            _ => Err(RuntimeError::ExpectedIntegerOperand),
        }
    }

    pub fn shift_left(self, rhs: RuntimeValue) -> (r: RuntimeResult<Self>)
        ensures
            shift_outcome(self@, rhs@, true, r),
    {
        self.shift(rhs, true)
    }

    pub fn shift_right(self, rhs: RuntimeValue) -> (r: RuntimeResult<Self>)
        ensures
            shift_outcome(self@, rhs@, false, r),
    {
        self.shift(rhs, false)
    }
}

/* ---------- logical ---------- */

/// What `&&` or `||` gives: the operation on two booleans; otherwise the type
/// error of an operand without a type, or an unsupported operation naming both
/// types.
pub open spec fn logical_outcome(
    h: Seq<ValueView>,
    l: ValueView,
    r: ValueView,
    and: bool,
    res: RuntimeResult<RuntimeValue>,
) -> bool {
    let n = h.len();
    match value_type(h, l, n) {
        None => res matches Err(e) && type_error_is(h, l, n, e),
        Some(lt) => match value_type(h, r, n) {
            None => res matches Err(e) && type_error_is(h, r, n, e),
            Some(rt) => match (l, r) {
                (ValueView::Bool(a), ValueView::Bool(b)) => res matches Ok(v) && v@ == ValueView::Bool(
                    if and { a && b } else { a || b },
                ),
                _ => res matches Err(e) && e matches RuntimeError::UnsupportedBinaryOperation {
                    lhs_type,
                    operation,
                    rhs_type,
                } && lhs_type@ == dt_name(lt) && operation@ == (if and { "&&"@ } else { "||"@ })
                    && rhs_type@ == dt_name(rt),
            },
        },
    }
}

impl RuntimeValue {
    fn logical(self, rhs: RuntimeValue, and: bool, heap: &Heap) -> (r: RuntimeResult<Self>)
        ensures
            logical_outcome(heap@, self@, rhs@, and, r),
    {
        let lhs_type = self.data_type(heap)?;
        let rhs_type = rhs.data_type(heap)?;
        match (self, rhs) {
            (RuntimeValue::Bool(a), RuntimeValue::Bool(b)) => Ok(
                RuntimeValue::Bool(if and { a && b } else { a || b }),
            ),
            _ => Err(
                RuntimeError::unsupported_binary_operation(
                    lhs_type.name(),
                    if and { string_of("&&") } else { string_of("||") },
                    rhs_type.name(),
                ),
            ),
        }
    }

    pub fn logical_and(self, rhs: RuntimeValue, heap: &Heap) -> (r: RuntimeResult<Self>)
        ensures
            logical_outcome(heap@, self@, rhs@, true, r),
    {
        self.logical(rhs, true, heap)
    }

    pub fn logical_or(self, rhs: RuntimeValue, heap: &Heap) -> (r: RuntimeResult<Self>)
        ensures
            logical_outcome(heap@, self@, rhs@, false, r),
    {
        self.logical(rhs, false, heap)
    }
}

/* ---------- unary ---------- */

/// What a unary operator (`-`, `!`, `~`) gives: negation of a signed integer
/// (an overflow for the type's minimum), logical not of a boolean, bitwise not
/// of an integer; otherwise the value's type error, or an unsupported
/// operation naming the operator and the type.
pub open spec fn unary_outcome(
    h: Seq<ValueView>,
    v: ValueView,
    op: UnaryOperator,
    res: RuntimeResult<RuntimeValue>,
) -> bool {
    match unary_result(v, op) {
        Some(Some(w)) => res matches Ok(x) && x@ == w,
        Some(None) => res matches Err(e) && e is ArithmeticOverflow,
        None => match value_type(h, v, h.len()) {
            None => res matches Err(e) && type_error_is(h, v, h.len(), e),
            Some(t) => res matches Err(e) && e matches RuntimeError::UnsupportedUnaryOperation(o, n)
                && o@ == unary_text(op) && n@ == dt_name(t),
        },
    }
}

pub open spec fn unary_text(op: UnaryOperator) -> Seq<char> {
    match op {
        UnaryOperator::Negate => "-"@,
        UnaryOperator::LogicalNot => "!"@,
        UnaryOperator::BitwiseNot => "~"@,
        UnaryOperator::Reference => "&"@,
        UnaryOperator::Dereference => "*"@,
    }
}

/// The result of a unary operator on a value it applies to (`Some(None)` for an
/// overflow), `None` when it does not apply.
pub open spec fn unary_result(v: ValueView, op: UnaryOperator) -> Option<Option<ValueView>> {
    if op is Negate {
        match v {
            ValueView::S8(x) => Some(if x == i8::MIN { None } else { Some(ValueView::S8((-x) as i8)) }),
            ValueView::S16(x) => Some(if x == i16::MIN { None } else { Some(ValueView::S16((-x) as i16)) }),
            ValueView::S32(x) => Some(if x == i32::MIN { None } else { Some(ValueView::S32((-x) as i32)) }),
            _ => None,
        }
    } else if op is LogicalNot {
        match v {
            ValueView::Bool(b) => Some(Some(ValueView::Bool(!b))),
            _ => None,
        }
    } else if op is BitwiseNot {
        match v {
            ValueView::S8(x) => Some(Some(ValueView::S8(!x))),
            ValueView::U8(x) => Some(Some(ValueView::U8(!x))),
            ValueView::S16(x) => Some(Some(ValueView::S16(!x))),
            ValueView::U16(x) => Some(Some(ValueView::U16(!x))),
            ValueView::S32(x) => Some(Some(ValueView::S32(!x))),
            ValueView::U32(x) => Some(Some(ValueView::U32(!x))),
            ValueView::Usize(x) => Some(Some(ValueView::Usize(!x))),
            _ => None,
        }
    } else {
        None
    }
}

impl RuntimeValue {
    fn unsupported_unary(&self, op: &str, heap: &Heap) -> (r: RuntimeResult<Self>)
        ensures
            match value_type(heap@, self@, heap@.len()) {
                None => r matches Err(e) && type_error_is(heap@, self@, heap@.len(), e),
                Some(t) => r matches Err(e) && e matches RuntimeError::UnsupportedUnaryOperation(o, n)
                    && o@ == op@ && n@ == dt_name(t),
            },
    {
        let t = self.data_type(heap)?;
        Err(RuntimeError::UnsupportedUnaryOperation(string_of(op), t.name()))
    }

    pub fn negate(self, heap: &Heap) -> (r: RuntimeResult<Self>)
        ensures
            unary_outcome(heap@, self@, UnaryOperator::Negate, r),
    {
        match self {
            RuntimeValue::S8(v) => if v == i8::MIN {
                Err(RuntimeError::ArithmeticOverflow(string_of("-")))
            } else {
                Ok(RuntimeValue::S8(-v))
            },
            RuntimeValue::S16(v) => if v == i16::MIN {
                Err(RuntimeError::ArithmeticOverflow(string_of("-")))
            } else {
                Ok(RuntimeValue::S16(-v))
            },
            RuntimeValue::S32(v) => if v == i32::MIN {
                Err(RuntimeError::ArithmeticOverflow(string_of("-")))
            } else {
                Ok(RuntimeValue::S32(-v))
            },
            _ => self.unsupported_unary("-", heap),
        }
    }

    pub fn logical_not(self, heap: &Heap) -> (r: RuntimeResult<Self>)
        ensures
            unary_outcome(heap@, self@, UnaryOperator::LogicalNot, r),
    {
        match self {
            RuntimeValue::Bool(b) => Ok(RuntimeValue::Bool(!b)),
            _ => self.unsupported_unary("!", heap),
        }
    }

    pub fn bitwise_not(self, heap: &Heap) -> (r: RuntimeResult<Self>)
        ensures
            unary_outcome(heap@, self@, UnaryOperator::BitwiseNot, r),
    {
        match self {
            RuntimeValue::S8(v) => Ok(RuntimeValue::S8(!v)),
            RuntimeValue::U8(v) => Ok(RuntimeValue::U8(!v)),
            RuntimeValue::S16(v) => Ok(RuntimeValue::S16(!v)),
            RuntimeValue::U16(v) => Ok(RuntimeValue::U16(!v)),
            RuntimeValue::S32(v) => Ok(RuntimeValue::S32(!v)),
            RuntimeValue::U32(v) => Ok(RuntimeValue::U32(!v)),
            RuntimeValue::Usize(v) => Ok(RuntimeValue::Usize(!v)),
            _ => self.unsupported_unary("~", heap),
        }
    }
}

} // verus!
