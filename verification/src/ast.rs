//! The syntax tree of a Seagrass program.
use vstd::prelude::*;

use crate::text::{concat3, decimal, string_of, usize_to_decimal};

verus! {

#[derive(Debug, PartialEq)]
pub struct Program {
    pub statements: Vec<Statement>,
}

#[derive(Debug, PartialEq)]
pub enum Statement {
    Assignment(Assignment),
    Expression(Expression),
    FunctionDefinition(FunctionDefinition),
    Return(Return),
    Break,
    StructDefinition(StructDefinition),
    ControlStatement(ControlStatement),
    StructImpl(StructImpl),
    Import(String),
}

#[derive(Debug, PartialEq)]
pub struct StructImpl {
    pub struct_identifier: String,
    pub function_definitions: Vec<FunctionDefinition>,
    pub method_definitions: Vec<MethodDefinition>,
}

#[derive(Debug, PartialEq)]
pub struct MethodDefinition {
    pub attributes: Vec<Attribute>,
    pub identifier: String,
    pub body: Block,
    pub parameters: Vec<Parameter>,
}

#[derive(Debug, PartialEq)]
pub struct FunctionDefinition {
    pub attributes: Vec<Attribute>,
    pub identifier: String,
    pub body: Block,
    pub parameters: Vec<Parameter>,
}

#[derive(Debug, PartialEq)]
pub enum Expression {
    Value(Value),
    FunctionCall(FunctionCall),
    Binary { lhs: Box<Expression>, rhs: Box<Expression>, operator: BinaryOperator },
    Unary { operator: UnaryOperator, expression: Box<Expression> },
    StructInitialization(StructInitialization),
    ArrayInitialization(ArrayInitialization),
    StructFieldAccess { expression: Box<Expression>, field_identifier: String },
    ArrayAccess { expression: Box<Expression>, index_expression: Box<Expression> },
    MethodCall { expression: Box<Expression>, method_identifier: String, arguments: Vec<Expression> },
    Range { start: Box<Expression>, end: Box<Expression> },
    TypeCast { expression: Box<Expression>, target_type: DataType },
}

#[derive(Debug, PartialEq, Eq, Structural, Clone, Copy)]
pub enum BinaryOperator {
    Add,
    Subtract,
    Multiply,
    Divide,
    Modulo,
    ShiftLeft,
    ShiftRight,
    LessThan,
    LessThanOrEqualTo,
    GreaterThan,
    GreaterThanOrEqualTo,
    EqualTo,
    NotEqualTo,
    BitwiseAnd,
    BitwiseXor,
    BitwiseOr,
    LogicalAnd,
    LogicalOr,
}

#[derive(Debug, PartialEq, Eq, Structural, Clone, Copy)]
pub enum UnaryOperator {
    Reference,
    Dereference,
    Negate,
    LogicalNot,
    BitwiseNot,
}

#[derive(Debug, PartialEq)]
pub struct StructInitialization {
    pub identifier: String,
    pub initialized_fields: Vec<StructFieldInitialization>,
    pub use_defaults: bool,
}

#[derive(Debug, PartialEq)]
pub struct StructFieldInitialization {
    pub identifier: String,
    pub expression: Expression,
}

#[derive(Debug, PartialEq)]
pub struct ArrayInitialization {
    pub initialized_fields: Vec<Expression>,
    pub use_defaults: bool,
}

#[derive(Debug, PartialEq)]
pub struct Assignment {
    pub declarative: bool,
    pub target: AssignmentTarget,
    pub data_type: Option<DataType>,
    pub expression: Expression,
}

#[derive(Debug, PartialEq)]
pub enum AssignmentTarget {
    Identifier(String),
    Dereference(Box<AssignmentTarget>),
    FieldAccess { target: Box<AssignmentTarget>, field_identifier: String },
    ArrayAccess { target: Box<AssignmentTarget>, index_expression: Expression },
}

#[derive(Debug, PartialEq)]
pub struct Return {
    pub expression: Expression,
}

#[derive(Debug, PartialEq)]
pub struct Block {
    pub statements: Vec<Statement>,
}

#[derive(Debug, PartialEq)]
pub struct FunctionCall {
    pub identifier: String,
    pub arguments: Vec<Expression>,
    pub generics: Vec<DataType>,
}

/// A literal or a variable name.
#[derive(Debug, PartialEq)]
pub enum Value {
    S8(i8),
    U8(u8),
    S16(i16),
    U16(u16),
    S32(i32),
    U32(u32),
    Usize(usize),
    String(String),
    Bool(bool),
    Identifier(String),
}

#[derive(Debug, PartialEq)]
pub struct Parameter {
    pub identifier: String,
    pub data_type: DataType,
}

#[derive(Debug)]
pub enum DataType {
    S8,
    U8,
    S16,
    U16,
    S32,
    U32,
    Usize,
    F32,
    F64,
    String,
    Bool,
    Reference(Box<DataType>),
    Iterator(Box<DataType>),
    UserDefined(String),
    Array { inner_data_type: Box<DataType>, count: Option<usize> },
    NativeObject(NativeObjectKind),
}

/// The kinds of objects that the host provides to scripts.
#[derive(Debug, PartialEq, Eq, Structural, Clone, Copy)]
pub enum NativeObjectKind {
    FileHandle,
}

impl NativeObjectKind {
    /// The name under which scripts know the kind.
    pub fn name(&self) -> (s: &'static str)
        ensures
            s@ == native_kind_name(*self),
    {
        match self {
            NativeObjectKind::FileHandle => "sg::FileHandle",
        }
    }
}

pub open spec fn native_kind_name(k: NativeObjectKind) -> Seq<char> {
    match k {
        NativeObjectKind::FileHandle => "sg::FileHandle"@,
    }
}

#[derive(Debug, PartialEq)]
pub struct StructDefinition {
    pub attributes: Vec<Attribute>,
    pub identifier: String,
    pub members: Vec<StructMember>,
}

#[derive(Debug, PartialEq)]
pub enum StructMember {
    Field(StructFieldDefinition),
    Padding(usize),
}

#[derive(Debug, PartialEq)]
pub struct StructFieldDefinition {
    pub attributes: Vec<Attribute>,
    pub identifier: String,
    pub data_type: DataType,
}

#[derive(Debug, PartialEq)]
pub enum ControlStatement {
    If { expression: Expression, block: Block, children: Vec<ControlStatement> },
    ElseIf { expression: Expression, block: Block },
    Else { block: Block },
    While { expression: Expression, block: Block },
    Loop { block: Block },
    For { identifier: String, iterable: Expression, block: Block },
}

#[derive(Debug, PartialEq)]
pub struct Attribute {
    pub identifier: String,
    pub arguments: Vec<Expression>,
}

/* ---------- data types ---------- */

/// What a data type is, with names as characters.
pub enum DType {
    S8,
    U8,
    S16,
    U16,
    S32,
    U32,
    Usize,
    F32,
    F64,
    String,
    Bool,
    Reference(Box<DType>),
    Iterator(Box<DType>),
    UserDefined(Seq<char>),
    Array { inner_data_type: Box<DType>, count: Option<usize> },
    NativeObject(NativeObjectKind),
}

pub open spec fn dt_view(d: DataType) -> DType
    decreases d,
{
    match d {
        DataType::S8 => DType::S8,
        DataType::U8 => DType::U8,
        DataType::S16 => DType::S16,
        DataType::U16 => DType::U16,
        DataType::S32 => DType::S32,
        DataType::U32 => DType::U32,
        DataType::Usize => DType::Usize,
        DataType::F32 => DType::F32,
        DataType::F64 => DType::F64,
        DataType::String => DType::String,
        DataType::Bool => DType::Bool,
        DataType::Reference(x) => DType::Reference(Box::new(dt_view(*x))),
        DataType::Iterator(x) => DType::Iterator(Box::new(dt_view(*x))),
        DataType::UserDefined(x) => DType::UserDefined(x@),
        DataType::Array { inner_data_type, count } => DType::Array {
            inner_data_type: Box::new(dt_view(*inner_data_type)),
            count,
        },
        DataType::NativeObject(k) => DType::NativeObject(k),
    }
}

impl View for DataType {
    type V = DType;

    open spec fn view(&self) -> DType {
        dt_view(*self)
    }
}

/// Compares two data types.
pub fn data_type_eq(a: &DataType, b: &DataType) -> (r: bool)
    ensures
        r == (a@ == b@),
    decreases a,
{
    match a {
        DataType::S8 => matches!(b, DataType::S8),
        DataType::U8 => matches!(b, DataType::U8),
        DataType::S16 => matches!(b, DataType::S16),
        DataType::U16 => matches!(b, DataType::U16),
        DataType::S32 => matches!(b, DataType::S32),
        DataType::U32 => matches!(b, DataType::U32),
        DataType::Usize => matches!(b, DataType::Usize),
        DataType::F32 => matches!(b, DataType::F32),
        DataType::F64 => matches!(b, DataType::F64),
        DataType::String => matches!(b, DataType::String),
        DataType::Bool => matches!(b, DataType::Bool),
        DataType::Reference(x) => match b {
            DataType::Reference(y) => data_type_eq(x, y),
            _ => false,
        },
        DataType::Iterator(x) => match b {
            DataType::Iterator(y) => data_type_eq(x, y),
            _ => false,
        },
        DataType::UserDefined(x) => match b {
            DataType::UserDefined(y) => *x == *y,
            _ => false,
        },
        DataType::NativeObject(x) => match b {
            DataType::NativeObject(y) => *x == *y,
            _ => false,
        },
        DataType::Array { inner_data_type: x, count: c } => match b {
            DataType::Array { inner_data_type: y, count: d } => {
                let same_count = match (c, d) {
                    (None, None) => true,
                    (Some(m), Some(n)) => *m == *n,
                    _ => false,
                };
                same_count && data_type_eq(x, y)
            },
            _ => false,
        },
    }
}

impl PartialEq for DataType {
    fn eq(&self, other: &Self) -> (r: bool) {
        data_type_eq(self, other)
    }
}

impl vstd::std_specs::cmp::PartialEqSpecImpl for DataType {
    open spec fn obeys_eq_spec() -> bool {
        true
    }

    open spec fn eq_spec(&self, other: &DataType) -> bool {
        self@ == other@
    }
}

/// Copies a data type.
pub fn clone_data_type(d: &DataType) -> (r: DataType)
    ensures
        r == *d,
        r@ == d@,
    decreases d,
{
    match d {
        DataType::S8 => DataType::S8,
        DataType::U8 => DataType::U8,
        DataType::S16 => DataType::S16,
        DataType::U16 => DataType::U16,
        DataType::S32 => DataType::S32,
        DataType::U32 => DataType::U32,
        DataType::Usize => DataType::Usize,
        DataType::F32 => DataType::F32,
        DataType::F64 => DataType::F64,
        DataType::String => DataType::String,
        DataType::Bool => DataType::Bool,
        DataType::Reference(x) => DataType::Reference(Box::new(clone_data_type(x))),
        DataType::Iterator(x) => DataType::Iterator(Box::new(clone_data_type(x))),
        DataType::UserDefined(x) => DataType::UserDefined(x.clone()),
        DataType::NativeObject(x) => DataType::NativeObject(*x),
        DataType::Array { inner_data_type, count } => DataType::Array {
            inner_data_type: Box::new(clone_data_type(inner_data_type)),
            count: match count {
                Some(c) => Some(*c),
                None => None,
            },
        },
    }
}

impl Clone for DataType {
    fn clone(&self) -> (r: Self)
        ensures
            r == *self,
    {
        clone_data_type(self)
    }
}

/// The integer types.
pub open spec fn spec_is_numeric(d: DType) -> bool {
    d is S8 || d is U8 || d is S16 || d is U16 || d is S32 || d is U32 || d is Usize
}

/// Whether a value of type `a` may be widened implicitly into type `b`: the
/// same type, an integer into a wider integer type that holds all its values
/// (or into `usize`), or an array into an array of a type its elements coerce
/// into, with at least as many elements (a count counts more than none).
pub open spec fn coercible(a: DType, b: DType) -> bool
    decreases a,
{
    if a == b {
        true
    } else {
        match (a, b) {
            (DType::S8, DType::S16) => true,
            (DType::S8, DType::S32) => true,
            (DType::U8, DType::U16) => true,
            (DType::U8, DType::S16) => true,
            (DType::U8, DType::U32) => true,
            (DType::S16, DType::S32) => true,
            (DType::U16, DType::U32) => true,
            (DType::U16, DType::S32) => true,
            (DType::S8, DType::Usize) => true,
            (DType::U8, DType::Usize) => true,
            (DType::S16, DType::Usize) => true,
            (DType::U16, DType::Usize) => true,
            (DType::S32, DType::Usize) => true,
            (DType::U32, DType::Usize) => true,
            (
                DType::Array { inner_data_type: x, count: c },
                DType::Array { inner_data_type: y, count: d },
            ) => coercible(*x, *y) && count_at_least(d, c),
            _ => false,
        }
    }
}

/// `Option<usize>` ordered with `None` below every count.
pub open spec fn count_at_least(d: Option<usize>, c: Option<usize>) -> bool {
    match (d, c) {
        (_, None) => true,
        (None, Some(_)) => false,
        (Some(m), Some(n)) => m >= n,
    }
}

impl DataType {
    pub fn is_numeric(&self) -> (r: bool)
        ensures
            r == spec_is_numeric(self@),
    {
        match self {
            DataType::S8 | DataType::U8 | DataType::S16 | DataType::U16 | DataType::S32
            | DataType::U32 | DataType::Usize => true,
            _ => false,
        }
    }

    pub fn can_be_coerced_into(&self, into: &Self) -> (r: bool)
        ensures
            r == coercible(self@, into@),
        decreases self,
    {
        if data_type_eq(self, into) {
            return true;
        }
        match (self, into) {
            (DataType::S8, DataType::S16)
            | (DataType::S8, DataType::S32)
            | (DataType::U8, DataType::U16)
            | (DataType::U8, DataType::S16)
            | (DataType::U8, DataType::U32)
            | (DataType::S16, DataType::S32)
            | (DataType::U16, DataType::U32)
            | (DataType::U16, DataType::S32)
            | (DataType::S8, DataType::Usize)
            | (DataType::U8, DataType::Usize)
            | (DataType::S16, DataType::Usize)
            | (DataType::U16, DataType::Usize)
            | (DataType::S32, DataType::Usize)
            | (DataType::U32, DataType::Usize) => true,
            (
                DataType::Array { inner_data_type: x, count: c },
                DataType::Array { inner_data_type: y, count: d },
            ) => {
                if x.can_be_coerced_into(y) {
                    match (d, c) {
                        (_, None) => true,
                        (None, Some(_)) => false,
                        (Some(m), Some(n)) => *m >= *n,
                    }
                } else {
                    false
                }
            },
            _ => false,
        }
    }

    /// The name of the type as the language writes it.
    pub fn name(&self) -> (s: String)
        ensures
            s@ == dt_name(self@),
        decreases self,
    {
        match self {
            DataType::S8 => string_of("s8"),
            DataType::U8 => string_of("u8"),
            DataType::S16 => string_of("s16"),
            DataType::U16 => string_of("u16"),
            DataType::S32 => string_of("s32"),
            DataType::U32 => string_of("u32"),
            DataType::Usize => string_of("usize"),
            DataType::F32 => string_of("f32"),
            DataType::F64 => string_of("f64"),
            DataType::String => string_of("string"),
            DataType::Bool => string_of("bool"),
            DataType::Reference(x) => {
                let inner = x.name();
                concat3("&", inner.as_str(), "")
            },
            DataType::Iterator(x) => {
                let inner = x.name();
                concat3("iterator<", inner.as_str(), ">")
            },
            DataType::UserDefined(x) => x.clone(),
            DataType::NativeObject(x) => string_of(x.name()),
            DataType::Array { inner_data_type, count } => {
                let inner = inner_data_type.name();
                match count {
                    Some(c) => {
                        let mut s = concat3("[", inner.as_str(), ";");
                        let digits = usize_to_decimal(*c);
                        s.append(digits.as_str());
                        s.append("]");
                        s
                    },
                    None => concat3("[", inner.as_str(), "]"),
                }
            },
        }
    }
}

/// The name of a type as the language writes it (`s8`, `&u32`,
/// `iterator<s32>`, `[u8;4]`, a struct's name, ...). An array without a count
/// is written `[T]`.
pub open spec fn dt_name(d: DType) -> Seq<char>
    decreases d,
{
    match d {
        DType::S8 => "s8"@,
        DType::U8 => "u8"@,
        DType::S16 => "s16"@,
        DType::U16 => "u16"@,
        DType::S32 => "s32"@,
        DType::U32 => "u32"@,
        DType::Usize => "usize"@,
        DType::F32 => "f32"@,
        DType::F64 => "f64"@,
        DType::String => "string"@,
        DType::Bool => "bool"@,
        DType::Reference(x) => "&"@ + dt_name(*x) + ""@,
        DType::Iterator(x) => "iterator<"@ + dt_name(*x) + ">"@,
        DType::UserDefined(x) => x,
        DType::NativeObject(x) => native_kind_name(x),
        DType::Array { inner_data_type: x, count: Some(c) } => "["@ + dt_name(*x) + ";"@ + decimal(
            c as nat,
        ) + "]"@,
        DType::Array { inner_data_type: x, count: None } => "["@ + dt_name(*x) + "]"@,
    }
}


} // verus!

verus! {

/* ---------- copies of syntax trees ---------- */

/// Two expressions have the same shape, names, literals and types.
pub open spec fn same_expr(a: Expression, b: Expression) -> bool
    decreases a,
{
    match (a, b) {
        (Expression::Value(x), Expression::Value(y)) => x == y,
        (Expression::FunctionCall(c), Expression::FunctionCall(d)) => c.identifier == d.identifier && same_exprs(
            c.arguments@,
            d.arguments@,
        ) && c.generics@ == d.generics@,
        (Expression::Binary { lhs, rhs, operator }, Expression::Binary { lhs: l2, rhs: r2, operator: o2 }) => operator == o2
            && same_expr(*lhs, *l2) && same_expr(*rhs, *r2),
        (Expression::Unary { operator, expression }, Expression::Unary { operator: o2, expression: e2 }) => operator == o2
            && same_expr(*expression, *e2),
        (Expression::StructInitialization(i), Expression::StructInitialization(j)) => i.identifier == j.identifier
            && i.use_defaults == j.use_defaults && same_field_inits(i.initialized_fields@, j.initialized_fields@),
        (Expression::ArrayInitialization(i), Expression::ArrayInitialization(j)) => i.use_defaults == j.use_defaults
            && same_exprs(i.initialized_fields@, j.initialized_fields@),
        (
            Expression::StructFieldAccess { expression, field_identifier },
            Expression::StructFieldAccess { expression: e2, field_identifier: f2 },
        ) => field_identifier == f2 && same_expr(*expression, *e2),
        (
            Expression::ArrayAccess { expression, index_expression },
            Expression::ArrayAccess { expression: e2, index_expression: i2 },
        ) => same_expr(*expression, *e2) && same_expr(*index_expression, *i2),
        (
            Expression::MethodCall { expression, method_identifier, arguments },
            Expression::MethodCall { expression: e2, method_identifier: m2, arguments: a2 },
        ) => method_identifier == m2 && same_expr(*expression, *e2) && same_exprs(arguments@, a2@),
        (Expression::Range { start, end }, Expression::Range { start: s2, end: n2 }) => same_expr(*start, *s2) && same_expr(
            *end,
            *n2,
        ),
        (
            Expression::TypeCast { expression, target_type },
            Expression::TypeCast { expression: e2, target_type: t2 },
        ) => target_type == t2 && same_expr(*expression, *e2),
        _ => false,
    }
}

/// Two lists of expressions match one for one (see `same_expr`).
pub open spec fn same_exprs(a: Seq<Expression>, b: Seq<Expression>) -> bool
    decreases a,
{
    a.len() == b.len() && forall|i: int| #![trigger a[i]] 0 <= i < a.len() ==> same_expr(a[i], b[i])
}

/// Two lists of field initializers match one for one.
pub open spec fn same_field_inits(a: Seq<StructFieldInitialization>, b: Seq<StructFieldInitialization>) -> bool
    decreases a,
{
    a.len() == b.len() && forall|i: int|
        #![trigger a[i]]
        0 <= i < a.len() ==> a[i].identifier == b[i].identifier && same_expr(a[i].expression, b[i].expression)
}

/// Two attributes have the same name and arguments.
pub open spec fn same_attr(a: Attribute, b: Attribute) -> bool {
    a.identifier == b.identifier && same_exprs(a.arguments@, b.arguments@)
}

/// Two lists of attributes match one for one.
pub open spec fn same_attrs(a: Seq<Attribute>, b: Seq<Attribute>) -> bool {
    a.len() == b.len() && forall|i: int| #![trigger a[i]] 0 <= i < a.len() ==> same_attr(a[i], b[i])
}

/// Two struct members match: fields with the same attributes, name and
/// type, or the same padding.
pub open spec fn same_member(a: StructMember, b: StructMember) -> bool {
    match (a, b) {
        (StructMember::Field(f), StructMember::Field(g)) => same_attrs(f.attributes@, g.attributes@) && f.identifier
            == g.identifier && f.data_type == g.data_type,
        (StructMember::Padding(n), StructMember::Padding(m)) => n == m,
        _ => false,
    }
}

/// Two lists of struct members match one for one.
pub open spec fn same_members(a: Seq<StructMember>, b: Seq<StructMember>) -> bool {
    a.len() == b.len() && forall|i: int| #![trigger a[i]] 0 <= i < a.len() ==> same_member(a[i], b[i])
}

/// Two struct definitions have the same attributes, name and members.
pub open spec fn same_struct_def(a: StructDefinition, b: StructDefinition) -> bool {
    same_attrs(a.attributes@, b.attributes@) && a.identifier == b.identifier && same_members(a.members@, b.members@)
}

/// Two assignment targets have the same shape and names.
pub open spec fn same_target(a: AssignmentTarget, b: AssignmentTarget) -> bool
    decreases a,
{
    match (a, b) {
        (AssignmentTarget::Identifier(x), AssignmentTarget::Identifier(y)) => x == y,
        (AssignmentTarget::Dereference(x), AssignmentTarget::Dereference(y)) => same_target(*x, *y),
        (
            AssignmentTarget::FieldAccess { target, field_identifier },
            AssignmentTarget::FieldAccess { target: t2, field_identifier: f2 },
        ) => field_identifier == f2 && same_target(*target, *t2),
        (
            AssignmentTarget::ArrayAccess { target, index_expression },
            AssignmentTarget::ArrayAccess { target: t2, index_expression: i2 },
        ) => same_target(*target, *t2) && same_expr(index_expression, i2),
        _ => false,
    }
}

/// Two statements have the same shape, names, literals and types.
pub open spec fn same_stmt(a: Statement, b: Statement) -> bool
    decreases a,
{
    match (a, b) {
        (Statement::Assignment(x), Statement::Assignment(y)) => x.declarative == y.declarative && same_target(
            x.target,
            y.target,
        ) && x.data_type == y.data_type && same_expr(x.expression, y.expression),
        (Statement::Expression(x), Statement::Expression(y)) => same_expr(x, y),
        (Statement::FunctionDefinition(f), Statement::FunctionDefinition(g)) => same_fn_def(f, g),
        (Statement::Return(x), Statement::Return(y)) => same_expr(x.expression, y.expression),
        (Statement::Break, Statement::Break) => true,
        (Statement::StructDefinition(x), Statement::StructDefinition(y)) => same_struct_def(x, y),
        (Statement::ControlStatement(x), Statement::ControlStatement(y)) => same_control(x, y),
        (Statement::StructImpl(x), Statement::StructImpl(y)) => same_impl(x, y),
        (Statement::Import(x), Statement::Import(y)) => x == y,
        _ => false,
    }
}

/// Two lists of statements match one for one.
pub open spec fn same_stmts(a: Seq<Statement>, b: Seq<Statement>) -> bool
    decreases a,
{
    a.len() == b.len() && forall|i: int| #![trigger a[i]] 0 <= i < a.len() ==> same_stmt(a[i], b[i])
}

/// Two blocks have matching statements.
pub open spec fn same_block(a: Block, b: Block) -> bool
    decreases a,
{
    same_stmts(a.statements@, b.statements@)
}

/// Two control statements have the same shape and contents.
pub open spec fn same_control(a: ControlStatement, b: ControlStatement) -> bool
    decreases a,
{
    match (a, b) {
        (
            ControlStatement::If { expression, block, children },
            ControlStatement::If { expression: e2, block: b2, children: c2 },
        ) => same_expr(expression, e2) && same_block(block, b2) && same_controls(children@, c2@),
        (ControlStatement::ElseIf { expression, block }, ControlStatement::ElseIf { expression: e2, block: b2 }) => same_expr(
            expression,
            e2,
        ) && same_block(block, b2),
        (ControlStatement::Else { block }, ControlStatement::Else { block: b2 }) => same_block(block, b2),
        (ControlStatement::While { expression, block }, ControlStatement::While { expression: e2, block: b2 }) => same_expr(
            expression,
            e2,
        ) && same_block(block, b2),
        (ControlStatement::Loop { block }, ControlStatement::Loop { block: b2 }) => same_block(block, b2),
        (
            ControlStatement::For { identifier, iterable, block },
            ControlStatement::For { identifier: i2, iterable: t2, block: b2 },
        ) => identifier == i2 && same_expr(iterable, t2) && same_block(block, b2),
        _ => false,
    }
}

/// Two lists of control statements match one for one.
pub open spec fn same_controls(a: Seq<ControlStatement>, b: Seq<ControlStatement>) -> bool
    decreases a,
{
    a.len() == b.len() && forall|i: int| #![trigger a[i]] 0 <= i < a.len() ==> same_control(a[i], b[i])
}

/// Two function definitions have the same attributes, name, body and
/// parameters.
pub open spec fn same_fn_def(a: FunctionDefinition, b: FunctionDefinition) -> bool
    decreases a,
{
    same_attrs(a.attributes@, b.attributes@) && a.identifier == b.identifier && same_block(a.body, b.body)
        && a.parameters@ == b.parameters@
}

/// Two lists of function definitions match one for one.
pub open spec fn same_fn_defs(a: Seq<FunctionDefinition>, b: Seq<FunctionDefinition>) -> bool
    decreases a,
{
    a.len() == b.len() && forall|i: int| #![trigger a[i]] 0 <= i < a.len() ==> same_fn_def(a[i], b[i])
}

/// Two method definitions have the same attributes, name, body and
/// parameters.
pub open spec fn same_method_def(a: MethodDefinition, b: MethodDefinition) -> bool
    decreases a,
{
    same_attrs(a.attributes@, b.attributes@) && a.identifier == b.identifier && same_block(a.body, b.body)
        && a.parameters@ == b.parameters@
}

/// Two lists of method definitions match one for one.
pub open spec fn same_method_defs(a: Seq<MethodDefinition>, b: Seq<MethodDefinition>) -> bool
    decreases a,
{
    a.len() == b.len() && forall|i: int| #![trigger a[i]] 0 <= i < a.len() ==> same_method_def(a[i], b[i])
}

/// Two impl blocks are for the same struct and define the same functions
/// and methods.
pub open spec fn same_impl(a: StructImpl, b: StructImpl) -> bool
    decreases a,
{
    a.struct_identifier == b.struct_identifier && same_fn_defs(a.function_definitions@, b.function_definitions@)
        && same_method_defs(a.method_definitions@, b.method_definitions@)
}


#[verifier::loop_isolation(false)]
fn clone_expressions(v: &Vec<Expression>) -> (r: Vec<Expression>)
    ensures
        same_exprs(v@, r@),
    decreases v,
{
    let mut r: Vec<Expression> = Vec::new();
    let mut i: usize = 0;
    while i < v.len()
        invariant
            i <= v@.len(),
            r@.len() == i,
            forall|k: int| 0 <= k < i ==> same_expr(#[trigger] v@[k], r@[k]),
        decreases v.len() - i,
    {
        proof {
            assert(decreases_to!(v@ => v@[i as int]));
        }
        r.push(clone_expression(&v[i]));
        i = i + 1;
    }
    r
}

#[verifier::loop_isolation(false)]
fn clone_statements(v: &Vec<Statement>) -> (r: Vec<Statement>)
    ensures
        same_stmts(v@, r@),
    decreases v,
{
    let mut r: Vec<Statement> = Vec::new();
    let mut i: usize = 0;
    while i < v.len()
        invariant
            i <= v@.len(),
            r@.len() == i,
            forall|k: int| 0 <= k < i ==> same_stmt(#[trigger] v@[k], r@[k]),
        decreases v.len() - i,
    {
        proof {
            assert(decreases_to!(v@ => v@[i as int]));
        }
        r.push(clone_statement(&v[i]));
        i = i + 1;
    }
    r
}

#[verifier::loop_isolation(false)]
fn clone_attributes(v: &Vec<Attribute>) -> (r: Vec<Attribute>)
    ensures
        same_attrs(v@, r@),
    decreases v,
{
    let mut r: Vec<Attribute> = Vec::new();
    let mut i: usize = 0;
    while i < v.len()
        invariant
            i <= v@.len(),
            r@.len() == i,
            forall|k: int| 0 <= k < i ==> same_attr(#[trigger] v@[k], r@[k]),
        decreases v.len() - i,
    {
        proof {
            assert(decreases_to!(v@ => v@[i as int]));
        }
        r.push(clone_attribute(&v[i]));
        i = i + 1;
    }
    r
}

#[verifier::loop_isolation(false)]
fn clone_parameters(v: &Vec<Parameter>) -> (r: Vec<Parameter>)
    ensures
        r@ == v@,
    decreases v,
{
    let mut r: Vec<Parameter> = Vec::new();
    let mut i: usize = 0;
    while i < v.len()
        invariant
            i <= v@.len(),
            r@ == v@.take(i as int),
        decreases v.len() - i,
    {
        proof {
            assert(decreases_to!(v@ => v@[i as int]));
        }
        r.push(clone_parameter(&v[i]));
        assert(r@ =~= v@.take(i + 1));
        i = i + 1;
    }
    assert(v@.take(v@.len() as int) =~= v@);
    r
}

#[verifier::loop_isolation(false)]
fn clone_field_inits(v: &Vec<StructFieldInitialization>) -> (r: Vec<StructFieldInitialization>)
    ensures
        same_field_inits(v@, r@),
    decreases v,
{
    let mut r: Vec<StructFieldInitialization> = Vec::new();
    let mut i: usize = 0;
    while i < v.len()
        invariant
            i <= v@.len(),
            r@.len() == i,
            forall|k: int| 0 <= k < i ==> (#[trigger] v@[k]).identifier == r@[k].identifier && same_expr(v@[k].expression, r@[k].expression),
        decreases v.len() - i,
    {
        proof {
            assert(decreases_to!(v@ => v@[i as int]));
        }
        r.push(clone_field_init(&v[i]));
        i = i + 1;
    }
    r
}

#[verifier::loop_isolation(false)]
fn clone_control_statements(v: &Vec<ControlStatement>) -> (r: Vec<ControlStatement>)
    ensures
        same_controls(v@, r@),
    decreases v,
{
    let mut r: Vec<ControlStatement> = Vec::new();
    let mut i: usize = 0;
    while i < v.len()
        invariant
            i <= v@.len(),
            r@.len() == i,
            forall|k: int| 0 <= k < i ==> same_control(#[trigger] v@[k], r@[k]),
        decreases v.len() - i,
    {
        proof {
            assert(decreases_to!(v@ => v@[i as int]));
        }
        r.push(clone_control_statement(&v[i]));
        i = i + 1;
    }
    r
}

#[verifier::loop_isolation(false)]
fn clone_data_types(v: &Vec<DataType>) -> (r: Vec<DataType>)
    ensures
        r@ == v@,
    decreases v,
{
    let mut r: Vec<DataType> = Vec::new();
    let mut i: usize = 0;
    while i < v.len()
        invariant
            i <= v@.len(),
            r@.len() == i,
            forall|k: int| 0 <= k < i ==> #[trigger] r@[k] == v@[k],
        decreases v.len() - i,
    {
        proof {
            assert(decreases_to!(v@ => v@[i as int]));
        }
        r.push(clone_data_type(&v[i]));
        i = i + 1;
    }
    r
}

#[verifier::loop_isolation(false)]
fn clone_members(v: &Vec<StructMember>) -> (r: Vec<StructMember>)
    ensures
        same_members(v@, r@),
    decreases v,
{
    let mut r: Vec<StructMember> = Vec::new();
    let mut i: usize = 0;
    while i < v.len()
        invariant
            i <= v@.len(),
            r@.len() == i,
            forall|k: int| 0 <= k < i ==> same_member(#[trigger] v@[k], r@[k]),
        decreases v.len() - i,
    {
        proof {
            assert(decreases_to!(v@ => v@[i as int]));
        }
        r.push(clone_member(&v[i]));
        i = i + 1;
    }
    r
}

#[verifier::loop_isolation(false)]
fn clone_function_definitions(v: &Vec<FunctionDefinition>) -> (r: Vec<FunctionDefinition>)
    ensures
        same_fn_defs(v@, r@),
    decreases v,
{
    let mut r: Vec<FunctionDefinition> = Vec::new();
    let mut i: usize = 0;
    while i < v.len()
        invariant
            i <= v@.len(),
            r@.len() == i,
            forall|k: int| 0 <= k < i ==> same_fn_def(#[trigger] v@[k], r@[k]),
        decreases v.len() - i,
    {
        proof {
            assert(decreases_to!(v@ => v@[i as int]));
        }
        r.push(clone_function_definition(&v[i]));
        i = i + 1;
    }
    r
}

#[verifier::loop_isolation(false)]
fn clone_method_definitions(v: &Vec<MethodDefinition>) -> (r: Vec<MethodDefinition>)
    ensures
        same_method_defs(v@, r@),
        r@.len() == v@.len(),
        forall|k: int| 0 <= k < v@.len() ==> (#[trigger] r@[k]).identifier == v@[k].identifier && r@[k].parameters@ == v@[k].parameters@,
    decreases v,
{
    let mut r: Vec<MethodDefinition> = Vec::new();
    let mut i: usize = 0;
    while i < v.len()
        invariant
            i <= v@.len(),
            r@.len() == i,
            forall|k: int| 0 <= k < i ==> (#[trigger] r@[k]).identifier == v@[k].identifier && r@[k].parameters@ == v@[k].parameters@,
            forall|k: int| 0 <= k < i ==> same_method_def(#[trigger] v@[k], r@[k]),
        decreases v.len() - i,
    {
        proof {
            assert(decreases_to!(v@ => v@[i as int]));
        }
        r.push(clone_method_definition(&v[i]));
        i = i + 1;
    }
    r
}

pub(crate) fn clone_value_literal(v: &Value) -> (r: Value)
    ensures
        r == *v,
{
    match v {
        Value::S8(x) => Value::S8(*x),
        Value::U8(x) => Value::U8(*x),
        Value::S16(x) => Value::S16(*x),
        Value::U16(x) => Value::U16(*x),
        Value::S32(x) => Value::S32(*x),
        Value::U32(x) => Value::U32(*x),
        Value::Usize(x) => Value::Usize(*x),
        Value::String(x) => Value::String(x.clone()),
        Value::Bool(x) => Value::Bool(*x),
        Value::Identifier(x) => Value::Identifier(x.clone()),
    }
}

/// Copies an expression.
pub(crate) fn clone_expression(e: &Expression) -> (r: Expression)
    ensures
        same_expr(*e, r),
    decreases e,
{
    match e {
        Expression::Value(v) => Expression::Value(clone_value_literal(v)),
        Expression::FunctionCall(c) => Expression::FunctionCall(FunctionCall {
            identifier: c.identifier.clone(),
            arguments: clone_expressions(&c.arguments),
            generics: clone_data_types(&c.generics),
        }),
        Expression::Binary { lhs, rhs, operator } => Expression::Binary {
            lhs: Box::new(clone_expression(lhs)),
            rhs: Box::new(clone_expression(rhs)),
            operator: *operator,
        },
        Expression::Unary { operator, expression } => Expression::Unary {
            operator: *operator,
            expression: Box::new(clone_expression(expression)),
        },
        Expression::StructInitialization(init) => Expression::StructInitialization(StructInitialization {
            identifier: init.identifier.clone(),
            initialized_fields: clone_field_inits(&init.initialized_fields),
            use_defaults: init.use_defaults,
        }),
        Expression::ArrayInitialization(init) => Expression::ArrayInitialization(ArrayInitialization {
            initialized_fields: clone_expressions(&init.initialized_fields),
            use_defaults: init.use_defaults,
        }),
        Expression::StructFieldAccess { expression, field_identifier } => Expression::StructFieldAccess {
            expression: Box::new(clone_expression(expression)),
            field_identifier: field_identifier.clone(),
        },
        Expression::ArrayAccess { expression, index_expression } => Expression::ArrayAccess {
            expression: Box::new(clone_expression(expression)),
            index_expression: Box::new(clone_expression(index_expression)),
        },
        Expression::MethodCall { expression, method_identifier, arguments } => Expression::MethodCall {
            expression: Box::new(clone_expression(expression)),
            method_identifier: method_identifier.clone(),
            arguments: clone_expressions(arguments),
        },
        Expression::Range { start, end } => Expression::Range {
            start: Box::new(clone_expression(start)),
            end: Box::new(clone_expression(end)),
        },
        Expression::TypeCast { expression, target_type } => Expression::TypeCast {
            expression: Box::new(clone_expression(expression)),
            target_type: clone_data_type(target_type),
        },
    }
}

fn clone_field_init(f: &StructFieldInitialization) -> (r: StructFieldInitialization)
    ensures
        r.identifier == f.identifier,
        same_expr(f.expression, r.expression),
    decreases f,
{
    StructFieldInitialization { identifier: f.identifier.clone(), expression: clone_expression(&f.expression) }
}

fn clone_attribute(a: &Attribute) -> (r: Attribute)
    ensures
        same_attr(*a, r),
    decreases a,
{
    Attribute { identifier: a.identifier.clone(), arguments: clone_expressions(&a.arguments) }
}

fn clone_parameter(p: &Parameter) -> (r: Parameter)
    ensures
        r == *p,
{
    Parameter { identifier: p.identifier.clone(), data_type: clone_data_type(&p.data_type) }
}

fn clone_block(b: &Block) -> (r: Block)
    ensures
        same_block(*b, r),
    decreases b,
{
    Block { statements: clone_statements(&b.statements) }
}

fn clone_target(t: &AssignmentTarget) -> (r: AssignmentTarget)
    ensures
        same_target(*t, r),
    decreases t,
{
    match t {
        AssignmentTarget::Identifier(x) => AssignmentTarget::Identifier(x.clone()),
        AssignmentTarget::Dereference(x) => AssignmentTarget::Dereference(Box::new(clone_target(x))),
        AssignmentTarget::FieldAccess { target, field_identifier } => AssignmentTarget::FieldAccess {
            target: Box::new(clone_target(target)),
            field_identifier: field_identifier.clone(),
        },
        AssignmentTarget::ArrayAccess { target, index_expression } => AssignmentTarget::ArrayAccess {
            target: Box::new(clone_target(target)),
            index_expression: clone_expression(index_expression),
        },
    }
}

fn clone_control_statement(c: &ControlStatement) -> (r: ControlStatement)
    ensures
        same_control(*c, r),
    decreases c,
{
    match c {
        ControlStatement::If { expression, block, children } => ControlStatement::If {
            expression: clone_expression(expression),
            block: clone_block(block),
            children: clone_control_statements(children),
        },
        ControlStatement::ElseIf { expression, block } => ControlStatement::ElseIf {
            expression: clone_expression(expression),
            block: clone_block(block),
        },
        ControlStatement::Else { block } => ControlStatement::Else { block: clone_block(block) },
        ControlStatement::While { expression, block } => ControlStatement::While {
            expression: clone_expression(expression),
            block: clone_block(block),
        },
        ControlStatement::Loop { block } => ControlStatement::Loop { block: clone_block(block) },
        ControlStatement::For { identifier, iterable, block } => ControlStatement::For {
            identifier: identifier.clone(),
            iterable: clone_expression(iterable),
            block: clone_block(block),
        },
    }
}

/// Copies a statement.
pub(crate) fn clone_statement(s: &Statement) -> (r: Statement)
    ensures
        same_stmt(*s, r),
    decreases s,
{
    match s {
        Statement::Assignment(a) => Statement::Assignment(Assignment {
            declarative: a.declarative,
            target: clone_target(&a.target),
            data_type: match &a.data_type {
                Some(t) => Some(clone_data_type(t)),
                None => None,
            },
            expression: clone_expression(&a.expression),
        }),
        Statement::Expression(e) => Statement::Expression(clone_expression(e)),
        Statement::FunctionDefinition(f) => Statement::FunctionDefinition(clone_function_definition(f)),
        Statement::Return(r) => Statement::Return(Return { expression: clone_expression(&r.expression) }),
        Statement::Break => Statement::Break,
        Statement::StructDefinition(d) => Statement::StructDefinition(clone_struct_definition(d)),
        Statement::ControlStatement(c) => Statement::ControlStatement(clone_control_statement(c)),
        Statement::StructImpl(i) => Statement::StructImpl(clone_struct_impl(i)),
        Statement::Import(x) => Statement::Import(x.clone()),
    }
}

/// Copies a function definition.
pub(crate) fn clone_function_definition(f: &FunctionDefinition) -> (r: FunctionDefinition)
    ensures
        same_fn_def(*f, r),
        r.identifier == f.identifier,
        r.parameters@ == f.parameters@,
    decreases f,
{
    FunctionDefinition {
        attributes: clone_attributes(&f.attributes),
        identifier: f.identifier.clone(),
        body: clone_block(&f.body),
        parameters: clone_parameters(&f.parameters),
    }
}

/// Copies a method definition.
pub(crate) fn clone_method_definition_pub(f: &MethodDefinition) -> (r: MethodDefinition)
    ensures
        same_method_def(*f, r),
        r.identifier == f.identifier,
        r.parameters@ == f.parameters@,
{
    clone_method_definition(f)
}

fn clone_method_definition(f: &MethodDefinition) -> (r: MethodDefinition)
    ensures
        same_method_def(*f, r),
        r.identifier == f.identifier,
        r.parameters@ == f.parameters@,
    decreases f,
{
    MethodDefinition {
        attributes: clone_attributes(&f.attributes),
        identifier: f.identifier.clone(),
        body: clone_block(&f.body),
        parameters: clone_parameters(&f.parameters),
    }
}

fn clone_member(m: &StructMember) -> (r: StructMember)
    ensures
        same_member(*m, r),
    decreases m,
{
    match m {
        StructMember::Field(f) => StructMember::Field(StructFieldDefinition {
            attributes: clone_attributes(&f.attributes),
            identifier: f.identifier.clone(),
            data_type: clone_data_type(&f.data_type),
        }),
        StructMember::Padding(n) => StructMember::Padding(*n),
    }
}

/// Copies a struct definition.
pub(crate) fn clone_struct_definition(d: &StructDefinition) -> (r: StructDefinition)
    ensures
        same_struct_def(*d, r),
    decreases d,
{
    StructDefinition {
        attributes: clone_attributes(&d.attributes),
        identifier: d.identifier.clone(),
        members: clone_members(&d.members),
    }
}

/// Copies an impl block.
pub(crate) fn clone_struct_impl(i: &StructImpl) -> (r: StructImpl)
    ensures
        same_impl(*i, r),
        r.struct_identifier == i.struct_identifier,
        r.method_definitions@.len() == i.method_definitions@.len(),
        forall|k: int|
            0 <= k < i.method_definitions@.len() ==> (#[trigger] r.method_definitions@[k]).identifier
                == i.method_definitions@[k].identifier && r.method_definitions@[k].parameters@
                == i.method_definitions@[k].parameters@,
    decreases i,
{
    StructImpl {
        struct_identifier: i.struct_identifier.clone(),
        function_definitions: clone_function_definitions(&i.function_definitions),
        method_definitions: clone_method_definitions(&i.method_definitions),
    }
}

} // verus!
