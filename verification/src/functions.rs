//! The functions, structs and impls a program defines, and how names resolve
//! to them.
use vstd::prelude::*;

use crate::ast::{
    DType, Expression, FunctionDefinition, MethodDefinition, Parameter, StructDefinition,
    StructFieldDefinition, StructImpl, Value, clone_function_definition, clone_struct_impl,
};
use crate::error::{RuntimeError, RuntimeResult};
use crate::runtime::{
    ControlFlow, NativeFunction, Runtime, RuntimeFunction, find_struct, struct_def,
};
use crate::serialization::{declared_pod, find_attr, spec_fields};
use crate::text::{str_eq, string_of};
use crate::value::RuntimeValue;

verus! {

/// The function a name resolves to: its newest definition.
pub open spec fn fn_lookup(fns: Seq<(String, RuntimeFunction)>, name: Seq<char>) -> Option<RuntimeFunction>
    decreases fns.len(),
{
    if fns.len() == 0 {
        None
    } else if fns.last().0@ == name {
        Some(fns.last().1)
    } else {
        fn_lookup(fns.drop_last(), name)
    }
}

/// The impl block a struct name resolves to: its newest one.
pub open spec fn impl_lookup(impls: Seq<StructImpl>, name: Seq<char>) -> Option<StructImpl>
    decreases impls.len(),
{
    if impls.len() == 0 {
        None
    } else if impls.last().struct_identifier@ == name {
        Some(impls.last())
    } else {
        impl_lookup(impls.drop_last(), name)
    }
}

/// The impl block a name resolves to is one for that name.
pub proof fn lemma_impl_lookup_name(impls: Seq<StructImpl>, name: Seq<char>)
    ensures
        impl_lookup(impls, name) matches Some(si) ==> si.struct_identifier@ == name,
    decreases impls.len(),
{
    if impls.len() > 0 && impls.last().struct_identifier@ != name {
        lemma_impl_lookup_name(impls.drop_last(), name);
    }
}

/// The method a call on a struct runs: the named method of the struct's
/// impl block, where the struct is defined.
pub open spec fn struct_method(rt: Runtime, struct_identifier: Seq<char>, method_identifier: Seq<char>) -> Option<MethodDefinition> {
    if struct_def(rt.structs@, struct_identifier) is None {
        None
    } else {
        match impl_lookup(rt.struct_impls@, struct_identifier) {
            Some(si) => method_lookup(si.method_definitions@, method_identifier),
            None => None,
        }
    }
}

/// The first method of an impl block with the given name.
pub open spec fn method_lookup(methods: Seq<MethodDefinition>, name: Seq<char>) -> Option<MethodDefinition>
    decreases methods.len(),
{
    if methods.len() == 0 {
        None
    } else if methods[0].identifier@ == name {
        Some(methods[0])
    } else {
        method_lookup(methods.drop_first(), name)
    }
}

fn find_function(fns: &Vec<(String, RuntimeFunction)>, identifier: &str) -> (r: Option<usize>)
    ensures
        r is Some <==> fn_lookup(fns@, identifier@) is Some,
        r matches Some(i) ==> i < fns@.len() && fns@[i as int].1 == fn_lookup(fns@, identifier@)->Some_0,
{
    let mut i = fns.len();
    assert(fns@.take(i as int) == fns@);
    while i > 0
        invariant
            i <= fns@.len(),
            fn_lookup(fns@, identifier@) == fn_lookup(fns@.take(i as int), identifier@),
        decreases i,
    {
        assert(fns@.take(i as int).drop_last() == fns@.take(i - 1));
        if str_eq(fns[i - 1].0.as_str(), identifier) {
            return Some(i - 1);
        }
        i = i - 1;
    }
    None
}

impl StructImpl {
    /// Whether the impl block has a method with the given name.
    pub fn has_method(&self, identifier: &str) -> (r: bool)
        ensures
            r == (method_lookup(self.method_definitions@, identifier@) is Some),
    {
        self.get_method_definition(identifier).is_ok()
    }

    /// The method of the impl block with the given name.
    pub fn get_method_definition(&self, identifier: &str) -> (r: RuntimeResult<&MethodDefinition>)
        ensures
            r is Ok <==> method_lookup(self.method_definitions@, identifier@) is Some,
            r matches Ok(m) ==> *m == method_lookup(self.method_definitions@, identifier@)->Some_0,
            r matches Err(e) ==> e matches RuntimeError::MethodNotFound { method_identifier, struct_identifier }
                && method_identifier@ == identifier@ && struct_identifier@ == self.struct_identifier@,
    {
        let mut i: usize = 0;
        assert(self.method_definitions@.skip(0) == self.method_definitions@);
        while i < self.method_definitions.len()
            invariant
                i <= self.method_definitions@.len(),
                method_lookup(self.method_definitions@, identifier@) == method_lookup(self.method_definitions@.skip(i as int), identifier@),
            decreases self.method_definitions@.len() - i,
        {
            assert(self.method_definitions@.skip(i as int).drop_first() == self.method_definitions@.skip(i + 1));
            if str_eq(self.method_definitions[i].identifier.as_str(), identifier) {
                assert(self.method_definitions@.skip(i as int)[0] == self.method_definitions@[i as int]);
                return Ok(&self.method_definitions[i]);
            }
            i = i + 1;
        }
        Err(
            RuntimeError::MethodNotFound {
                method_identifier: String::from_str(identifier),
                struct_identifier: self.struct_identifier.clone(),
            },
        )
    }
}

/// Why a name cannot be defined again: the kind of what it already names.
pub open spec fn already_defined(rt: Runtime, name: Seq<char>) -> Option<Seq<char>> {
    if struct_def(rt.structs@, name) is Some {
        Some("struct"@)
    } else if fn_lookup(rt.functions@, name) is Some {
        Some("function"@)
    } else {
        None
    }
}

impl Runtime {
    pub fn functions(&self) -> (r: &Vec<(String, RuntimeFunction)>)
        ensures
            r@ == self.functions@,
    {
        &self.functions
    }

    /// The function the name resolves to.
    pub fn get_function(&self, identifier: &str) -> (r: RuntimeResult<&RuntimeFunction>)
        ensures
            r is Ok <==> fn_lookup(self.functions@, identifier@) is Some,
            r matches Ok(f) ==> *f == fn_lookup(self.functions@, identifier@)->Some_0,
            r matches Err(e) ==> e matches RuntimeError::FunctionNotFound(n) && n@ == identifier@,
    {
        match find_function(&self.functions, identifier) {
            Some(i) => Ok(&self.functions[i].1),
            None => Err(RuntimeError::FunctionNotFound(String::from_str(identifier))),
        }
    }

    /// The user-defined function the name resolves to.
    pub fn get_user_function(&self, identifier: &str) -> (r: RuntimeResult<&FunctionDefinition>)
        ensures
            r is Ok <==> fn_lookup(self.functions@, identifier@) matches Some(RuntimeFunction::User(_)),
            r matches Ok(f) ==> fn_lookup(self.functions@, identifier@) == Some(RuntimeFunction::User(*f)),
            r matches Err(e) ==> match fn_lookup(self.functions@, identifier@) {
                None => e matches RuntimeError::FunctionNotFound(n) && n@ == identifier@,
                Some(_) => e matches RuntimeError::NotAUserDefinedFunction(n) && n@ == identifier@,
            },
    {
        match self.get_function(identifier)? {
            RuntimeFunction::User(f) => Ok(f),
            RuntimeFunction::Native(_) => Err(RuntimeError::NotAUserDefinedFunction(String::from_str(identifier))),
        }
    }

    /// The native function the name resolves to.
    pub fn get_native_function(&self, identifier: &str) -> (r: RuntimeResult<NativeFunction>)
        ensures
            r is Ok <==> fn_lookup(self.functions@, identifier@) matches Some(RuntimeFunction::Native(_)),
            r matches Ok(f) ==> fn_lookup(self.functions@, identifier@) == Some(RuntimeFunction::Native(f)),
            r matches Err(e) ==> match fn_lookup(self.functions@, identifier@) {
                None => e matches RuntimeError::FunctionNotFound(n) && n@ == identifier@,
                Some(_) => e matches RuntimeError::NotANativeFunction(n) && n@ == identifier@,
            },
    {
        match self.get_function(identifier)? {
            RuntimeFunction::Native(f) => Ok(*f),
            RuntimeFunction::User(_) => Err(RuntimeError::NotANativeFunction(String::from_str(identifier))),
        }
    }

    /// Refuses a name that already names a struct or a function.
    pub fn validate_identifier(&self, identifier: &str) -> (r: RuntimeResult<()>)
        ensures
            r is Ok <==> already_defined(*self, identifier@) is None,
            r matches Err(e) ==> e matches RuntimeError::AlreadyDefined(n, kind) && n@ == identifier@
                && kind@ == already_defined(*self, identifier@)->Some_0,
    {
        proof {
            reveal_strlit("struct");
            reveal_strlit("function");
        }
        if find_struct(&self.structs, identifier).is_ok() {
            Err(RuntimeError::AlreadyDefined(String::from_str(identifier), string_of("struct")))
        } else if find_function(&self.functions, identifier).is_some() {
            Err(RuntimeError::AlreadyDefined(String::from_str(identifier), string_of("function")))
        } else {
            Ok(())
        }
    }

    /// Defines a user function under its name.
    pub fn define_function(&mut self, func: &FunctionDefinition) -> (r: RuntimeResult<ControlFlow>)
        ensures
            r is Ok <==> already_defined(*old(self), func.identifier@) is None,
            r matches Ok(flow) ==> flow is Continue && final(self).functions@.len() == old(self).functions@.len() + 1
                && final(self).functions@.drop_last() == old(self).functions@
                && final(self).functions@.last().0 == func.identifier
                && (final(self).functions@.last().1 matches RuntimeFunction::User(g) && crate::ast::same_fn_def(*func, g)),
            r matches Err(e) ==> e is AlreadyDefined && final(self).functions == old(self).functions,
            final(self).heap == old(self).heap,
            final(self).structs == old(self).structs,
            final(self).global_scope == old(self).global_scope,
            final(self).global_sub_scopes == old(self).global_sub_scopes,
            final(self).call_stack == old(self).call_stack,
            final(self).dead_frames == old(self).dead_frames,
            final(self).struct_impls == old(self).struct_impls,
            final(self).config == old(self).config,
            final(self).byte_order == old(self).byte_order,
    {
        let identifier = func.identifier.clone();
        self.validate_identifier(identifier.as_str())?;
        let copy = clone_function_definition(func);
        self.functions.push((identifier, RuntimeFunction::User(copy)));
        assert(self.functions@.drop_last() =~= old(self).functions@);
        Ok(ControlFlow::Continue)
    }

    /// Adds an impl block for a struct.
    pub fn impl_struct(&mut self, struct_impl: &StructImpl) -> (r: RuntimeResult<ControlFlow>)
        ensures
            r matches Ok(flow) && flow is Continue,
            final(self).struct_impls@.len() == old(self).struct_impls@.len() + 1,
            final(self).struct_impls@.drop_last() == old(self).struct_impls@,
            final(self).struct_impls@.last().struct_identifier == struct_impl.struct_identifier,
            crate::ast::same_impl(*struct_impl, final(self).struct_impls@.last()),
            final(self).struct_impls@.last().method_definitions@.len() == struct_impl.method_definitions@.len(),
            forall|k: int|
                0 <= k < struct_impl.method_definitions@.len() ==> (#[trigger] final(self).struct_impls@.last().method_definitions@[k]).identifier
                    == struct_impl.method_definitions@[k].identifier && final(self).struct_impls@.last().method_definitions@[k].parameters@
                    == struct_impl.method_definitions@[k].parameters@,
            final(self).heap == old(self).heap,
            final(self).structs == old(self).structs,
            final(self).functions == old(self).functions,
            final(self).global_scope == old(self).global_scope,
            final(self).global_sub_scopes == old(self).global_sub_scopes,
            final(self).call_stack == old(self).call_stack,
            final(self).dead_frames == old(self).dead_frames,
            final(self).config == old(self).config,
            final(self).byte_order == old(self).byte_order,
    {
        let mut copy = clone_struct_impl(struct_impl);
        copy.struct_identifier = struct_impl.struct_identifier.clone();
        self.struct_impls.push(copy);
        assert(self.struct_impls@.drop_last() =~= old(self).struct_impls@);
        Ok(ControlFlow::Continue)
    }

    /// The impl block of the named struct.
    pub fn get_struct_impl(&self, identifier: &str) -> (r: RuntimeResult<&StructImpl>)
        ensures
            r is Ok <==> impl_lookup(self.struct_impls@, identifier@) is Some,
            r matches Ok(i) ==> *i == impl_lookup(self.struct_impls@, identifier@)->Some_0,
            r matches Err(e) ==> e matches RuntimeError::StructImplNotFound(n) && n@ == identifier@,
    {
        let mut i = self.struct_impls.len();
        assert(self.struct_impls@.take(i as int) == self.struct_impls@);
        while i > 0
            invariant
                i <= self.struct_impls@.len(),
                impl_lookup(self.struct_impls@, identifier@) == impl_lookup(self.struct_impls@.take(i as int), identifier@),
            decreases i,
        {
            assert(self.struct_impls@.take(i as int).drop_last() == self.struct_impls@.take(i - 1));
            if str_eq(self.struct_impls[i - 1].struct_identifier.as_str(), identifier) {
                return Ok(&self.struct_impls[i - 1]);
            }
            i = i - 1;
        }
        Err(RuntimeError::StructImplNotFound(String::from_str(identifier)))
    }

    /// Pairs each parameter's name with the argument at its place.
    pub fn collect_runtime_function_arguments(ast_parameters: &Vec<Parameter>, runtime_values: Vec<RuntimeValue>) -> (r:
        RuntimeResult<Vec<(String, RuntimeValue)>>)
        ensures
            r is Ok <==> ast_parameters@.len() == runtime_values@.len(),
            r matches Ok(args) ==> args@.len() == runtime_values@.len() && forall|i: int|
                0 <= i < args@.len() ==> (#[trigger] args@[i]).0 == ast_parameters@[i].identifier
                    && args@[i].1 == runtime_values@[i],
            r matches Err(e) ==> e is InvalidFunctionArguments,
    {
        if ast_parameters.len() != runtime_values.len() {
            return Err(
                RuntimeError::InvalidFunctionArguments {
                    signature: string_of("the called function"),
                    note: string_of("The number of arguments does not match the number of parameters"),
                },
            );
        }
        let mut args: Vec<(String, RuntimeValue)> = Vec::new();
        let mut values = runtime_values;
        let ghost all = values@;
        let mut rev: Vec<RuntimeValue> = Vec::new();
        while values.len() > 0
            invariant
                rev@.len() + values@.len() == all.len(),
                values@ == all.take(values@.len() as int),
                forall|i: int| 0 <= i < rev@.len() ==> #[trigger] rev@[i] == all[all.len() - 1 - i],
            decreases values@.len(),
        {
            let v = values.pop().unwrap();
            rev.push(v);
            assert(values@ =~= all.take(values@.len() as int));
        }
        let mut i: usize = 0;
        while rev.len() > 0
            invariant
                i + rev@.len() == all.len(),
                ast_parameters.len() == all.len(),
                forall|j: int| 0 <= j < rev@.len() ==> #[trigger] rev@[j] == all[all.len() - 1 - j],
                args@.len() == i,
                forall|j: int| 0 <= j < i ==> (#[trigger] args@[j]).0 == ast_parameters@[j].identifier && args@[j].1 == all[j],
            decreases rev@.len(),
        {
            let v = rev.pop().unwrap();
            args.push((ast_parameters[i].identifier.clone(), v));
            i = i + 1;
        }
        Ok(args)
    }
}

/* ---------- POD validation ---------- */

/// The number of type constructors in a type.
pub open spec fn dtype_size(t: DType) -> nat
    decreases t,
{
    match t {
        DType::Reference(x) => 1 + dtype_size(*x),
        DType::Iterator(x) => 1 + dtype_size(*x),
        DType::Array { inner_data_type, .. } => 1 + dtype_size(*inner_data_type),
        _ => 1,
    }
}

/// A string field may be POD when it is written as ASCII.
pub open spec fn ascii_exception(f: StructFieldDefinition) -> bool {
    match find_attr(f.attributes@, "serialize_as"@) {
        Some(a) => a.arguments@.len() > 0 && (a.arguments@[0] matches Expression::Value(Value::String(s)) && s@ == "ascii"@),
        None => false,
    }
}

/// Whether values of the type have a byte layout: integers and booleans,
/// strings written as ASCII, arrays of such, and POD structs whose fields are
/// such (to a nesting of `fuel`).
pub open spec fn pod_type(defs: Seq<StructDefinition>, t: DType, ascii: bool, fuel: nat) -> bool
    decreases fuel, 0nat, dtype_size(t),
{
    match t {
        DType::S8 | DType::U8 | DType::S16 | DType::U16 | DType::S32 | DType::U32 | DType::F32 | DType::F64 | DType::Bool => true,
        DType::String => ascii,
        DType::Array { inner_data_type, .. } => pod_type(defs, *inner_data_type, ascii, fuel),
        DType::UserDefined(name) => fuel > 0 && match struct_def(defs, name) {
            Some(d) => declared_pod(d) && pod_fields(defs, spec_fields(d.members@), (fuel - 1) as nat),
            None => false,
        },
        _ => false,
    }
}

/// Whether every field has a byte layout.
pub open spec fn pod_fields(defs: Seq<StructDefinition>, fields: Seq<StructFieldDefinition>, fuel: nat) -> bool
    decreases fuel, 1nat, fields.len(),
{
    if fields.len() == 0 {
        true
    } else {
        let f = fields.last();
        pod_fields(defs, fields.drop_last(), fuel) && field_exception_ok(f)
            && pod_type(defs, f.data_type@, f.data_type@ is String && ascii_exception(f), fuel)
    }
}

/// A string field's `serialize_as`, where present, has an argument and names
/// ASCII when that argument is a string.
pub open spec fn field_exception_ok(f: StructFieldDefinition) -> bool {
    f.data_type@ is String ==> match find_attr(f.attributes@, "serialize_as"@) {
        Some(a) => a.arguments@.len() > 0 && (a.arguments@[0] matches Expression::Value(Value::String(s)) ==> s@ == "ascii"@),
        None => true,
    }
}

/// The error that refusing a POD layout for a type reports, where
/// `pod_type` does not hold: a type without a byte layout (a `usize`, a
/// reference, an iterator, a native object, or a string not written as
/// ASCII) or a struct not marked `#[pod]` is named as not POD; a missing
/// struct is named; a nesting deeper than `fuel` is a cycle; a struct's
/// error is that of its first field that fails.
pub open spec fn pod_type_error(defs: Seq<StructDefinition>, t: DType, ascii: bool, fuel: nat, e: RuntimeError) -> bool
    decreases fuel, 0nat, dtype_size(t),
{
    match t {
        DType::S8 | DType::U8 | DType::S16 | DType::U16 | DType::S32 | DType::U32 | DType::F32 | DType::F64 | DType::Bool => false,
        DType::Array { inner_data_type, .. } => pod_type_error(defs, *inner_data_type, ascii, fuel, e),
        DType::UserDefined(name) => if fuel == 0 {
            e is ReferenceCycle
        } else {
            match struct_def(defs, name) {
                None => e matches RuntimeError::StructDefinitionNotFound(n) && n@ == name,
                Some(d) => if !declared_pod(d) {
                    e matches RuntimeError::NonPODType(n) && n@ == name
                } else {
                    pod_fields_error(defs, spec_fields(d.members@), (fuel - 1) as nat, e)
                },
            }
        },
        _ => e matches RuntimeError::NonPODType(n) && n@ == crate::ast::dt_name(t),
    }
}

/// The error that refusing a POD layout for a list of fields reports: that
/// of the first field that fails (see `pod_field_error`).
pub open spec fn pod_fields_error(defs: Seq<StructDefinition>, fields: Seq<StructFieldDefinition>, fuel: nat, e: RuntimeError) -> bool
    decreases fuel, 1nat, fields.len(),
{
    if fields.len() == 0 {
        false
    } else if !pod_fields(defs, fields.drop_last(), fuel) {
        pod_fields_error(defs, fields.drop_last(), fuel, e)
    } else {
        pod_field_error(defs, fields.last(), fuel, e)
    }
}

/// The error that refusing a POD layout for a field reports: for a string
/// field, a `serialize_as` without an argument gives the argument count, and
/// one naming another encoding than ASCII gives that argument; else the
/// error of its type (see `pod_type_error`).
pub open spec fn pod_field_error(defs: Seq<StructDefinition>, f: StructFieldDefinition, fuel: nat, e: RuntimeError) -> bool
    decreases fuel, 1nat, 0nat,
{
    if !field_exception_ok(f) {
        match find_attr(f.attributes@, "serialize_as"@) {
            Some(a) => if a.arguments@.len() == 0 {
                e matches RuntimeError::InvalidAttributeArgumentCount { attribute, expected, found } && attribute
                    == a.identifier && expected == 1 && found == 0
            } else {
                a.arguments@[0] matches Expression::Value(Value::String(s)) && e matches RuntimeError::UnexpectedAttributeArgument {
                    attribute,
                    found,
                } && attribute == a.identifier && found@ == s@
            },
            None => false,
        }
    } else {
        pod_type_error(defs, f.data_type@, f.data_type@ is String && ascii_exception(f), fuel, e)
    }
}

} // verus!
