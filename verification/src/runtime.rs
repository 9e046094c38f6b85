//! The state of a running program: the heap, scopes, call frames and the
//! functions and structs that the program defined.
use vstd::prelude::*;

use crate::ast::{FunctionDefinition, StructDefinition, StructImpl};
use crate::error::{RuntimeError, RuntimeResult};
use crate::serialization::ByteOrder;
use crate::value::{Heap, RuntimeReference, RuntimeValue};

verus! {

#[derive(Debug, PartialEq, Eq, Structural, Clone, Copy)]
pub enum RuntimeScopeType {
    Global,
    Block,
    Function,
}

/// The variables of one scope, newest binding last: a later binding of a name
/// hides an earlier one.
#[derive(Debug)]
pub struct RuntimeScope {
    pub _scope_type: RuntimeScopeType,
    pub variables: Vec<(String, RuntimeReference)>,
}

/// The cell a name is bound to in a list of bindings: its newest binding.
pub open spec fn binding(vars: Seq<(String, RuntimeReference)>, name: Seq<char>) -> Option<
    RuntimeReference,
>
    decreases vars.len(),
{
    if vars.len() == 0 {
        None
    } else if vars.last().0@ == name {
        Some(vars.last().1)
    } else {
        binding(vars.drop_last(), name)
    }
}

impl RuntimeScope {
    pub fn new(scope_type: RuntimeScopeType) -> (s: Self)
        ensures
            s._scope_type == scope_type,
            s.variables@ == Seq::<(String, RuntimeReference)>::empty(),
    {
        RuntimeScope { _scope_type: scope_type, variables: Vec::new() }
    }

    /// The cell bound to `identifier` in this scope.
    pub fn find_variable(&self, identifier: &str) -> (r: Option<RuntimeReference>)
        ensures
            r == binding(self.variables@, identifier@),
    {
        let mut i = self.variables.len();
        assert(self.variables@.take(i as int) == self.variables@);
        while i > 0
            invariant
                i <= self.variables@.len(),
                binding(self.variables@, identifier@) == binding(
                    self.variables@.take(i as int),
                    identifier@,
                ),
            decreases i,
        {
            let ghost prefix = self.variables@.take(i as int);
            assert(prefix.drop_last() == self.variables@.take(i - 1));
            let (name, cell) = &self.variables[i - 1];
            if crate::text::str_eq(name.as_str(), identifier) {
                return Some(*cell);
            }
            i = i - 1;
        }
        None
    }

    pub fn get_variable(&self, identifier: &str) -> (r: RuntimeResult<RuntimeReference>)
        ensures
            r is Ok <==> binding(self.variables@, identifier@) is Some,
            r matches Ok(c) ==> c == binding(self.variables@, identifier@)->Some_0,
            r matches Err(e) ==> e matches RuntimeError::VariableNotFound(n) && n@ == identifier@,
    {
        match self.find_variable(identifier) {
            Some(c) => Ok(c),
            None => Err(RuntimeError::VariableNotFound(String::from_str(identifier))),
        }
    }

    pub fn variables_mut(&mut self) -> (r: &mut Vec<(String, RuntimeReference)>)
        ensures
            *r == old(self).variables,
            *final(self) == (RuntimeScope { variables: *final(r), ..*old(self) }),
    {
        &mut self.variables
    }

    pub fn variables(&self) -> (r: &Vec<(String, RuntimeReference)>)
        ensures
            r@ == self.variables@,
    {
        &self.variables
    }

    /// Binds `identifier` to `cell`, hiding an earlier binding of the name.
    pub fn bind(&mut self, identifier: String, cell: RuntimeReference)
        ensures
            final(self).variables@ == old(self).variables@.push((identifier, cell)),
            final(self)._scope_type == old(self)._scope_type,
    {
        self.variables.push((identifier, cell));
    }
}

/// A call in progress: the function's name and its stack of scopes, innermost
/// last.
#[derive(Debug)]
pub struct FunctionFrame {
    pub name: String,
    pub scopes: Vec<RuntimeScope>,
}

/// The functions the host provides under the `sg::` names.
#[derive(Debug, PartialEq, Eq, Structural, Clone, Copy)]
pub enum NativeFunction {
    Print,
    SetByteOrder,
    Write,
    Read,
    OpenFile,
    CreateSerializationTarget,
    DestroySerializationTarget,
    SerializeToTarget,
}

/// The methods of built-in types.
#[derive(Debug, PartialEq, Eq, Structural, Clone, Copy)]
pub enum BuiltinMethod {
    ArrayIterator,
    FileClose,
    FileDelete,
    FileNew,
    FileOpen,
    FileRead,
    FileReadValue,
    FileRename,
}

#[derive(Debug)]
pub enum RuntimeFunction {
    Native(NativeFunction),
    User(FunctionDefinition),
}

#[derive(Debug, PartialEq, Eq, Structural, Clone, Copy)]
pub enum BuiltinMethodTarget {
    Array,
    NativeObject(crate::ast::NativeObjectKind),
}

/// How a statement ends: on to the next one, out of the function with a
/// value, or out of the innermost loop.
#[derive(Debug)]
pub enum ControlFlow {
    Continue,
    Return(RuntimeValue),
    Break,
}

#[derive(Debug, PartialEq, Eq, Structural, Clone, Copy)]
pub enum RuntimeConfigOption {
    PreserveExpiredFrames(bool),
}

#[derive(Debug, PartialEq, Eq, Structural, Clone, Copy)]
pub struct RuntimeConfig {
    /// Keeps the frames of finished calls, so that their end-of-life state can
    /// be inspected after the run.
    pub preserve_expired_frames: bool,
}

/// The state of a running program.
#[derive(Debug)]
pub struct Runtime {
    pub heap: Heap,
    pub global_scope: RuntimeScope,
    pub global_sub_scopes: Vec<RuntimeScope>,
    pub call_stack: Vec<FunctionFrame>,
    pub dead_frames: Vec<FunctionFrame>,
    pub functions: Vec<(String, RuntimeFunction)>,
    pub structs: Vec<StructDefinition>,
    pub struct_impls: Vec<StructImpl>,
    pub builtin_methods: Vec<(BuiltinMethodTarget, String, BuiltinMethod)>,
    pub config: RuntimeConfig,
    pub byte_order: ByteOrder,
    pub serialization_targets: Vec<(String, Vec<u8>)>,
    /// The lines the program printed, oldest first.
    pub output: Vec<String>,
    /// The files the program can read and the files it wrote, by path: the
    /// host fills this table before a run and writes it back after.
    pub files: Vec<(String, Vec<u8>)>,
    /// The file handles scripts hold, by number.
    pub file_handles: Vec<FileHandle>,
}

/// A script's handle on a file: its path, whether it is open, and how far
/// it has been read.
#[derive(Debug, PartialEq, Eq, Clone)]
pub struct FileHandle {
    pub path: String,
    pub open: bool,
    pub position: usize,
}

impl FileHandle {
    pub fn set_path(&mut self, path: String)
        ensures
            *final(self) == (FileHandle { path, ..*old(self) }),
    {
        self.path = path;
    }
}

/// The newest struct definition with the given name.
pub open spec fn struct_def(defs: Seq<StructDefinition>, name: Seq<char>) -> Option<StructDefinition>
    decreases defs.len(),
{
    if defs.len() == 0 {
        None
    } else if defs.last().identifier@ == name {
        Some(defs.last())
    } else {
        struct_def(defs.drop_last(), name)
    }
}

impl Runtime {
    pub fn new() -> (r: Runtime)
        ensures
            r.heap@.len() == 0,
            r.heap.wf(),
            r.global_scope.variables@.len() == 0,
            r.global_sub_scopes@.len() == 0,
            r.call_stack@.len() == 0,
            r.dead_frames@.len() == 0,
            r.functions@.len() == 0,
            r.structs@.len() == 0,
            r.struct_impls@.len() == 0,
            r.builtin_methods@.len() == 0,
            r.serialization_targets@.len() == 0,
            r.output@.len() == 0,
            r.files@.len() == 0,
            r.file_handles@.len() == 0,
            r.config.preserve_expired_frames == false,
            r.byte_order == ByteOrder::Little,
    {
        Runtime {
            heap: Heap::new(),
            global_scope: RuntimeScope::new(RuntimeScopeType::Global),
            global_sub_scopes: Vec::new(),
            call_stack: Vec::new(),
            dead_frames: Vec::new(),
            functions: Vec::new(),
            structs: Vec::new(),
            struct_impls: Vec::new(),
            builtin_methods: Vec::new(),
            config: RuntimeConfig { preserve_expired_frames: false },
            byte_order: ByteOrder::Little,
            serialization_targets: Vec::new(),
            output: Vec::new(),
            files: Vec::new(),
            file_handles: Vec::new(),
        }
    }

    fn configure(&mut self, option: RuntimeConfigOption)
        ensures
            final(self).config.preserve_expired_frames == match option {
                RuntimeConfigOption::PreserveExpiredFrames(b) => b,
            },
            final(self).heap == old(self).heap,
            final(self).byte_order == old(self).byte_order,
    {
        match option {
            RuntimeConfigOption::PreserveExpiredFrames(should_preserve) => {
                self.config.preserve_expired_frames = should_preserve;
            },
        }
    }

    pub fn with_config(self, option: RuntimeConfigOption) -> (r: Runtime)
        ensures
            r.config.preserve_expired_frames == match option {
                RuntimeConfigOption::PreserveExpiredFrames(b) => b,
            },
            r.heap == self.heap,
            r.byte_order == self.byte_order,
    {
        let mut r = self;
        r.configure(option);
        r
    }

    /// Applies the options in order; the last one of a kind wins.
    pub fn with_configs(self, options: &[RuntimeConfigOption]) -> (r: Runtime)
        ensures
            r.config.preserve_expired_frames == if options@.len() == 0 {
                self.config.preserve_expired_frames
            } else {
                match options@.last() {
                    RuntimeConfigOption::PreserveExpiredFrames(b) => b,
                }
            },
            r.heap == self.heap,
            r.byte_order == self.byte_order,
    {
        let mut r = self;
        let ghost initial = r.config.preserve_expired_frames;
        let ghost heap = r.heap;
        let ghost order = r.byte_order;
        let mut i: usize = 0;
        while i < options.len()
            invariant
                i <= options@.len(),
                r.heap == heap,
                r.byte_order == order,
                r.config.preserve_expired_frames == if i == 0 {
                    initial
                } else {
                    match options@[i - 1] {
                        RuntimeConfigOption::PreserveExpiredFrames(b) => b,
                    }
                },
            decreases options@.len() - i,
        {
            r.configure(options[i]);
            i = i + 1;
        }
        r
    }

    pub fn functions_mut(&mut self) -> (r: &mut Vec<(String, RuntimeFunction)>)
        ensures
            *r == old(self).functions,
            *final(self) == (Runtime { functions: *final(r), ..*old(self) }),
    {
        &mut self.functions
    }

    pub fn builtin_methods_mut(&mut self) -> (r: &mut Vec<(BuiltinMethodTarget, String, BuiltinMethod)>)
        ensures
            *r == old(self).builtin_methods,
            *final(self) == (Runtime { builtin_methods: *final(r), ..*old(self) }),
    {
        &mut self.builtin_methods
    }

    pub fn set_byte_order(&mut self, byte_order: ByteOrder)
        ensures
            *final(self) == (Runtime { byte_order, ..*old(self) }),
    {
        self.byte_order = byte_order;
    }

    /// The definition of the struct with the given name.
    pub fn get_struct_definition(&self, identifier: &str) -> (r: RuntimeResult<&StructDefinition>)
        ensures
            r is Ok <==> struct_def(self.structs@, identifier@) is Some,
            r matches Ok(d) ==> *d == struct_def(self.structs@, identifier@)->Some_0,
            r matches Err(e) ==> e matches RuntimeError::StructDefinitionNotFound(n) && n@
                == identifier@,
    {
        find_struct(&self.structs, identifier)
    }
}

/// The newest definition with the given name in a list of struct definitions.
pub fn find_struct<'a>(structs: &'a Vec<StructDefinition>, identifier: &str) -> (r: RuntimeResult<&'a StructDefinition>)
    ensures
        r is Ok <==> struct_def(structs@, identifier@) is Some,
        r matches Ok(d) ==> *d == struct_def(structs@, identifier@)->Some_0,
        r matches Err(e) ==> e matches RuntimeError::StructDefinitionNotFound(n) && n@ == identifier@,
{
    let mut i = structs.len();
    assert(structs@.take(i as int) == structs@);
    while i > 0
        invariant
            i <= structs@.len(),
            struct_def(structs@, identifier@) == struct_def(structs@.take(i as int), identifier@),
        decreases i,
    {
        assert(structs@.take(i as int).drop_last() == structs@.take(i - 1));
        if crate::text::str_eq(structs[i - 1].identifier.as_str(), identifier) {
            return Ok(&structs[i - 1]);
        }
        i = i - 1;
    }
    Err(RuntimeError::StructDefinitionNotFound(String::from_str(identifier)))
}

} // verus!
