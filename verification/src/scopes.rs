//! Scopes, call frames and variables: where a name is bound, and the cell it
//! is bound to.
use vstd::prelude::*;

use crate::error::{RuntimeError, RuntimeResult};
use crate::runtime::{FunctionFrame, Runtime, RuntimeScope, RuntimeScopeType, binding};
use crate::text::str_eq;
use crate::value::{RuntimeReference, RuntimeValue, value_addrs_below};

verus! {

/// Every cell the scope binds is below `n`.
pub open spec fn scope_cells_below(s: RuntimeScope, n: nat) -> bool {
    forall|i: int| 0 <= i < s.variables@.len() ==> (#[trigger] s.variables@[i]).1 < n
}

/// Every cell the scopes bind is below `n`.
pub open spec fn scopes_cells_below(ss: Seq<RuntimeScope>, n: nat) -> bool {
    forall|i: int| 0 <= i < ss.len() ==> scope_cells_below(#[trigger] ss[i], n)
}

/// Every cell the frames bind is below `n`.
pub open spec fn frames_cells_below(fs: Seq<FunctionFrame>, n: nat) -> bool {
    forall|i: int| 0 <= i < fs.len() ==> scopes_cells_below((#[trigger] fs[i]).scopes@, n)
}

/// The cell a name is bound to in a stack of scopes, innermost (last) first.
pub open spec fn scopes_lookup(scopes: Seq<RuntimeScope>, name: Seq<char>) -> Option<RuntimeReference>
    decreases scopes.len(),
{
    if scopes.len() == 0 {
        None
    } else {
        match binding(scopes.last().variables@, name) {
            Some(c) => Some(c),
            None => scopes_lookup(scopes.drop_last(), name),
        }
    }
}

/// The cell a name is bound to in a stack of scopes, innermost first.
pub fn find_in_scopes(scopes: &Vec<RuntimeScope>, identifier: &str) -> (r: Option<RuntimeReference>)
    ensures
        r == scopes_lookup(scopes@, identifier@),
{
    let mut i = scopes.len();
    assert(scopes@.take(i as int) == scopes@);
    while i > 0
        invariant
            i <= scopes@.len(),
            scopes_lookup(scopes@, identifier@) == scopes_lookup(scopes@.take(i as int), identifier@),
        decreases i,
    {
        assert(scopes@.take(i as int).drop_last() == scopes@.take(i - 1));
        match scopes[i - 1].find_variable(identifier) {
            Some(c) => {
                return Some(c);
            },
            None => {},
        }
        i = i - 1;
    }
    None
}

impl FunctionFrame {
    /// A frame whose one scope binds the arguments, in order.
    pub fn new(name: String, args: Vec<(String, RuntimeReference)>) -> (f: Self)
        ensures
            f.name == name,
            f.scopes@.len() == 1,
            f.scopes@[0].variables@ == args@,
            f.scopes@[0]._scope_type == RuntimeScopeType::Function,
    {
        let scope = RuntimeScope { _scope_type: RuntimeScopeType::Function, variables: args };
        let mut scopes = Vec::new();
        scopes.push(scope);
        FunctionFrame { name, scopes }
    }

    /// The innermost scope.
    pub fn current_scope(&self) -> (s: &RuntimeScope)
        requires
            self.scopes@.len() > 0,
        ensures
            *s == self.scopes@.last(),
    {
        &self.scopes[self.scopes.len() - 1]
    }

    /// The innermost scope, to change.
    pub fn current_scope_mut(&mut self) -> (s: &mut RuntimeScope)
        requires
            old(self).scopes@.len() > 0,
        ensures
            *s == old(self).scopes@.last(),
            final(self).name == old(self).name,
            final(self).scopes@ == old(self).scopes@.update(old(self).scopes@.len() - 1, *final(s)),
    {
        let last = self.scopes.len() - 1;
        &mut self.scopes[last]
    }

    pub fn scopes_mut(&mut self) -> (r: &mut Vec<RuntimeScope>)
        ensures
            *r == old(self).scopes,
            *final(self) == (FunctionFrame { scopes: *final(r), ..*old(self) }),
    {
        &mut self.scopes
    }

    /// The cell the name is bound to in the frame (as `get_variable`).
    pub fn get_variable_mut(&mut self, identifier: &str) -> (r: Option<RuntimeReference>)
        ensures
            r == scopes_lookup(old(self).scopes@, identifier@),
            *final(self) == *old(self),
    {
        find_in_scopes(&self.scopes, identifier)
    }

    pub fn push_scope(&mut self)
        ensures
            final(self).name == old(self).name,
            final(self).scopes@.len() == old(self).scopes@.len() + 1,
            final(self).scopes@.drop_last() == old(self).scopes@,
            is_empty_block(final(self).scopes@.last()),
    {
        self.scopes.push(RuntimeScope::new(RuntimeScopeType::Block));
    }

    pub fn pop_scope(&mut self)
        ensures
            final(self).name == old(self).name,
            final(self).scopes@ == if old(self).scopes@.len() > 0 {
                old(self).scopes@.drop_last()
            } else {
                old(self).scopes@
            },
    {
        let _ = self.scopes.pop();
    }

    /// The cell the name is bound to in the frame, innermost scope first.
    pub fn get_variable(&self, identifier: &str) -> (r: Option<RuntimeReference>)
        ensures
            r == scopes_lookup(self.scopes@, identifier@),
    {
        find_in_scopes(&self.scopes, identifier)
    }
}

/// Only the innermost scope of a stack of scopes changed (one was opened,
/// where there was none).
pub open spec fn innermost_changed(new: Seq<RuntimeScope>, old: Seq<RuntimeScope>) -> bool {
    if old.len() == 0 {
        new.len() <= 1
    } else {
        new.len() == old.len() && new.drop_last() == old.drop_last()
    }
}

/// `after` is `before` with an empty block scope opened innermost.
pub open spec fn scope_opened(before: Runtime, after: Runtime) -> bool {
    &&& after.same_but_locals(before)
    &&& after.local_scopes().len() == before.local_scopes().len() + 1
    &&& after.local_scopes().drop_last() =~= before.local_scopes()
    &&& is_empty_block(after.local_scopes().last())
}

/// `after` is `before` with its innermost scope closed (where it has one).
pub open spec fn scope_closed(before: Runtime, after: Runtime) -> bool {
    &&& after.same_but_locals(before)
    &&& after.local_scopes() =~= if before.local_scopes().len() > 0 {
        before.local_scopes().drop_last()
    } else {
        before.local_scopes()
    }
}

/// A block scope that binds nothing.
pub open spec fn is_empty_block(s: RuntimeScope) -> bool {
    s._scope_type == RuntimeScopeType::Block && s.variables@.len() == 0
}

impl Runtime {
    /// The cells of all scopes and frames are cells of the heap, which only
    /// points at its own cells.
    pub open spec fn wf(&self) -> bool {
        &&& self.heap.wf()
        &&& scope_cells_below(self.global_scope, self.heap@.len())
        &&& scopes_cells_below(self.global_sub_scopes@, self.heap@.len())
        &&& frames_cells_below(self.call_stack@, self.heap@.len())
        &&& frames_cells_below(self.dead_frames@, self.heap@.len())
    }

    /// The scopes that a new binding goes into and a lookup searches first:
    /// those of the innermost call, or the blocks at the top level.
    pub open spec fn local_scopes(&self) -> Seq<RuntimeScope> {
        if self.call_stack@.len() > 0 {
            self.call_stack@.last().scopes@
        } else {
            self.global_sub_scopes@
        }
    }

    /// The cell a name is bound to: the innermost local binding, else the
    /// global one.
    pub open spec fn lookup(&self, name: Seq<char>) -> Option<RuntimeReference> {
        match scopes_lookup(self.local_scopes(), name) {
            Some(c) => Some(c),
            None => binding(self.global_scope.variables@, name),
        }
    }

    /// Every scope binds what it bound in `old`: the calls, the blocks at the
    /// top level and the global scope are as they were (the heap and the
    /// finished frames aside).
    pub open spec fn bindings_same(&self, old: Runtime) -> bool {
        &&& self.call_stack@.len() == old.call_stack@.len()
        &&& old.call_stack@.len() > 0 ==> {
            &&& self.call_stack@.drop_last() == old.call_stack@.drop_last()
            &&& self.call_stack@.last().name == old.call_stack@.last().name
            &&& self.call_stack@.last().scopes@ == old.call_stack@.last().scopes@
        }
        &&& self.global_sub_scopes@ == old.global_sub_scopes@
        &&& self.global_scope.variables@ == old.global_scope.variables@
    }

    /// What a statement may do to the bindings: only the innermost local
    /// scope (or, with none, the global scope) changed; the calls, the frames
    /// below the innermost and the scopes below the innermost are as they
    /// were.
    pub open spec fn bindings_kept(&self, old: Runtime) -> bool {
        &&& self.call_stack@.len() == old.call_stack@.len()
        &&& old.call_stack@.len() > 0 ==> {
            &&& self.call_stack@.drop_last() == old.call_stack@.drop_last()
            &&& self.call_stack@.last().name == old.call_stack@.last().name
            &&& self.global_sub_scopes@ == old.global_sub_scopes@
        }
        &&& innermost_changed(self.local_scopes(), old.local_scopes())
        &&& (old.call_stack@.len() > 0 || old.global_sub_scopes@.len() > 0) ==> self.global_scope.variables@
            == old.global_scope.variables@
    }

    /// Everything but the local scopes is as in `old`: the heap, the global
    /// scope, the finished frames, the definitions and settings, the number
    /// of calls, the frames below the innermost and the innermost's name.
    pub open spec fn same_but_locals(&self, old: Runtime) -> bool {
        &&& self.heap == old.heap
        &&& self.global_scope == old.global_scope
        &&& self.dead_frames == old.dead_frames
        &&& self.functions == old.functions
        &&& self.structs == old.structs
        &&& self.struct_impls == old.struct_impls
        &&& self.builtin_methods == old.builtin_methods
        &&& self.config == old.config
        &&& self.byte_order == old.byte_order
        &&& self.serialization_targets == old.serialization_targets
        &&& self.output == old.output
        &&& self.files == old.files
        &&& self.call_stack@.len() == old.call_stack@.len()
        &&& (old.call_stack@.len() > 0 ==> {
            &&& self.global_sub_scopes == old.global_sub_scopes
            &&& self.call_stack@.drop_last() == old.call_stack@.drop_last()
            &&& self.call_stack@.last().name == old.call_stack@.last().name
        })
    }

    /// Opens a block scope: in the innermost call, or at the top level.
    pub fn push_scope(&mut self)
        requires
            old(self).wf(),
        ensures
            final(self).wf(),
            final(self).same_but_locals(*old(self)),
            final(self).local_scopes().len() == old(self).local_scopes().len() + 1,
            final(self).local_scopes().drop_last() == old(self).local_scopes(),
            is_empty_block(final(self).local_scopes().last()),
    {
        if self.call_stack.len() == 0 {
            self.global_sub_scopes.push(RuntimeScope::new(RuntimeScopeType::Block));
            assert(scopes_cells_below(self.global_sub_scopes@, self.heap@.len())) by {
                assert forall|i: int| 0 <= i < self.global_sub_scopes@.len() implies scope_cells_below(#[trigger] self.global_sub_scopes@[i], self.heap@.len()) by {
                    if i < old(self).global_sub_scopes@.len() {
                        assert(self.global_sub_scopes@[i] == old(self).global_sub_scopes@[i]);
                    }
                }
            }
        } else {
            let mut frame = self.call_stack.pop().unwrap();
            let ghost before = frame;
            frame.push_scope();
            proof {
                assert forall|j: int| 0 <= j < frame.scopes@.len() implies scope_cells_below(#[trigger] frame.scopes@[j], self.heap@.len()) by {
                    if j < before.scopes@.len() {
                        assert(frame.scopes@[j] == before.scopes@[j]);
                        assert(before == old(self).call_stack@.last());
                        assert(scopes_cells_below(old(self).call_stack@[old(self).call_stack@.len() - 1].scopes@, self.heap@.len()));
                    }
                }
            }
            self.call_stack.push(frame);
            assert(self.call_stack@ == old(self).call_stack@.drop_last().push(frame));
            assert(self.call_stack@.drop_last() =~= old(self).call_stack@.drop_last());
            proof {
                Self::lemma_frames_replace_last(old(self).call_stack@, frame, self.heap@.len());
            }
        }
    }

    /// Closes the innermost block scope.
    pub fn pop_scope(&mut self)
        requires
            old(self).wf(),
        ensures
            final(self).wf(),
            final(self).same_but_locals(*old(self)),
            final(self).local_scopes() == if old(self).local_scopes().len() > 0 {
                old(self).local_scopes().drop_last()
            } else {
                old(self).local_scopes()
            },
    {
        if self.call_stack.len() == 0 {
            let _ = self.global_sub_scopes.pop();
            assert(scopes_cells_below(self.global_sub_scopes@, self.heap@.len())) by {
                assert forall|i: int| 0 <= i < self.global_sub_scopes@.len() implies scope_cells_below(#[trigger] self.global_sub_scopes@[i], self.heap@.len()) by {
                    assert(self.global_sub_scopes@[i] == old(self).global_sub_scopes@[i]);
                }
            }
        } else {
            let mut frame = self.call_stack.pop().unwrap();
            let ghost before = frame;
            frame.pop_scope();
            proof {
                assert forall|j: int| 0 <= j < frame.scopes@.len() implies scope_cells_below(#[trigger] frame.scopes@[j], self.heap@.len()) by {
                    assert(frame.scopes@[j] == before.scopes@[j]);
                    assert(before == old(self).call_stack@.last());
                    assert(scopes_cells_below(old(self).call_stack@[old(self).call_stack@.len() - 1].scopes@, self.heap@.len()));
                }
            }
            self.call_stack.push(frame);
            assert(self.call_stack@ == old(self).call_stack@.drop_last().push(frame));
            assert(self.call_stack@.drop_last() =~= old(self).call_stack@.drop_last());
            proof {
                Self::lemma_frames_replace_last(old(self).call_stack@, frame, self.heap@.len());
            }
        }
    }

    pub proof fn lemma_frames_replace_last(fs: Seq<FunctionFrame>, f: FunctionFrame, n: nat)
        requires
            fs.len() > 0,
            frames_cells_below(fs, n),
            forall|j: int| 0 <= j < f.scopes@.len() ==> scope_cells_below(#[trigger] f.scopes@[j], n),
        ensures
            frames_cells_below(fs.drop_last().push(f), n),
    {
        let g = fs.drop_last().push(f);
        assert forall|i: int| 0 <= i < g.len() implies scopes_cells_below((#[trigger] g[i]).scopes@, n) by {
            if i < fs.len() - 1 {
                assert(g[i] == fs[i]);
            }
        }
    }
}

/// Binding a name hides earlier bindings of it and no other name.
pub proof fn lemma_binding_push(vars: Seq<(String, RuntimeReference)>, id: String, a: RuntimeReference, n: Seq<char>)
    ensures
        binding(vars.push((id, a)), n) == if n == id@ {
            Some(a)
        } else {
            binding(vars, n)
        },
{
    assert(vars.push((id, a)).drop_last() == vars);
}

/// Adding a binding to the innermost scope.
pub proof fn lemma_scopes_lookup_bind(ss: Seq<RuntimeScope>, s: RuntimeScope, id: String, a: RuntimeReference, n: Seq<char>)
    requires
        ss.len() > 0,
        s.variables@ == ss.last().variables@.push((id, a)),
    ensures
        scopes_lookup(ss.drop_last().push(s), n) == if n == id@ {
            Some(a)
        } else {
            scopes_lookup(ss, n)
        },
{
    lemma_binding_push(ss.last().variables@, id, a, n);
    assert(ss.drop_last().push(s).drop_last() == ss.drop_last());
}

pub proof fn lemma_scopes_mono(ss: Seq<RuntimeScope>, n: nat, m: nat)
    requires
        scopes_cells_below(ss, n),
        n <= m,
    ensures
        scopes_cells_below(ss, m),
{
    assert forall|i: int| 0 <= i < ss.len() implies scope_cells_below(#[trigger] ss[i], m) by {
        assert(scope_cells_below(ss[i], n));
    }
}

pub proof fn lemma_frames_mono(fs: Seq<FunctionFrame>, n: nat, m: nat)
    requires
        frames_cells_below(fs, n),
        n <= m,
    ensures
        frames_cells_below(fs, m),
{
    assert forall|i: int| 0 <= i < fs.len() implies scopes_cells_below((#[trigger] fs[i]).scopes@, m) by {
        lemma_scopes_mono(fs[i].scopes@, n, m);
    }
}

/// A scope with one more binding, below `n`, still binds only cells below `n`.
pub proof fn lemma_bind_below(s: RuntimeScope, t: RuntimeScope, id: String, a: RuntimeReference, n: nat)
    requires
        scope_cells_below(s, n),
        a < n,
        t.variables@ == s.variables@.push((id, a)),
    ensures
        scope_cells_below(t, n),
{
    assert forall|i: int| 0 <= i < t.variables@.len() implies (#[trigger] t.variables@[i]).1 < n by {
        if i < s.variables@.len() {
            assert(t.variables@[i] == s.variables@[i]);
        }
    }
}

impl Runtime {
    /// Puts the value into a new cell and binds the name to it in the
    /// innermost local scope (the global scope where there is none).
    pub fn assign_variable(&mut self, identifier: String, value: RuntimeValue)
        requires
            old(self).wf(),
            value_addrs_below(value@, old(self).heap@.len()),
        ensures
            final(self).wf(),
            final(self).heap@ == old(self).heap@.push(value@),
            final(self).lookup(identifier@) == Some(old(self).heap@.len() as RuntimeReference),
            forall|n: Seq<char>| n != identifier@ ==> #[trigger] final(self).lookup(n) == old(self).lookup(n),
            final(self).bindings_kept(*old(self)),
            final(self).call_stack@.len() == old(self).call_stack@.len(),
            final(self).dead_frames == old(self).dead_frames,
            final(self).functions == old(self).functions,
            final(self).structs == old(self).structs,
            final(self).struct_impls == old(self).struct_impls,
            final(self).builtin_methods == old(self).builtin_methods,
            final(self).config == old(self).config,
            final(self).byte_order == old(self).byte_order,
    {
        let ghost id = identifier;
        let a = self.heap.allocate(value);
        let ghost n = self.heap@.len();
        proof {
            lemma_scopes_mono(self.global_sub_scopes@, (n - 1) as nat, n);
            lemma_frames_mono(self.call_stack@, (n - 1) as nat, n);
            lemma_frames_mono(self.dead_frames@, (n - 1) as nat, n);
            assert forall|i: int| 0 <= i < self.global_scope.variables@.len() implies (#[trigger] self.global_scope.variables@[i]).1 < n by {}
        }
        if self.call_stack.len() > 0 {
            let mut frame = self.call_stack.pop().unwrap();
            let ghost old_frame = frame;
            assert(old_frame == old(self).call_stack@.last());
            assert(scopes_cells_below(old(self).call_stack@[old(self).call_stack@.len() - 1].scopes@, n));
            if frame.scopes.len() == 0 {
                frame.scopes.push(RuntimeScope::new(RuntimeScopeType::Block));
            }
            let ghost mid = frame.scopes@;
            assert(scopes_cells_below(mid, n)) by {
                assert forall|j: int| 0 <= j < mid.len() implies scope_cells_below(#[trigger] mid[j], n) by {
                    if old_frame.scopes@.len() > 0 {
                        assert(mid[j] == old_frame.scopes@[j]);
                    }
                }
            }
            assert(scopes_lookup(mid, identifier@) == scopes_lookup(old_frame.scopes@, identifier@) || old_frame.scopes@.len() == 0);
            let mut scope = frame.scopes.pop().unwrap();
            let ghost old_scope = scope;
            scope.bind(identifier, a);
            proof {
                lemma_bind_below(old_scope, scope, id, a, n);
            }
            frame.scopes.push(scope);
            proof {
                assert forall|m: Seq<char>| true implies #[trigger] scopes_lookup(frame.scopes@, m) == if m == id@ {
                    Some(a)
                } else {
                    scopes_lookup(mid, m)
                } by {
                    lemma_scopes_lookup_bind(mid, scope, id, a, m);
                    assert(frame.scopes@ == mid.drop_last().push(scope));
                }
                assert forall|j: int| 0 <= j < frame.scopes@.len() implies scope_cells_below(#[trigger] frame.scopes@[j], n) by {
                    if j < mid.len() - 1 {
                        assert(frame.scopes@[j] == mid[j]);
                    }
                }
                if old_frame.scopes@.len() == 0 {
                    assert forall|m: Seq<char>| true implies #[trigger] scopes_lookup(mid, m) == scopes_lookup(old_frame.scopes@, m) by {
                        assert(mid.drop_last().len() == 0);
                        reveal_with_fuel(scopes_lookup, 2);
                    }
                } else {
                    assert(mid == old_frame.scopes@);
                }
            }
            self.call_stack.push(frame);
            proof {
                assert(self.call_stack@ == old(self).call_stack@.drop_last().push(frame));
                Self::lemma_frames_replace_last(old(self).call_stack@, frame, n);
                if old_frame.scopes@.len() > 0 {
                    assert(frame.scopes@.drop_last() =~= old_frame.scopes@.drop_last());
                }
                assert(self.call_stack@.drop_last() =~= old(self).call_stack@.drop_last());
                assert(self.local_scopes() == frame.scopes@);
            }
        } else if self.global_sub_scopes.len() > 0 {
            let ghost mid = self.global_sub_scopes@;
            let mut scope = self.global_sub_scopes.pop().unwrap();
            let ghost old_scope = scope;
            scope.bind(identifier, a);
            proof {
                assert(scope_cells_below(mid[mid.len() - 1], n));
                lemma_bind_below(old_scope, scope, id, a, n);
            }
            self.global_sub_scopes.push(scope);
            proof {
                assert(self.global_sub_scopes@ == mid.drop_last().push(scope));
                assert(self.global_sub_scopes@.drop_last() =~= mid.drop_last());
                assert forall|m: Seq<char>| true implies #[trigger] scopes_lookup(self.global_sub_scopes@, m) == if m == id@ {
                    Some(a)
                } else {
                    scopes_lookup(mid, m)
                } by {
                    lemma_scopes_lookup_bind(mid, scope, id, a, m);
                }
                assert forall|j: int| 0 <= j < self.global_sub_scopes@.len() implies scope_cells_below(#[trigger] self.global_sub_scopes@[j], n) by {
                    if j < mid.len() - 1 {
                        assert(self.global_sub_scopes@[j] == mid[j]);
                    }
                }
            }
        } else {
            let ghost old_scope = self.global_scope;
            self.global_scope.bind(identifier, a);
            proof {
                lemma_bind_below(old_scope, self.global_scope, id, a, n);
                assert forall|m: Seq<char>| true implies #[trigger] binding(self.global_scope.variables@, m) == if m == id@ {
                    Some(a)
                } else {
                    binding(old_scope.variables@, m)
                } by {
                    lemma_binding_push(old_scope.variables@, id, a, m);
                }
                assert(self.global_sub_scopes@.len() == 0);
                assert(scopes_lookup(self.global_sub_scopes@, id@) == None::<RuntimeReference>);
            }
        }
    }
}

/// The index of the first (oldest) frame with the given name.
pub open spec fn first_named(frames: Seq<FunctionFrame>, name: Seq<char>) -> Option<int>
    decreases frames.len(),
{
    if frames.len() == 0 {
        None
    } else if frames[0].name@ == name {
        Some(0)
    } else {
        match first_named(frames.drop_first(), name) {
            Some(i) => Some(i + 1),
            None => None,
        }
    }
}

pub proof fn lemma_first_named_range(frames: Seq<FunctionFrame>, name: Seq<char>)
    ensures
        first_named(frames, name) matches Some(i) ==> 0 <= i < frames.len() && frames[i].name@ == name,
    decreases frames.len(),
{
    if frames.len() > 0 && frames[0].name@ != name {
        lemma_first_named_range(frames.drop_first(), name);
    }
}

/// Finds the oldest frame with the given name.
fn find_frame<'a>(frames: &'a Vec<FunctionFrame>, identifier: &str) -> (r: RuntimeResult<&'a FunctionFrame>)
    ensures
        r is Ok <==> first_named(frames@, identifier@) is Some,
        r matches Ok(f) ==> *f == frames@[first_named(frames@, identifier@)->Some_0],
        r matches Err(e) ==> e matches RuntimeError::FunctionNotInCallStack(n) && n@ == identifier@,
{
    let mut i: usize = 0;
    assert(frames@.skip(0) == frames@);
    while i < frames.len()
        invariant
            i <= frames@.len(),
            first_named(frames@, identifier@) == match first_named(frames@.skip(i as int), identifier@) {
                Some(j) => Some(j + i),
                None => None,
            },
        decreases frames@.len() - i,
    {
        assert(frames@.skip(i as int).drop_first() == frames@.skip(i + 1));
        if str_eq(frames[i].name.as_str(), identifier) {
            assert(frames@.skip(i as int)[0] == frames@[i as int]);
            return Ok(&frames[i]);
        }
        i = i + 1;
    }
    Err(RuntimeError::FunctionNotInCallStack(String::from_str(identifier)))
}

impl Runtime {
    /// The cell the name is bound to: in the innermost call's scopes (or the
    /// top-level blocks), else in the global scope.
    pub fn get_variable(&self, identifier: &str) -> (r: RuntimeResult<RuntimeReference>)
        ensures
            r is Ok <==> self.lookup(identifier@) is Some,
            r matches Ok(c) ==> c == self.lookup(identifier@)->Some_0,
            r matches Err(e) ==> e matches RuntimeError::VariableNotFound(n) && n@ == identifier@,
    {
        let local = if self.call_stack.len() > 0 {
            self.call_stack[self.call_stack.len() - 1].get_variable(identifier)
        } else {
            find_in_scopes(&self.global_sub_scopes, identifier)
        };
        match local {
            Some(c) => Ok(c),
            None => self.global_scope.get_variable(identifier),
        }
    }

    /// The cell the name is bound to in the global scope.
    pub fn get_global_variable(&self, identifier: &str) -> (r: RuntimeResult<RuntimeReference>)
        ensures
            r is Ok <==> binding(self.global_scope.variables@, identifier@) is Some,
            r matches Ok(c) ==> c == binding(self.global_scope.variables@, identifier@)->Some_0,
            r matches Err(e) ==> e matches RuntimeError::VariableNotFound(n) && n@ == identifier@,
    {
        self.global_scope.get_variable(identifier)
    }

    /// The innermost call's frame.
    pub fn current_frame(&self) -> (f: &FunctionFrame)
        requires
            self.call_stack@.len() > 0,
        ensures
            *f == self.call_stack@.last(),
    {
        &self.call_stack[self.call_stack.len() - 1]
    }

    /// The innermost call's frame, to change.
    pub fn current_frame_mut(&mut self) -> (f: &mut FunctionFrame)
        requires
            old(self).call_stack@.len() > 0,
        ensures
            *f == old(self).call_stack@.last(),
            final(self).call_stack@ == old(self).call_stack@.update(old(self).call_stack@.len() - 1, *final(f)),
            *final(self) == (Runtime { call_stack: final(self).call_stack, ..*old(self) }),
    {
        let last = self.call_stack.len() - 1;
        &mut self.call_stack[last]
    }

    /// The frames of finished calls, oldest first.
    pub fn dead_frames(&self) -> (r: &Vec<FunctionFrame>)
        ensures
            r@ == self.dead_frames@,
    {
        &self.dead_frames
    }

    /// The oldest call in progress of the named function.
    pub fn get_frame(&self, identifier: &str) -> (r: RuntimeResult<&FunctionFrame>)
        ensures
            r is Ok <==> first_named(self.call_stack@, identifier@) is Some,
            r matches Ok(f) ==> *f == self.call_stack@[first_named(self.call_stack@, identifier@)->Some_0],
            r matches Err(e) ==> e matches RuntimeError::FunctionNotInCallStack(n) && n@ == identifier@,
    {
        find_frame(&self.call_stack, identifier)
    }

    /// The oldest finished call of the named function.
    pub fn get_dead_frame(&self, identifier: &str) -> (r: RuntimeResult<&FunctionFrame>)
        ensures
            r is Ok <==> first_named(self.dead_frames@, identifier@) is Some,
            r matches Ok(f) ==> *f == self.dead_frames@[first_named(self.dead_frames@, identifier@)->Some_0],
            r matches Err(e) ==> e matches RuntimeError::FunctionNotInCallStack(n) && n@ == identifier@,
    {
        find_frame(&self.dead_frames, identifier)
    }

    /// Starts a call: each argument goes into a new cell, bound in the new
    /// frame's one scope.
    pub fn push_frame(&mut self, identifier: String, args: Vec<(String, RuntimeValue)>)
        requires
            old(self).wf(),
            forall|i: int| 0 <= i < args@.len() ==> value_addrs_below((#[trigger] args@[i]).1@, old(self).heap@.len()),
        ensures
            final(self).wf(),
            final(self).heap@.len() == old(self).heap@.len() + args@.len(),
            final(self).heap@.take(old(self).heap@.len() as int) == old(self).heap@,
            forall|i: int| 0 <= i < args@.len() ==> final(self).heap@[old(self).heap@.len() + i] == (#[trigger] args@[i]).1@,
            final(self).call_stack@.drop_last() == old(self).call_stack@,
            final(self).call_stack@.len() == old(self).call_stack@.len() + 1,
            final(self).call_stack@.last().name == identifier,
            final(self).call_stack@.last().scopes@.len() == 1,
            final(self).call_stack@.last().scopes@[0].variables@.len() == args@.len(),
            forall|i: int| 0 <= i < args@.len() ==> (#[trigger] final(self).call_stack@.last().scopes@[0].variables@[i]).0 == args@[i].0
                && final(self).call_stack@.last().scopes@[0].variables@[i].1 == old(self).heap@.len() + i,
            final(self).global_scope == old(self).global_scope,
            final(self).global_sub_scopes == old(self).global_sub_scopes,
            final(self).dead_frames == old(self).dead_frames,
            final(self).functions == old(self).functions,
            final(self).structs == old(self).structs,
            final(self).struct_impls == old(self).struct_impls,
            final(self).builtin_methods == old(self).builtin_methods,
            final(self).config == old(self).config,
            final(self).byte_order == old(self).byte_order,
    {
        let ghost h0 = self.heap@;
        let mut bindings: Vec<(String, RuntimeReference)> = Vec::new();
        let mut rest = args;
        let ghost all = rest@;
        let mut k: usize = 0;
        while k < rest.len()
            invariant
                old(self).wf(),
                h0 == old(self).heap@,
                self.global_scope == old(self).global_scope,
                self.global_sub_scopes == old(self).global_sub_scopes,
                self.call_stack == old(self).call_stack,
                self.dead_frames == old(self).dead_frames,
                self.functions == old(self).functions,
                self.structs == old(self).structs,
                self.struct_impls == old(self).struct_impls,
                self.builtin_methods == old(self).builtin_methods,
                self.config == old(self).config,
                self.byte_order == old(self).byte_order,
                self.heap.wf(),
                k <= rest@.len(),
                rest@ == all,
                self.heap@.len() == h0.len() + k,
                self.heap@.take(h0.len() as int) == h0,
                forall|i: int| 0 <= i < all.len() ==> value_addrs_below((#[trigger] all[i]).1@, h0.len()),
                forall|i: int| 0 <= i < k ==> self.heap@[h0.len() + i] == (#[trigger] all[i]).1@,
                bindings@.len() == k,
                forall|i: int| 0 <= i < k ==> (#[trigger] bindings@[i]).0 == all[i].0 && bindings@[i].1 == h0.len() + i,
            decreases rest@.len() - k,
        {
            let ghost hk = self.heap@;
            let value = crate::value::clone_value(&rest[k].1);
            proof {
                crate::value::lemma_addrs_below_mono(all[k as int].1@, h0.len(), hk.len());
            }
            let a = self.heap.allocate(value);
            bindings.push((rest[k].0.clone(), a));
            proof {
                assert(self.heap@.take(h0.len() as int) =~= hk.take(h0.len() as int));
                assert forall|i: int| 0 <= i < k + 1 implies self.heap@[h0.len() + i] == (#[trigger] all[i]).1@ by {
                    if i < k {
                        assert(self.heap@[h0.len() + i] == hk[h0.len() + i]);
                    }
                }
            }
            k = k + 1;
        }
        let frame = FunctionFrame::new(identifier, bindings);
        let ghost n = self.heap@.len();
        proof {
            lemma_scopes_mono(self.global_sub_scopes@, h0.len(), n);
            lemma_frames_mono(self.call_stack@, h0.len(), n);
            lemma_frames_mono(self.dead_frames@, h0.len(), n);
            assert forall|i: int| 0 <= i < self.global_scope.variables@.len() implies (#[trigger] self.global_scope.variables@[i]).1 < n by {
                assert(scope_cells_below(self.global_scope, h0.len()));
            }
            assert(scope_cells_below(frame.scopes@[0], n));
        }
        self.call_stack.push(frame);
        proof {
            assert forall|i: int| 0 <= i < self.call_stack@.len() implies scopes_cells_below((#[trigger] self.call_stack@[i]).scopes@, n) by {
                if i < old(self).call_stack@.len() {
                    assert(self.call_stack@[i] == old(self).call_stack@[i]);
                } else {
                    assert(self.call_stack@[i] == frame);
                }
            }
            assert(self.call_stack@.drop_last() =~= old(self).call_stack@);
        }
    }

    /// Ends the innermost call; its frame is kept among the finished ones
    /// when the runtime is configured to keep them.
    pub fn pop_frame(&mut self)
        requires
            old(self).wf(),
        ensures
            final(self).wf(),
            final(self).call_stack@ == if old(self).call_stack@.len() > 0 {
                old(self).call_stack@.drop_last()
            } else {
                old(self).call_stack@
            },
            final(self).dead_frames@ == if old(self).call_stack@.len() > 0 && old(self).config.preserve_expired_frames {
                old(self).dead_frames@.push(old(self).call_stack@.last())
            } else {
                old(self).dead_frames@
            },
            final(self).heap == old(self).heap,
            final(self).global_scope == old(self).global_scope,
            final(self).global_sub_scopes == old(self).global_sub_scopes,
            final(self).functions == old(self).functions,
            final(self).structs == old(self).structs,
            final(self).struct_impls == old(self).struct_impls,
            final(self).builtin_methods == old(self).builtin_methods,
            final(self).config == old(self).config,
            final(self).byte_order == old(self).byte_order,
    {
        match self.call_stack.pop() {
            Some(frame) => {
                proof {
                    assert(frame == old(self).call_stack@[old(self).call_stack@.len() - 1]);
                    assert forall|i: int| 0 <= i < self.call_stack@.len() implies scopes_cells_below((#[trigger] self.call_stack@[i]).scopes@, self.heap@.len()) by {
                        assert(self.call_stack@[i] == old(self).call_stack@[i]);
                    }
                }
                if self.config.preserve_expired_frames {
                    self.dead_frames.push(frame);
                    proof {
                        assert forall|i: int| 0 <= i < self.dead_frames@.len() implies scopes_cells_below((#[trigger] self.dead_frames@[i]).scopes@, self.heap@.len()) by {
                            if i < old(self).dead_frames@.len() {
                                assert(self.dead_frames@[i] == old(self).dead_frames@[i]);
                            }
                        }
                    }
                }
            },
            None => {},
        }
    }
}

} // verus!
