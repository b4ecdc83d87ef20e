use vstd::prelude::*;
use crate::variable::{Module, Variable, keys_distinct, refs_below, refs_free, well_formed};

verus! {

/// Fatal conditions: each one means that a program which breaks a contract
/// of the runtime got as far as running, and evaluation stops.
#[derive(Debug)]
pub enum RuntimeError {
    /// An operation expected a value on the stack and found none.
    NoValueOnStack,
    ExpectedNumber,
    ExpectedText,
    ExpectedArray,
    ExpectedReferenceToArray,
    ExpectedForeignObject,
    /// A `Reference` chain ended at an `UnsafeReference` during a clone.
    UnclonableReference,
    /// A by-value argument holds an alias to storage younger than the
    /// container it would be stored in.
    DanglingReference,
    /// The value has no textual form for this operation.
    NotConvertible,
    /// A value that cannot be printed was handed to a print operation.
    NotPrintable,
    /// An argument expression produced no value.
    ExpectedValueFromArgument,
    /// No function of that name in the module.
    FunctionNotFound(String),
    /// The function declares `expected` parameters and got `found` arguments.
    ArityMismatch { expected: usize, found: usize },
    /// No built-in operation of that name.
    UnknownFunction(String),
    /// A call frame was closed that is not the innermost open one.
    FrameMismatch,
    /// A value that must denote an object does not.
    ExpectedObject,
    /// The object has no field of that name.
    NoSuchField(String),
    /// An object with two entries of the same key.
    DuplicateKey,
    /// The stack has no room for another value.
    StackOverflow,
    /// An array too long for its length to be an exact number.
    CountTooLarge,
    /// The operation needs the host, and this evaluator has none.
    HostOperation(String),
}

/// The record of one active named operation.
#[derive(Debug, Clone)]
pub struct CallFrame {
    pub fn_name: String,
    /// Stack length the frame's result is counted from.
    pub stack_len: usize,
    /// Length of the bindings table before the call.
    pub local_len: usize,
}

/// The evaluation state of one running program.
#[derive(Debug)]
pub struct Runtime {
    pub stack: Vec<Variable>,
    /// Named bindings: (name, stack slot); the latest entry of a name wins.
    pub local_stack: Vec<(String, usize)>,
    pub call_stack: Vec<CallFrame>,
    /// Loaded modules; a `ForeignObject` holds an index into this table.
    pub modules: Vec<Module>,
}

/// What `v` denotes: a `Reference` is followed through the stack to a
/// value that is not itself a `Reference`.
pub open spec fn resolved(s: Seq<Variable>, v: Variable) -> Variable {
    match v {
        Variable::Reference(j) => if j < s.len() {
            resolve_slot(s, j as nat)
        } else {
            v
        },
        _ => v,
    }
}

/// What slot `i` denotes; a slot only aliases slots below itself.
pub open spec fn resolve_slot(s: Seq<Variable>, i: nat) -> Variable
    decreases i,
{
    if i < s.len() {
        match s[i as int] {
            Variable::Reference(j) => if j < i {
                resolve_slot(s, j as nat)
            } else {
                s[i as int]
            },
            _ => s[i as int],
        }
    } else {
        Variable::Return
    }
}

/// The slot of the latest binding of `name` in `b`.
pub open spec fn latest_binding(b: Seq<(String, usize)>, name: Seq<char>) -> Option<usize>
    decreases b.len(),
{
    if b.len() == 0 {
        None
    } else if b.last().0@ == name {
        Some(b.last().1)
    } else {
        latest_binding(b.drop_last(), name)
    }
}

/// No `UnsafeReference` is reached from `v`, following references below `n`.
pub open spec fn clonable(s: Seq<Variable>, v: Variable, n: nat) -> bool
    decreases n, v,
{
    match v {
        Variable::Reference(j) => j < n && j < s.len() && clonable(s, s[j as int], j as nat),
        Variable::UnsafeReference(_) => false,
        Variable::Array(a) => forall|k: int| 0 <= k < a.len() ==> clonable(s, #[trigger] a[k], n),
        Variable::Object(o) => forall|k: int|
            0 <= k < o.len() ==> clonable(s, #[trigger] o[k].1, n),
        _ => true,
    }
}

/// `c` is the deep copy of `v`: the same structure with every reference
/// replaced by what it denotes.
pub open spec fn clone_of(s: Seq<Variable>, v: Variable, c: Variable, n: nat) -> bool
    decreases n, v,
{
    match v {
        Variable::Reference(j) => j < n && j < s.len() && clone_of(s, s[j as int], c, j as nat),
        Variable::UnsafeReference(_) => false,
        Variable::Array(a) => match c {
            Variable::Array(b) => b.len() == a.len() && forall|k: int|
                0 <= k < a.len() ==> clone_of(s, #[trigger] a[k], b[k], n),
            _ => false,
        },
        Variable::Object(o) => match c {
            Variable::Object(p) => p.len() == o.len() && forall|k: int|
                0 <= k < o.len() ==> (#[trigger] p[k]).0@ == o[k].0@ && clone_of(
                    s,
                    o[k].1,
                    p[k].1,
                    n,
                ),
            _ => false,
        },
        Variable::Text(t) => match c {
            Variable::Text(u) => u@ == t@,
            _ => false,
        },
        _ => c == v,
    }
}

/// Raising the bounds keeps `refs_below`.
pub proof fn lemma_refs_below_mono(v: Variable, n: int, m: int, n2: int, m2: int)
    requires
        refs_below(v, n, m),
        n <= n2,
        m <= m2,
    ensures
        refs_below(v, n2, m2),
    decreases v,
{
    match v {
        Variable::Array(a) => {
            assert forall|k: int| 0 <= k < a.len() implies refs_below(#[trigger] a[k], n2, m2) by {
                lemma_refs_below_mono(a[k], n, m, n2, m2);
            }
        },
        Variable::Object(o) => {
            assert forall|k: int| 0 <= k < o.len() implies refs_below(#[trigger] o[k].1, n2, m2) by {
                lemma_refs_below_mono(o[k].1, n, m, n2, m2);
            }
        },
        _ => {},
    }
}

impl Runtime {
    /// Every slot only aliases slots below itself, and every module handle
    /// names a loaded module.
    pub open spec fn wf(&self) -> bool {
        forall|i: int|
            0 <= i < self.stack.len() ==> refs_below(
                #[trigger] self.stack[i],
                i,
                self.modules.len() as int,
            ) && well_formed(self.stack[i])
    }

    /// `v` may be stored anywhere on the current stack.
    pub open spec fn valid_value(&self, v: Variable) -> bool {
        refs_below(v, self.stack.len() as int, self.modules.len() as int) && well_formed(v)
    }

    pub fn new() -> (r: Runtime)
        ensures
            r.wf(),
            r.stack@.len() == 0,
            r.local_stack@.len() == 0,
            r.call_stack@.len() == 0,
            r.modules@.len() == 0,
    {
        Runtime { stack: Vec::new(), local_stack: Vec::new(), call_stack: Vec::new(), modules: Vec::new() }
    }

    /// Opens a call frame.
    pub fn push_fn(&mut self, name: String, st: usize, lc: usize)
        ensures
            final(self).call_stack@ == old(self).call_stack@.push(
                CallFrame { fn_name: name, stack_len: st, local_len: lc },
            ),
            final(self).stack == old(self).stack,
            final(self).local_stack == old(self).local_stack,
            final(self).modules == old(self).modules,
    {
        self.call_stack.push(CallFrame { fn_name: name, stack_len: st, local_len: lc });
    }

    /// Closes the innermost call frame, which must be the one named `name`,
    /// and drops the bindings made since it was opened.
    pub fn pop_fn(&mut self, name: &String) -> (r: Result<(), RuntimeError>)
        ensures
            r is Ok <==> old(self).call_stack@.len() > 0 && old(self).call_stack@.last().fn_name@
                == name@,
            r is Ok ==> final(self).call_stack@ == old(self).call_stack@.drop_last(),
            r is Ok ==> final(self).local_stack@ == old(self).local_stack@.take(
                vstd::math::min(
                    old(self).call_stack@.last().local_len as int,
                    old(self).local_stack@.len() as int,
                ),
            ),
            r is Err ==> *final(self) == *old(self),
            final(self).stack == old(self).stack,
            final(self).modules == old(self).modules,
    {
        let n = self.call_stack.len();
        if n == 0 {
            return Err(RuntimeError::FrameMismatch);
        }
        if self.call_stack[n - 1].fn_name != *name {
            return Err(RuntimeError::FrameMismatch);
        }
        let frame = self.call_stack.pop().unwrap();
        self.local_stack.truncate(frame.local_len);
        Ok(())
    }

    /// Adds a binding of `name` to stack slot `slot`; it shadows earlier
    /// bindings of the same name.
    pub fn bind(&mut self, name: String, slot: usize)
        ensures
            final(self).local_stack@ == old(self).local_stack@.push((name, slot)),
            final(self).stack == old(self).stack,
            final(self).call_stack == old(self).call_stack,
            final(self).modules == old(self).modules,
    {
        self.local_stack.push((name, slot));
    }

    /// The stack slot that `name` is bound to: the latest binding of it.
    pub fn local(&self, name: &String) -> (r: Option<usize>)
        ensures
            r == latest_binding(self.local_stack@, name@),
    {
        let mut k: usize = self.local_stack.len();
        assert(self.local_stack@.subrange(0, k as int) =~= self.local_stack@);
        while k > 0
            invariant
                k <= self.local_stack@.len(),
                latest_binding(self.local_stack@, name@) == latest_binding(
                    self.local_stack@.subrange(0, k as int),
                    name@,
                ),
            decreases k,
        {
            assert(self.local_stack@.subrange(0, k as int).drop_last() =~= self.local_stack@.subrange(0, k - 1));
            if self.local_stack[k - 1].0 == *name {
                return Some(self.local_stack[k - 1].1);
            }
            k = k - 1;
        }
        None
    }

    /// What `v` denotes, following references through the stack.
    pub fn resolve<'a>(&'a self, v: &'a Variable) -> (r: &'a Variable)
        requires
            self.wf(),
            self.valid_value(*v),
        ensures
            *r == resolved(self.stack@, *v),
            !(*r is Reference),
            self.valid_value(*r),
    {
        match v {
            Variable::Reference(j) => {
                let r = self.resolve_at(*j);
                proof {
                    lemma_refs_below_mono(*r, *j as int, self.modules.len() as int, self.stack.len() as int, self.modules.len() as int);
                }
                r
            },
            _ => v,
        }
    }

    /// What slot `i` denotes.
    pub fn resolve_at(&self, i: usize) -> (r: &Variable)
        requires
            self.wf(),
            i < self.stack@.len(),
        ensures
            *r == resolve_slot(self.stack@, i as nat),
            !(*r is Reference),
            refs_below(*r, i as int, self.modules.len() as int),
            well_formed(*r),
        decreases i,
    {
        let v = &self.stack[i];
        match v {
            Variable::Reference(j) => {
                let r = self.resolve_at(*j);
                proof {
                    lemma_refs_below_mono(*r, *j as int, self.modules.len() as int, i as int, self.modules.len() as int);
                }
                r
            },
            _ => v,
        }
    }

    /// Deep copy of `v`: objects and arrays element by element, references
    /// replaced by what they denote. Fails where an `UnsafeReference` is met.
    pub fn deep_clone(&self, v: &Variable, n: usize) -> (r: Result<Variable, RuntimeError>)
        requires
            self.wf(),
            n <= self.stack@.len(),
            refs_below(*v, n as int, self.modules.len() as int),
            well_formed(*v),
        ensures
            r is Ok <==> clonable(self.stack@, *v, n as nat),
            r matches Ok(c) ==> clone_of(self.stack@, *v, c, n as nat) && refs_free(c)
                && refs_below(c, 0, self.modules.len() as int) && well_formed(c),
            r matches Err(e) ==> e is UnclonableReference,
        decreases n, *v,
    {
        match v {
            Variable::Reference(j) => {
                let j = *j;
                self.deep_clone(&self.stack[j], j)
            },
            Variable::UnsafeReference(_) => Err(RuntimeError::UnclonableReference),
            Variable::Array(a) => {
                let mut out: Vec<Variable> = Vec::new();
                let mut k: usize = 0;
                while k < a.len()
                    invariant
                        self.wf(),
                        n <= self.stack@.len(),
                        refs_below(*v, n as int, self.modules.len() as int),
                        *v == Variable::Array(*a),
                        forall|i: int| 0 <= i < a.len() ==> refs_below(#[trigger] a[i], n as int, self.modules.len() as int),
                        forall|i: int| 0 <= i < a.len() ==> well_formed(#[trigger] a[i]),
                        forall|i: int| 0 <= i < k ==> well_formed(#[trigger] out@[i]),
                        k <= a.len(),
                        out@.len() == k,
                        forall|i: int| 0 <= i < k ==> clonable(self.stack@, #[trigger] a[i], n as nat),
                        forall|i: int|
                            0 <= i < k ==> clone_of(self.stack@, #[trigger] a[i], out[i], n as nat),
                        forall|i: int|
                            0 <= i < k ==> refs_free(#[trigger] out[i]) && refs_below(
                                out[i],
                                0,
                                self.modules.len() as int,
                            ),
                    decreases a.len() - k,
                {
                    proof {
                        vstd::std_specs::vec::axiom_vec_index_decreases(*a, k as int);
                        assert(decreases_to!(*v => v->Array_0));
                        assert(decreases_to!(*a => a[k as int]));
                    }
                    let c = self.deep_clone(&a[k], n);
                    match c {
                        Ok(c) => {
                            out.push(c);
                        },
                        Err(e) => {
                            assert(!clonable(self.stack@, a[k as int], n as nat));
                            assert(!clonable(self.stack@, *v, n as nat));
                            return Err(e);
                        },
                    }
                    k = k + 1;
                }
                Ok(Variable::Array(out))
            },
            Variable::Object(o) => {
                let mut out: Vec<(String, Variable)> = Vec::new();
                let mut k: usize = 0;
                while k < o.len()
                    invariant
                        self.wf(),
                        n <= self.stack@.len(),
                        refs_below(*v, n as int, self.modules.len() as int),
                        *v == Variable::Object(*o),
                        forall|i: int| 0 <= i < o.len() ==> refs_below(#[trigger] o[i].1, n as int, self.modules.len() as int),
                        forall|i: int| 0 <= i < o.len() ==> well_formed(#[trigger] o[i].1),
                        keys_distinct(o@),
                        forall|i: int| 0 <= i < k ==> well_formed(#[trigger] out@[i].1),
                        k <= o.len(),
                        out@.len() == k,
                        forall|i: int| 0 <= i < k ==> clonable(self.stack@, #[trigger] o[i].1, n as nat),
                        forall|i: int|
                            0 <= i < k ==> (#[trigger] out[i]).0@ == o[i].0@ && clone_of(
                                self.stack@,
                                o[i].1,
                                out[i].1,
                                n as nat,
                            ),
                        forall|i: int|
                            0 <= i < k ==> refs_free(#[trigger] out[i].1) && refs_below(
                                out[i].1,
                                0,
                                self.modules.len() as int,
                            ),
                    decreases o.len() - k,
                {
                    proof {
                        vstd::std_specs::vec::axiom_vec_index_decreases(*o, k as int);
                        assert(decreases_to!(*v => v->Object_0));
                        assert(decreases_to!(*o => o[k as int]));
                        assert(decreases_to!(o[k as int] => o[k as int].1));
                    }
                    let c = self.deep_clone(&o[k].1, n);
                    match c {
                        Ok(c) => {
                            out.push((o[k].0.clone(), c));
                        },
                        Err(e) => {
                            assert(!clonable(self.stack@, o[k as int].1, n as nat));
                            assert(!clonable(self.stack@, *v, n as nat));
                            return Err(e);
                        },
                    }
                    k = k + 1;
                }
                assert forall|i: int, j: int| 0 <= i < j < out@.len() implies #[trigger] out@[i].0@ != #[trigger] out@[j].0@ by {
                    assert(out@[i].0@ == o@[i].0@);
                    assert(out@[j].0@ == o@[j].0@);
                }
                Ok(Variable::Object(out))
            },
            Variable::Text(t) => Ok(Variable::Text(t.clone())),
            Variable::Number(x) => Ok(Variable::Number(*x)),
            Variable::Bool(b) => Ok(Variable::Bool(*b)),
            Variable::ForeignObject(h) => Ok(Variable::ForeignObject(*h)),
            Variable::Return => Ok(Variable::Return),
        }
    }
}

} // verus!
