use vstd::prelude::*;
use crate::ops::text_of;
use crate::runtime::{RuntimeError, Runtime, resolved};
use crate::variable::{Function, Module, Variable, same_value};

verus! {

/// A call of a loaded module's function with run-time values as arguments,
/// checked and ready for the evaluator.
#[derive(Debug)]
pub struct CallRequest {
    /// Index of the module in the runtime's module table.
    pub module: usize,
    pub fn_name: String,
    pub args: Vec<Variable>,
}

/// Why a `call` cannot go ahead.
#[derive(Debug, Copy, Clone, PartialEq, Eq, Structural)]
pub enum CallFault {
    NoValue,
    NameNotText,
    ArgsNotArray,
    NotModule,
    NotFound,
    Arity { expected: usize, found: usize },
}

/// Index of the first function named `name`, or -1.
pub open spec fn find_fn(fs: Seq<Function>, name: Seq<char>) -> int
    decreases fs.len(),
{
    if fs.len() == 0 {
        -1
    } else {
        let k = find_fn(fs.drop_last(), name);
        if k >= 0 {
            k
        } else if fs.last().name@ == name {
            fs.len() - 1
        } else {
            -1
        }
    }
}

/// The fault of `call` on stack `s` (module, name, arguments on top) with
/// modules `ms`, checked in this order; `None` when the call can proceed.
pub open spec fn call_fault(s: Seq<Variable>, ms: Seq<Module>) -> Option<CallFault> {
    let n = s.len() as int;
    if n < 3 {
        Some(CallFault::NoValue)
    } else if !(resolved(s, s[n - 2]) is Text) {
        Some(CallFault::NameNotText)
    } else if !(resolved(s, s[n - 1]) is Array) {
        Some(CallFault::ArgsNotArray)
    } else if !(resolved(s, s[n - 3]) is ForeignObject) {
        Some(CallFault::NotModule)
    } else {
        let fs = ms[resolved(s, s[n - 3])->ForeignObject_0 as int].functions@;
        let k = find_fn(fs, text_of(resolved(s, s[n - 2])));
        let found = resolved(s, s[n - 1])->Array_0.len();
        if k < 0 {
            Some(CallFault::NotFound)
        } else if fs[k].params != found {
            Some(CallFault::Arity { expected: fs[k].params, found })
        } else {
            None
        }
    }
}

/// The error that reports a fault.
pub open spec fn reports(e: RuntimeError, f: CallFault) -> bool {
    match f {
        CallFault::NoValue => e is NoValueOnStack,
        CallFault::NameNotText => e is ExpectedText,
        CallFault::ArgsNotArray => e is ExpectedArray,
        CallFault::NotModule => e is ExpectedForeignObject,
        CallFault::NotFound => e is FunctionNotFound,
        CallFault::Arity { expected, found } => e == RuntimeError::ArityMismatch { expected, found },
    }
}

/// `load_source_imports` can proceed on stack `s`: the top denotes an array
/// of module handles, the value below it a text.
pub open spec fn imports_ok(s: Seq<Variable>) -> bool {
    let n = s.len() as int;
    &&& n >= 2
    &&& resolved(s, s[n - 1]) is Array
    &&& forall|k: int|
        0 <= k < resolved(s, s[n - 1])->Array_0.len() ==> resolved(
            s,
            #[trigger] resolved(s, s[n - 1])->Array_0[k],
        ) is ForeignObject
    &&& resolved(s, s[n - 2]) is Text
}

/// The function tables of the modules `hs`, concatenated in order.
pub open spec fn imported(ms: Seq<Module>, hs: Seq<usize>) -> Seq<Function>
    decreases hs.len(),
{
    if hs.len() == 0 {
        Seq::empty()
    } else {
        imported(ms, hs.drop_last()) + ms[hs.last() as int].functions@
    }
}

impl Function {
    pub fn duplicate(&self) -> (r: Function)
        ensures
            r == *self,
    {
        Function { name: self.name.clone(), params: self.params }
    }
}

impl Runtime {
    /// Index of the first function of module `h` named `name`.
    fn find_function(&self, h: usize, name: &String) -> (r: Option<usize>)
        requires
            h < self.modules@.len(),
        ensures
            r matches Some(k) ==> k as int == find_fn(self.modules@[h as int].functions@, name@)
                && k < self.modules@[h as int].functions@.len(),
            r is None ==> find_fn(self.modules@[h as int].functions@, name@) < 0,
    {
        let fs = &self.modules[h].functions;
        let mut k: usize = 0;
        while k < fs.len()
            invariant
                *fs == self.modules@[h as int].functions,
                k <= fs@.len(),
                find_fn(fs@.subrange(0, k as int), name@) == -1,
            decreases fs@.len() - k,
        {
            assert(fs@.subrange(0, k + 1).drop_last() =~= fs@.subrange(0, k as int));
            if fs[k].name == *name {
                proof {
                    lemma_find_fn_prefix(fs@, name@, k as int);
                }
                return Some(k);
            }
            k = k + 1;
        }
        assert(fs@.subrange(0, fs@.len() as int) =~= fs@);
        None
    }

    /// `call`: takes the module, the function name and the argument array
    /// off the stack and checks that the module has a function of that name
    /// taking that many arguments.
    pub fn prepare_call(&mut self) -> (r: Result<CallRequest, RuntimeError>)
        requires
            old(self).wf(),
        ensures
            final(self).wf(),
            final(self).modules == old(self).modules,
            final(self).call_stack == old(self).call_stack,
            final(self).local_stack == old(self).local_stack,
            r is Ok <==> call_fault(old(self).stack@, old(self).modules@) is None,
            r matches Err(e) ==> reports(e, call_fault(old(self).stack@, old(self).modules@)->Some_0),
            r matches Ok(c) ==> {
                let s = old(self).stack@;
                let n = s.len() as int;
                &&& final(self).stack@ == s.subrange(0, n - 3)
                &&& resolved(s, s[n - 3]) == Variable::ForeignObject(c.module)
                &&& c.fn_name@ == text_of(resolved(s, s[n - 2]))
                &&& c.args@.len() == resolved(s, s[n - 1])->Array_0.len()
                &&& forall|k: int|
                    0 <= k < c.args@.len() ==> same_value(
                        resolved(s, s[n - 1])->Array_0[k],
                        #[trigger] c.args@[k],
                    )
            },
    {
        let ghost s = self.stack@;
        let n = self.stack.len();
        if n < 3 {
            return Err(RuntimeError::NoValueOnStack);
        }
        proof {
            crate::runtime::lemma_refs_below_mono(s[n - 1], n - 1, self.modules.len() as int, n as int, self.modules.len() as int);
            crate::runtime::lemma_refs_below_mono(s[n - 2], n - 2, self.modules.len() as int, n as int, self.modules.len() as int);
            crate::runtime::lemma_refs_below_mono(s[n - 3], n - 3, self.modules.len() as int, n as int, self.modules.len() as int);
        }
        let fn_name = match self.resolve(&self.stack[n - 2]) {
            Variable::Text(t) => t.clone(),
            _ => {
                return Err(RuntimeError::ExpectedText);
            },
        };
        let args = match self.resolve(&self.stack[n - 1]) {
            Variable::Array(a) => {
                let mut out: Vec<Variable> = Vec::new();
                let mut k: usize = 0;
                while k < a.len()
                    invariant
                        k <= a.len(),
                        out@.len() == k,
                        forall|i: int| 0 <= i < k ==> same_value(a[i], #[trigger] out@[i]),
                    decreases a.len() - k,
                {
                    out.push(a[k].copy());
                    k = k + 1;
                }
                out
            },
            _ => {
                return Err(RuntimeError::ExpectedArray);
            },
        };
        let h = match self.resolve(&self.stack[n - 3]) {
            Variable::ForeignObject(h) => *h,
            _ => {
                return Err(RuntimeError::ExpectedForeignObject);
            },
        };
        let k = match self.find_function(h, &fn_name) {
            Some(k) => k,
            None => {
                return Err(RuntimeError::FunctionNotFound(fn_name));
            },
        };
        let expected = self.modules[h].functions[k].params;
        if expected != args.len() {
            return Err(RuntimeError::ArityMismatch { expected, found: args.len() });
        }
        self.stack.truncate(n - 3);
        assert(self.stack@ =~= s.subrange(0, n - 3));
        Ok(CallRequest { module: h, fn_name, args })
    }

    /// The function tables of the modules `hs`, concatenated in order: the
    /// namespace a source is loaded against by `load_source_imports`.
    pub fn merge_imports(&self, hs: &Vec<usize>) -> (r: Module)
        requires
            forall|i: int| 0 <= i < hs@.len() ==> #[trigger] hs@[i] < self.modules@.len(),
        ensures
            r.functions@ == imported(self.modules@, hs@),
    {
        let mut fs: Vec<Function> = Vec::new();
        let mut i: usize = 0;
        while i < hs.len()
            invariant
                i <= hs@.len(),
                forall|j: int| 0 <= j < hs@.len() ==> #[trigger] hs@[j] < self.modules@.len(),
                fs@ == imported(self.modules@, hs@.subrange(0, i as int)),
            decreases hs@.len() - i,
        {
            let m = &self.modules[hs[i]];
            let ghost before = fs@;
            let mut k: usize = 0;
            while k < m.functions.len()
                invariant
                    k <= m.functions@.len(),
                    fs@ == before + m.functions@.subrange(0, k as int),
                decreases m.functions@.len() - k,
            {
                fs.push(m.functions[k].duplicate());
                k = k + 1;
                assert(fs@ =~= before + m.functions@.subrange(0, k as int));
            }
            assert(hs@.subrange(0, i + 1).drop_last() =~= hs@.subrange(0, i as int));
            assert(m.functions@.subrange(0, k as int) =~= m.functions@);
            i = i + 1;
        }
        assert(hs@.subrange(0, hs@.len() as int) =~= hs@);
        Module { functions: fs }
    }

    /// `load_source_imports`: takes the source text and the array of
    /// modules off the stack, and gives the text with the modules' handles.
    pub fn pop_imports(&mut self) -> (r: Result<(String, Vec<usize>), RuntimeError>)
        requires
            old(self).wf(),
        ensures
            final(self).wf(),
            final(self).modules == old(self).modules,
            final(self).call_stack == old(self).call_stack,
            final(self).local_stack == old(self).local_stack,
            r matches Ok((t, hs)) ==> {
                let s = old(self).stack@;
                let n = s.len() as int;
                &&& n >= 2
                &&& final(self).stack@ == s.subrange(0, n - 2)
                &&& t@ == text_of(resolved(s, s[n - 2]))
                &&& resolved(s, s[n - 2]) is Text
                &&& resolved(s, s[n - 1]) is Array
                &&& hs@.len() == resolved(s, s[n - 1])->Array_0.len()
                &&& forall|k: int|
                    0 <= k < hs@.len() ==> resolved(s, resolved(s, s[n - 1])->Array_0[k])
                        == Variable::ForeignObject(#[trigger] hs@[k])
                &&& forall|k: int| 0 <= k < hs@.len() ==> #[trigger] hs@[k] < old(self).modules@.len()
            },
            r is Ok <==> imports_ok(old(self).stack@),
            r is Err ==> final(self).stack@ == old(self).stack@,
    {
        let ghost s = self.stack@;
        let n = self.stack.len();
        if n < 2 {
            return Err(RuntimeError::NoValueOnStack);
        }
        proof {
            crate::runtime::lemma_refs_below_mono(s[n - 1], n - 1, self.modules.len() as int, n as int, self.modules.len() as int);
            crate::runtime::lemma_refs_below_mono(s[n - 2], n - 2, self.modules.len() as int, n as int, self.modules.len() as int);
        }
        let hs = match self.resolve(&self.stack[n - 1]) {
            Variable::Array(a) => {
                let mut hs: Vec<usize> = Vec::new();
                let mut k: usize = 0;
                while k < a.len()
                    invariant
                        self.wf(),
                        s == self.stack@,
                        n == s.len(),
                        resolved(s, s[n - 1]) == Variable::Array(*a),
                        forall|i: int| 0 <= i < a.len() ==> self.valid_value(#[trigger] a[i]),
                        k <= a.len(),
                        hs@.len() == k,
                        forall|i: int|
                            0 <= i < k ==> resolved(self.stack@, a[i]) == Variable::ForeignObject(#[trigger] hs@[i]),
                        forall|i: int| 0 <= i < k ==> #[trigger] hs@[i] < self.modules@.len(),
                    decreases a.len() - k,
                {
                    match self.resolve(&a[k]) {
                        Variable::ForeignObject(h) => {
                            hs.push(*h);
                        },
                        _ => {
                            assert(!(resolved(self.stack@, a[k as int]) is ForeignObject));
                            return Err(RuntimeError::ExpectedForeignObject);
                        },
                    }
                    k = k + 1;
                }
                assert forall|i: int| 0 <= i < a.len() implies (resolved(s, #[trigger] a[i]) is ForeignObject) by {
                    assert(resolved(s, a[i]) == Variable::ForeignObject(hs@[i]));
                }
                hs
            },
            _ => {
                return Err(RuntimeError::ExpectedArray);
            },
        };
        let t = match self.resolve(&self.stack[n - 2]) {
            Variable::Text(t) => t.clone(),
            _ => {
                return Err(RuntimeError::ExpectedText);
            },
        };
        self.stack.truncate(n - 2);
        assert(self.stack@ =~= s.subrange(0, n - 2));
        Ok((t, hs))
    }
}

/// A match at `k`, with none in the prefix before it, is the first match.
proof fn lemma_find_fn_prefix(fs: Seq<Function>, name: Seq<char>, k: int)
    requires
        0 <= k < fs.len(),
        find_fn(fs.subrange(0, k), name) == -1,
        fs[k].name@ == name,
    ensures
        find_fn(fs, name) == k,
    decreases fs.len(),
{
    if k < fs.len() - 1 {
        assert(fs.drop_last().subrange(0, k) =~= fs.subrange(0, k));
        lemma_find_fn_prefix(fs.drop_last(), name, k);
    } else {
        assert(fs.drop_last() =~= fs.subrange(0, k));
    }
}

} // verus!
