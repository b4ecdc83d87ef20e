use vstd::prelude::*;
use crate::number::{EXACT_LIMIT, float_bits_of_count, number_of_count};
use crate::runtime::{RuntimeError, Runtime, resolved, clonable, clone_of, lemma_refs_below_mono};
use crate::text::{trim_end, trim_trailing};
use crate::variable::{Variable, refs_below, refs_free, kind_name};

verus! {

/// Whether every reference in `v` is below `n` and every module handle below `m`.
pub fn check_refs_below(v: &Variable, n: usize, m: usize) -> (r: bool)
    ensures
        r == refs_below(*v, n as int, m as int),
    decreases *v,
{
    match v {
        Variable::Reference(i) => *i < n,
        Variable::ForeignObject(h) => *h < m,
        Variable::Array(a) => {
            let mut k: usize = 0;
            while k < a.len()
                invariant
                    *v == Variable::Array(*a),
                    k <= a.len(),
                    forall|i: int| 0 <= i < k ==> refs_below(#[trigger] a[i], n as int, m as int),
                decreases a.len() - k,
            {
                proof {
                    vstd::std_specs::vec::axiom_vec_index_decreases(*a, k as int);
                    assert(decreases_to!(*v => v->Array_0));
                }
                if !check_refs_below(&a[k], n, m) {
                    return false;
                }
                k = k + 1;
            }
            true
        },
        Variable::Object(o) => {
            let mut k: usize = 0;
            while k < o.len()
                invariant
                    *v == Variable::Object(*o),
                    k <= o.len(),
                    forall|i: int| 0 <= i < k ==> refs_below(#[trigger] o[i].1, n as int, m as int),
                decreases o.len() - k,
            {
                proof {
                    vstd::std_specs::vec::axiom_vec_index_decreases(*o, k as int);
                    assert(decreases_to!(*v => v->Object_0));
                    assert(decreases_to!(o[k as int] => o[k as int].1));
                }
                if !check_refs_below(&o[k].1, n, m) {
                    return false;
                }
                k = k + 1;
            }
            true
        },
        _ => true,
    }
}

/// A value with no references is valid at every stack height.
pub proof fn lemma_refs_free_below(v: Variable, n: int, m: int)
    requires
        refs_free(v),
        refs_below(v, 0, m),
        n >= 0,
    ensures
        refs_below(v, n, m),
{
    lemma_refs_below_mono(v, 0, m, n, m);
}

impl Runtime {
    /// Takes the top value off the stack.
    pub fn pop_arg(&mut self) -> (r: Result<Variable, RuntimeError>)
        requires
            old(self).wf(),
        ensures
            final(self).wf(),
            final(self).modules == old(self).modules,
            final(self).call_stack == old(self).call_stack,
            final(self).local_stack == old(self).local_stack,
            r is Ok <==> old(self).stack@.len() > 0,
            r matches Ok(v) ==> v == old(self).stack@.last() && final(self).stack@
                == old(self).stack@.drop_last() && final(self).valid_value(v),
            r matches Err(e) ==> e is NoValueOnStack && final(self).stack@ == old(self).stack@,
    {
        let ghost s = self.stack@;
        if self.stack.len() == 0 {
            return Err(RuntimeError::NoValueOnStack);
        }
        match self.stack.pop() {
            Some(v) => {
                assert(refs_below(s[s.len() - 1], s.len() - 1, self.modules.len() as int));
                assert(self.stack@ =~= s.drop_last());
                Ok(v)
            },
            None => Err(RuntimeError::NoValueOnStack),
        }
    }

    /// Pushes a value that is valid at the current height.
    pub fn push_value(&mut self, v: Variable)
        requires
            old(self).wf(),
            old(self).valid_value(v),
        ensures
            final(self).wf(),
            final(self).stack@ == old(self).stack@.push(v),
            final(self).modules == old(self).modules,
            final(self).call_stack == old(self).call_stack,
            final(self).local_stack == old(self).local_stack,
    {
        self.stack.push(v);
    }

    /// `clone`: replaces the top value by its deep copy.
    pub fn op_clone(&mut self) -> (r: Result<(), RuntimeError>)
        requires
            old(self).wf(),
        ensures
            final(self).wf(),
            final(self).modules == old(self).modules,
            final(self).call_stack == old(self).call_stack,
            final(self).local_stack == old(self).local_stack,
            r is Ok <==> old(self).stack@.len() > 0 && clonable(
                old(self).stack@.drop_last(),
                old(self).stack@.last(),
                (old(self).stack@.len() - 1) as nat,
            ),
            r is Ok ==> final(self).stack@.len() == old(self).stack@.len() && final(self).stack@.drop_last() == old(self).stack@.drop_last() && clone_of(
                old(self).stack@.drop_last(),
                old(self).stack@.last(),
                final(self).stack@.last(),
                (old(self).stack@.len() - 1) as nat,
            ) && refs_free(final(self).stack@.last()),
            r matches Err(e) ==> (old(self).stack@.len() == 0 && e is NoValueOnStack) || (old(self).stack@.len() > 0 && e is UnclonableReference),
    {
        let v = self.pop_arg()?;
        let n = self.stack.len();
        let c = self.deep_clone(&v, n)?;
        proof {
            lemma_refs_free_below(c, n as int, self.modules.len() as int);
        }
        self.push_value(c);
        Ok(())
    }

    /// `len`: replaces the top value, which denotes an array, by its length.
    pub fn op_len(&mut self) -> (r: Result<(), RuntimeError>)
        requires
            old(self).wf(),
        ensures
            final(self).wf(),
            final(self).modules == old(self).modules,
            final(self).call_stack == old(self).call_stack,
            final(self).local_stack == old(self).local_stack,
            r is Ok <==> old(self).stack@.len() > 0 && len_allowed(
                resolved(old(self).stack@.drop_last(), old(self).stack@.last()),
            ),
            r is Ok ==> final(self).stack@ == old(self).stack@.drop_last().push(
                Variable::Number(
                    float_bits_of_count(
                        resolved(old(self).stack@.drop_last(), old(self).stack@.last())->Array_0.len() as nat,
                    ) as u64,
                ),
            ),
            r matches Err(e) ==> (old(self).stack@.len() == 0 && e is NoValueOnStack) || (old(self).stack@.len() > 0 && (e is ExpectedArray || e is CountTooLarge)),
    {
        let v = self.pop_arg()?;
        let len = match self.resolve(&v) {
            Variable::Array(a) => a.len(),
            _ => {
                return Err(RuntimeError::ExpectedArray);
            },
        };
        if len as u64 >= EXACT_LIMIT {
            return Err(RuntimeError::CountTooLarge);
        }
        let x = number_of_count(len as u64);
        self.push_value(Variable::Number(x));
        Ok(())
    }

    /// `typeof`: replaces the top value by the type name of what it denotes.
    pub fn op_typeof(&mut self) -> (r: Result<(), RuntimeError>)
        requires
            old(self).wf(),
        ensures
            final(self).wf(),
            final(self).modules == old(self).modules,
            final(self).call_stack == old(self).call_stack,
            final(self).local_stack == old(self).local_stack,
            r is Ok <==> old(self).stack@.len() > 0,
            r is Ok ==> final(self).stack@.drop_last() == old(self).stack@.drop_last()
                && final(self).stack@.len() == old(self).stack@.len() && final(self).stack@.last() is Text && text_of(
                final(self).stack@.last(),
            ) == kind_name(resolved(old(self).stack@.drop_last(), old(self).stack@.last())),
            r matches Err(e) ==> e is NoValueOnStack,
    {
        let v = self.pop_arg()?;
        let t = self.resolve(&v).type_of();
        self.push_value(Variable::Text(t));
        Ok(())
    }

    /// `push`: takes the item, then the container, which must be a reference
    /// to a slot holding an array, and appends the item to that array in
    /// place. The item may not alias storage at or above the container's slot.
    pub fn op_push(&mut self) -> (r: Result<(), RuntimeError>)
        requires
            old(self).wf(),
        ensures
            final(self).wf(),
            final(self).modules == old(self).modules,
            final(self).call_stack == old(self).call_stack,
            final(self).local_stack == old(self).local_stack,
            r is Ok <==> old(self).stack@.len() >= 2 && push_allowed(
                old(self).stack@,
                old(self).modules@.len() as int,
            ),
            r is Ok ==> pushed(old(self).stack@, final(self).stack@),
            r matches Err(e) ==> (old(self).stack@.len() < 2 && e is NoValueOnStack) || (old(self).stack@.len() >= 2 && (e is ExpectedReferenceToArray || e is DanglingReference)),
    {
        let ghost s = self.stack@;
        if self.stack.len() < 2 {
            return Err(RuntimeError::NoValueOnStack);
        }
        let item = self.pop_arg()?;
        let container = self.pop_arg()?;
        let ind = match container {
            Variable::Reference(ind) => ind,
            _ => {
                return Err(RuntimeError::ExpectedReferenceToArray);
            },
        };
        let mut slot = Variable::Return;
        self.stack.set_and_swap(ind, &mut slot);
        match slot {
            Variable::Array(mut arr) => {
                if !check_refs_below(&item, ind, self.modules.len()) {
                    let mut back = Variable::Array(arr);
                    self.stack.set_and_swap(ind, &mut back);
                    assert(self.stack@ =~= s.subrange(0, s.len() - 2));
                    return Err(RuntimeError::DanglingReference);
                }
                let ghost old_arr = arr@;
                arr.push(item);
                let mut filled = Variable::Array(arr);
                proof {
                    assert(refs_below(s[ind as int], ind as int, self.modules.len() as int));
                    assert forall|k: int| 0 <= k < arr@.len() implies refs_below(
                        #[trigger] arr@[k],
                        ind as int,
                        self.modules.len() as int,
                    ) by {
                        if k < old_arr.len() {
                            assert(old_arr[k] == arr@[k]);
                        }
                    }
                }
                self.stack.set_and_swap(ind, &mut filled);
                proof {
                    assert forall|i: int| 0 <= i < self.stack@.len() implies refs_below(
                        #[trigger] self.stack@[i],
                        i,
                        self.modules.len() as int,
                    ) by {
                        if i != ind {
                            assert(self.stack@[i] == s[i]);
                        }
                    }
                }
                Ok(())
            },
            _ => {
                let mut back = slot;
                self.stack.set_and_swap(ind, &mut back);
                assert(self.stack@ =~= s.subrange(0, s.len() - 2));
                Err(RuntimeError::ExpectedReferenceToArray)
            },
        }
    }
}

impl Runtime {
    /// `trim_right`: replaces the top value, a text, by the text without
    /// its trailing whitespace.
    pub fn op_trim_right(&mut self) -> (r: Result<(), RuntimeError>)
        requires
            old(self).wf(),
        ensures
            final(self).wf(),
            final(self).modules == old(self).modules,
            final(self).call_stack == old(self).call_stack,
            final(self).local_stack == old(self).local_stack,
            r is Ok <==> old(self).stack@.len() > 0 && old(self).stack@.last() is Text,
            r is Ok ==> final(self).stack@.drop_last() == old(self).stack@.drop_last()
                && final(self).stack@.len() == old(self).stack@.len() && final(self).stack@.last() is Text
                && text_of(final(self).stack@.last()) == trim_trailing(text_of(old(self).stack@.last())),
            r matches Err(e) ==> (old(self).stack@.len() == 0 && e is NoValueOnStack) || (old(self).stack@.len() > 0 && e is ExpectedText),
    {
        let v = self.pop_arg()?;
        match v {
            Variable::Text(t) => {
                let u = trim_end(t.as_str());
                self.push_value(Variable::Text(u));
                Ok(())
            },
            _ => Err(RuntimeError::ExpectedText),
        }
    }

    /// `to_string`: a text value is passed through; for a number the bit
    /// pattern is handed back (`Some`) for the host to format, with the
    /// stack popped.
    pub fn op_to_string(&mut self) -> (r: Result<Option<u64>, RuntimeError>)
        requires
            old(self).wf(),
        ensures
            final(self).wf(),
            final(self).modules == old(self).modules,
            final(self).call_stack == old(self).call_stack,
            final(self).local_stack == old(self).local_stack,
            r is Ok <==> old(self).stack@.len() > 0 && (resolved(old(self).stack@.drop_last(), old(self).stack@.last()) is Text
                || resolved(old(self).stack@.drop_last(), old(self).stack@.last()) is Number),
            r matches Ok(None) ==> final(self).stack@.drop_last() == old(self).stack@.drop_last()
                && final(self).stack@.len() == old(self).stack@.len() && final(self).stack@.last() is Text
                && text_of(final(self).stack@.last()) == text_of(resolved(old(self).stack@.drop_last(), old(self).stack@.last())),
            r matches Ok(Some(b)) ==> final(self).stack@ == old(self).stack@.drop_last()
                && resolved(old(self).stack@.drop_last(), old(self).stack@.last()) == Variable::Number(b),
            r is Ok ==> (r->Ok_0 is None <==> resolved(old(self).stack@.drop_last(), old(self).stack@.last()) is Text),
            r matches Err(e) ==> (old(self).stack@.len() == 0 && e is NoValueOnStack) || (old(self).stack@.len() > 0 && e is NotConvertible),
    {
        let v = self.pop_arg()?;
        let t = match self.resolve(&v) {
            Variable::Text(t) => t.clone(),
            Variable::Number(b) => {
                return Ok(Some(*b));
            },
            _ => {
                return Err(RuntimeError::NotConvertible);
            },
        };
        self.push_value(Variable::Text(t));
        Ok(None)
    }

    /// Takes the top value, which must be a number, and gives its bits.
    pub fn pop_number(&mut self) -> (r: Result<u64, RuntimeError>)
        requires
            old(self).wf(),
        ensures
            final(self).wf(),
            final(self).modules == old(self).modules,
            final(self).call_stack == old(self).call_stack,
            final(self).local_stack == old(self).local_stack,
            r is Ok <==> old(self).stack@.len() > 0 && old(self).stack@.last() is Number,
            r matches Ok(b) ==> old(self).stack@.last() == Variable::Number(b)
                && final(self).stack@ == old(self).stack@.drop_last(),
            r matches Err(e) ==> (old(self).stack@.len() == 0 && e is NoValueOnStack) || (old(self).stack@.len() > 0 && e is ExpectedNumber),
    {
        let v = self.pop_arg()?;
        match v {
            Variable::Number(b) => Ok(b),
            _ => Err(RuntimeError::ExpectedNumber),
        }
    }

    /// Takes the top value, which must be a text, and gives it.
    pub fn pop_text(&mut self) -> (r: Result<String, RuntimeError>)
        requires
            old(self).wf(),
        ensures
            final(self).wf(),
            final(self).modules == old(self).modules,
            final(self).call_stack == old(self).call_stack,
            final(self).local_stack == old(self).local_stack,
            r is Ok <==> old(self).stack@.len() > 0 && old(self).stack@.last() is Text,
            r matches Ok(t) ==> t@ == text_of(old(self).stack@.last())
                && final(self).stack@ == old(self).stack@.drop_last(),
            r matches Err(e) ==> (old(self).stack@.len() == 0 && e is NoValueOnStack) || (old(self).stack@.len() > 0 && e is ExpectedText),
    {
        let v = self.pop_arg()?;
        match v {
            Variable::Text(t) => Ok(t),
            _ => Err(RuntimeError::ExpectedText),
        }
    }

    /// Takes the top value, which must denote a text, and gives that text.
    pub fn pop_resolved_text(&mut self) -> (r: Result<String, RuntimeError>)
        requires
            old(self).wf(),
        ensures
            final(self).wf(),
            final(self).modules == old(self).modules,
            final(self).call_stack == old(self).call_stack,
            final(self).local_stack == old(self).local_stack,
            r is Ok <==> old(self).stack@.len() > 0 && resolved(old(self).stack@.drop_last(), old(self).stack@.last()) is Text,
            r matches Ok(t) ==> t@ == text_of(resolved(old(self).stack@.drop_last(), old(self).stack@.last()))
                && final(self).stack@ == old(self).stack@.drop_last(),
            r matches Err(e) ==> (old(self).stack@.len() == 0 && e is NoValueOnStack) || (old(self).stack@.len() > 0 && e is ExpectedText),
    {
        let v = self.pop_arg()?;
        match self.resolve(&v) {
            Variable::Text(t) => Ok(t.clone()),
            _ => Err(RuntimeError::ExpectedText),
        }
    }
}

/// `v` is an array whose length has an exact number.
pub open spec fn len_allowed(v: Variable) -> bool {
    match v {
        Variable::Array(a) => a.len() < EXACT_LIMIT,
        _ => false,
    }
}

/// The characters of a text value; empty for any other value.
pub open spec fn text_of(v: Variable) -> Seq<char> {
    match v {
        Variable::Text(t) => t@,
        _ => Seq::empty(),
    }
}

/// The conditions under which `push` succeeds on stack `s`: the container
/// (second from the top) is a reference to a slot holding an array, and the
/// item (the top) only aliases slots below that one.
pub open spec fn push_allowed(s: Seq<Variable>, m: int) -> bool {
    let n = s.len() as int;
    match s[n - 2] {
        Variable::Reference(ind) => s[ind as int] is Array && refs_below(s[n - 1], ind as int, m),
        _ => false,
    }
}

/// `t` is `s` after a successful `push`: item and container are gone, and
/// the aliased array holds the item as its new last element.
pub open spec fn pushed(s: Seq<Variable>, t: Seq<Variable>) -> bool {
    let n = s.len() as int;
    match s[n - 2] {
        Variable::Reference(ind) => {
            &&& t.len() == n - 2
            &&& forall|i: int| 0 <= i < n - 2 && i != ind ==> t[i] == s[i]
            &&& match (s[ind as int], t[ind as int]) {
                (Variable::Array(a), Variable::Array(b)) => b@ == a@.push(s[n - 1]),
                _ => false,
            }
        },
        _ => false,
    }
}

} // verus!
