use vstd::prelude::*;
use crate::runtime::{RuntimeError, Runtime, resolved};
use crate::variable::{Variable, check_well_formed, refs_below, same_value, well_formed};
use vstd::pervasive::VecAdditionalExecFns;

verus! {

/// Index of the first entry whose key is `key`, or -1.
pub open spec fn find_key(o: Seq<(String, Variable)>, key: Seq<char>) -> int
    decreases o.len(),
{
    if o.len() == 0 {
        -1
    } else {
        let k = find_key(o.drop_last(), key);
        if k >= 0 {
            k
        } else if o.last().0@ == key {
            o.len() - 1
        } else {
            -1
        }
    }
}

proof fn lemma_find_key_prefix(o: Seq<(String, Variable)>, key: Seq<char>, k: int)
    requires
        0 <= k < o.len(),
        find_key(o.subrange(0, k), key) == -1,
        o[k].0@ == key,
    ensures
        find_key(o, key) == k,
    decreases o.len(),
{
    if k < o.len() - 1 {
        assert(o.drop_last().subrange(0, k) =~= o.subrange(0, k));
        lemma_find_key_prefix(o.drop_last(), key, k);
    } else {
        assert(o.drop_last() =~= o.subrange(0, k));
    }
}

/// Index of the entry of `o` with key `key`.
fn key_index(o: &Vec<(String, Variable)>, key: &String) -> (r: Option<usize>)
    ensures
        r matches Some(k) ==> k as int == find_key(o@, key@) && k < o@.len() && o@[k as int].0@ == key@,
        r is None ==> find_key(o@, key@) < 0,
{
    let mut k: usize = 0;
    while k < o.len()
        invariant
            k <= o@.len(),
            find_key(o@.subrange(0, k as int), key@) == -1,
        decreases o@.len() - k,
    {
        assert(o@.subrange(0, k + 1).drop_last() =~= o@.subrange(0, k as int));
        if o[k].0 == *key {
            proof {
                lemma_find_key_prefix(o@, key@, k as int);
            }
            return Some(k);
        }
        k = k + 1;
    }
    assert(o@.subrange(0, o@.len() as int) =~= o@);
    None
}

/// Whether `v` is an object with a field `key`.
pub open spec fn has_field(v: Variable, key: Seq<char>) -> bool {
    match v {
        Variable::Object(o) => find_key(o@, key) >= 0,
        _ => false,
    }
}

/// `t` is `s` with field `key` of the object in slot `ind` set to `val`,
/// its key and place kept.
pub open spec fn field_set(s: Seq<Variable>, t: Seq<Variable>, ind: int, key: Seq<char>, val: Variable) -> bool {
    &&& t.len() == s.len()
    &&& forall|i: int| 0 <= i < s.len() && i != ind ==> t[i] == s[i]
    &&& match (s[ind], t[ind]) {
        (Variable::Object(o), Variable::Object(p)) => {
            let k = find_key(o@, key);
            &&& p@.len() == o@.len()
            &&& p@[k].0@ == key
            &&& p@[k].1 == val
            &&& forall|i: int| 0 <= i < o@.len() && i != k ==> p@[i] == o@[i]
        },
        _ => false,
    }
}

impl Runtime {
    /// The value of field `key` of the object that `v` denotes.
    pub fn field(&self, v: &Variable, key: &String) -> (r: Result<Variable, RuntimeError>)
        requires
            self.wf(),
            self.valid_value(*v),
        ensures
            r is Ok <==> has_field(resolved(self.stack@, *v), key@),
            r matches Ok(x) ==> {
                let o = resolved(self.stack@, *v)->Object_0@;
                same_value(o[find_key(o, key@)].1, x)
            },
            r matches Err(e) ==> e is ExpectedObject || e is NoSuchField,
    {
        match self.resolve(v) {
            Variable::Object(o) => match key_index(o, key) {
                Some(k) => Ok(o[k].1.copy()),
                None => Err(RuntimeError::NoSuchField(key.clone())),
            },
            _ => Err(RuntimeError::ExpectedObject),
        }
    }

    /// Overwrites field `key` of the object in the slot that `target`
    /// aliases. The value may only alias slots below that one.
    pub fn set_field(&mut self, target: &Variable, key: &String, val: Variable) -> (r: Result<(), RuntimeError>)
        requires
            old(self).wf(),
        ensures
            final(self).wf(),
            final(self).modules == old(self).modules,
            final(self).call_stack == old(self).call_stack,
            r is Ok <==> (target is Reference && target->Reference_0 < old(self).stack@.len()
                && has_field(old(self).stack@[target->Reference_0 as int], key@)
                && refs_below(val, target->Reference_0 as int, old(self).modules@.len() as int)
                && well_formed(val)),
            r is Ok ==> field_set(old(self).stack@, final(self).stack@, target->Reference_0 as int, key@, val),
            r is Err ==> final(self).stack@ == old(self).stack@,
    {
        let ghost s = self.stack@;
        let ind = match target {
            Variable::Reference(ind) => *ind,
            _ => {
                return Err(RuntimeError::ExpectedObject);
            },
        };
        if ind >= self.stack.len() {
            return Err(RuntimeError::ExpectedObject);
        }
        let mut slot = Variable::Return;
        self.stack.set_and_swap(ind, &mut slot);
        match slot {
            Variable::Object(mut o) => {
                let k = match key_index(&o, key) {
                    Some(k) => k,
                    None => {
                        let mut back = Variable::Object(o);
                        self.stack.set_and_swap(ind, &mut back);
                        assert(self.stack@ =~= s);
                        return Err(RuntimeError::NoSuchField(key.clone()));
                    },
                };
                if !crate::ops::check_refs_below(&val, ind, self.modules.len()) {
                    let mut back = Variable::Object(o);
                    self.stack.set_and_swap(ind, &mut back);
                    assert(self.stack@ =~= s);
                    return Err(RuntimeError::DanglingReference);
                }
                if !check_well_formed(&val) {
                    let mut back = Variable::Object(o);
                    self.stack.set_and_swap(ind, &mut back);
                    assert(self.stack@ =~= s);
                    return Err(RuntimeError::DuplicateKey);
                }
                proof {
                    assert(o@[k as int].0@ == key@);
                }
                let ghost o0 = o@;
                assert(s[ind as int] == Variable::Object(o));
                let name = o[k].0.clone();
                let mut entry = (name, val);
                o.set_and_swap(k, &mut entry);
                proof {
                    assert(refs_below(s[ind as int], ind as int, self.modules.len() as int));
                    assert forall|i: int| 0 <= i < o@.len() implies refs_below(
                        #[trigger] o@[i].1,
                        ind as int,
                        self.modules.len() as int,
                    ) && well_formed(o@[i].1) by {
                        if i != k {
                            assert(o@[i] == o0[i]);
                        }
                    }
                    assert(well_formed(s[ind as int]));
                    assert forall|i: int, j: int| 0 <= i < j < o@.len() implies #[trigger] o@[i].0@ != #[trigger] o@[j].0@ by {
                        assert(o@[i].0@ == o0[i].0@);
                        assert(o@[j].0@ == o0[j].0@);
                    }
                }
                let mut filled = Variable::Object(o);
                self.stack.set_and_swap(ind, &mut filled);
                proof {
                    assert forall|i: int| 0 <= i < self.stack@.len() implies refs_below(
                        #[trigger] self.stack@[i],
                        i,
                        self.modules.len() as int,
                    ) by {
                        if i != ind {
                            assert(self.stack@[i] == s[i]);
                        }
                    }
                }
                Ok(())
            },
            _ => {
                let mut back = slot;
                self.stack.set_and_swap(ind, &mut back);
                assert(self.stack@ =~= s);
                Err(RuntimeError::ExpectedObject)
            },
        }
    }
}

} // verus!
