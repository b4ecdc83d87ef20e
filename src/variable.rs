use vstd::prelude::*;

verus! {

/// A script value.
///
/// Numbers are carried as the IEEE-754 bit pattern of a 64-bit float: this
/// core moves numbers around without reading them, and the arithmetic on
/// them is the host's.
#[derive(Debug)]
pub enum Variable {
    Number(u64),
    Bool(bool),
    Text(String),
    /// Insertion-ordered key/value pairs with distinct keys.
    Object(Vec<(String, Variable)>),
    Array(Vec<Variable>),
    /// Alias of the evaluation-stack slot at this index.
    Reference(usize),
    /// Alias whose target is not tracked by the stack; it cannot be cloned.
    UnsafeReference(usize),
    /// Handle of a loaded module, an index into the runtime's module table.
    ForeignObject(usize),
    /// "No value, only a control signal."
    Return,
}

/// A function of a loaded module, as far as the call bridge needs it.
#[derive(Debug, Clone)]
pub struct Function {
    pub name: String,
    pub params: usize,
}

/// A loaded program: its name-keyed function table.
#[derive(Debug, Clone)]
pub struct Module {
    pub functions: Vec<Function>,
}

/// Every `Reference` inside `v` points below slot `n`, and every module
/// handle inside `v` is below `m`.
pub open spec fn refs_below(v: Variable, n: int, m: int) -> bool
    decreases v,
{
    match v {
        Variable::Reference(i) => i < n,
        Variable::ForeignObject(h) => h < m,
        Variable::Array(a) => forall|k: int| 0 <= k < a.len() ==> refs_below(#[trigger] a[k], n, m),
        Variable::Object(o) => forall|k: int|
            0 <= k < o.len() ==> refs_below(#[trigger] o[k].1, n, m),
        _ => true,
    }
}

/// `v` holds no `Reference` at any depth.
pub open spec fn refs_free(v: Variable) -> bool
    decreases v,
{
    match v {
        Variable::Reference(_) => false,
        Variable::Array(a) => forall|k: int| 0 <= k < a.len() ==> refs_free(#[trigger] a[k]),
        Variable::Object(o) => forall|k: int| 0 <= k < o.len() ==> refs_free(#[trigger] o[k].1),
        _ => true,
    }
}

/// The keys of an object's entries are pairwise distinct.
pub open spec fn keys_distinct(o: Seq<(String, Variable)>) -> bool {
    forall|i: int, j: int| 0 <= i < j < o.len() ==> #[trigger] o[i].0@ != #[trigger] o[j].0@
}

/// Every object inside `v`, at any depth, has distinct keys.
pub open spec fn well_formed(v: Variable) -> bool
    decreases v,
{
    match v {
        Variable::Array(a) => forall|k: int| 0 <= k < a.len() ==> well_formed(#[trigger] a[k]),
        Variable::Object(o) => keys_distinct(o@) && forall|k: int|
            0 <= k < o.len() ==> well_formed(#[trigger] o[k].1),
        _ => true,
    }
}

/// Equal values are equally well formed.
pub proof fn lemma_same_well_formed(a: Variable, b: Variable)
    requires
        same_value(a, b),
        well_formed(a),
    ensures
        well_formed(b),
    decreases a,
{
    match a {
        Variable::Array(x) => {
            let y = b->Array_0;
            assert forall|k: int| 0 <= k < y.len() implies well_formed(#[trigger] y[k]) by {
                lemma_same_well_formed(x[k], y[k]);
            }
        },
        Variable::Object(x) => {
            let y = b->Object_0;
            assert forall|k: int| 0 <= k < y.len() implies well_formed(#[trigger] y[k].1) by {
                lemma_same_well_formed(x[k].1, y[k].1);
            }
            assert forall|i: int, j: int| 0 <= i < j < y.len() implies #[trigger] y@[i].0@ != #[trigger] y@[j].0@ by {
                assert(x@[i].0@ == y@[i].0@);
                assert(x@[j].0@ == y@[j].0@);
            }
        },
        _ => {},
    }
}

/// Whether every object inside `v` has distinct keys.
pub fn check_well_formed(v: &Variable) -> (r: bool)
    ensures
        r == well_formed(*v),
    decreases *v,
{
    match v {
        Variable::Array(a) => {
            let mut k: usize = 0;
            while k < a.len()
                invariant
                    *v == Variable::Array(*a),
                    k <= a.len(),
                    forall|i: int| 0 <= i < k ==> well_formed(#[trigger] a[i]),
                decreases a.len() - k,
            {
                proof {
                    vstd::std_specs::vec::axiom_vec_index_decreases(*a, k as int);
                    assert(decreases_to!(*v => v->Array_0));
                }
                if !check_well_formed(&a[k]) {
                    return false;
                }
                k = k + 1;
            }
            true
        },
        Variable::Object(o) => {
            let mut k: usize = 0;
            while k < o.len()
                invariant
                    *v == Variable::Object(*o),
                    k <= o.len(),
                    forall|i: int| 0 <= i < k ==> well_formed(#[trigger] o[i].1),
                    forall|i: int, j: int| 0 <= i < j < k ==> #[trigger] o@[i].0@ != #[trigger] o@[j].0@,
                decreases o.len() - k,
            {
                proof {
                    vstd::std_specs::vec::axiom_vec_index_decreases(*o, k as int);
                    assert(decreases_to!(*v => v->Object_0));
                    assert(decreases_to!(o[k as int] => o[k as int].1));
                }
                let mut i: usize = 0;
                while i < k
                    invariant
                        *v == Variable::Object(*o),
                        k < o.len(),
                        i <= k,
                        forall|x: int| 0 <= x < i ==> #[trigger] o@[x].0@ != o@[k as int].0@,
                    decreases k - i,
                {
                    if o[i].0 == o[k].0 {
                        assert(o@[i as int].0@ == o@[k as int].0@);
                        assert(!keys_distinct(o@));
                        return false;
                    }
                    i = i + 1;
                }
                if !check_well_formed(&o[k].1) {
                    return false;
                }
                k = k + 1;
            }
            true
        },
        _ => true,
    }
}

/// The stable type name of each kind of value.
pub open spec fn kind_name(v: Variable) -> Seq<char> {
    match v {
        Variable::Number(_) => "number"@,
        Variable::Bool(_) => "boolean"@,
        Variable::Text(_) => "string"@,
        Variable::Object(_) => "object"@,
        Variable::Array(_) => "array"@,
        Variable::Reference(_) => "ref"@,
        Variable::UnsafeReference(_) => "unsafe_ref"@,
        Variable::ForeignObject(_) => "foreign_object"@,
        Variable::Return => "return"@,
    }
}

/// `a` and `b` are the same value: the same shape, with equal texts.
pub open spec fn same_value(a: Variable, b: Variable) -> bool
    decreases a,
{
    match a {
        Variable::Text(t) => match b {
            Variable::Text(u) => u@ == t@,
            _ => false,
        },
        Variable::Array(x) => match b {
            Variable::Array(y) => y.len() == x.len() && forall|k: int|
                0 <= k < x.len() ==> same_value(#[trigger] x[k], y[k]),
            _ => false,
        },
        Variable::Object(x) => match b {
            Variable::Object(y) => y.len() == x.len() && forall|k: int|
                0 <= k < x.len() ==> (#[trigger] x[k]).0@ == y[k].0@ && same_value(x[k].1, y[k].1),
            _ => false,
        },
        _ => b == a,
    }
}

/// Equal values have the same references.
pub proof fn lemma_same_refs_below(a: Variable, b: Variable, n: int, m: int)
    requires
        same_value(a, b),
        refs_below(a, n, m),
    ensures
        refs_below(b, n, m),
    decreases a,
{
    match a {
        Variable::Array(x) => {
            let y = b->Array_0;
            assert forall|k: int| 0 <= k < y.len() implies refs_below(#[trigger] y[k], n, m) by {
                lemma_same_refs_below(x[k], y[k], n, m);
            }
        },
        Variable::Object(x) => {
            let y = b->Object_0;
            assert forall|k: int| 0 <= k < y.len() implies refs_below(#[trigger] y[k].1, n, m) by {
                lemma_same_refs_below(x[k].1, y[k].1, n, m);
            }
        },
        _ => {},
    }
}

impl Variable {
    /// A copy of this value; references are copied as references.
    pub fn copy(&self) -> (r: Variable)
        ensures
            same_value(*self, r),
        decreases *self,
    {
        match self {
            Variable::Text(t) => Variable::Text(t.clone()),
            Variable::Array(a) => {
                let mut out: Vec<Variable> = Vec::new();
                let mut k: usize = 0;
                while k < a.len()
                    invariant
                        *self == Variable::Array(*a),
                        k <= a.len(),
                        out@.len() == k,
                        forall|i: int| 0 <= i < k ==> same_value(#[trigger] a[i], out[i]),
                    decreases a.len() - k,
                {
                    proof {
                        vstd::std_specs::vec::axiom_vec_index_decreases(*a, k as int);
                        assert(decreases_to!(*self => self->Array_0));
                    }
                    out.push(a[k].copy());
                    k = k + 1;
                }
                Variable::Array(out)
            },
            Variable::Object(o) => {
                let mut out: Vec<(String, Variable)> = Vec::new();
                let mut k: usize = 0;
                while k < o.len()
                    invariant
                        *self == Variable::Object(*o),
                        k <= o.len(),
                        out@.len() == k,
                        forall|i: int|
                            0 <= i < k ==> (#[trigger] o[i]).0@ == out[i].0@ && same_value(o[i].1, out[i].1),
                    decreases o.len() - k,
                {
                    proof {
                        vstd::std_specs::vec::axiom_vec_index_decreases(*o, k as int);
                        assert(decreases_to!(*self => self->Object_0));
                        assert(decreases_to!(o[k as int] => o[k as int].1));
                    }
                    out.push((o[k].0.clone(), o[k].1.copy()));
                    k = k + 1;
                }
                Variable::Object(out)
            },
            Variable::Number(x) => Variable::Number(*x),
            Variable::Bool(b) => Variable::Bool(*b),
            Variable::Reference(i) => Variable::Reference(*i),
            Variable::UnsafeReference(i) => Variable::UnsafeReference(*i),
            Variable::ForeignObject(h) => Variable::ForeignObject(*h),
            Variable::Return => Variable::Return,
        }
    }

    /// The type name of this value, as a text.
    pub fn type_of(&self) -> (r: String)
        ensures
            r@ == kind_name(*self),
    {
        let s: &str = match self {
            Variable::Number(_) => "number",
            Variable::Bool(_) => "boolean",
            Variable::Text(_) => "string",
            Variable::Object(_) => "object",
            Variable::Array(_) => "array",
            Variable::Reference(_) => "ref",
            Variable::UnsafeReference(_) => "unsafe_ref",
            Variable::ForeignObject(_) => "foreign_object",
            Variable::Return => "return",
        };
        s.to_owned()
    }
}

} // verus!
