use vstd::prelude::*;
use crate::ops::pushed;
use crate::runtime::{clone_of, resolved};
use crate::variable::{Variable, kind_name, refs_free};

verus! {

/// A deep copy holds no reference.
pub proof fn lemma_clone_has_no_refs(s: Seq<Variable>, v: Variable, c: Variable, n: nat)
    requires
        clone_of(s, v, c, n),
    ensures
        refs_free(c),
    decreases n, v,
{
    match v {
        Variable::Reference(j) => {
            lemma_clone_has_no_refs(s, s[j as int], c, j as nat);
        },
        Variable::Array(a) => {
            let b = c->Array_0;
            assert forall|k: int| 0 <= k < b.len() implies refs_free(#[trigger] b[k]) by {
                lemma_clone_has_no_refs(s, a[k], b[k], n);
            }
        },
        Variable::Object(o) => {
            let p = c->Object_0;
            assert forall|k: int| 0 <= k < p.len() implies refs_free(#[trigger] p[k].1) by {
                lemma_clone_has_no_refs(s, o[k].1, p[k].1, n);
            }
        },
        _ => {},
    }
}

/// What a value without references denotes does not depend on the stack:
/// its deep copies are the same whatever the stack holds.
pub proof fn lemma_refs_free_stack_independent(
    c: Variable,
    d: Variable,
    s1: Seq<Variable>,
    n1: nat,
    s2: Seq<Variable>,
    n2: nat,
)
    requires
        refs_free(c),
    ensures
        clone_of(s1, c, d, n1) == clone_of(s2, c, d, n2),
        resolved(s1, c) == c,
        resolved(s2, c) == c,
    decreases c,
{
    match c {
        Variable::Array(a) => {
            match d {
                Variable::Array(b) => {
                    assert forall|k: int| 0 <= k < a.len() && k < b.len() implies clone_of(
                        s1,
                        #[trigger] a[k],
                        b[k],
                        n1,
                    ) == clone_of(s2, a[k], b[k], n2) by {
                        lemma_refs_free_stack_independent(a[k], b[k], s1, n1, s2, n2);
                    }
                },
                _ => {},
            }
        },
        Variable::Object(o) => {
            match d {
                Variable::Object(p) => {
                    assert forall|k: int| 0 <= k < o.len() && k < p.len() implies clone_of(
                        s1,
                        (#[trigger] o[k]).1,
                        p[k].1,
                        n1,
                    ) == clone_of(s2, o[k].1, p[k].1, n2) by {
                        lemma_refs_free_stack_independent(o[k].1, p[k].1, s1, n1, s2, n2);
                    }
                },
                _ => {},
            }
        },
        _ => {},
    }
}

/// A deep copy is independent of the storage it was taken from: it holds no
/// alias, so any later change to the stack (`s2`) leaves what it denotes as
/// it was.
pub proof fn lemma_clone_independent(
    s: Seq<Variable>,
    v: Variable,
    c: Variable,
    n: nat,
    s2: Seq<Variable>,
    n2: nat,
    d: Variable,
)
    requires
        clone_of(s, v, c, n),
    ensures
        refs_free(c),
        resolved(s2, c) == c,
        clone_of(s, c, d, n) == clone_of(s2, c, d, n2),
{
    lemma_clone_has_no_refs(s, v, c, n);
    lemma_refs_free_stack_independent(c, d, s, n, s2, n2);
}

/// After `push`, every alias of the container's slot denotes the array with
/// the item appended: the change is made in the shared slot, not in a copy.
pub proof fn lemma_push_seen_through_alias(s: Seq<Variable>, t: Seq<Variable>, ind: usize)
    requires
        s.len() >= 2,
        s[s.len() - 2] == Variable::Reference(ind),
        ind < s.len() - 2,
        pushed(s, t),
    ensures
        resolved(t, Variable::Reference(ind)) == t[ind as int],
        resolved(t, Variable::Reference(ind)) matches Variable::Array(b)
            && s[ind as int] matches Variable::Array(a)
            && b@ == a@.push(s[s.len() - 1]),
{
    assert(t[ind as int] is Array);
}

/// The five categories of values have five distinct type names, and a
/// type name, being a text, has the type name of a text.
pub proof fn lemma_kind_names(x: u64, b: bool, t: String, o: Vec<(String, Variable)>, a: Vec<Variable>)
    ensures
        kind_name(Variable::Number(x)) != kind_name(Variable::Bool(b)),
        kind_name(Variable::Number(x)) != kind_name(Variable::Text(t)),
        kind_name(Variable::Number(x)) != kind_name(Variable::Object(o)),
        kind_name(Variable::Number(x)) != kind_name(Variable::Array(a)),
        kind_name(Variable::Bool(b)) != kind_name(Variable::Text(t)),
        kind_name(Variable::Bool(b)) != kind_name(Variable::Object(o)),
        kind_name(Variable::Bool(b)) != kind_name(Variable::Array(a)),
        kind_name(Variable::Text(t)) != kind_name(Variable::Object(o)),
        kind_name(Variable::Text(t)) != kind_name(Variable::Array(a)),
        kind_name(Variable::Object(o)) != kind_name(Variable::Array(a)),
        forall|u: String| kind_name(Variable::Text(u)) == kind_name(Variable::Text(t)),
{
    reveal_strlit("number");
    reveal_strlit("boolean");
    reveal_strlit("string");
    reveal_strlit("object");
    reveal_strlit("array");
    assert("number"@[0] != "boolean"@[0]);
    assert("number"@[0] != "string"@[0]);
    assert("number"@[0] != "object"@[0]);
    assert("number"@.len() != "array"@.len());
    assert("boolean"@.len() != "string"@.len());
    assert("boolean"@.len() != "object"@.len());
    assert("boolean"@.len() != "array"@.len());
    assert("string"@[0] != "object"@[0]);
    assert("string"@.len() != "array"@.len());
    assert("object"@.len() != "array"@.len());
}

} // verus!
