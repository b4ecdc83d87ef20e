use vstd::prelude::*;
use crate::runtime::{RuntimeError, Runtime};
use crate::variable::{Variable, refs_below};

verus! {

/// A piece of a value's display form: literal text, or a number that the
/// host formats.
#[derive(Debug)]
pub enum Piece {
    Text(String),
    Number(u64),
}

/// The model of a piece.
pub enum Seg {
    Chars(Seq<char>),
    Num(u64),
}

impl Piece {
    pub open spec fn seg(&self) -> Seg {
        match self {
            Piece::Text(t) => Seg::Chars(t@),
            Piece::Number(b) => Seg::Num(*b),
        }
    }
}

/// The models of a list of pieces.
pub open spec fn segs(p: Seq<Piece>) -> Seq<Seg> {
    p.map_values(|x: Piece| x.seg())
}

/// The display form of `v`, following references below `n`: objects as
/// `{key: value, ...}` in insertion order, arrays as `[v, v, ...]`, scalars
/// as themselves. `None` where a value has no display form.
pub open spec fn rendered(s: Seq<Variable>, v: Variable, n: nat) -> Option<Seq<Seg>>
    decreases n, v, 1nat, 0nat,
{
    match v {
        Variable::Reference(j) => if j < n && j < s.len() {
            rendered(s, s[j as int], j as nat)
        } else {
            None
        },
        Variable::Text(t) => Some(seq![Seg::Chars(t@)]),
        Variable::Number(b) => Some(seq![Seg::Num(b)]),
        Variable::Bool(b) => Some(seq![Seg::Chars(if b { "true"@ } else { "false"@ })]),
        Variable::Array(a) => match rendered_items(s, v, a@.len(), n) {
            Some(r) => Some(seq![Seg::Chars("["@)] + r + seq![Seg::Chars("]"@)]),
            None => None,
        },
        Variable::Object(o) => match rendered_items(s, v, o@.len(), n) {
            Some(r) => Some(seq![Seg::Chars("{"@)] + r + seq![Seg::Chars("}"@)]),
            None => None,
        },
        _ => None,
    }
}

/// The display forms of the first `k` elements (or entries) of container
/// `c`, separated by `", "`; an entry shows as `key: value`.
pub open spec fn rendered_items(s: Seq<Variable>, c: Variable, k: nat, n: nat) -> Option<Seq<Seg>>
    decreases n, c, 0nat, k,
{
    if k == 0 {
        Some(Seq::empty())
    } else {
        let item: Option<Seq<Seg>> = match c {
            Variable::Array(a) => if k <= a@.len() {
                rendered(s, a@[k - 1], n)
            } else {
                None
            },
            Variable::Object(o) => if k <= o@.len() {
                match rendered(s, o@[k - 1].1, n) {
                    Some(r) => Some(seq![Seg::Chars(o@[k - 1].0@), Seg::Chars(": "@)] + r),
                    None => None,
                }
            } else {
                None
            },
            _ => None,
        };
        match (rendered_items(s, c, (k - 1) as nat, n), item) {
            (Some(p), Some(r)) => Some(if k == 1 {
                r
            } else {
                p + seq![Seg::Chars(", "@)] + r
            }),
            _ => None,
        }
    }
}

/// Once an item has no display form, no longer prefix has one.
proof fn lemma_items_none(s: Seq<Variable>, c: Variable, k: nat, k2: nat, n: nat)
    requires
        rendered_items(s, c, k, n) is None,
        k <= k2,
    ensures
        rendered_items(s, c, k2, n) is None,
    decreases k2 - k,
{
    if k < k2 {
        lemma_items_none(s, c, k, (k2 - 1) as nat, n);
    }
}

fn push_text(out: &mut Vec<Piece>, t: &str)
    ensures
        segs(final(out)@) == segs(old(out)@).push(Seg::Chars(t@)),
{
    out.push(Piece::Text(t.to_owned()));
    assert(segs(out@) =~= segs(old(out)@).push(Seg::Chars(t@)));
}

impl Runtime {
    /// Appends the display form of `v` to `out`; false, with `out` in an
    /// unspecified state, where `v` has none.
    fn render_into(&self, v: &Variable, n: usize, out: &mut Vec<Piece>) -> (r: bool)
        requires
            self.wf(),
            n <= self.stack@.len(),
            refs_below(*v, n as int, self.modules.len() as int),
        ensures
            r == rendered(self.stack@, *v, n as nat) is Some,
            r ==> segs(final(out)@) == segs(old(out)@) + rendered(self.stack@, *v, n as nat)->Some_0,
        decreases n, *v,
    {
        let ghost s = self.stack@;
        match v {
            Variable::Reference(j) => self.render_into(&self.stack[*j], *j, out),
            Variable::Text(t) => {
                push_text(out, t.as_str());
                true
            },
            Variable::Number(b) => {
                out.push(Piece::Number(*b));
                assert(segs(out@) =~= segs(old(out)@) + seq![Seg::Num(*b)]);
                true
            },
            Variable::Bool(b) => {
                if *b {
                    push_text(out, "true");
                } else {
                    push_text(out, "false");
                }
                true
            },
            Variable::Array(a) => {
                push_text(out, "[");
                let ghost start = segs(out@);
                let mut k: usize = 0;
                while k < a.len()
                    invariant
                        self.wf(),
                        n <= self.stack@.len(),
                        s == self.stack@,
                        *v == Variable::Array(*a),
                        forall|i: int| 0 <= i < a.len() ==> refs_below(#[trigger] a[i], n as int, self.modules.len() as int),
                        k <= a.len(),
                        rendered_items(s, *v, k as nat, n as nat) is Some,
                        segs(out@) == start + rendered_items(s, *v, k as nat, n as nat)->Some_0,
                    decreases a.len() - k,
                {
                    if k > 0 {
                        push_text(out, ", ");
                    }
                    proof {
                        vstd::std_specs::vec::axiom_vec_index_decreases(*a, k as int);
                        assert(decreases_to!(*v => v->Array_0));
                    }
                    let ok = self.render_into(&a[k], n, out);
                    if !ok {
                        proof {
                            lemma_items_none(s, *v, (k + 1) as nat, a@.len(), n as nat);
                        }
                        return false;
                    }
                    proof {
                        let p = rendered_items(s, *v, k as nat, n as nat)->Some_0;
                        let r = rendered(s, a@[k as int], n as nat)->Some_0;
                        if k > 0 {
                            assert(segs(out@) =~= start + (p + seq![Seg::Chars(", "@)] + r));
                        } else {
                            assert(p =~= Seq::<Seg>::empty());
                            assert(segs(out@) =~= start + r);
                        }
                    }
                    k = k + 1;
                }
                push_text(out, "]");
                assert(segs(out@) =~= segs(old(out)@) + (seq![Seg::Chars("["@)] + rendered_items(
                    s,
                    *v,
                    a@.len(),
                    n as nat,
                )->Some_0 + seq![Seg::Chars("]"@)]));
                true
            },
            Variable::Object(o) => {
                push_text(out, "{");
                let ghost start = segs(out@);
                let mut k: usize = 0;
                while k < o.len()
                    invariant
                        self.wf(),
                        n <= self.stack@.len(),
                        s == self.stack@,
                        *v == Variable::Object(*o),
                        forall|i: int| 0 <= i < o.len() ==> refs_below(#[trigger] o[i].1, n as int, self.modules.len() as int),
                        k <= o.len(),
                        rendered_items(s, *v, k as nat, n as nat) is Some,
                        segs(out@) == start + rendered_items(s, *v, k as nat, n as nat)->Some_0,
                    decreases o.len() - k,
                {
                    if k > 0 {
                        push_text(out, ", ");
                    }
                    push_text(out, o[k].0.as_str());
                    push_text(out, ": ");
                    proof {
                        vstd::std_specs::vec::axiom_vec_index_decreases(*o, k as int);
                        assert(decreases_to!(*v => v->Object_0));
                        assert(decreases_to!(o[k as int] => o[k as int].1));
                    }
                    let ok = self.render_into(&o[k].1, n, out);
                    if !ok {
                        proof {
                            lemma_items_none(s, *v, (k + 1) as nat, o@.len(), n as nat);
                        }
                        return false;
                    }
                    proof {
                        let p = rendered_items(s, *v, k as nat, n as nat)->Some_0;
                        let r = seq![Seg::Chars(o@[k as int].0@), Seg::Chars(": "@)] + rendered(s, o@[k as int].1, n as nat)->Some_0;
                        if k > 0 {
                            assert(segs(out@) =~= start + (p + seq![Seg::Chars(", "@)] + r));
                        } else {
                            assert(p =~= Seq::<Seg>::empty());
                            assert(segs(out@) =~= start + r);
                        }
                    }
                    k = k + 1;
                }
                push_text(out, "}");
                assert(segs(out@) =~= segs(old(out)@) + (seq![Seg::Chars("{"@)] + rendered_items(
                    s,
                    *v,
                    o@.len(),
                    n as nat,
                )->Some_0 + seq![Seg::Chars("}"@)]));
                true
            },
            _ => false,
        }
    }

    /// The display form of `v`, for a print operation.
    pub fn render(&self, v: &Variable) -> (r: Result<Vec<Piece>, RuntimeError>)
        requires
            self.wf(),
            self.valid_value(*v),
        ensures
            r is Ok <==> rendered(self.stack@, *v, self.stack@.len() as nat) is Some,
            r matches Ok(p) ==> segs(p@) == rendered(self.stack@, *v, self.stack@.len() as nat)->Some_0,
            r matches Err(e) ==> e is NotPrintable,
    {
        let mut out: Vec<Piece> = Vec::new();
        assert(segs(out@) =~= Seq::<Seg>::empty());
        if self.render_into(v, self.stack.len(), &mut out) {
            assert(segs(out@) =~= rendered(self.stack@, *v, self.stack@.len() as nat)->Some_0);
            Ok(out)
        } else {
            Err(RuntimeError::NotPrintable)
        }
    }
}

} // verus!
