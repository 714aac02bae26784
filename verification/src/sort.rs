//! The rational sort: the owner of the table between values and handles,
//! and the rebuilding of a stored value as a constructor call.

use vstd::prelude::*;
use crate::rational::{Rational, lemma_reduced_unique};

verus! {

/// A handle: the position at which a value entered the table.
#[derive(Clone, Copy, Debug, PartialEq, Eq, Structural, Hash)]
pub struct Value {
    pub bits: u64,
}

/// A call of a named constructor on integer literals.
#[derive(Debug)]
pub struct ConstructorCall {
    pub head: &'static str,
    pub args: Vec<i64>,
}

/// The table after `v` was interned into `s`.
pub open spec fn interned(s: Seq<Rational>, v: Rational) -> Seq<Rational> {
    if s.contains(v) {
        s
    } else {
        s.push(v)
    }
}

/// The handle that interning `v` into `s` gives.
pub open spec fn handle_of(s: Seq<Rational>, v: Rational) -> int {
    if s.contains(v) {
        s.index_of(v)
    } else {
        s.len() as int
    }
}

/// The table after each of `vs` was interned into `s`, first to last.
pub open spec fn interned_all(s: Seq<Rational>, vs: Seq<Rational>) -> Seq<Rational>
    decreases vs.len(),
{
    if vs.len() == 0 {
        s
    } else {
        interned_all(interned(s, vs[0]), vs.drop_first())
    }
}

/// The sort of exact rationals. It owns every value ever interned; the
/// table only grows, and a handle once given stays valid.
#[derive(Debug)]
pub struct RationalSort {
    values: Vec<Rational>,
}

impl View for RationalSort {
    type V = Seq<Rational>;

    closed spec fn view(&self) -> Seq<Rational> {
        self.values@
    }
}

impl RationalSort {
    /// No value stands twice in the table, and each is in lowest terms.
    pub open spec fn wf(&self) -> bool {
        &&& self@.no_duplicates()
        &&& forall|i: int| 0 <= i < self@.len() ==> (#[trigger] self@[i]).wf()
    }

    /// An empty table.
    pub fn new() -> (r: RationalSort)
        ensures
            r.wf(),
            r@ == Seq::<Rational>::empty(),
    {
        RationalSort { values: Vec::new() }
    }

    /// The sort's name.
    pub fn name(&self) -> (r: &'static str)
        ensures
            r@ == "Rational"@,
    {
        "Rational"
    }

    /// How many distinct values were interned.
    pub fn population(&self) -> (n: usize)
        ensures
            n == self@.len(),
    {
        self.values.len()
    }

    /// The handle of `v`, if it was interned.
    pub fn lookup(&self, v: Rational) -> (r: Option<Value>)
        requires
            self.wf(),
        ensures
            r.is_some() <==> self@.contains(v),
            r matches Some(h) ==> h.bits == self@.index_of(v),
    {
        let mut i: usize = 0;
        while i < self.values.len()
            invariant
                self.wf(),
                i <= self.values.len(),
                forall|j: int| 0 <= j < i ==> self.values@[j] != v,
            decreases self.values.len() - i,
        {
            if self.values[i] == v {
                proof {
                    assert(self@[i as int] == v);
                    let k = self@.index_of(v);
                    assert(0 <= k < self@.len() && self@[k] == v);
                }
                return Some(Value { bits: i as u64 });
            }
            i += 1;
        }
        None
    }

    /// Interns `v`: the handle it already has, or else the next unused one,
    /// which is the population so far.
    pub fn store(&mut self, v: Rational) -> (h: Value)
        requires
            old(self).wf(),
            v.wf(),
        ensures
            final(self).wf(),
            final(self)@ == interned(old(self)@, v),
            h.bits == handle_of(old(self)@, v),
            h.bits < final(self)@.len(),
            final(self)@[h.bits as int] == v,
    {
        match self.lookup(v) {
            Some(h) => h,
            None => {
                let n: usize = self.values.len();
                self.values.push(v);
                Value { bits: n as u64 }
            },
        }
    }

    /// The value behind a handle that `store` gave.
    pub fn load(&self, h: Value) -> (v: Rational)
        requires
            h.bits < self@.len(),
        ensures
            v == self@[h.bits as int],
    {
        let n: usize = self.values.len();
        assert(h.bits < n);
        self.values[h.bits as usize]
    }

    /// The stored value as a call of the constructor `rational` on its
    /// reduced numerator and denominator, with the fixed cost 1.
    pub fn make_expr(&self, h: Value) -> (r: (u64, ConstructorCall))
        requires
            h.bits < self@.len(),
        ensures
            r.0 == 1,
            r.1.head@ == "rational"@,
            r.1.args@ == seq![self@[h.bits as int].numer, self@[h.bits as int].denom],
    {
        let rat = self.load(h);
        let mut args: Vec<i64> = Vec::new();
        args.push(rat.numer);
        args.push(rat.denom);
        assert(args@ =~= seq![rat.numer, rat.denom]);
        (1, ConstructorCall { head: "rational", args })
    }
}

/// Interning is idempotent, and the handle leads back to the value: a
/// second interning of `v` changes nothing and gives the same handle, and
/// the entry under that handle is `v`.
pub proof fn lemma_intern_idempotent(s: Seq<Rational>, v: Rational)
    requires
        s.no_duplicates(),
    ensures
        interned(s, v).no_duplicates(),
        interned(interned(s, v), v) == interned(s, v),
        handle_of(interned(s, v), v) == handle_of(s, v),
        0 <= handle_of(s, v) < interned(s, v).len(),
        interned(s, v)[handle_of(s, v)] == v,
{
    let t = interned(s, v);
    if !s.contains(v) {
        assert(t[s.len() as int] == v);
        assert(t.contains(v));
        assert forall|i: int, j: int| 0 <= i < t.len() && 0 <= j < t.len() && i != j implies t[i]
            != t[j] by {
            if i == s.len() {
                assert(s[j] == t[j]);
            } else if j == s.len() {
                assert(s[i] == t[i]);
            }
        }
        assert(t[t.index_of(v)] == v);
    }
}

/// Interning keeps what is there: every handle given before still leads to
/// its value afterwards.
pub proof fn lemma_intern_keeps_handles(s: Seq<Rational>, v: Rational, i: int)
    requires
        0 <= i < s.len(),
    ensures
        interned(s, v).len() >= s.len(),
        interned(s, v)[i] == s[i],
{
}

/// Distinct values get distinct handles: after `v1` was interned, interning
/// another value `v2` gives another handle, and `v1` keeps its own.
pub proof fn lemma_intern_injective(s: Seq<Rational>, v1: Rational, v2: Rational)
    requires
        s.no_duplicates(),
        v1 != v2,
    ensures
        handle_of(interned(s, v1), v2) != handle_of(s, v1),
        handle_of(interned(interned(s, v1), v2), v1) == handle_of(s, v1),
{
    lemma_intern_idempotent(s, v1);
    let s1 = interned(s, v1);
    let h1 = handle_of(s, v1);
    lemma_intern_idempotent(s1, v2);
    let s2 = interned(s1, v2);
    let h2 = handle_of(s1, v2);
    assert(s1[h1] == v1);
    assert(s2[h2] == v2);
    if h2 < s1.len() {
        assert(s2[h2] == s1[h2]);
    }
    assert(s2[h1] == v1);
    assert(s2.contains(v1));
    assert(s2[s2.index_of(v1)] == v1);
}

/// Equality of values is equality of handles: two reduced fractions that
/// denote the same number get the same handle.
pub proof fn lemma_equal_values_share_handle(s: Seq<Rational>, a: Rational, b: Rational)
    requires
        s.no_duplicates(),
        a.wf(),
        b.wf(),
        a.same_value(b),
    ensures
        handle_of(interned(s, a), b) == handle_of(s, a),
{
    lemma_reduced_unique(a, b);
    lemma_intern_idempotent(s, a);
}

/// The values of the table after `v` was interned are those before, and `v`.
pub proof fn lemma_interned_values(s: Seq<Rational>, v: Rational)
    ensures
        interned(s, v).to_set() == s.to_set().insert(v),
{
    let t = interned(s, v);
    assert forall|x: Rational| t.to_set().contains(x) == s.to_set().insert(v).contains(x) by {
        if s.contains(v) {
        } else {
            if t.contains(x) {
                let i = choose|i: int| 0 <= i < t.len() && t[i] == x;
                if i < s.len() {
                    assert(s[i] == x);
                }
            }
            if s.contains(x) {
                let i = choose|i: int| 0 <= i < s.len() && s[i] == x;
                assert(t[i] == x);
            }
            assert(t[s.len() as int] == v);
        }
    }
    assert(t.to_set() =~= s.to_set().insert(v));
}

/// However often and in whatever order values are interned, the table ends
/// with one entry for each distinct value: its population is the number of
/// distinct values among those it held and those interned.
pub proof fn lemma_population(s: Seq<Rational>, vs: Seq<Rational>)
    requires
        s.no_duplicates(),
    ensures
        interned_all(s, vs).no_duplicates(),
        interned_all(s, vs).to_set() == s.to_set().union(vs.to_set()),
        interned_all(s, vs).len() == s.to_set().union(vs.to_set()).len(),
    decreases vs.len(),
{
    let r = interned_all(s, vs);
    if vs.len() == 0 {
        assert(vs.to_set() =~= Set::<Rational>::empty());
        assert(s.to_set().union(vs.to_set()) =~= s.to_set());
    } else {
        let s1 = interned(s, vs[0]);
        let rest = vs.drop_first();
        lemma_intern_idempotent(s, vs[0]);
        lemma_interned_values(s, vs[0]);
        lemma_population(s1, rest);
        assert forall|x: Rational| vs.to_set().contains(x) == (x == vs[0] || rest.to_set().contains(x)) by {
            if vs.contains(x) {
                let i = choose|i: int| 0 <= i < vs.len() && vs[i] == x;
                if i > 0 {
                    assert(rest[i - 1] == x);
                }
            }
            if rest.contains(x) {
                let i = choose|i: int| 0 <= i < rest.len() && rest[i] == x;
                assert(vs[i + 1] == x);
            }
        }
        assert(s1.to_set().union(rest.to_set()) =~= s.to_set().union(vs.to_set()));
    }
    r.unique_seq_to_set();
}

} // verus!
