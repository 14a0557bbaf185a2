//! Ordered sets of texts, in the order `String` compares (code point by code point).
use vstd::prelude::*;
use crate::text::eq_chars;

verus! {

/// `a < b` in lexicographic code-point order (the order of `String`).
pub open spec fn lex_lt(a: Seq<char>, b: Seq<char>) -> bool
    decreases a.len(),
{
    if a.len() == 0 {
        b.len() > 0
    } else if b.len() == 0 {
        false
    } else if a[0] != b[0] {
        a[0] < b[0]
    } else {
        lex_lt(a.drop_first(), b.drop_first())
    }
}

pub proof fn lemma_lex_irreflexive(a: Seq<char>)
    ensures
        !lex_lt(a, a),
    decreases a.len(),
{
    if a.len() > 0 {
        lemma_lex_irreflexive(a.drop_first());
    }
}

pub proof fn lemma_lex_total(a: Seq<char>, b: Seq<char>)
    ensures
        a == b || lex_lt(a, b) || lex_lt(b, a),
    decreases a.len(),
{
    if a.len() > 0 && b.len() > 0 && a[0] == b[0] {
        lemma_lex_total(a.drop_first(), b.drop_first());
        if a.drop_first() == b.drop_first() {
            assert(a == seq![a[0]] + a.drop_first());
            assert(b == seq![b[0]] + b.drop_first());
        }
    } else if a.len() == 0 && b.len() == 0 {
        assert(a == b);
    }
}

pub proof fn lemma_lex_asymmetric(a: Seq<char>, b: Seq<char>)
    requires
        lex_lt(a, b),
    ensures
        !lex_lt(b, a),
    decreases a.len(),
{
    if a.len() > 0 && b.len() > 0 && a[0] == b[0] {
        lemma_lex_asymmetric(a.drop_first(), b.drop_first());
    }
}

pub proof fn lemma_lex_trans(a: Seq<char>, b: Seq<char>, c: Seq<char>)
    requires
        lex_lt(a, b),
        lex_lt(b, c),
    ensures
        lex_lt(a, c),
    decreases a.len(),
{
    if a.len() > 0 && b.len() > 0 && c.len() > 0 && a[0] == b[0] && b[0] == c[0] {
        lemma_lex_trans(a.drop_first(), b.drop_first(), c.drop_first());
    }
}

/// `a < b` in `String` order.
pub fn lex_less(a: &Vec<char>, b: &Vec<char>) -> (r: bool)
    ensures
        r == lex_lt(a@, b@),
{
    let mut i: usize = 0;
    assert(a@.subrange(0, a.len() as int) == a@);
    assert(b@.subrange(0, b.len() as int) == b@);
    while i < a.len() && i < b.len() && a[i] == b[i]
        invariant
            i <= a.len(),
            i <= b.len(),
            lex_lt(a@, b@) == lex_lt(
                a@.subrange(i as int, a.len() as int),
                b@.subrange(i as int, b.len() as int),
            ),
        decreases a.len() - i,
    {
        assert(a@.subrange(i as int, a.len() as int).drop_first() == a@.subrange(
            i + 1,
            a.len() as int,
        ));
        assert(b@.subrange(i as int, b.len() as int).drop_first() == b@.subrange(
            i + 1,
            b.len() as int,
        ));
        i = i + 1;
    }
    if i == a.len() {
        i < b.len()
    } else if i == b.len() {
        false
    } else {
        a[i] < b[i]
    }
}

/// Strictly increasing in `String` order.
pub open spec fn strictly_sorted(s: Seq<Seq<char>>) -> bool {
    forall|i: int, j: int| 0 <= i < j < s.len() ==> lex_lt(#[trigger] s[i], #[trigger] s[j])
}

/// A set of texts kept in `String` order (like `BTreeSet<String>`).
#[derive(Debug)]
pub struct SortedSet {
    items: Vec<Vec<char>>,
}

impl SortedSet {
    /// The members in increasing order.
    pub closed spec fn elems(&self) -> Seq<Seq<char>> {
        self.items@.map_values(|v: Vec<char>| v@)
    }

    pub closed spec fn wf(&self) -> bool {
        strictly_sorted(self.elems())
    }

    /// The members of a well-formed set are in strictly increasing order.
    pub proof fn lemma_sorted(&self)
        requires
            self.wf(),
        ensures
            strictly_sorted(self.elems()),
    {
    }

    /// The members of a well-formed set are distinct.
    pub proof fn lemma_distinct(&self)
        requires
            self.wf(),
        ensures
            forall|i: int, j: int|
                0 <= i < j < self.elems().len() ==> #[trigger] self.elems()[i]
                    != #[trigger] self.elems()[j],
    {
        assert forall|i: int, j: int|
            0 <= i < j < self.elems().len() implies #[trigger] self.elems()[i]
                != #[trigger] self.elems()[j] by {
            lemma_lex_irreflexive(self.elems()[i]);
        }
    }

    /// A well-formed set has as many members as its sequence has entries.
    pub proof fn lemma_card(&self)
        requires
            self.wf(),
        ensures
            self.elems().to_set().finite(),
            self.elems().to_set().len() == self.elems().len(),
    {
        self.lemma_distinct();
        let e = self.elems();
        assert(e.no_duplicates()) by {
            assert forall|i: int, j: int|
                0 <= i < e.len() && 0 <= j < e.len() && i != j implies e[i] != e[j] by {
                if i < j {
                    assert(e[i] != e[j]);
                } else {
                    assert(e[j] != e[i]);
                }
            }
        }
        e.unique_seq_to_set();
        vstd::seq_lib::seq_to_set_is_finite(e);
    }

    /// The members, in order.
    pub fn to_chars(&self) -> (v: Vec<Vec<char>>)
        ensures
            v@.map_values(|x: Vec<char>| x@) == self.elems(),
    {
        let mut v: Vec<Vec<char>> = Vec::new();
        let mut i: usize = 0;
        while i < self.items.len()
            invariant
                i <= self.items.len(),
                v@.len() == i,
                forall|k: int| 0 <= k < i ==> (#[trigger] v@[k])@ == self.elems()[k],
            decreases self.items.len() - i,
        {
            v.push(self.items[i].clone());
            i = i + 1;
        }
        assert(v@.map_values(|x: Vec<char>| x@) =~= self.elems());
        v
    }

    /// `x` is a member.
    pub fn contains(&self, x: &Vec<char>) -> (b: bool)
        ensures
            b == self.elems().contains(x@),
    {
        let mut i: usize = 0;
        while i < self.items.len()
            invariant
                i <= self.items.len(),
                forall|k: int| 0 <= k < i ==> self.elems()[k] != x@,
            decreases self.items.len() - i,
        {
            if eq_chars(&self.items[i], x) {
                assert(self.elems()[i as int] == x@);
                return true;
            }
            i = i + 1;
        }
        false
    }

    pub fn new() -> (s: Self)
        ensures
            s.wf(),
            s.elems().len() == 0,
    {
        SortedSet { items: Vec::new() }
    }

    pub fn len(&self) -> (n: usize)
        ensures
            n == self.elems().len(),
    {
        self.items.len()
    }

    /// The `i`-th member.
    pub fn get(&self, i: usize) -> (v: &Vec<char>)
        requires
            i < self.elems().len(),
        ensures
            v@ == self.elems()[i as int],
    {
        &self.items[i]
    }

    /// Adds `x` (nothing changes when it is a member already).
    pub fn insert(&mut self, x: Vec<char>)
        requires
            old(self).wf(),
        ensures
            final(self).wf(),
            forall|y: Seq<char>|
                final(self).elems().contains(y) <==> (old(self).elems().contains(y) || y == x@),
    {
        let ghost e0 = self.elems();
        let mut j: usize = 0;
        while j < self.items.len() && lex_less(&self.items[j], &x)
            invariant
                j <= self.items.len(),
                e0 == self.elems(),
                strictly_sorted(e0),
                forall|k: int| 0 <= k < j ==> lex_lt(#[trigger] e0[k], x@),
            decreases self.items.len() - j,
        {
            j = j + 1;
        }
        if j < self.items.len() && eq_chars(&self.items[j], &x) {
            assert(e0.contains(x@)) by {
                assert(e0[j as int] == x@);
            }
            return;
        }
        proof {
            if j < e0.len() {
                lemma_lex_total(e0[j as int], x@);
            }
        }
        let ghost xv = x@;
        self.items.insert(j, x);
        let ghost e1 = self.elems();
        assert(e1 =~= e0.insert(j as int, xv));
        proof {
            assert forall|a: int, b: int| 0 <= a < b < e1.len() implies lex_lt(
                #[trigger] e1[a],
                #[trigger] e1[b],
            ) by {
                if b < j {
                } else if a < j && b == j {
                } else if a < j && b > j {
                    assert(e1[b] == e0[b - 1]);
                    assert(lex_lt(e0[a], xv));
                    if b - 1 == j {
                    } else {
                        assert(lex_lt(e0[j as int], e0[b - 1]));
                        lemma_lex_trans(xv, e0[j as int], e0[b - 1]);
                    }
                    lemma_lex_trans(e0[a], xv, e0[b - 1]);
                } else if a == j {
                    assert(e1[b] == e0[b - 1]);
                    if b - 1 > j {
                        assert(lex_lt(e0[j as int], e0[b - 1]));
                        lemma_lex_trans(xv, e0[j as int], e0[b - 1]);
                    }
                } else {
                    assert(e1[a] == e0[a - 1]);
                    assert(e1[b] == e0[b - 1]);
                }
            }
            assert forall|y: Seq<char>| e1.contains(y) <==> (e0.contains(y) || y == xv) by {
                if e1.contains(y) {
                    let k = choose|k: int| 0 <= k < e1.len() && e1[k] == y;
                    if k < j {
                        assert(e0[k] == y);
                    } else if k > j {
                        assert(e0[k - 1] == y);
                    }
                }
                if e0.contains(y) {
                    let k = choose|k: int| 0 <= k < e0.len() && e0[k] == y;
                    if k < j {
                        assert(e1[k] == y);
                    } else {
                        assert(e1[k + 1] == y);
                    }
                }
                if y == xv {
                    assert(e1[j as int] == y);
                }
            }
        }
    }

    /// The members as strings, in order.
    pub fn to_strings(&self) -> (v: Vec<String>)
        ensures
            v@.map_values(|s: String| s@) == self.elems(),
    {
        let mut v: Vec<String> = Vec::new();
        let mut i: usize = 0;
        while i < self.items.len()
            invariant
                i <= self.items.len(),
                v@.map_values(|s: String| s@) == self.elems().subrange(0, i as int),
            decreases self.items.len() - i,
        {
            let ghost v0 = v@;
            v.push(crate::text::string_of(&self.items[i]));
            assert(v@.map_values(|s: String| s@) =~= v0.map_values(|s: String| s@).push(
                self.elems()[i as int],
            ));
            assert(self.elems().subrange(0, i + 1) == self.elems().subrange(0, i as int).push(
                self.elems()[i as int],
            ));
            i = i + 1;
        }
        assert(self.elems().subrange(0, self.items.len() as int) == self.elems());
        v
    }
}

/// The texts of which `p` holds, in `String` order (one such sequence, when `p` holds of
/// finitely many texts).
pub open spec fn sorted_members(p: spec_fn(Seq<char>) -> bool) -> Seq<Seq<char>> {
    choose|q: Seq<Seq<char>>| strictly_sorted(q) && (forall|y: Seq<char>| q.contains(y) <==> p(y))
}

/// A strictly sorted sequence holding exactly the texts of which `p` holds is `sorted_members(p)`.
pub proof fn lemma_sorted_members(q: Seq<Seq<char>>, p: spec_fn(Seq<char>) -> bool)
    requires
        strictly_sorted(q),
        forall|y: Seq<char>| q.contains(y) <==> p(y),
    ensures
        q == sorted_members(p),
{
    let c = sorted_members(p);
    assert(strictly_sorted(c) && (forall|y: Seq<char>| c.contains(y) <==> p(y)));
    lemma_sorted_unique(q, c);
}

/// Strictly sorted sequences with the same members are equal.
pub proof fn lemma_sorted_unique(a: Seq<Seq<char>>, b: Seq<Seq<char>>)
    requires
        strictly_sorted(a),
        strictly_sorted(b),
        forall|y: Seq<char>| a.contains(y) <==> b.contains(y),
    ensures
        a == b,
    decreases a.len() + b.len(),
{
    if a.len() == 0 {
        if b.len() > 0 {
            assert(b.contains(b[0]));
        }
        assert(a =~= b);
    } else if b.len() == 0 {
        assert(a.contains(a[0]));
    } else {
        assert(a.contains(a[0]));
        assert(b.contains(b[0]));
        let ka = choose|k: int| 0 <= k < b.len() && b[k] == a[0];
        let kb = choose|k: int| 0 <= k < a.len() && a[k] == b[0];
        if ka > 0 {
            assert(lex_lt(b[0], b[ka]));
            if kb > 0 {
                assert(lex_lt(a[0], a[kb]));
                lemma_lex_asymmetric(b[0], a[0]);
            } else {
                lemma_lex_irreflexive(b[0]);
            }
        }
        assert(a[0] == b[0]);
        let a1 = a.drop_first();
        let b1 = b.drop_first();
        assert forall|y: Seq<char>| a1.contains(y) <==> b1.contains(y) by {
            if a1.contains(y) {
                let k = choose|k: int| 0 <= k < a1.len() && a1[k] == y;
                assert(lex_lt(a[0], a[k + 1]));
                assert(b.contains(y));
                let m = choose|m: int| 0 <= m < b.len() && b[m] == y;
                if m == 0 {
                    lemma_lex_irreflexive(y);
                }
                assert(b1[m - 1] == y);
            }
            if b1.contains(y) {
                let k = choose|k: int| 0 <= k < b1.len() && b1[k] == y;
                assert(lex_lt(b[0], b[k + 1]));
                assert(a.contains(y));
                let m = choose|m: int| 0 <= m < a.len() && a[m] == y;
                if m == 0 {
                    lemma_lex_irreflexive(y);
                }
                assert(a1[m - 1] == y);
            }
        }
        assert forall|i: int, j: int| 0 <= i < j < a1.len() implies lex_lt(
            #[trigger] a1[i],
            #[trigger] a1[j],
        ) by {
            assert(a1[i] == a[i + 1]);
            assert(a1[j] == a[j + 1]);
        }
        assert forall|i: int, j: int| 0 <= i < j < b1.len() implies lex_lt(
            #[trigger] b1[i],
            #[trigger] b1[j],
        ) by {
            assert(b1[i] == b[i + 1]);
            assert(b1[j] == b[j + 1]);
        }
        lemma_sorted_unique(a1, b1);
        assert forall|i: int| 0 <= i < a.len() implies a[i] == b[i] by {
            if i > 0 {
                assert(a[i] == a1[i - 1]);
                assert(b[i] == b1[i - 1]);
            }
        }
        assert(a =~= b);
    }
}

} // verus!
