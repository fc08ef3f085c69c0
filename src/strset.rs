//! Strings as character sequences: lexicographic order, and a sorted set
//! of strings with deterministic iteration order.
use vstd::prelude::*;
use vstd::string::*;

verus! {

/// The views of a sequence of strings.
pub open spec fn views(v: Seq<String>) -> Seq<Seq<char>> {
    v.map_values(|s: String| s@)
}

/// Lexicographic order on character sequences, by code point. This is the
/// order of `str`'s `Ord`, which compares UTF-8 bytes.
pub open spec fn lex_lt(a: Seq<char>, b: Seq<char>) -> bool
    decreases a.len(),
{
    if b.len() == 0 {
        false
    } else if a.len() == 0 {
        true
    } else if a[0] != b[0] {
        a[0] < b[0]
    } else {
        lex_lt(a.drop_first(), b.drop_first())
    }
}

/// Strictly increasing, hence free of duplicates.
pub open spec fn sorted_strs(s: Seq<Seq<char>>) -> bool {
    forall|i: int, j: int| 0 <= i < j < s.len() ==> #[trigger] lex_lt(s[i], s[j])
}

pub proof fn lemma_lex_irreflexive(a: Seq<char>)
    ensures
        !lex_lt(a, a),
    decreases a.len(),
{
    if a.len() > 0 {
        lemma_lex_irreflexive(a.drop_first());
    }
}

pub proof fn lemma_lex_transitive(a: Seq<char>, b: Seq<char>, c: Seq<char>)
    requires
        lex_lt(a, b),
        lex_lt(b, c),
    ensures
        lex_lt(a, c),
    decreases a.len(),
{
    if a.len() > 0 && b.len() > 0 && c.len() > 0 && a[0] == b[0] && b[0] == c[0] {
        lemma_lex_transitive(a.drop_first(), b.drop_first(), c.drop_first());
    }
}

pub proof fn lemma_lex_total(a: Seq<char>, b: Seq<char>)
    requires
        !lex_lt(a, b),
        !lex_lt(b, a),
    ensures
        a == b,
    decreases a.len(),
{
    if a.len() == 0 && b.len() == 0 {
        assert(a =~= b);
    } else if a.len() > 0 && b.len() > 0 && a[0] == b[0] {
        lemma_lex_total(a.drop_first(), b.drop_first());
        assert(a =~= seq![a[0]] + a.drop_first());
        assert(b =~= seq![b[0]] + b.drop_first());
    }
}

/// Whether `a` comes strictly before `b`.
pub fn str_less(a: &str, b: &str) -> (r: bool)
    ensures
        r == lex_lt(a@, b@),
{
    let na = a.unicode_len();
    let nb = b.unicode_len();
    let mut i: usize = 0;
    assert(a@.skip(0) =~= a@);
    assert(b@.skip(0) =~= b@);
    while i < na && i < nb
        invariant
            na == a@.len(),
            nb == b@.len(),
            i <= na,
            i <= nb,
            lex_lt(a@, b@) == lex_lt(a@.skip(i as int), b@.skip(i as int)),
        decreases na - i,
    {
        let ca = a.get_char(i);
        let cb = b.get_char(i);
        let ghost sa = a@.skip(i as int);
        let ghost sb = b@.skip(i as int);
        assert(sa[0] == ca && sb[0] == cb);
        if ca != cb {
            return ca < cb;
        }
        assert(sa.drop_first() =~= a@.skip(i + 1));
        assert(sb.drop_first() =~= b@.skip(i + 1));
        i = i + 1;
    }
    i < nb
}

/// Whether `a` and `b` hold the same characters.
pub fn str_eq(a: &str, b: &str) -> (r: bool)
    ensures
        r == (a@ == b@),
{
    if str_less(a, b) || str_less(b, a) {
        proof { lemma_lex_irreflexive(a@); }
        false
    } else {
        proof { lemma_lex_total(a@, b@); }
        true
    }
}

/// A set of strings kept in increasing order, so that iterating over it is
/// deterministic.
pub struct SourceSet {
    items: Vec<String>,
}

impl SourceSet {
    /// The members, in increasing order.
    pub closed spec fn view(&self) -> Seq<Seq<char>> {
        views(self.items@)
    }

    pub open spec fn wf(&self) -> bool {
        sorted_strs(self@)
    }

    pub fn new() -> (r: SourceSet)
        ensures
            r.wf(),
            r@ == Seq::<Seq<char>>::empty(),
    {
        let r = SourceSet { items: Vec::new() };
        assert(r@ =~= Seq::<Seq<char>>::empty());
        r
    }

    pub fn len(&self) -> (r: usize)
        ensures
            r == self@.len(),
    {
        self.items.len()
    }

    /// The member at position `i` in increasing order.
    pub fn get(&self, i: usize) -> (r: &String)
        requires
            i < self@.len(),
        ensures
            r@ == self@[i as int],
    {
        &self.items[i]
    }

    /// The members, in increasing order.
    pub fn to_vec(&self) -> (r: Vec<String>)
        ensures
            views(r@) == self@,
    {
        let mut r: Vec<String> = Vec::new();
        let mut i: usize = 0;
        while i < self.items.len()
            invariant
                i <= self.items@.len(),
                r@.len() == i,
                views(r@) == views(self.items@).take(i as int),
            decreases self.items@.len() - i,
        {
            let c = self.items[i].clone();
            r.push(c);
            assert(r@[i as int]@ == self.items@[i as int]@);
            assert(views(r@) =~= views(self.items@).take(i + 1));
            i = i + 1;
        }
        assert(views(self.items@).take(i as int) =~= views(self.items@));
        r
    }

    pub fn contains(&self, x: &str) -> (r: bool)
        requires
            self.wf(),
        ensures
            r == self@.contains(x@),
    {
        let mut i: usize = 0;
        while i < self.items.len()
            invariant
                self.wf(),
                i <= self@.len(),
                forall|k: int| 0 <= k < i ==> self@[k] != x@,
            decreases self@.len() - i,
        {
            let s = self.items[i].as_str();
            if !str_less(s, x) && !str_less(x, s) {
                proof { lemma_lex_total(self@[i as int], x@); }
                return true;
            }
            proof { lemma_lex_irreflexive(x@); }
            i = i + 1;
        }
        false
    }

    /// Adds `x`; a member already present is not added twice.
    pub fn insert(&mut self, x: &str)
        requires
            old(self).wf(),
        ensures
            final(self).wf(),
            forall|y: Seq<char>| #[trigger] final(self)@.contains(y) <==> (old(self)@.contains(y) || y == x@),
    {
        let ghost s0 = self@;
        let n = self.items.len();
        let mut i: usize = 0;
        while i < n && str_less(self.items[i].as_str(), x)
            invariant
                n == self.items@.len(),
                self@ == s0,
                i <= n,
                forall|k: int| 0 <= k < i ==> lex_lt(#[trigger] s0[k], x@),
            decreases n - i,
        {
            i = i + 1;
        }
        if i < n && !str_less(x, self.items[i].as_str()) {
            proof {
                lemma_lex_total(s0[i as int], x@);
            }
            return;
        }
        proof {
            if i < n {
                assert(lex_lt(x@, s0[i as int]));
                assert forall|k: int| i <= k < s0.len() implies lex_lt(x@, #[trigger] s0[k]) by {
                    if k > i {
                        lemma_lex_transitive(x@, s0[i as int], s0[k]);
                    }
                }
            }
        }
        self.items.insert(i, String::from_str(x));
        let ghost s1 = self@;
        assert(s1 =~= s0.insert(i as int, x@));
        assert forall|a: int, b: int| 0 <= a < b < s1.len() implies #[trigger] lex_lt(s1[a], s1[b]) by {
            if a < i && b > i {
                assert(s1[a] == s0[a]);
                assert(s1[b] == s0[b - 1]);
            }
        }
        assert forall|y: Seq<char>| #[trigger] s1.contains(y) <==> (s0.contains(y) || y == x@) by {
            if s1.contains(y) {
                let k = choose|k: int| 0 <= k < s1.len() && s1[k] == y;
                if k < i {
                    assert(s0[k] == y);
                } else if k > i {
                    assert(s0[k - 1] == y);
                }
            }
            if s0.contains(y) {
                let k = choose|k: int| 0 <= k < s0.len() && s0[k] == y;
                if k < i {
                    assert(s1[k] == y);
                } else {
                    assert(s1[k + 1] == y);
                }
            }
            if y == x@ {
                assert(s1[i as int] == y);
            }
        }
    }

    /// Adds every string of `v`.
    pub fn insert_all(&mut self, v: &Vec<String>)
        requires
            old(self).wf(),
        ensures
            final(self).wf(),
            forall|y: Seq<char>| #[trigger] final(self)@.contains(y)
                <==> (old(self)@.contains(y) || views(v@).contains(y)),
    {
        let mut i: usize = 0;
        while i < v.len()
            invariant
                self.wf(),
                i <= v@.len(),
                forall|y: Seq<char>| #[trigger] self@.contains(y)
                    <==> (old(self)@.contains(y) || views(v@).take(i as int).contains(y)),
            decreases v@.len() - i,
        {
            self.insert(v[i].as_str());
            proof {
                let t0 = views(v@).take(i as int);
                let t1 = views(v@).take(i + 1);
                assert(t1 =~= t0.push(v@[i as int]@));
                assert forall|y: Seq<char>| #[trigger] t1.contains(y) <==> (t0.contains(y) || y == v@[i as int]@) by {
                    if t1.contains(y) {
                        let k = choose|k: int| 0 <= k < t1.len() && t1[k] == y;
                        if k < i {
                            assert(t0[k] == y);
                        }
                    }
                    if t0.contains(y) {
                        let k = choose|k: int| 0 <= k < t0.len() && t0[k] == y;
                        assert(t1[k] == y);
                    }
                    if y == v@[i as int]@ {
                        assert(t1[i as int] == y);
                    }
                }
            }
            i = i + 1;
        }
        assert(views(v@).take(i as int) =~= views(v@));
    }
}

} // verus!
