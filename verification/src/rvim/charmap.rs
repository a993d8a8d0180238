//! A small map keyed by characters: registers, marks and macros.

use vstd::prelude::*;

verus! {

/// Characters in strictly ascending order.
pub open spec fn ascending(s: Seq<char>) -> bool {
    forall|i: int, j: int| 0 <= i < j < s.len() ==> #[trigger] s[i] < #[trigger] s[j]
}

/// The members of `d`, each once, in ascending order.
pub open spec fn sorted_keys(d: Set<char>) -> Seq<char> {
    choose|s: Seq<char>| ascending(s) && s.to_set() == d
}

/// Index of the entry for `c` at or after `i`.
spec fn find_at<V>(s: Seq<(char, V)>, c: char, i: int) -> Option<int>
    decreases s.len() - i,
{
    if i < 0 || i >= s.len() {
        None
    } else if s[i].0 == c {
        Some(i)
    } else {
        find_at(s, c, i + 1)
    }
}

proof fn lemma_find_bounds<V>(s: Seq<(char, V)>, c: char, i: int)
    ensures
        find_at(s, c, i) matches Some(k) ==> i <= k < s.len() && 0 <= k && s[k].0 == c,
    decreases s.len() - i,
{
    if !(i < 0 || i >= s.len()) && s[i].0 != c {
        lemma_find_bounds(s, c, i + 1);
    }
}

proof fn lemma_find_same_keys<V>(s: Seq<(char, V)>, t: Seq<(char, V)>, c: char, i: int)
    requires
        s.len() == t.len(),
        forall|k: int| 0 <= k < s.len() ==> (#[trigger] s[k]).0 == t[k].0,
    ensures
        find_at(s, c, i) == find_at(t, c, i),
    decreases s.len() - i,
{
    if !(i < 0 || i >= s.len()) && s[i].0 != c {
        lemma_find_same_keys(s, t, c, i + 1);
    }
}

proof fn lemma_find_push<V>(s: Seq<(char, V)>, e: (char, V), c: char, i: int)
    requires
        0 <= i <= s.len(),
    ensures
        find_at(s.push(e), c, i) == (match find_at(s, c, i) {
            Some(k) => Some(k),
            None => if e.0 == c {
                Some(s.len() as int)
            } else {
                None
            },
        }),
    decreases s.len() - i,
{
    if i < s.len() {
        if s[i].0 != c {
            lemma_find_push(s, e, c, i + 1);
        }
    } else {
        assert(find_at(s.push(e), c, i + 1) is None);
    }
}

proof fn lemma_find_member<V>(s: Seq<(char, V)>, i: int, k: int)
    requires
        0 <= i <= k < s.len(),
    ensures
        find_at(s, s[k].0, i) is Some,
    decreases k - i,
{
    if i < k && s[i].0 != s[k].0 {
        lemma_find_member(s, i + 1, k);
    }
}

/// A map from characters to values.
pub struct CharMap<V> {
    items: Vec<(char, V)>,
}

impl<V> View for CharMap<V> {
    type V = Map<char, V>;

    closed spec fn view(&self) -> Map<char, V> {
        Map::new(
            |c: char| find_at(self.items@, c, 0) is Some,
            |c: char| self.items@[find_at(self.items@, c, 0)->0].1,
        )
    }
}

impl<V> CharMap<V> {
    pub fn new() -> (r: Self)
        ensures
            r@ == Map::<char, V>::empty(),
    {
        let r = CharMap { items: Vec::new() };
        assert(r@ =~= Map::<char, V>::empty());
        r
    }

    fn index_of(&self, c: char) -> (r: Option<usize>)
        ensures
            match r {
                Some(i) => find_at(self.items@, c, 0) == Some(i as int) && i < self.items@.len(),
                None => find_at(self.items@, c, 0) is None,
            },
    {
        let mut i: usize = 0;
        while i < self.items.len()
            invariant
                i <= self.items@.len(),
                find_at(self.items@, c, 0) == find_at(self.items@, c, i as int),
            decreases self.items@.len() - i,
        {
            if self.items[i].0 == c {
                return Some(i);
            }
            i = i + 1;
        }
        None
    }

    /// The value stored under `c`.
    pub fn get(&self, c: &char) -> (r: Option<&V>)
        ensures
            match r {
                Some(v) => self@.contains_key(*c) && *v == self@[*c],
                None => !self@.contains_key(*c),
            },
    {
        match self.index_of(*c) {
            Some(i) => Some(&self.items[i].1),
            None => None,
        }
    }

    /// Store `v` under `c`, replacing what was there.
    pub fn insert(&mut self, c: char, v: V)
        ensures
            final(self)@ == old(self)@.insert(c, v),
    {
        let ghost before = self.items@;
        match self.index_of(c) {
            Some(i) => {
                self.items[i] = (c, v);
                proof {
                    lemma_find_bounds(before, c, 0);
                    assert forall|k: char| true implies #[trigger] find_at(self.items@, k, 0)
                        == find_at(before, k, 0) by {
                        lemma_find_same_keys(before, self.items@, k, 0);
                    }
                    assert forall|k: char| find_at(before, k, 0) is Some implies 0 <= #[trigger] find_at(
                        before,
                        k,
                        0,
                    )->0 < before.len() && before[find_at(before, k, 0)->0].0 == k by {
                        lemma_find_bounds(before, k, 0);
                    }
                }
            },
            None => {
                self.items.push((c, v));
                proof {
                    assert forall|k: char| true implies #[trigger] find_at(self.items@, k, 0) == (
                    match find_at(before, k, 0) {
                        Some(j) => Some(j),
                        None => if c == k {
                            Some(before.len() as int)
                        } else {
                            None
                        },
                    }) by {
                        lemma_find_push(before, (c, v), k, 0);
                    }
                    assert forall|k: char| find_at(before, k, 0) is Some implies 0 <= #[trigger] find_at(
                        before,
                        k,
                        0,
                    )->0 < before.len() by {
                        lemma_find_bounds(before, k, 0);
                    }
                }
            },
        }
        assert(self@ =~= old(self)@.insert(c, v));
    }

    /// The keys, ascending.
    pub fn keys(&self) -> (r: Vec<char>)
        ensures
            ascending(r@),
            r@.to_set() == self@.dom(),
            r@ == sorted_keys(self@.dom()),
    {
        let mut r: Vec<char> = Vec::new();
        for n in 0..self.items.len()
            invariant
                ascending(r@),
                forall|c: char|
                    #[trigger] r@.contains(c) <==> exists|k: int|
                        0 <= k < n && (#[trigger] self.items@[k]).0 == c,
        {
            let c = self.items[n].0;
            let ghost before = r@;
            let mut p: usize = 0;
            while p < r.len() && r[p] < c
                invariant
                    p <= r@.len(),
                    r@ == before,
                    forall|j: int| 0 <= j < p ==> #[trigger] r@[j] < c,
                ensures
                    p < r@.len() ==> r@[p as int] >= c,
                decreases r@.len() - p,
            {
                p = p + 1;
            }
            if p < r.len() && r[p] == c {
            } else {
                r.insert(p, c);
                proof {
                    assert forall|i: int, j: int| 0 <= i < j < r@.len() implies #[trigger] r@[i]
                        < #[trigger] r@[j] by {
                        let bi = if i < p { i } else { i - 1 };
                        let bj = if j < p { j } else { j - 1 };
                        assert(i != p ==> r@[i] == before[bi]);
                        assert(j != p ==> r@[j] == before[bj]);
                        if i == p {
                            if bj > p {
                                assert(before[p as int] < before[bj]);
                            }
                        }
                    }
                    assert forall|x: char| #[trigger] r@.contains(x) <==> (before.contains(x) || x
                        == c) by {
                        if before.contains(x) {
                            let j = before.index_of(x);
                            assert(before[j] == x);
                            assert(r@[if j < p { j } else { j + 1 }] == x);
                        }
                        if r@.contains(x) && x != c {
                            let j = r@.index_of(x);
                            assert(before[if j < p { j } else { j - 1 }] == x);
                        }
                        assert(r@[p as int] == c);
                    }
                }
            }
            assert forall|x: char| #[trigger] r@.contains(x) <==> exists|k: int|
                0 <= k < n + 1 && (#[trigger] self.items@[k]).0 == x by {
                if x == c {
                    assert(self.items@[n as int].0 == x);
                    if r@ == before {
                        assert(r@[p as int] == x);
                    }
                }
                if r@.contains(x) && x != c {
                    assert(before.contains(x));
                }
            }
        }
        proof {
            assert forall|c: char| #[trigger] r@.to_set().contains(c) <==> self@.dom().contains(
                c,
            ) by {
                if r@.contains(c) {
                    let k = choose|k: int|
                        0 <= k < self.items@.len() && (#[trigger] self.items@[k]).0 == c;
                    lemma_find_member(self.items@, 0, k);
                }
                if self@.dom().contains(c) {
                    lemma_find_bounds(self.items@, c, 0);
                    assert(self.items@[find_at(self.items@, c, 0)->0].0 == c);
                }
            }
            assert(r@.to_set() =~= self@.dom());
            lemma_sorted_keys(r@);
        }
        r
    }
}

/// An ascending sequence is determined by its members.
pub proof fn lemma_ascending_unique(s: Seq<char>, t: Seq<char>)
    requires
        ascending(s),
        ascending(t),
        s.to_set() == t.to_set(),
    ensures
        s == t,
    decreases s.len(),
{
    if s.len() == 0 {
        if t.len() > 0 {
            assert(t.to_set().contains(t[0]));
            assert(s.contains(t[0]));
        }
        assert(s =~= t);
    } else {
        let x = s.last();
        assert(s.to_set().contains(x));
        assert(t.contains(x));
        let y = t.last();
        assert(t.to_set().contains(y));
        assert(s.contains(y));
        let i = s.index_of(y);
        let j = t.index_of(x);
        assert(x == y) by {
            if i < s.len() - 1 {
                assert(s[i] < s[s.len() - 1]);
            }
            if j < t.len() - 1 {
                assert(t[j] < t[t.len() - 1]);
            }
        }
        let (a, b) = (s.drop_last(), t.drop_last());
        assert forall|c: char| #[trigger] a.to_set().contains(c) <==> b.to_set().contains(c) by {
            if a.contains(c) {
                let k = a.index_of(c);
                assert(s[k] == c);
                assert(s.contains(c));
                assert(s.to_set().contains(c));
                assert(t.contains(c));
                let m = t.index_of(c);
                assert(s[k] < s[s.len() - 1]);
                assert(b[m] == c);
            }
            if b.contains(c) {
                let k = b.index_of(c);
                assert(t[k] == c);
                assert(t.contains(c));
                assert(t.to_set().contains(c));
                assert(s.contains(c));
                let m = s.index_of(c);
                assert(t[k] < t[t.len() - 1]);
                assert(a[m] == c);
            }
        }
        assert(a.to_set() =~= b.to_set());
        assert forall|p: int, q: int| 0 <= p < q < a.len() implies #[trigger] a[p] < #[trigger] a[q] by {
            assert(s[p] < s[q]);
        }
        assert forall|p: int, q: int| 0 <= p < q < b.len() implies #[trigger] b[p] < #[trigger] b[q] by {
            assert(t[p] < t[q]);
        }
        lemma_ascending_unique(a, b);
        assert(s =~= a.push(x));
        assert(t =~= b.push(y));
    }
}

/// An ascending sequence is the sorted listing of its members.
pub proof fn lemma_sorted_keys(s: Seq<char>)
    requires
        ascending(s),
    ensures
        sorted_keys(s.to_set()) == s,
{
    let t = sorted_keys(s.to_set());
    assert(ascending(t) && t.to_set() == s.to_set());
    lemma_ascending_unique(s, t);
}

} // verus!
