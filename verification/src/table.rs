//! An ordered finite map, and sums over finite maps.

use crate::address::Key;
use vstd::prelude::*;

verus! {

/// A finite map that lists its entries in the order of their keys.
pub struct Table<K: Key, V: Copy> {
    entries: Vec<(K, V)>,
}

/// Whether the keys of a listing strictly increase.
pub open spec fn ordered<K: Key, V>(s: Seq<(K, V)>) -> bool {
    forall|i: int, j: int|
        0 <= i < j < s.len() ==> (#[trigger] s[i]).0.rank() < (#[trigger] s[j]).0.rank()
}

/// Whether some entry of a listing has this key.
pub open spec fn lists<K, V>(s: Seq<(K, V)>, k: K) -> bool {
    exists|i: int| 0 <= i < s.len() && (#[trigger] s[i]).0 == k
}

/// Where the entry with this key stands in a listing.
pub open spec fn place<K, V>(s: Seq<(K, V)>, k: K) -> int {
    choose|i: int| 0 <= i < s.len() && (#[trigger] s[i]).0 == k
}

/// A listing as a map.
pub open spec fn mapped<K, V>(s: Seq<(K, V)>) -> Map<K, V> {
    Map::new(|k: K| lists(s, k), |k: K| s[place(s, k)].1)
}

/// In an ordered listing the key at a place finds that place.
proof fn lemma_place<K: Key, V>(s: Seq<(K, V)>, i: int)
    requires
        ordered(s),
        0 <= i < s.len(),
    ensures
        lists(s, s[i].0),
        place(s, s[i].0) == i,
        mapped(s).dom().contains(s[i].0),
        mapped(s)[s[i].0] == s[i].1,
{
    let p = place(s, s[i].0);
    assert(0 <= p < s.len() && s[p].0 == s[i].0);
}

/// Only finitely many keys are listed.
proof fn lemma_mapped_finite<K, V>(s: Seq<(K, V)>)
    ensures
        mapped(s).dom().finite(),
    decreases s.len(),
{
    if s.len() == 0 {
        assert(mapped(s).dom() =~= Set::empty());
    } else {
        let t = s.drop_last();
        lemma_mapped_finite(t);
        assert(mapped(s).dom() =~= mapped(t).dom().insert(s.last().0)) by {
            assert forall|k: K| lists(s, k) implies lists(t, k) || k == s.last().0 by {
                let i = choose|i: int| 0 <= i < s.len() && (#[trigger] s[i]).0 == k;
                if i < t.len() {
                    assert(t[i].0 == k);
                }
            }
            assert forall|k: K| lists(t, k) implies lists(s, k) by {
                let i = choose|i: int| 0 <= i < t.len() && (#[trigger] t[i]).0 == k;
                assert(s[i].0 == k);
            }
            assert(s[s.len() - 1].0 == s.last().0);
        }
    }
}

/// Ordered listings with the same entries up to one are maps up to that one.
proof fn lemma_mapped_push<K: Key, V>(s: Seq<(K, V)>, i: int)
    requires
        ordered(s),
        0 <= i < s.len(),
    ensures
        mapped(s.take(i + 1)) == mapped(s.take(i)).insert(s[i].0, s[i].1),
        !mapped(s.take(i)).dom().contains(s[i].0),
{
    let a = s.take(i);
    let b = s.take(i + 1);
    assert(ordered(a) && ordered(b));
    assert forall|k: K| lists(b, k) == (lists(a, k) || k == s[i].0) by {
        if lists(b, k) {
            let p = choose|p: int| 0 <= p < b.len() && (#[trigger] b[p]).0 == k;
            if p < i {
                assert(a[p].0 == k);
            }
        }
        if lists(a, k) {
            let p = choose|p: int| 0 <= p < a.len() && (#[trigger] a[p]).0 == k;
            assert(b[p].0 == k);
        }
        assert(b[i].0 == s[i].0);
    }
    assert forall|k: K| lists(b, k) implies mapped(b)[k] == mapped(a).insert(
        s[i].0,
        s[i].1,
    )[k] by {
        let p = choose|p: int| 0 <= p < b.len() && (#[trigger] b[p]).0 == k;
        lemma_place(b, p);
        if p < i {
            lemma_place(a, p);
            assert(a[p] == b[p]);
        }
    }
    if lists(a, s[i].0) {
        let p = choose|p: int| 0 <= p < a.len() && (#[trigger] a[p]).0 == s[i].0;
        assert(s[p].0 == s[i].0);
    }
    assert(mapped(b) =~= mapped(a).insert(s[i].0, s[i].1));
}

impl<K: Key, V: Copy> View for Table<K, V> {
    type V = Map<K, V>;

    closed spec fn view(&self) -> Map<K, V> {
        mapped(self.entries@)
    }
}

impl<K: Key, V: Copy> Table<K, V> {
    #[verifier::type_invariant]
    spec fn inv(self) -> bool {
        ordered(self.entries@)
    }

    /// The entries in the order of their keys.
    pub closed spec fn listing(self) -> Seq<(K, V)> {
        self.entries@
    }

    /// A table holds what it lists.
    pub proof fn holds_what_it_lists(self)
        ensures
            self@ == mapped(self.listing()),
    {
    }

    /// A table holds finitely many keys.
    pub proof fn finite(self)
        ensures
            self@.dom().finite(),
    {
        lemma_mapped_finite(self.entries@);
    }

    /// The empty table.
    pub fn new() -> (t: Self)
        ensures
            t@ == Map::<K, V>::empty(),
    {
        let t = Table { entries: Vec::new() };
        assert(t@ =~= Map::<K, V>::empty());
        t
    }

    /// How many entries there are. A caller that walks the entries learns here
    /// that the listing is ordered and is the map.
    pub fn len(&self) -> (n: usize)
        ensures
            n == self.listing().len(),
            ordered(self.listing()),
            self@ == mapped(self.listing()),
    {
        proof {
            use_type_invariant(self);
        }
        self.entries.len()
    }

    /// The `i`th entry in the order of the keys.
    pub fn entry(&self, i: usize) -> (e: (K, V))
        requires
            i < self.listing().len(),
        ensures
            e == self.listing()[i as int],
    {
        self.entries[i]
    }

    /// The keys, in order.
    pub fn keys(&self) -> (ks: Vec<K>)
        ensures
            ks@ == self.listing().map_values(|e: (K, V)| e.0),
            ordered(self.listing()),
            self@ == mapped(self.listing()),
    {
        proof {
            use_type_invariant(self);
        }
        let mut ks: Vec<K> = Vec::new();
        let n: usize = self.entries.len();
        let mut i: usize = 0;
        while i < n
            invariant
                i <= n,
                n == self.entries@.len(),
                ks@ == self.entries@.take(i as int).map_values(|e: (K, V)| e.0),
            decreases n - i,
        {
            let k = self.entries[i].0;
            ks.push(k);
            i = i + 1;
            assert(ks@ =~= self.entries@.take(i as int).map_values(|e: (K, V)| e.0));
        }
        assert(self.entries@.take(n as int) =~= self.entries@);
        ks
    }

    /// The first place whose key does not come before `k`.
    fn seek(&self, k: K) -> (at: usize)
        requires
            ordered(self.entries@),
        ensures
            at <= self.entries@.len(),
            forall|i: int| 0 <= i < at ==> (#[trigger] self.entries@[i]).0.rank() < k.rank(),
            forall|i: int|
                at <= i < self.entries@.len() ==> (#[trigger] self.entries@[i]).0.rank()
                    >= k.rank(),
    {
        let n: usize = self.entries.len();
        let mut at: usize = 0;
        while at < n && self.entries[at].0.precedes(&k)
            invariant
                at <= n,
                n == self.entries@.len(),
                forall|i: int| 0 <= i < at ==> (#[trigger] self.entries@[i]).0.rank() < k.rank(),
            decreases n - at,
        {
            at = at + 1;
        }
        at
    }

    /// The value at a key.
    pub fn get(&self, k: K) -> (v: Option<V>)
        ensures
            v == (if self@.dom().contains(k) {
                Some(self@[k])
            } else {
                None
            }),
    {
        proof {
            use_type_invariant(self);
        }
        let at: usize = self.seek(k);
        if at < self.entries.len() && !k.precedes(&self.entries[at].0) {
            proof {
                k.rank_is_injective(self.entries@[at as int].0);
                lemma_place(self.entries@, at as int);
            }
            Some(self.entries[at].1)
        } else {
            proof {
                if lists(self.entries@, k) {
                    let i = choose|i: int|
                        0 <= i < self.entries@.len() && (#[trigger] self.entries@[i]).0 == k;
                    assert(self.entries@[i].0 == k);
                    assert(self.entries@[at as int].0.rank() <= self.entries@[i].0.rank());
                }
            }
            None
        }
    }

    /// Whether a key is present.
    pub fn contains_key(&self, k: K) -> (b: bool)
        ensures
            b == self@.dom().contains(k),
    {
        match self.get(k) {
            Some(_) => true,
            None => false,
        }
    }

    /// Puts a value at a key, in place of the one that was there.
    pub fn set(&mut self, k: K, v: V)
        ensures
            final(self)@ == old(self)@.insert(k, v),
    {
        proof {
            use_type_invariant(&*self);
        }
        let ghost before = self.entries@;
        let at: usize = self.seek(k);
        let mut entries: Vec<(K, V)> = Vec::new();
        std::mem::swap(&mut entries, &mut self.entries);
        if at < entries.len() && !k.precedes(&entries[at].0) {
            proof {
                k.rank_is_injective(before[at as int].0);
            }
            entries.set(at, (k, v));
        } else {
            entries.insert(at, (k, v));
        }
        proof {
            let after = entries@;
            assert(ordered(after)) by {
                if after.len() == before.len() {
                    assert forall|i: int, j: int| 0 <= i < j < after.len() implies (
                    #[trigger] after[i]).0.rank() < (#[trigger] after[j]).0.rank() by {
                        assert(before[i].0.rank() < before[j].0.rank());
                    }
                } else {
                    assert forall|i: int, j: int| 0 <= i < j < after.len() implies (
                    #[trigger] after[i]).0.rank() < (#[trigger] after[j]).0.rank() by {
                        let bi = if i < at {
                            i
                        } else {
                            i - 1
                        };
                        let bj = if j < at {
                            j
                        } else {
                            j - 1
                        };
                        if i != at {
                            assert(after[i] == before[bi]);
                        }
                        if j != at {
                            assert(after[j] == before[bj]);
                        }
                        if j > at && i <= at {
                            assert(before[bj].0.rank() >= before[at as int].0.rank());
                        }
                    }
                }
            }
            lemma_place(after, at as int);
            assert forall|j: K| lists(after, j) == (lists(before, j) || j == k) by {
                if lists(after, j) {
                    let i = choose|i: int| 0 <= i < after.len() && (#[trigger] after[i]).0 == j;
                    if i != at {
                        if after.len() == before.len() || i < at {
                            assert(before[i].0 == j);
                        } else {
                            assert(before[i - 1].0 == j);
                        }
                    }
                }
                if lists(before, j) {
                    let i = choose|i: int| 0 <= i < before.len() && (#[trigger] before[i]).0 == j;
                    if after.len() == before.len() || i < at {
                        assert(after[i].0 == j);
                    } else {
                        assert(after[i + 1].0 == j);
                    }
                }
            }
            assert forall|j: K| lists(before, j) && j != k implies mapped(after)[j]
                == mapped(before)[j] by {
                let i = choose|i: int| 0 <= i < before.len() && (#[trigger] before[i]).0 == j;
                lemma_place(before, i);
                if after.len() == before.len() || i < at {
                    assert(after[i] == before[i]);
                    lemma_place(after, i);
                } else {
                    assert(after[i + 1] == before[i]);
                    lemma_place(after, i + 1);
                }
            }
            assert(mapped(after) =~= mapped(before).insert(k, v));
        }
        self.entries = entries;
    }

    /// Takes a key out, if it is there.
    pub fn remove(&mut self, k: K)
        ensures
            final(self)@ == old(self)@.remove(k),
    {
        proof {
            use_type_invariant(&*self);
        }
        let ghost before = self.entries@;
        let at: usize = self.seek(k);
        if at < self.entries.len() && !k.precedes(&self.entries[at].0) {
            proof {
                k.rank_is_injective(before[at as int].0);
            }
            let mut entries: Vec<(K, V)> = Vec::new();
            std::mem::swap(&mut entries, &mut self.entries);
            entries.remove(at);
            proof {
                let after = entries@;
                assert forall|i: int| 0 <= i < after.len() implies (#[trigger] after[i]) == (if i
                    < at {
                    before[i]
                } else {
                    before[i + 1]
                }) by {}
                assert(ordered(after));
                assert forall|j: K| lists(after, j) == (lists(before, j) && j != k) by {
                    if lists(after, j) {
                        let i = choose|i: int| 0 <= i < after.len() && (#[trigger] after[i]).0 == j;
                        let b = if i < at {
                            i
                        } else {
                            i + 1
                        };
                        assert(before[b].0 == j);
                        assert(before[at as int].0 == k);
                    }
                    if lists(before, j) && j != k {
                        let i = choose|i: int|
                            0 <= i < before.len() && (#[trigger] before[i]).0 == j;
                        let a = if i < at {
                            i
                        } else {
                            i - 1
                        };
                        assert(after[a].0 == j);
                    }
                }
                assert forall|j: K| lists(after, j) implies mapped(after)[j]
                    == mapped(before)[j] by {
                    let i = choose|i: int| 0 <= i < after.len() && (#[trigger] after[i]).0 == j;
                    lemma_place(after, i);
                    if i < at {
                        lemma_place(before, i);
                    } else {
                        lemma_place(before, i + 1);
                    }
                }
                assert(mapped(after) =~= mapped(before).remove(k));
            }
            self.entries = entries;
        } else {
            proof {
                if lists(before, k) {
                    let i = choose|i: int| 0 <= i < before.len() && (#[trigger] before[i]).0 == k;
                    assert(before[at as int].0.rank() <= before[i].0.rank());
                }
                assert(mapped(before) =~= mapped(before).remove(k));
            }
        }
    }
}

impl<K: Key, V: Copy> Clone for Table<K, V> {
    fn clone(&self) -> (t: Self)
        ensures
            t.listing() == self.listing(),
            t@ == self@,
    {
        proof {
            use_type_invariant(self);
        }
        let n: usize = self.entries.len();
        let mut entries: Vec<(K, V)> = Vec::new();
        let mut i: usize = 0;
        while i < n
            invariant
                i <= n,
                n == self.entries@.len(),
                entries@ == self.entries@.take(i as int),
            decreases n - i,
        {
            entries.push(self.entries[i]);
            i = i + 1;
        }
        assert(self.entries@.take(n as int) =~= self.entries@);
        Table { entries }
    }
}

/// The sum of a measure over the entries of a finite map.
pub open spec fn total<K, V>(m: Map<K, V>, f: spec_fn(K, V) -> int) -> int
    decreases m.dom().len(),
    when m.dom().finite()
{
    if m.dom().len() == 0 {
        0
    } else {
        let k = m.dom().choose();
        f(k, m[k]) + total(m.remove(k), f)
    }
}

/// Any one entry can be split off a sum.
pub proof fn lemma_total_split<K, V>(m: Map<K, V>, f: spec_fn(K, V) -> int, k: K)
    requires
        m.dom().finite(),
        m.dom().contains(k),
    ensures
        total(m, f) == f(k, m[k]) + total(m.remove(k), f),
    decreases m.dom().len(),
{
    let c = m.dom().choose();
    if c != k {
        lemma_total_split(m.remove(c), f, k);
        lemma_total_split(m.remove(k), f, c);
        assert(m.remove(c).remove(k) =~= m.remove(k).remove(c));
    }
}

/// Writing one entry moves a sum by what that entry's measure moved.
pub proof fn lemma_total_insert<K, V>(m: Map<K, V>, f: spec_fn(K, V) -> int, k: K, v: V)
    requires
        m.dom().finite(),
    ensures
        total(m.insert(k, v), f) == total(m, f) + f(k, v) - (if m.dom().contains(k) {
            f(k, m[k])
        } else {
            0
        }),
{
    let n = m.insert(k, v);
    lemma_total_split(n, f, k);
    assert(n.remove(k) =~= m.remove(k));
    if m.dom().contains(k) {
        lemma_total_split(m, f, k);
    } else {
        assert(m.remove(k) =~= m);
    }
}

/// Taking one entry out moves a sum by that entry's measure.
pub proof fn lemma_total_remove<K, V>(m: Map<K, V>, f: spec_fn(K, V) -> int, k: K)
    requires
        m.dom().finite(),
    ensures
        total(m.remove(k), f) == total(m, f) - (if m.dom().contains(k) {
            f(k, m[k])
        } else {
            0
        }),
{
    if m.dom().contains(k) {
        lemma_total_split(m, f, k);
    } else {
        assert(m.remove(k) =~= m);
    }
}

/// Maps over the same keys whose measures agree key by key have one sum.
pub proof fn lemma_total_agrees<K, V, W>(
    m: Map<K, V>,
    f: spec_fn(K, V) -> int,
    n: Map<K, W>,
    g: spec_fn(K, W) -> int,
)
    requires
        m.dom().finite(),
        m.dom() == n.dom(),
        forall|k: K| #[trigger] m.dom().contains(k) ==> f(k, m[k]) == g(k, n[k]),
    ensures
        total(m, f) == total(n, g),
    decreases m.dom().len(),
{
    if m.dom().len() > 0 {
        let k = m.dom().choose();
        assert(m.dom().contains(k));
        assert(m.remove(k).dom() =~= n.remove(k).dom());
        lemma_total_agrees(m.remove(k), f, n.remove(k), g);
    }
}

/// A sum of measures that are never negative is at least each of them.
pub proof fn lemma_total_bounds<K, V>(m: Map<K, V>, f: spec_fn(K, V) -> int, k: K)
    requires
        m.dom().finite(),
        forall|j: K| #[trigger] m.dom().contains(j) ==> f(j, m[j]) >= 0,
    ensures
        total(m, f) >= 0,
        m.dom().contains(k) ==> total(m, f) >= f(k, m[k]),
    decreases m.dom().len(),
{
    if m.dom().len() > 0 {
        let c = m.dom().choose();
        assert(m.dom().contains(c));
        let n = m.remove(c);
        assert forall|j: K| #[trigger] n.dom().contains(j) implies f(j, n[j]) >= 0 by {
            assert(m.dom().contains(j));
        }
        lemma_total_bounds(n, f, k);
        if m.dom().contains(k) {
            lemma_total_split(m, f, k);
            let o = m.remove(k);
            assert forall|j: K| #[trigger] o.dom().contains(j) implies f(j, o[j]) >= 0 by {
                assert(m.dom().contains(j));
            }
            lemma_total_bounds(o, f, k);
        }
    }
}

/// The sum over one more listed entry.
pub proof fn lemma_total_listing<K: Key, V>(s: Seq<(K, V)>, f: spec_fn(K, V) -> int, i: int)
    requires
        ordered(s),
        0 <= i < s.len(),
    ensures
        total(mapped(s.take(i + 1)), f) == total(mapped(s.take(i)), f) + f(s[i].0, s[i].1),
{
    lemma_mapped_push(s, i);
    lemma_mapped_finite(s.take(i));
    lemma_total_insert(mapped(s.take(i)), f, s[i].0, s[i].1);
}

/// Nothing listed sums to nothing.
pub proof fn lemma_total_none<K, V>(s: Seq<(K, V)>, f: spec_fn(K, V) -> int)
    requires
        s.len() == 0,
    ensures
        total(mapped(s), f) == 0,
{
    lemma_mapped_finite(s);
    assert(mapped(s).dom() =~= Set::empty());
}

} // verus!
