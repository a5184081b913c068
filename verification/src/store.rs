//! Keyed position stores.
//!
//! Positions are held in a vector of `(key, value)` pairs with pairwise
//! distinct keys. The mathematical model of a store is the sequence of its
//! pairs; [`assoc_get`], [`assoc_set`] and [`assoc_remove`] give the
//! map-like reading of that sequence that every contract in this crate is
//! stated over, and [`assoc_sum`] folds a projection of the values, which is
//! what the supply-conservation invariant speaks of.

use vstd::prelude::*;

verus! {

/// The value bound to `k`: the second component of the first pair carrying
/// `k`, if any.
pub open spec fn assoc_get<V>(s: Seq<(u64, V)>, k: u64) -> Option<V>
    decreases s.len(),
{
    if s.len() == 0 {
        None
    } else if s[0].0 == k {
        Some(s[0].1)
    } else {
        assoc_get(s.drop_first(), k)
    }
}

pub open spec fn assoc_contains<V>(s: Seq<(u64, V)>, k: u64) -> bool {
    assoc_get(s, k) is Some
}

/// `s` with the first pair carrying `k` rebound to `v`; `s` itself when `k`
/// is absent.
pub open spec fn assoc_set<V>(s: Seq<(u64, V)>, k: u64, v: V) -> Seq<(u64, V)>
    decreases s.len(),
{
    if s.len() == 0 {
        s
    } else if s[0].0 == k {
        seq![(k, v)] + s.drop_first()
    } else {
        seq![s[0]] + assoc_set(s.drop_first(), k, v)
    }
}

/// `s` with the first pair carrying `k` removed; `s` itself when `k` is
/// absent.
pub open spec fn assoc_remove<V>(s: Seq<(u64, V)>, k: u64) -> Seq<(u64, V)>
    decreases s.len(),
{
    if s.len() == 0 {
        s
    } else if s[0].0 == k {
        s.drop_first()
    } else {
        seq![s[0]] + assoc_remove(s.drop_first(), k)
    }
}

/// Every key appears in at most one pair.
pub open spec fn keys_unique<V>(s: Seq<(u64, V)>) -> bool {
    forall|i: int, j: int|
        0 <= i < j < s.len() ==> (#[trigger] s[i]).0 != (#[trigger] s[j]).0
}

/// Sum of a projection of the values.
pub open spec fn assoc_sum<V>(s: Seq<(u64, V)>, f: spec_fn(V) -> int) -> int
    decreases s.len(),
{
    if s.len() == 0 {
        0
    } else {
        f(s[0].1) + assoc_sum(s.drop_first(), f)
    }
}

pub proof fn lemma_assoc_get_index<V>(s: Seq<(u64, V)>, k: u64, i: int)
    requires
        0 <= i < s.len(),
        s[i].0 == k,
        forall|j: int| 0 <= j < i ==> (#[trigger] s[j]).0 != k,
    ensures
        assoc_get(s, k) == Some(s[i].1),
    decreases i,
{
    if i > 0 {
        lemma_assoc_get_index(s.drop_first(), k, i - 1);
    }
}

pub proof fn lemma_assoc_get_absent<V>(s: Seq<(u64, V)>, k: u64)
    requires
        forall|j: int| 0 <= j < s.len() ==> (#[trigger] s[j]).0 != k,
    ensures
        assoc_get(s, k) == None::<V>,
    decreases s.len(),
{
    if s.len() > 0 {
        lemma_assoc_get_absent(s.drop_first(), k);
    }
}

pub proof fn lemma_assoc_absent_no_index<V>(s: Seq<(u64, V)>, k: u64)
    requires
        !assoc_contains(s, k),
    ensures
        forall|j: int| 0 <= j < s.len() ==> (#[trigger] s[j]).0 != k,
    decreases s.len(),
{
    if s.len() > 0 {
        lemma_assoc_absent_no_index(s.drop_first(), k);
        assert(forall|j: int| 1 <= j < s.len() ==> #[trigger] s[j] == s.drop_first()[j - 1]);
    }
}

pub proof fn lemma_assoc_get_exists_index<V>(s: Seq<(u64, V)>, k: u64)
    requires
        assoc_contains(s, k),
    ensures
        exists|i: int|
            0 <= i < s.len() && (#[trigger] s[i]).0 == k && assoc_get(s, k) == Some(s[i].1),
    decreases s.len(),
{
    if s[0].0 != k {
        lemma_assoc_get_exists_index(s.drop_first(), k);
        let i = choose|i: int|
            0 <= i < s.drop_first().len() && (#[trigger] s.drop_first()[i]).0 == k
                && assoc_get(s.drop_first(), k) == Some(s.drop_first()[i].1);
        assert(s[i + 1] == s.drop_first()[i]);
    }
}

pub proof fn lemma_assoc_set_at<V>(s: Seq<(u64, V)>, k: u64, v: V, i: int)
    requires
        0 <= i < s.len(),
        s[i].0 == k,
        forall|j: int| 0 <= j < i ==> (#[trigger] s[j]).0 != k,
    ensures
        assoc_set(s, k, v) == s.update(i, (k, v)),
    decreases i,
{
    if i == 0 {
        assert(assoc_set(s, k, v) =~= s.update(0, (k, v)));
    } else {
        lemma_assoc_set_at(s.drop_first(), k, v, i - 1);
        assert(assoc_set(s, k, v) =~= s.update(i, (k, v)));
    }
}

pub proof fn lemma_assoc_remove_at<V>(s: Seq<(u64, V)>, k: u64, i: int)
    requires
        0 <= i < s.len(),
        s[i].0 == k,
        forall|j: int| 0 <= j < i ==> (#[trigger] s[j]).0 != k,
    ensures
        assoc_remove(s, k) == s.remove(i),
    decreases i,
{
    if i == 0 {
        assert(assoc_remove(s, k) =~= s.remove(0));
    } else {
        lemma_assoc_remove_at(s.drop_first(), k, i - 1);
        assert(assoc_remove(s, k) =~= s.remove(i));
    }
}

pub proof fn lemma_assoc_set_absent<V>(s: Seq<(u64, V)>, k: u64, v: V)
    requires
        !assoc_contains(s, k),
    ensures
        assoc_set(s, k, v) == s,
    decreases s.len(),
{
    if s.len() > 0 {
        lemma_assoc_set_absent(s.drop_first(), k, v);
        assert(assoc_set(s, k, v) =~= s);
    }
}

pub proof fn lemma_assoc_remove_absent<V>(s: Seq<(u64, V)>, k: u64)
    requires
        !assoc_contains(s, k),
    ensures
        assoc_remove(s, k) == s,
    decreases s.len(),
{
    if s.len() > 0 {
        lemma_assoc_remove_absent(s.drop_first(), k);
        assert(assoc_remove(s, k) =~= s);
    }
}

pub proof fn lemma_assoc_get_set<V>(s: Seq<(u64, V)>, k: u64, v: V, k2: u64)
    ensures
        assoc_get(assoc_set(s, k, v), k2) == if k2 == k && assoc_contains(s, k) {
            Some(v)
        } else {
            assoc_get(s, k2)
        },
    decreases s.len(),
{
    if s.len() > 0 {
        if s[0].0 == k {
            let t = assoc_set(s, k, v);
            assert(t[0] == (k, v));
            assert(t.drop_first() =~= s.drop_first());
        } else {
            lemma_assoc_get_set(s.drop_first(), k, v, k2);
            let t = assoc_set(s, k, v);
            assert(t[0] == s[0]);
            assert(t.drop_first() =~= assoc_set(s.drop_first(), k, v));
        }
    }
}

pub proof fn lemma_assoc_get_remove<V>(s: Seq<(u64, V)>, k: u64, k2: u64)
    requires
        keys_unique(s),
    ensures
        assoc_get(assoc_remove(s, k), k2) == if k2 == k {
            None::<V>
        } else {
            assoc_get(s, k2)
        },
    decreases s.len(),
{
    if s.len() > 0 {
        if s[0].0 == k {
            if k2 == k {
                assert(forall|j: int|
                    0 <= j < s.drop_first().len() ==> (#[trigger] s.drop_first()[j]).0
                        != k2) by {
                    assert(forall|j: int|
                        0 <= j < s.drop_first().len() ==> s.drop_first()[j] == s[j + 1]);
                }
                lemma_assoc_get_absent(s.drop_first(), k2);
            }
        } else {
            assert(keys_unique(s.drop_first())) by {
                assert(forall|j: int|
                    0 <= j < s.drop_first().len() ==> s.drop_first()[j] == s[j + 1]);
            }
            lemma_assoc_get_remove(s.drop_first(), k, k2);
            let t = assoc_remove(s, k);
            assert(t[0] == s[0]);
            assert(t.drop_first() =~= assoc_remove(s.drop_first(), k));
        }
    }
}

pub proof fn lemma_assoc_get_push<V>(s: Seq<(u64, V)>, p: (u64, V), k2: u64)
    ensures
        assoc_get(s.push(p), k2) == if assoc_contains(s, k2) {
            assoc_get(s, k2)
        } else if p.0 == k2 {
            Some(p.1)
        } else {
            None::<V>
        },
    decreases s.len(),
{
    if s.len() == 0 {
        assert(s.push(p)[0] == p);
        assert(s.push(p).drop_first() =~= Seq::<(u64, V)>::empty());
        assert(assoc_get(Seq::<(u64, V)>::empty(), k2) is None);
    } else {
        lemma_assoc_get_push(s.drop_first(), p, k2);
        assert(s.push(p)[0] == s[0]);
        assert(s.push(p).drop_first() =~= s.drop_first().push(p));
    }
}

pub proof fn lemma_assoc_set_unique<V>(s: Seq<(u64, V)>, k: u64, v: V)
    requires
        keys_unique(s),
    ensures
        keys_unique(assoc_set(s, k, v)),
{
    if assoc_contains(s, k) {
        lemma_assoc_get_exists_index(s, k);
        let i = choose|i: int|
            0 <= i < s.len() && (#[trigger] s[i]).0 == k && assoc_get(s, k) == Some(s[i].1);
        assert(forall|j: int| 0 <= j < i ==> (#[trigger] s[j]).0 != k) by {
            assert(forall|j: int|
                0 <= j < i && (#[trigger] s[j]).0 == k ==> s[j].0 == s[i].0);
        }
        lemma_assoc_set_at(s, k, v, i);
        let t = s.update(i, (k, v));
        assert(forall|j: int| 0 <= j < t.len() ==> (#[trigger] t[j]).0 == s[j].0);
    } else {
        lemma_assoc_set_absent(s, k, v);
    }
}

pub proof fn lemma_assoc_remove_unique<V>(s: Seq<(u64, V)>, k: u64)
    requires
        keys_unique(s),
    ensures
        keys_unique(assoc_remove(s, k)),
{
    if assoc_contains(s, k) {
        lemma_assoc_get_exists_index(s, k);
        let i = choose|i: int|
            0 <= i < s.len() && (#[trigger] s[i]).0 == k && assoc_get(s, k) == Some(s[i].1);
        assert(forall|j: int| 0 <= j < i ==> (#[trigger] s[j]).0 != k) by {
            assert(forall|j: int|
                0 <= j < i && (#[trigger] s[j]).0 == k ==> s[j].0 == s[i].0);
        }
        lemma_assoc_remove_at(s, k, i);
        let t = s.remove(i);
        s.remove_ensures(i);
        assert(keys_unique(t)) by {
            assert(forall|a: int, b: int|
                0 <= a < b < t.len() ==> (#[trigger] t[a]).0 != (#[trigger] t[b]).0) by {
                assert(forall|a: int|
                    0 <= a < t.len() ==> #[trigger] t[a] == (if a < i {
                        s[a]
                    } else {
                        s[a + 1]
                    }));
            }
        }
    } else {
        lemma_assoc_remove_absent(s, k);
    }
}

pub proof fn lemma_assoc_push_unique<V>(s: Seq<(u64, V)>, k: u64, v: V)
    requires
        keys_unique(s),
        !assoc_contains(s, k),
    ensures
        keys_unique(s.push((k, v))),
{
    lemma_assoc_absent_no_index(s, k);
    let t = s.push((k, v));
    assert(forall|a: int| 0 <= a < s.len() ==> #[trigger] t[a] == s[a]);
    assert(t[s.len() as int] == (k, v));
}

pub proof fn lemma_assoc_sum_push<V>(s: Seq<(u64, V)>, p: (u64, V), f: spec_fn(V) -> int)
    ensures
        assoc_sum(s.push(p), f) == assoc_sum(s, f) + f(p.1),
    decreases s.len(),
{
    if s.len() == 0 {
        assert(s.push(p)[0] == p);
        assert(s.push(p).drop_first() =~= Seq::<(u64, V)>::empty());
        assert(assoc_sum(Seq::<(u64, V)>::empty(), f) == 0);
    } else {
        lemma_assoc_sum_push(s.drop_first(), p, f);
        assert(s.push(p)[0] == s[0]);
        assert(s.push(p).drop_first() =~= s.drop_first().push(p));
    }
}

pub proof fn lemma_assoc_sum_set<V>(s: Seq<(u64, V)>, k: u64, v: V, f: spec_fn(V) -> int)
    requires
        assoc_contains(s, k),
    ensures
        assoc_sum(assoc_set(s, k, v), f) == assoc_sum(s, f) - f(assoc_get(s, k)->Some_0)
            + f(v),
    decreases s.len(),
{
    let t = assoc_set(s, k, v);
    if s[0].0 == k {
        assert(t[0] == (k, v));
        assert(t.drop_first() =~= s.drop_first());
    } else {
        lemma_assoc_sum_set(s.drop_first(), k, v, f);
        assert(t[0] == s[0]);
        assert(t.drop_first() =~= assoc_set(s.drop_first(), k, v));
    }
}

pub proof fn lemma_assoc_sum_remove<V>(s: Seq<(u64, V)>, k: u64, f: spec_fn(V) -> int)
    requires
        assoc_contains(s, k),
    ensures
        assoc_sum(assoc_remove(s, k), f) == assoc_sum(s, f) - f(assoc_get(s, k)->Some_0),
    decreases s.len(),
{
    let t = assoc_remove(s, k);
    if s[0].0 == k {
    } else {
        lemma_assoc_sum_remove(s.drop_first(), k, f);
        assert(t[0] == s[0]);
        assert(t.drop_first() =~= assoc_remove(s.drop_first(), k));
    }
}

pub proof fn lemma_assoc_sum_nonneg<V>(s: Seq<(u64, V)>, f: spec_fn(V) -> int)
    requires
        forall|v: V| #[trigger] f(v) >= 0,
    ensures
        assoc_sum(s, f) >= 0,
    decreases s.len(),
{
    if s.len() > 0 {
        lemma_assoc_sum_nonneg(s.drop_first(), f);
    }
}

pub proof fn lemma_assoc_sum_concat<V>(a: Seq<(u64, V)>, b: Seq<(u64, V)>, f: spec_fn(V) -> int)
    ensures
        assoc_sum(a + b, f) == assoc_sum(a, f) + assoc_sum(b, f),
    decreases a.len(),
{
    if a.len() == 0 {
        assert(a + b =~= b);
    } else {
        lemma_assoc_sum_concat(a.drop_first(), b, f);
        assert((a + b)[0] == a[0]);
        assert((a + b).drop_first() =~= a.drop_first() + b);
    }
}

/// The value bound to a key never exceeds a sum of non-negative projections.
pub proof fn lemma_assoc_get_le_sum<V>(s: Seq<(u64, V)>, k: u64, f: spec_fn(V) -> int)
    requires
        forall|v: V| #[trigger] f(v) >= 0,
        assoc_contains(s, k),
    ensures
        f(assoc_get(s, k)->Some_0) <= assoc_sum(s, f),
    decreases s.len(),
{
    if s[0].0 == k {
        lemma_assoc_sum_nonneg(s.drop_first(), f);
    } else {
        lemma_assoc_get_le_sum(s.drop_first(), k, f);
    }
}

/// A vector of key/value pairs with pairwise distinct keys, read through the
/// association view above.
pub struct KvVec<V> {
    entries: Vec<(u64, V)>,
}

impl<V> View for KvVec<V> {
    type V = Seq<(u64, V)>;

    closed spec fn view(&self) -> Seq<(u64, V)> {
        self.entries@
    }
}

impl<V: Copy> KvVec<V> {
    pub open spec fn wf(&self) -> bool {
        keys_unique(self@)
    }

    pub fn new() -> (r: Self)
        ensures
            r@ == Seq::<(u64, V)>::empty(),
            r.wf(),
    {
        let r = KvVec { entries: Vec::new() };
        proof {
            assert(r@ =~= Seq::<(u64, V)>::empty());
        }
        r
    }

    /// Takes ownership of a pair vector whose keys are already distinct.
    pub fn from_vec(entries: Vec<(u64, V)>) -> (r: Self)
        requires
            keys_unique(entries@),
        ensures
            r@ == entries@,
            r.wf(),
    {
        KvVec { entries }
    }

    pub fn len(&self) -> (r: usize)
        ensures
            r == self@.len(),
    {
        self.entries.len()
    }

    pub fn entry_at(&self, i: usize) -> (r: (u64, V))
        requires
            i < self@.len(),
        ensures
            r == self@[i as int],
    {
        self.entries[i]
    }

    pub fn get(&self, k: u64) -> (r: Option<V>)
        ensures
            r == assoc_get(self@, k),
    {
        let n = self.entries.len();
        let mut i: usize = 0;
        while i < n
            invariant
                n == self@.len(),
                i <= n,
                forall|j: int| 0 <= j < i ==> (#[trigger] self@[j]).0 != k,
            decreases n - i,
        {
            let (key, value) = self.entries[i];
            if key == k {
                proof {
                    lemma_assoc_get_index(self@, k, i as int);
                }
                return Some(value);
            }
            i = i + 1;
        }
        proof {
            lemma_assoc_get_absent(self@, k);
        }
        None
    }

    pub fn contains_key(&self, k: u64) -> (r: bool)
        ensures
            r == assoc_contains(self@, k),
    {
        match self.get(k) {
            Some(_) => true,
            None => false,
        }
    }

    /// Rebinds `k` in place when present, appends the new pair otherwise.
    pub fn upsert(&mut self, k: u64, v: V)
        requires
            old(self).wf(),
        ensures
            final(self).wf(),
            final(self)@ == if assoc_contains(old(self)@, k) {
                assoc_set(old(self)@, k, v)
            } else {
                old(self)@.push((k, v))
            },
    {
        let ghost s0 = self@;
        let n = self.entries.len();
        let mut i: usize = 0;
        while i < n
            invariant
                self@ == s0,
                s0 == old(self)@,
                keys_unique(s0),
                n == s0.len(),
                i <= n,
                forall|j: int| 0 <= j < i ==> (#[trigger] s0[j]).0 != k,
            decreases n - i,
        {
            let (key, _) = self.entries[i];
            if key == k {
                proof {
                    lemma_assoc_get_index(s0, k, i as int);
                    lemma_assoc_set_at(s0, k, v, i as int);
                    lemma_assoc_set_unique(s0, k, v);
                }
                self.entries.set(i, (k, v));
                return ;
            }
            i = i + 1;
        }
        proof {
            lemma_assoc_get_absent(s0, k);
            lemma_assoc_push_unique(s0, k, v);
        }
        self.entries.push((k, v));
    }

    /// Removes the pair carrying `k`, handing back its value.
    pub fn remove_key(&mut self, k: u64) -> (r: Option<V>)
        requires
            old(self).wf(),
        ensures
            final(self).wf(),
            r == assoc_get(old(self)@, k),
            final(self)@ == assoc_remove(old(self)@, k),
    {
        let ghost s0 = self@;
        let n = self.entries.len();
        let mut i: usize = 0;
        while i < n
            invariant
                self@ == s0,
                s0 == old(self)@,
                keys_unique(s0),
                n == s0.len(),
                i <= n,
                forall|j: int| 0 <= j < i ==> (#[trigger] s0[j]).0 != k,
            decreases n - i,
        {
            let (key, value) = self.entries[i];
            if key == k {
                proof {
                    lemma_assoc_get_index(s0, k, i as int);
                    lemma_assoc_remove_at(s0, k, i as int);
                    lemma_assoc_remove_unique(s0, k);
                }
                self.entries.remove(i);
                return Some(value);
            }
            i = i + 1;
        }
        proof {
            lemma_assoc_get_absent(s0, k);
            lemma_assoc_remove_absent(s0, k);
        }
        None
    }

    /// The keys, in store order.
    pub fn keys(&self) -> (r: Vec<u64>)
        ensures
            r@.len() == self@.len(),
            forall|i: int| 0 <= i < self@.len() ==> r@[i] == (#[trigger] self@[i]).0,
    {
        let n = self.entries.len();
        let mut r: Vec<u64> = Vec::new();
        let mut i: usize = 0;
        while i < n
            invariant
                n == self@.len(),
                i <= n,
                r@.len() == i,
                forall|j: int| 0 <= j < i ==> r@[j] == (#[trigger] self@[j]).0,
            decreases n - i,
        {
            let (key, _) = self.entries[i];
            r.push(key);
            i = i + 1;
        }
        r
    }
}

} // verus!
