//! In-memory key-indexed record store.
//!
//! The ledger keeps each addressable collection as an association list with
//! unique keys, viewed in specifications as a sequence of (key view, value)
//! pairs together with the lookup function [`spec_get`].

use vstd::prelude::*;

verus! {

/// Exec keys that can decide equality of their mathematical views.
pub trait Key: View + Sized {
    fn key_eq(&self, other: &Self) -> (r: bool)
        ensures
            r == (self@ == other@);
}

impl Key for u64 {
    fn key_eq(&self, other: &Self) -> (r: bool)
        ensures
            r == (self@ == other@),
    {
        *self == *other
    }
}

impl Key for String {
    fn key_eq(&self, other: &Self) -> (r: bool)
        ensures
            r == (self@ == other@),
    {
        <String as PartialEq>::eq(self, other)
    }
}

/// No key view occurs twice.
pub open spec fn keys_unique<KV, V>(s: Seq<(KV, V)>) -> bool {
    forall|i: int, j: int|
        0 <= i < j < s.len() ==> #[trigger] s[i].0 != #[trigger] s[j].0
}

/// Whether some pair is keyed by `k`.
pub open spec fn has_key<KV, V>(s: Seq<(KV, V)>, k: KV) -> bool {
    exists|i: int| 0 <= i < s.len() && #[trigger] s[i].0 == k
}

/// The value stored under key `k`. With unique keys this is the value of
/// the one pair whose key matches.
pub open spec fn spec_get<KV, V>(s: Seq<(KV, V)>, k: KV) -> Option<V> {
    if has_key(s, k) {
        let i = choose|i: int| 0 <= i < s.len() && #[trigger] s[i].0 == k;
        Some(s[i].1)
    } else {
        None
    }
}

/// With unique keys, a matching pair at index `i` is what `spec_get` returns.
pub proof fn lemma_spec_get_at<KV, V>(s: Seq<(KV, V)>, k: KV, i: int)
    requires
        keys_unique(s),
        0 <= i < s.len(),
        s[i].0 == k,
    ensures
        spec_get(s, k) == Some(s[i].1),
{
    let j = choose|j: int| 0 <= j < s.len() && #[trigger] s[j].0 == k;
    if i != j {
        assert(s[i].0 != s[j].0);
    }
}

/// Without a matching pair, `spec_get` returns nothing.
pub proof fn lemma_spec_get_none<KV, V>(s: Seq<(KV, V)>, k: KV)
    requires
        forall|j: int| 0 <= j < s.len() ==> #[trigger] s[j].0 != k,
    ensures
        spec_get(s, k) is None,
{
}

/// A successful lookup names a matching pair.
pub proof fn lemma_spec_get_index<KV, V>(s: Seq<(KV, V)>, k: KV)
    requires
        spec_get(s, k) is Some,
    ensures
        exists|i: int|
            0 <= i < s.len() && #[trigger] s[i].0 == k && s[i].1 == spec_get(s, k)->0,
{
    let i = choose|i: int| 0 <= i < s.len() && #[trigger] s[i].0 == k;
    assert(0 <= i < s.len() && s[i].0 == k && s[i].1 == spec_get(s, k)->0);
}

/// Two stores with unique keys whose pairs keyed by `k` agree have the same
/// lookup for `k`: every `k`-keyed pair of one occurs in the other.
pub proof fn lemma_spec_get_agree<KV, V>(a: Seq<(KV, V)>, b: Seq<(KV, V)>, k: KV)
    requires
        keys_unique(a),
        keys_unique(b),
        forall|i: int|
            0 <= i < a.len() && #[trigger] a[i].0 == k ==> has_pair(b, a[i]),
        forall|i: int|
            0 <= i < b.len() && #[trigger] b[i].0 == k ==> has_pair(a, b[i]),
    ensures
        spec_get(a, k) == spec_get(b, k),
{
    if has_key(a, k) {
        let i = choose|i: int| 0 <= i < a.len() && #[trigger] a[i].0 == k;
        let j = choose|j: int| 0 <= j < b.len() && #[trigger] b[j] == a[i];
        lemma_spec_get_at(a, k, i);
        lemma_spec_get_at(b, k, j);
    } else {
        if has_key(b, k) {
            let j = choose|j: int| 0 <= j < b.len() && #[trigger] b[j].0 == k;
            let i = choose|i: int| 0 <= i < a.len() && #[trigger] a[i] == b[j];
            assert(a[i].0 == k);
        }
    }
}

/// Whether the exact pair `p` occurs in the store.
pub open spec fn has_pair<KV, V>(s: Seq<(KV, V)>, p: (KV, V)) -> bool {
    exists|i: int| 0 <= i < s.len() && #[trigger] s[i] == p
}

/// The store after `v` is put under `k`: the one pair keyed by `k` is
/// replaced, or a new pair is appended. This is what [`KvMap::insert`] does
/// to the view.
pub open spec fn spec_put<KV, V>(s: Seq<(KV, V)>, k: KV, v: V) -> Seq<(KV, V)> {
    if has_key(s, k) {
        let i = choose|i: int| 0 <= i < s.len() && #[trigger] s[i].0 == k;
        s.update(i, (k, v))
    } else {
        s.push((k, v))
    }
}

/// What `spec_put` does to lookups: the put key now yields the new value,
/// every other key is untouched, and key uniqueness is preserved.
pub proof fn lemma_spec_put<KV, V>(s: Seq<(KV, V)>, k: KV, v: V)
    requires
        keys_unique(s),
    ensures
        keys_unique(spec_put(s, k, v)),
        spec_get(spec_put(s, k, v), k) == Some(v),
        forall|k2: KV| k2 != k ==> spec_get(spec_put(s, k, v), k2) == spec_get(s, k2),
        spec_put(s, k, v).len() == (if has_key(s, k) {
            s.len()
        } else {
            s.len() + 1
        }),
        has_key(s, k) ==> {
            let i = choose|i: int| 0 <= i < s.len() && #[trigger] s[i].0 == k;
            spec_put(s, k, v) == s.update(i, (k, v))
        },
        !has_key(s, k) ==> spec_put(s, k, v) == s.push((k, v)),
    decreases s.len(),
{
    let t = spec_put(s, k, v);
    if has_key(s, k) {
        let i = choose|i: int| 0 <= i < s.len() && #[trigger] s[i].0 == k;
        assert forall|i2: int, j2: int| 0 <= i2 < j2 < t.len() implies #[trigger] t[i2].0
            != #[trigger] t[j2].0 by {
            assert(s[i2].0 != s[j2].0);
        }
        lemma_spec_get_at(t, k, i);
        assert forall|k2: KV| k2 != k implies spec_get(t, k2) == spec_get(s, k2) by {
            assert forall|j: int|
                0 <= j < s.len() && #[trigger] s[j].0 == k2 implies has_pair(t, s[j]) by {
                assert(t[j] == s[j]);
            }
            assert forall|j: int|
                0 <= j < t.len() && #[trigger] t[j].0 == k2 implies has_pair(s, t[j]) by {
                assert(t[j] == s[j]);
            }
            lemma_spec_get_agree(s, t, k2);
        }
    } else {
        assert forall|i2: int, j2: int| 0 <= i2 < j2 < t.len() implies #[trigger] t[i2].0
            != #[trigger] t[j2].0 by {
            if j2 < t.len() - 1 {
                assert(t[i2] == s[i2] && t[j2] == s[j2]);
            } else {
                assert(t[i2] == s[i2] && t[j2] == (k, v));
            }
        }
        lemma_spec_get_at(t, k, t.len() - 1);
        assert forall|k2: KV| k2 != k implies spec_get(t, k2) == spec_get(s, k2) by {
            assert forall|j: int|
                0 <= j < s.len() && #[trigger] s[j].0 == k2 implies has_pair(t, s[j]) by {
                assert(t[j] == s[j]);
            }
            assert forall|j: int|
                0 <= j < t.len() && #[trigger] t[j].0 == k2 implies has_pair(s, t[j]) by {
                assert(t[j] == s[j]);
            }
            lemma_spec_get_agree(s, t, k2);
        }
    }
}

/// A key-indexed collection of records, as the opaque store hands it out.
pub struct KvMap<K, V> {
    pairs: Vec<(K, V)>,
}

impl<K: Key, V> View for KvMap<K, V> {
    type V = Seq<(K::V, V)>;

    closed spec fn view(&self) -> Seq<(K::V, V)> {
        self.pairs@.map_values(|p: (K, V)| (p.0@, p.1))
    }
}

impl<K: Key, V> KvMap<K, V> {
    pub fn new() -> (r: Self)
        ensures
            r@ == Seq::<(K::V, V)>::empty(),
    {
        let r = KvMap { pairs: Vec::new() };
        proof {
            assert(r@ =~= Seq::<(K::V, V)>::empty());
        }
        r
    }

    pub fn len(&self) -> (r: usize)
        ensures
            r == self@.len(),
    {
        self.pairs.len()
    }

    /// The key view of the pair stored at position `i`.
    pub fn key_at(&self, i: usize) -> (r: &K)
        requires
            i < self@.len(),
        ensures
            r@ == self@[i as int].0,
    {
        &self.pairs[i].0
    }

    /// The value stored at position `i`.
    pub fn value_at(&self, i: usize) -> (r: &V)
        requires
            i < self@.len(),
        ensures
            *r == self@[i as int].1,
    {
        &self.pairs[i].1
    }

    pub fn get(&self, k: &K) -> (r: Option<&V>)
        requires
            keys_unique(self@),
        ensures
            match r {
                Some(v) => spec_get(self@, k@) == Some(*v),
                None => spec_get(self@, k@) is None,
            },
    {
        let n = self.pairs.len();
        let mut i: usize = 0;
        while i < n
            invariant
                0 <= i <= n,
                n == self@.len(),
                keys_unique(self@),
                forall|j: int| 0 <= j < i ==> self@[j].0 != k@,
            decreases n - i,
        {
            if self.pairs[i].0.key_eq(k) {
                proof {
                    lemma_spec_get_at(self@, k@, i as int);
                }
                return Some(&self.pairs[i].1);
            }
            i += 1;
        }
        proof {
            lemma_spec_get_none(self@, k@);
        }
        None
    }

    pub fn contains_key(&self, k: &K) -> (r: bool)
        requires
            keys_unique(self@),
        ensures
            r == (spec_get(self@, k@) is Some),
    {
        self.get(k).is_some()
    }

    /// Store `v` under `k`, overwriting any record already there.
    pub fn insert(&mut self, k: K, v: V)
        requires
            keys_unique(old(self)@),
        ensures
            keys_unique(final(self)@),
            spec_get(final(self)@, k@) == Some(v),
            forall|k2: K::V|
                k2 != k@ ==> spec_get(final(self)@, k2) == spec_get(old(self)@, k2),
            spec_get(old(self)@, k@) is None ==> final(self)@ == old(self)@.push((k@, v)),
            spec_get(old(self)@, k@) is Some ==> {
                &&& final(self)@.len() == old(self)@.len()
                &&& forall|i: int|
                    0 <= i < old(self)@.len() && old(self)@[i].0 != k@ ==> final(self)@[i]
                        == old(self)@[i]
                &&& forall|i: int|
                    0 <= i < old(self)@.len() && old(self)@[i].0 == k@ ==> final(self)@[i] == (
                    k@,
                    v,
                )
            },
    {
        let n = self.pairs.len();
        let mut i: usize = 0;
        while i < n
            invariant
                0 <= i <= n,
                n == self@.len(),
                self@ == old(self)@,
                keys_unique(self@),
                forall|j: int| 0 <= j < i ==> self@[j].0 != k@,
            decreases n - i,
        {
            if self.pairs[i].0.key_eq(&k) {
                proof {
                    lemma_spec_get_at(self@, k@, i as int);
                }
                self.pairs[i] = (k, v);
                proof {
                    let s = old(self)@;
                    let t = self@;
                    assert(t =~= s.update(i as int, (k@, v)));
                    lemma_spec_get_at(t, k@, i as int);
                    assert forall|i2: int|
                        0 <= i2 < s.len() && s[i2].0 == k@ implies t[i2] == (k@, v) by {
                        if i2 != i {
                            assert(s[i2].0 != s[i as int].0);
                        }
                    }
                    assert forall|k2: K::V| k2 != k@ implies spec_get(t, k2) == spec_get(
                        s,
                        k2,
                    ) by {
                        assert forall|j: int|
                            0 <= j < s.len() && #[trigger] s[j].0 == k2 implies has_pair(
                            t,
                            s[j],
                        ) by {
                            assert(t[j] == s[j]);
                        }
                        assert forall|j: int|
                            0 <= j < t.len() && #[trigger] t[j].0 == k2 implies has_pair(
                            s,
                            t[j],
                        ) by {
                            assert(t[j] == s[j]);
                        }
                        lemma_spec_get_agree(s, t, k2);
                    }
                }
                return ;
            }
            i += 1;
        }
        proof {
            lemma_spec_get_none(self@, k@);
        }
        self.pairs.push((k, v));
        proof {
            let s = old(self)@;
            let t = self@;
            assert(t =~= s.push((k@, v)));
            assert forall|i2: int, j2: int| 0 <= i2 < j2 < t.len() implies #[trigger] t[i2].0
                != #[trigger] t[j2].0 by {
                if j2 < t.len() - 1 {
                    assert(t[i2] == s[i2] && t[j2] == s[j2]);
                } else {
                    assert(t[i2] == s[i2] && t[j2] == (k@, v));
                }
            }
            lemma_spec_get_at(t, k@, t.len() - 1);
            assert forall|k2: K::V| k2 != k@ implies spec_get(t, k2) == spec_get(s, k2) by {
                assert forall|j: int|
                    0 <= j < s.len() && #[trigger] s[j].0 == k2 implies has_pair(t, s[j]) by {
                    assert(t[j] == s[j]);
                }
                assert forall|j: int|
                    0 <= j < t.len() && #[trigger] t[j].0 == k2 implies has_pair(s, t[j]) by {
                    assert(t[j] == s[j]);
                }
                lemma_spec_get_agree(s, t, k2);
            }
        }
    }

    /// Remove and hand out the record under `k`, if any.
    pub fn take(&mut self, k: &K) -> (r: Option<V>)
        requires
            keys_unique(old(self)@),
        ensures
            keys_unique(final(self)@),
            r == spec_get(old(self)@, k@),
            spec_get(final(self)@, k@) is None,
            forall|k2: K::V|
                k2 != k@ ==> spec_get(final(self)@, k2) == spec_get(old(self)@, k2),
            r is None ==> final(self)@ == old(self)@,
            r is Some ==> exists|i: int|
                0 <= i < old(self)@.len() && #[trigger] old(self)@[i].0 == k@ && final(self)@
                    == old(self)@.remove(i),
    {
        let n = self.pairs.len();
        let mut i: usize = 0;
        while i < n
            invariant
                0 <= i <= n,
                n == self@.len(),
                self@ == old(self)@,
                keys_unique(self@),
                forall|j: int| 0 <= j < i ==> self@[j].0 != k@,
            decreases n - i,
        {
            if self.pairs[i].0.key_eq(k) {
                proof {
                    lemma_spec_get_at(self@, k@, i as int);
                }
                let pair = self.pairs.remove(i);
                proof {
                    let s = old(self)@;
                    let t = self@;
                    assert(t =~= s.remove(i as int));
                    assert forall|j: int| 0 <= j < t.len() implies t[j].0 != k@ by {
                        if j < i {
                            assert(t[j] == s[j]);
                        } else {
                            assert(t[j] == s[j + 1]);
                            assert(s[i as int].0 != s[j + 1].0);
                        }
                    }
                    lemma_spec_get_none(t, k@);
                    assert forall|i2: int, j2: int|
                        0 <= i2 < j2 < t.len() implies #[trigger] t[i2].0 != #[trigger] t[j2].0 by {
                        let i3: int = if i2 < i {
                            i2
                        } else {
                            i2 + 1
                        };
                        let j3: int = if j2 < i {
                            j2
                        } else {
                            j2 + 1
                        };
                        assert(t[i2] == s[i3] && t[j2] == s[j3]);
                        assert(s[i3].0 != s[j3].0);
                    }
                    assert forall|k2: K::V| k2 != k@ implies spec_get(t, k2) == spec_get(
                        s,
                        k2,
                    ) by {
                        assert forall|j: int|
                            0 <= j < s.len() && #[trigger] s[j].0 == k2 implies has_pair(
                            t,
                            s[j],
                        ) by {
                            let j2: int = if j < i {
                                j
                            } else {
                                j - 1
                            };
                            assert(t[j2] == s[j]);
                        }
                        assert forall|j: int|
                            0 <= j < t.len() && #[trigger] t[j].0 == k2 implies has_pair(
                            s,
                            t[j],
                        ) by {
                            let j3: int = if j < i {
                                j
                            } else {
                                j + 1
                            };
                            assert(t[j] == s[j3]);
                        }
                        lemma_spec_get_agree(s, t, k2);
                    }
                    assert(s[i as int].0 == k@ && t == s.remove(i as int));
                }
                return Some(pair.1);
            }
            i += 1;
        }
        proof {
            lemma_spec_get_none(self@, k@);
        }
        None
    }

    /// Remove the record under `k`, if any.
    pub fn remove(&mut self, k: &K)
        requires
            keys_unique(old(self)@),
        ensures
            keys_unique(final(self)@),
            spec_get(final(self)@, k@) is None,
            forall|k2: K::V|
                k2 != k@ ==> spec_get(final(self)@, k2) == spec_get(old(self)@, k2),
            spec_get(old(self)@, k@) is None ==> final(self)@ == old(self)@,
            spec_get(old(self)@, k@) is Some ==> exists|i: int|
                0 <= i < old(self)@.len() && #[trigger] old(self)@[i].0 == k@ && final(self)@
                    == old(self)@.remove(i),
    {
        let n = self.pairs.len();
        let mut i: usize = 0;
        while i < n
            invariant
                0 <= i <= n,
                n == self@.len(),
                self@ == old(self)@,
                keys_unique(self@),
                forall|j: int| 0 <= j < i ==> self@[j].0 != k@,
            decreases n - i,
        {
            if self.pairs[i].0.key_eq(k) {
                proof {
                    lemma_spec_get_at(self@, k@, i as int);
                }
                self.pairs.remove(i);
                proof {
                    let s = old(self)@;
                    let t = self@;
                    assert(t =~= s.remove(i as int));
                    assert forall|j: int| 0 <= j < t.len() implies t[j].0 != k@ by {
                        if j < i {
                            assert(t[j] == s[j]);
                        } else {
                            assert(t[j] == s[j + 1]);
                            assert(s[i as int].0 != s[j + 1].0);
                        }
                    }
                    lemma_spec_get_none(t, k@);
                    assert forall|i2: int, j2: int|
                        0 <= i2 < j2 < t.len() implies #[trigger] t[i2].0 != #[trigger] t[j2].0 by {
                        let i3: int = if i2 < i { i2 } else { i2 + 1 };
                        let j3: int = if j2 < i { j2 } else { j2 + 1 };
                        assert(t[i2] == s[i3] && t[j2] == s[j3]);
                        assert(s[i3].0 != s[j3].0);
                    }
                    assert forall|k2: K::V| k2 != k@ implies spec_get(t, k2) == spec_get(
                        s,
                        k2,
                    ) by {
                        assert forall|j: int|
                            0 <= j < s.len() && #[trigger] s[j].0 == k2 implies has_pair(
                            t,
                            s[j],
                        ) by {
                            let j2: int = if j < i { j } else { j - 1 };
                            assert(t[j2] == s[j]);
                        }
                        assert forall|j: int|
                            0 <= j < t.len() && #[trigger] t[j].0 == k2 implies has_pair(
                            s,
                            t[j],
                        ) by {
                            let j3: int = if j < i { j } else { j + 1 };
                            assert(t[j] == s[j3]);
                        }
                        lemma_spec_get_agree(s, t, k2);
                    }
                    assert(s[i as int].0 == k@ && t == s.remove(i as int));
                }
                return ;
            }
            i += 1;
        }
        proof {
            lemma_spec_get_none(self@, k@);
        }
    }
}

} // verus!
