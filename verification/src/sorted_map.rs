use vstd::prelude::*;

use crate::order::{KeyOrder, MapKey};

verus! {

/// Keys strictly increase along the sequence (so no key occurs twice).
pub open spec fn keys_increasing<K: MapKey, V>(s: Seq<(K, V)>) -> bool {
    forall|i: int, j: int| #![trigger s[i], s[j]] 0 <= i < j < s.len() ==> s[i].0.key_lt(s[j].0)
}

/// The value stored under `k`: that of the first entry with key `k`.
pub open spec fn lookup<K, V>(s: Seq<(K, V)>, k: K) -> Option<V>
    decreases s.len(),
{
    if s.len() == 0 {
        None
    } else if s[0].0 == k {
        Some(s[0].1)
    } else {
        lookup(s.drop_first(), k)
    }
}

/// The entries after storing `v` under `k` in order: the entry for `k` is
/// replaced, or a new one is placed before the first greater key.
pub open spec fn spec_insert<K: MapKey, V>(s: Seq<(K, V)>, k: K, v: V) -> Seq<(K, V)>
    decreases s.len(),
{
    if s.len() == 0 {
        seq![(k, v)]
    } else if s[0].0 == k {
        seq![(k, v)] + s.drop_first()
    } else if k.key_lt(s[0].0) {
        seq![(k, v)] + s
    } else {
        seq![s[0]] + spec_insert(s.drop_first(), k, v)
    }
}

proof fn lemma_key_lt_asymmetric<K: MapKey>(a: K, b: K)
    requires
        a.key_lt(b),
    ensures
        !b.key_lt(a),
        a != b,
{
    K::lemma_key_lt_irreflexive(a);
    if b.key_lt(a) {
        K::lemma_key_lt_transitive(a, b, a);
    }
}

/// Reading back a key gives the value just stored under it.
pub proof fn law_lookup_after_insert<K: MapKey, V>(s: Seq<(K, V)>, k: K, v: V)
    ensures
        lookup(spec_insert(s, k, v), k) == Some(v),
    decreases s.len(),
{
    if s.len() > 0 && s[0].0 != k && !k.key_lt(s[0].0) {
        law_lookup_after_insert(s.drop_first(), k, v);
        assert((seq![s[0]] + spec_insert(s.drop_first(), k, v)).drop_first() =~= spec_insert(
            s.drop_first(),
            k,
            v,
        ));
    } else if s.len() > 0 && s[0].0 == k {
        assert((seq![(k, v)] + s.drop_first())[0] == (k, v));
    } else if s.len() > 0 {
        assert((seq![(k, v)] + s)[0] == (k, v));
    }
}

/// Storing under one key leaves what every other key reads unchanged.
pub proof fn law_lookup_other_after_insert<K: MapKey, V>(s: Seq<(K, V)>, k: K, v: V, other: K)
    requires
        other != k,
    ensures
        lookup(spec_insert(s, k, v), other) == lookup(s, other),
    decreases s.len(),
{
    if s.len() == 0 {
        assert(seq![(k, v)].drop_first() =~= Seq::<(K, V)>::empty());
    } else if s[0].0 == k {
        assert((seq![(k, v)] + s.drop_first()).drop_first() =~= s.drop_first());
    } else if k.key_lt(s[0].0) {
        assert((seq![(k, v)] + s).drop_first() =~= s);
    } else {
        law_lookup_other_after_insert(s.drop_first(), k, v, other);
        assert((seq![s[0]] + spec_insert(s.drop_first(), k, v)).drop_first() =~= spec_insert(
            s.drop_first(),
            k,
            v,
        ));
    }
}

/// Every key after an insertion is the inserted key or one that was there before.
proof fn lemma_insert_keys<K: MapKey, V>(s: Seq<(K, V)>, k: K, v: V)
    ensures
        forall|i: int|
            #![trigger spec_insert(s, k, v)[i]]
            0 <= i < spec_insert(s, k, v).len() ==> spec_insert(s, k, v)[i].0 == k || exists|
                j: int,
            |
                0 <= j < s.len() && spec_insert(s, k, v)[i].0 == #[trigger] s[j].0,
    decreases s.len(),
{
    let r = spec_insert(s, k, v);
    if s.len() == 0 {
    } else if s[0].0 == k {
        assert forall|i: int| #![trigger r[i]] 0 <= i < r.len() implies r[i].0 == k || exists|
            j: int,
        | 0 <= j < s.len() && r[i].0 == #[trigger] s[j].0 by {
            if i > 0 {
                assert(r[i] == s[i]);
            }
        }
    } else if k.key_lt(s[0].0) {
        assert forall|i: int| #![trigger r[i]] 0 <= i < r.len() implies r[i].0 == k || exists|
            j: int,
        | 0 <= j < s.len() && r[i].0 == #[trigger] s[j].0 by {
            if i > 0 {
                assert(r[i] == s[i - 1]);
            }
        }
    } else {
        let t = s.drop_first();
        lemma_insert_keys(t, k, v);
        assert forall|i: int| #![trigger r[i]] 0 <= i < r.len() implies r[i].0 == k || exists|
            j: int,
        | 0 <= j < s.len() && r[i].0 == #[trigger] s[j].0 by {
            if i == 0 {
                assert(r[0] == s[0]);
            } else {
                assert(r[i] == spec_insert(t, k, v)[i - 1]);
                if spec_insert(t, k, v)[i - 1].0 != k {
                    let j = choose|j: int|
                        0 <= j < t.len() && spec_insert(t, k, v)[i - 1].0 == #[trigger] t[j].0;
                    assert(t[j] == s[j + 1]);
                }
            }
        }
    }
}

/// Insertion keeps the keys in increasing order.
pub proof fn law_insert_keeps_keys_increasing<K: MapKey, V>(s: Seq<(K, V)>, k: K, v: V)
    requires
        keys_increasing(s),
    ensures
        keys_increasing(spec_insert(s, k, v)),
    decreases s.len(),
{
    let r = spec_insert(s, k, v);
    if s.len() == 0 {
    } else if s[0].0 == k {
        assert forall|i: int, j: int| #![trigger r[i], r[j]] 0 <= i < j < r.len() implies r[i].0.key_lt(
            r[j].0,
        ) by {
            assert(r[j] == s[j]);
            if i > 0 {
                assert(r[i] == s[i]);
            }
        }
    } else if k.key_lt(s[0].0) {
        assert forall|i: int, j: int| #![trigger r[i], r[j]] 0 <= i < j < r.len() implies r[i].0.key_lt(
            r[j].0,
        ) by {
            assert(r[j] == s[j - 1]);
            if i > 0 {
                assert(r[i] == s[i - 1]);
            } else if j - 1 > 0 {
                assert(s[0].0.key_lt(s[j - 1].0));
                K::lemma_key_lt_transitive(k, s[0].0, s[j - 1].0);
            }
        }
    } else {
        let t = s.drop_first();
        K::lemma_key_lt_total(k, s[0].0);
        assert(keys_increasing(t)) by {
            assert forall|i: int, j: int| #![trigger t[i], t[j]] 0 <= i < j < t.len() implies t[i].0.key_lt(
                t[j].0,
            ) by {
                assert(t[i] == s[i + 1]);
                assert(t[j] == s[j + 1]);
            }
        }
        law_insert_keeps_keys_increasing(t, k, v);
        lemma_insert_keys(t, k, v);
        let rt = spec_insert(t, k, v);
        assert forall|i: int, j: int| #![trigger r[i], r[j]] 0 <= i < j < r.len() implies r[i].0.key_lt(
            r[j].0,
        ) by {
            assert(r[j] == rt[j - 1]);
            if i > 0 {
                assert(r[i] == rt[i - 1]);
            } else {
                assert(r[0] == s[0]);
                if rt[j - 1].0 != k {
                    let m = choose|m: int| 0 <= m < t.len() && rt[j - 1].0 == #[trigger] t[m].0;
                    assert(t[m] == s[m + 1]);
                }
            }
        }
    }
}

/// Entries before `i` have keys below `k`, so inserting only touches the rest.
proof fn lemma_insert_prefix<K: MapKey, V>(s: Seq<(K, V)>, k: K, v: V, i: int)
    requires
        0 <= i <= s.len(),
        forall|j: int| 0 <= j < i ==> (#[trigger] s[j]).0.key_lt(k),
    ensures
        spec_insert(s, k, v) == s.take(i) + spec_insert(s.skip(i), k, v),
        lookup(s, k) == lookup(s.skip(i), k),
    decreases i,
{
    if i == 0 {
        assert(s.skip(0) =~= s);
        assert(s.take(0) + spec_insert(s, k, v) =~= spec_insert(s, k, v));
    } else {
        lemma_key_lt_asymmetric(s[0].0, k);
        let t = s.drop_first();
        assert forall|j: int| 0 <= j < i - 1 implies (#[trigger] t[j]).0.key_lt(k) by {
            assert(t[j] == s[j + 1]);
        }
        lemma_insert_prefix(t, k, v, i - 1);
        assert(t.skip(i - 1) =~= s.skip(i));
        assert(seq![s[0]] + t.take(i - 1) =~= s.take(i));
        assert(seq![s[0]] + (t.take(i - 1) + spec_insert(t.skip(i - 1), k, v)) =~= s.take(i)
            + spec_insert(s.skip(i), k, v));
    }
}

/// No entry has key `k`, so nothing is found under it.
proof fn lemma_lookup_absent<K, V>(s: Seq<(K, V)>, k: K)
    requires
        forall|j: int| 0 <= j < s.len() ==> (#[trigger] s[j]).0 != k,
    ensures
        lookup(s, k) is None,
    decreases s.len(),
{
    if s.len() > 0 {
        let t = s.drop_first();
        assert forall|j: int| 0 <= j < t.len() implies (#[trigger] t[j]).0 != k by {
            assert(t[j] == s[j + 1]);
        }
        lemma_lookup_absent(t, k);
    }
}

/// A map kept as a vector of entries whose keys strictly increase; walking
/// the entries visits the keys in increasing order.
#[derive(Debug)]
pub struct SortedMap<K: MapKey, V: Copy> {
    entries: Vec<(K, V)>,
}

impl<K: MapKey, V: Copy> View for SortedMap<K, V> {
    type V = Seq<(K, V)>;

    closed spec fn view(&self) -> Seq<(K, V)> {
        self.entries@
    }
}

impl<K: MapKey, V: Copy> SortedMap<K, V> {
    /// The keys of the entries strictly increase.
    #[verifier::type_invariant]
    spec fn keys_in_order(self) -> bool {
        keys_increasing(self.entries@)
    }

    /// An empty map.
    pub fn new() -> (m: Self)
        ensures
            m@ == Seq::<(K, V)>::empty(),
            keys_increasing(m@),
    {
        SortedMap { entries: Vec::new() }
    }

    /// The number of entries.
    pub fn len(&self) -> (n: usize)
        ensures
            n == self@.len(),
            keys_increasing(self@),
    {
        proof {
            use_type_invariant(self);
        }
        self.entries.len()
    }

    /// The entry at position `i` in key order.
    pub fn entry_at(&self, i: usize) -> (e: (K, V))
        requires
            i < self@.len(),
        ensures
            e == self@[i as int],
            keys_increasing(self@),
    {
        proof {
            use_type_invariant(self);
        }
        self.entries[i]
    }

    /// The value stored under `k`, if any.
    pub fn get(&self, k: &K) -> (r: Option<V>)
        ensures
            r == lookup(self@, *k),
    {
        let n = self.entries.len();
        let mut i: usize = 0;
        assert(self@.skip(0) =~= self@);
        while i < n
            invariant
                n == self@.len(),
                i <= n,
                lookup(self@, *k) == lookup(self@.skip(i as int), *k),
            decreases n - i,
        {
            let e = self.entries[i];
            assert(self@.skip(i as int)[0] == e);
            assert(self@.skip(i as int).drop_first() =~= self@.skip(i as int + 1));
            if e.0.compare_key(k) == KeyOrder::Equal {
                return Some(e.1);
            }
            i = i + 1;
        }
        assert(self@.skip(n as int).len() == 0);
        None
    }

    /// Whether some entry has key `k`.
    pub fn contains_key(&self, k: &K) -> (r: bool)
        ensures
            r == lookup(self@, *k) is Some,
    {
        self.get(k).is_some()
    }

    /// Stores `v` under `k`, returning the value that was stored there before.
    pub fn insert(&mut self, k: K, v: V) -> (r: Option<V>)
        ensures
            final(self)@ == spec_insert(old(self)@, k, v),
            r == lookup(old(self)@, k),
            keys_increasing(final(self)@),
    {
        proof {
            use_type_invariant(&*self);
        }
        let mut entries: Vec<(K, V)> = Vec::new();
        std::mem::swap(&mut entries, &mut self.entries);
        let r = Self::insert_entry(&mut entries, k, v);
        self.entries = entries;
        r
    }

    /// Stores `v` under `k` in entries whose keys strictly increase.
    fn insert_entry(entries: &mut Vec<(K, V)>, k: K, v: V) -> (r: Option<V>)
        requires
            keys_increasing(old(entries)@),
        ensures
            final(entries)@ == spec_insert(old(entries)@, k, v),
            keys_increasing(final(entries)@),
            r == lookup(old(entries)@, k),
    {
        let ghost s = entries@;
        proof {
            law_insert_keeps_keys_increasing(s, k, v);
        }
        let n = entries.len();
        let mut i: usize = 0;
        while i < n
            invariant
                s == entries@,
                n == s.len(),
                i <= n,
                keys_increasing(s),
                forall|j: int| 0 <= j < i ==> (#[trigger] s[j]).0.key_lt(k),
            ensures
                i < n ==> !s[i as int].0.key_lt(k),
            decreases n - i,
        {
            if entries[i].0.compare_key(&k) == KeyOrder::Less {
                i = i + 1;
            } else {
                break;
            }
        }
        proof {
            lemma_insert_prefix(s, k, v, i as int);
        }
        let ghost t = s.skip(i as int);
        if i == n {
            assert(t.len() == 0);
            entries.push((k, v));
            assert(entries@ =~= s.take(i as int) + spec_insert(t, k, v));
            return None;
        }
        let cur = entries[i].0;
        assert(t[0] == s[i as int]);
        assert(t.drop_first() =~= s.skip(i as int + 1));
        if cur.compare_key(&k) == KeyOrder::Equal {
            let old_v = entries[i].1;
            entries.set(i, (k, v));
            assert(entries@ =~= s.take(i as int) + spec_insert(t, k, v));
            Some(old_v)
        } else {
            proof {
                K::lemma_key_lt_total(cur, k);
                assert forall|j: int| 0 <= j < t.len() implies (#[trigger] t[j]).0 != k by {
                    assert(t[j] == s[i + j]);
                    if j > 0 {
                        assert(s[i as int].0.key_lt(s[i + j].0));
                        K::lemma_key_lt_transitive(k, s[i as int].0, s[i + j].0);
                        lemma_key_lt_asymmetric(k, s[i + j].0);
                    } else {
                        lemma_key_lt_asymmetric(k, s[i as int].0);
                    }
                }
                lemma_lookup_absent(t, k);
            }
            entries.insert(i, (k, v));
            assert(entries@ =~= s.take(i as int) + spec_insert(t, k, v));
            None
        }
    }
}

} // verus!
