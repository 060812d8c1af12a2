//! A map from string keys to values, kept as a vector of entries in strictly
//! ascending key order. Everything outside this module sees it as a
//! mathematical map and as the one ordered list of keys that map has.

use crate::text::{
    key_lt, key_order, lemma_key_lt_asymmetric, lemma_key_lt_irreflexive,
    lemma_key_lt_total, lemma_key_lt_transitive, KeyOrder,
};
use vstd::prelude::*;

verus! {

/// `keys` ascends strictly in the order of `key_lt`.
pub open spec fn strictly_sorted(keys: Seq<Seq<char>>) -> bool {
    forall|i: int, j: int| 0 <= i < j < keys.len() ==> key_lt(#[trigger] keys[i], #[trigger] keys[j])
}

/// The contents of a vector of strings, each by its characters.
pub open spec fn strings_view(v: Seq<String>) -> Seq<Seq<char>> {
    Seq::new(v.len(), |i: int| v[i]@)
}

/// `keys` lists every element of `dom` exactly once, in ascending order.
pub open spec fn is_key_listing(keys: Seq<Seq<char>>, dom: Set<Seq<char>>) -> bool {
    &&& strictly_sorted(keys)
    &&& forall|i: int| 0 <= i < keys.len() ==> dom.contains(#[trigger] keys[i])
    &&& forall|k: Seq<char>| dom.contains(k) ==> exists|i: int| 0 <= i < keys.len() && keys[i] == k
}

/// A strictly sorted sequence holds no key twice.
pub proof fn lemma_sorted_distinct(keys: Seq<Seq<char>>, i: int, j: int)
    requires
        strictly_sorted(keys),
        0 <= i < keys.len(),
        0 <= j < keys.len(),
    ensures
        keys[i] == keys[j] ==> i == j,
{
    lemma_key_lt_irreflexive(keys[i]);
    if i < j {
        assert(key_lt(keys[i], keys[j]));
    } else if j < i {
        assert(key_lt(keys[j], keys[i]));
    }
}

/// A set of keys has at most one listing: two strictly sorted sequences over
/// the same set are the same sequence.
pub proof fn lemma_key_listing_unique(a: Seq<Seq<char>>, b: Seq<Seq<char>>, dom: Set<Seq<char>>)
    requires
        is_key_listing(a, dom),
        is_key_listing(b, dom),
    ensures
        a == b,
    decreases a.len(),
{
    if a.len() == 0 {
        if b.len() > 0 {
            assert(dom.contains(b[0]));
        }
        assert(a =~= b);
    } else if b.len() == 0 {
        assert(dom.contains(a[0]));
    } else {
        let la = a.last();
        let lb = b.last();
        assert(dom.contains(la));
        assert(dom.contains(lb));
        let ib = choose|i: int| 0 <= i < b.len() && b[i] == la;
        let ia = choose|i: int| 0 <= i < a.len() && a[i] == lb;
        lemma_key_lt_total(la, lb);
        lemma_key_lt_asymmetric(la, lb);
        lemma_key_lt_irreflexive(la);
        lemma_key_lt_irreflexive(lb);
        if la != lb {
            if key_lt(la, lb) {
                // lb lies in a, at or before its last element
                if ia < a.len() - 1 {
                    lemma_key_lt_transitive(a[ia], la, lb);
                }
            } else {
                if ib < b.len() - 1 {
                    lemma_key_lt_transitive(b[ib], lb, la);
                }
            }
            assert(false);
        }
        let a1 = a.drop_last();
        let b1 = b.drop_last();
        let d1 = dom.remove(la);
        lemma_key_listing_drop_last(a, dom);
        lemma_key_listing_drop_last(b, dom);
        lemma_key_listing_unique(a1, b1, d1);
        assert(a =~= a1.push(la));
        assert(b =~= b1.push(lb));
    }
}

/// A listing without its last key lists the set without that key.
pub proof fn lemma_key_listing_drop_last(keys: Seq<Seq<char>>, dom: Set<Seq<char>>)
    requires
        is_key_listing(keys, dom),
        keys.len() > 0,
    ensures
        is_key_listing(keys.drop_last(), dom.remove(keys.last())),
{
    let k1 = keys.drop_last();
    let d1 = dom.remove(keys.last());
    lemma_key_lt_irreflexive(keys.last());
    assert forall|i: int| 0 <= i < k1.len() implies d1.contains(#[trigger] k1[i]) by {
        assert(k1[i] == keys[i]);
        assert(key_lt(keys[i], keys[keys.len() - 1]));
    }
    assert forall|k: Seq<char>| d1.contains(k) implies exists|i: int|
        0 <= i < k1.len() && k1[i] == k by {
        let i = choose|i: int| 0 <= i < keys.len() && keys[i] == k;
        assert(k1[i] == k);
    }
    assert forall|i: int, j: int| 0 <= i < j < k1.len() implies key_lt(
        #[trigger] k1[i],
        #[trigger] k1[j],
    ) by {
        assert(k1[i] == keys[i] && k1[j] == keys[j]);
    }
}

/// A set that has a listing is finite and has as many elements as the
/// listing has keys.
pub proof fn lemma_key_listing_len(keys: Seq<Seq<char>>, dom: Set<Seq<char>>)
    requires
        is_key_listing(keys, dom),
    ensures
        dom.finite(),
        dom.len() == keys.len(),
    decreases keys.len(),
{
    if keys.len() == 0 {
        assert(dom =~= Set::<Seq<char>>::empty());
    } else {
        let last = keys.last();
        lemma_key_listing_drop_last(keys, dom);
        lemma_key_listing_len(keys.drop_last(), dom.remove(last));
        assert(dom.contains(keys[keys.len() - 1]));
        assert(dom =~= dom.remove(last).insert(last));
    }
}

/// A key put into a sorted sequence at its place leaves the sequence
/// sorted.
pub proof fn lemma_insert_keeps_sorted(keys: Seq<Seq<char>>, key: Seq<char>, at: int)
    requires
        strictly_sorted(keys),
        0 <= at <= keys.len(),
        forall|j: int| 0 <= j < at ==> key_lt(#[trigger] keys[j], key),
        at < keys.len() ==> key_lt(key, keys[at]),
    ensures
        strictly_sorted(keys.insert(at, key)),
{
    let after = keys.insert(at, key);
    assert forall|a: int, b: int| 0 <= a < b < after.len() implies key_lt(
        #[trigger] after[a],
        #[trigger] after[b],
    ) by {
        if b < at {
            assert(after[a] == keys[a] && after[b] == keys[b]);
        } else if b == at {
            assert(after[a] == keys[a]);
        } else if a < at {
            assert(after[a] == keys[a] && after[b] == keys[b - 1]);
        } else if a == at {
            assert(after[b] == keys[b - 1]);
            if b - 1 > at {
                assert(key_lt(keys[at], keys[b - 1]));
                lemma_key_lt_transitive(key, keys[at], keys[b - 1]);
            }
        } else {
            assert(after[a] == keys[a - 1] && after[b] == keys[b - 1]);
        }
    }
}

/// The index of the first of `keys` from `from` on that does not precede
/// `key`, or the length of `keys` where all precede it.
pub open spec fn lower_bound(keys: Seq<Seq<char>>, key: Seq<char>, from: int) -> int
    decreases keys.len() - from,
{
    if from < 0 || from >= keys.len() {
        keys.len() as int
    } else if key_lt(keys[from], key) {
        lower_bound(keys, key, from + 1)
    } else {
        from
    }
}

/// Every key before the lower bound precedes `key`, and the key at the
/// bound does not.
pub proof fn lemma_lower_bound(keys: Seq<Seq<char>>, key: Seq<char>, from: int)
    requires
        0 <= from <= keys.len(),
    ensures
        from <= lower_bound(keys, key, from) <= keys.len(),
        forall|j: int| from <= j < lower_bound(keys, key, from) ==> key_lt(#[trigger] keys[j], key),
        lower_bound(keys, key, from) < keys.len() ==> !key_lt(
            keys[lower_bound(keys, key, from)],
            key,
        ),
    decreases keys.len() - from,
{
    if from < keys.len() && key_lt(keys[from], key) {
        lemma_lower_bound(keys, key, from + 1);
    }
}

/// The keys of a sequence of entries, in the order of the entries.
spec fn entry_keys<V>(s: Seq<(String, V)>) -> Seq<Seq<char>> {
    Seq::new(s.len(), |i: int| s[i].0@)
}

/// The map a sequence of entries stands for; a later entry wins.
spec fn entry_map<V>(s: Seq<(String, V)>) -> Map<Seq<char>, V>
    decreases s.len(),
{
    if s.len() == 0 {
        Map::empty()
    } else {
        entry_map(s.drop_last()).insert(s.last().0@, s.last().1)
    }
}

proof fn lemma_entry_map_finite<V>(s: Seq<(String, V)>)
    ensures
        entry_map(s).dom().finite(),
    decreases s.len(),
{
    if s.len() > 0 {
        lemma_entry_map_finite(s.drop_last());
    }
}

proof fn lemma_entry_map<V>(s: Seq<(String, V)>)
    requires
        strictly_sorted(entry_keys(s)),
    ensures
        entry_map(s).dom().finite(),
        entry_map(s).dom().len() == s.len(),
        is_key_listing(entry_keys(s), entry_map(s).dom()),
        forall|i: int| 0 <= i < s.len() ==> entry_map(s)[#[trigger] s[i].0@] == s[i].1,
    decreases s.len(),
{
    let keys = entry_keys(s);
    if s.len() > 0 {
        let s1 = s.drop_last();
        let keys1 = entry_keys(s1);
        assert forall|i: int, j: int| 0 <= i < j < keys1.len() implies key_lt(
            #[trigger] keys1[i],
            #[trigger] keys1[j],
        ) by {
            assert(keys1[i] == keys[i] && keys1[j] == keys[j]);
        }
        lemma_entry_map(s1);
        let m1 = entry_map(s1);
        let k = s.last().0@;
        assert(k == keys[s.len() - 1]);
        if m1.dom().contains(k) {
            let i = choose|i: int| 0 <= i < keys1.len() && keys1[i] == k;
            assert(keys1[i] == keys[i]);
            lemma_key_lt_irreflexive(k);
        }
        assert forall|i: int| 0 <= i < keys.len() implies entry_map(s).dom().contains(
            #[trigger] keys[i],
        ) by {
            if i < s.len() - 1 {
                assert(keys1[i] == keys[i]);
            }
        }
        assert forall|q: Seq<char>| entry_map(s).dom().contains(q) implies exists|i: int|
            0 <= i < keys.len() && keys[i] == q by {
            if q == k {
                assert(keys[s.len() - 1] == q);
            } else {
                let i = choose|i: int| 0 <= i < keys1.len() && keys1[i] == q;
                assert(keys[i] == q);
            }
        }
        assert forall|i: int| 0 <= i < s.len() implies entry_map(s)[#[trigger] s[i].0@]
            == s[i].1 by {
            if i < s.len() - 1 {
                assert(keys1[i] == keys[i]);
                assert(keys[i] == s[i].0@);
                assert(s1[i] == s[i]);
                lemma_sorted_distinct(keys, i, s.len() - 1);
            }
        }
    }
}

/// A map keyed by strings. Its entries are held in ascending key order, so
/// the keys come out sorted and no key occurs twice.
#[derive(Debug, PartialEq, Eq)]
pub struct StringMap<V> {
    entries: Vec<(String, V)>,
}

impl<V> View for StringMap<V> {
    type V = Map<Seq<char>, V>;

    closed spec fn view(&self) -> Map<Seq<char>, V> {
        entry_map(self.entries@)
    }
}

impl<V> StringMap<V> {
    #[verifier::type_invariant]
    spec fn sorted(&self) -> bool {
        strictly_sorted(entry_keys(self.entries@))
    }

    /// A map holds finitely many keys.
    pub proof fn lemma_view_finite(&self)
        ensures
            self@.dom().finite(),
    {
        lemma_entry_map_finite(self.entries@);
    }

    /// The empty map.
    pub fn new() -> (r: Self)
        ensures
            r@ == Map::<Seq<char>, V>::empty(),
    {
        let r = StringMap { entries: Vec::new() };
        assert(r.entries@.len() == 0);
        r
    }

    /// The number of keys.
    pub fn len(&self) -> (n: usize)
        ensures
            self@.dom().finite(),
            n == self@.dom().len(),
    {
        proof {
            use_type_invariant(self);
            lemma_entry_map(self.entries@);
        }
        self.entries.len()
    }

    /// Whether the map holds no key.
    pub fn is_empty(&self) -> (r: bool)
        ensures
            r == (self@.dom() == Set::<Seq<char>>::empty()),
    {
        proof {
            use_type_invariant(self);
            lemma_entry_map(self.entries@);
            if self.entries@.len() == 0 {
                assert(self@.dom() =~= Set::<Seq<char>>::empty());
            } else {
                assert(self@.dom().contains(entry_keys(self.entries@)[0]));
            }
        }
        self.entries.len() == 0
    }

    /// The place of `key` among the entries: the index of the first entry
    /// whose key does not precede `key`, and whether that entry has `key`.
    fn position(&self, key: &str) -> (r: (usize, bool))
        ensures
            r.0 <= self.entries@.len(),
            forall|j: int| 0 <= j < r.0 ==> key_lt(#[trigger] self.entries@[j].0@, key@),
            r.1 ==> r.0 < self.entries@.len() && self.entries@[r.0 as int].0@ == key@,
            !r.1 ==> r.0 == self.entries@.len() || key_lt(key@, self.entries@[r.0 as int].0@),
            r.1 == self@.dom().contains(key@),
    {
        proof {
            use_type_invariant(self);
            lemma_entry_map(self.entries@);
        }
        let ghost keys = entry_keys(self.entries@);
        let mut i: usize = 0;
        let mut found = false;
        let mut stop = false;
        while i < self.entries.len() && !stop
            invariant
                i <= self.entries@.len(),
                found ==> stop,
                stop ==> i < self.entries@.len(),
                found ==> self.entries@[i as int].0@ == key@,
                stop && !found ==> key_lt(key@, self.entries@[i as int].0@),
                forall|j: int| 0 <= j < i ==> key_lt(#[trigger] self.entries@[j].0@, key@),
            decreases self.entries@.len() - i + (if stop { 0int } else { 1int }),
        {
            match key_order(self.entries[i].0.as_str(), key) {
                KeyOrder::Before => {
                    i = i + 1;
                },
                KeyOrder::Same => {
                    found = true;
                    stop = true;
                },
                KeyOrder::After => {
                    stop = true;
                },
            }
        }
        proof {
            if found {
                assert(keys[i as int] == key@);
            } else if self@.dom().contains(key@) {
                let j = choose|j: int| 0 <= j < keys.len() && keys[j] == key@;
                assert(self.entries@[j].0@ == key@);
                lemma_key_lt_irreflexive(key@);
                if j >= i {
                    assert(stop);
                    if j > i {
                        assert(key_lt(keys[i as int], keys[j]));
                    }
                    lemma_key_lt_asymmetric(keys[i as int], key@);
                }
            }
        }
        (i, found)
    }

    /// Whether `key` is in the map.
    pub fn contains_key(&self, key: &str) -> (r: bool)
        ensures
            r == self@.contains_key(key@),
    {
        let (_, found) = self.position(key);
        found
    }

    /// The value stored under `key`, if any.
    pub fn get(&self, key: &str) -> (r: Option<&V>)
        ensures
            match r {
                Some(v) => self@.contains_key(key@) && *v == self@[key@],
                None => !self@.contains_key(key@),
            },
    {
        proof {
            use_type_invariant(self);
            lemma_entry_map(self.entries@);
        }
        let (i, found) = self.position(key);
        if found {
            Some(&self.entries[i].1)
        } else {
            None
        }
    }

    /// Stores `value` under `key` and returns what was stored there before.
    pub fn insert(&mut self, key: String, value: V) -> (r: Option<V>)
        ensures
            final(self)@ == old(self)@.insert(key@, value),
            r == (if old(self)@.contains_key(key@) {
                Some(old(self)@[key@])
            } else {
                None
            }),
    {
        proof {
            use_type_invariant(&*self);
            lemma_entry_map(self.entries@);
        }
        let (i, found) = self.position(key.as_str());
        let ghost before = self.entries@;
        let ghost entry = (key, value);
        let mut entries = Vec::new();
        std::mem::swap(&mut entries, &mut self.entries);
        let previous = if found {
            let old_entry = entries.remove(i);
            Some(old_entry.1)
        } else {
            None
        };
        entries.insert(i, (key, value));
        proof {
            let after = entries@;
            let kb = entry_keys(before);
            let ka = entry_keys(after);
            if found {
                assert(after =~= before.update(i as int, entry));
                assert(ka =~= kb);
            } else {
                assert(after =~= before.insert(i as int, entry));
                assert(ka =~= kb.insert(i as int, entry.0@));
                assert forall|j: int| 0 <= j < i implies key_lt(#[trigger] kb[j], entry.0@) by {
                    assert(kb[j] == before[j].0@);
                }
                lemma_insert_keeps_sorted(kb, entry.0@, i as int);
            }
            lemma_entry_map(after);
            let m0 = entry_map(before);
            let m1 = entry_map(after);
            assert forall|k: Seq<char>| m1.dom().contains(k) <==> m0.insert(
                entry.0@,
                entry.1,
            ).dom().contains(k) by {
                if m1.dom().contains(k) {
                    let j = choose|j: int| 0 <= j < ka.len() && ka[j] == k;
                    if j != i {
                        let j0 = if found || j < i {
                            j
                        } else {
                            j - 1
                        };
                        assert(kb[j0] == k);
                    }
                }
                if m0.dom().contains(k) && k != entry.0@ {
                    let j = choose|j: int| 0 <= j < kb.len() && kb[j] == k;
                    let j1 = if found || j < i {
                        j
                    } else {
                        j + 1
                    };
                    assert(ka[j1] == k);
                }
                if k == entry.0@ {
                    assert(ka[i as int] == k);
                }
            }
            assert forall|k: Seq<char>| m1.dom().contains(k) implies m1[k] == m0.insert(
                entry.0@,
                entry.1,
            )[k] by {
                let j = choose|j: int| 0 <= j < ka.len() && ka[j] == k;
                assert(after[j].0@ == k);
                if j == i {
                    assert(after[j] == entry);
                } else {
                    lemma_sorted_distinct(ka, j, i as int);
                    let j0 = if found || j < i {
                        j
                    } else {
                        j - 1
                    };
                    assert(before[j0] == after[j]);
                    assert(before[j0].0@ == k);
                }
            }
            assert(m1 =~= m0.insert(entry.0@, entry.1));
        }
        self.entries = entries;
        previous
    }

    /// Takes `key` out of the map and returns what was stored under it.
    pub fn remove(&mut self, key: &str) -> (r: Option<V>)
        ensures
            final(self)@ == old(self)@.remove(key@),
            r == (if old(self)@.contains_key(key@) {
                Some(old(self)@[key@])
            } else {
                None
            }),
    {
        proof {
            use_type_invariant(&*self);
            lemma_entry_map(self.entries@);
        }
        let (i, found) = self.position(key);
        if !found {
            assert(self@ =~= self@.remove(key@));
            return None;
        }
        let ghost before = self.entries@;
        let mut entries = Vec::new();
        std::mem::swap(&mut entries, &mut self.entries);
        let removed = entries.remove(i);
        proof {
            let after = entries@;
            let kb = entry_keys(before);
            let ka = entry_keys(after);
            assert forall|a: int, b: int| 0 <= a < b < ka.len() implies key_lt(
                #[trigger] ka[a],
                #[trigger] ka[b],
            ) by {
                let a0 = if a < i {
                    a
                } else {
                    a + 1
                };
                let b0 = if b < i {
                    b
                } else {
                    b + 1
                };
                assert(ka[a] == kb[a0] && ka[b] == kb[b0]);
            }
            lemma_entry_map(after);
            let m0 = entry_map(before);
            let m1 = entry_map(after);
            assert(kb[i as int] == key@);
            assert forall|k: Seq<char>| m1.dom().contains(k) <==> m0.remove(key@).dom().contains(
                k,
            ) by {
                if m1.dom().contains(k) {
                    let j = choose|j: int| 0 <= j < ka.len() && ka[j] == k;
                    let j0 = if j < i {
                        j
                    } else {
                        j + 1
                    };
                    assert(kb[j0] == k);
                    lemma_sorted_distinct(kb, j0, i as int);
                }
                if m0.dom().contains(k) && k != key@ {
                    let j = choose|j: int| 0 <= j < kb.len() && kb[j] == k;
                    let j1 = if j < i {
                        j
                    } else {
                        j - 1
                    };
                    assert(ka[j1] == k);
                }
            }
            assert forall|k: Seq<char>| m1.dom().contains(k) implies m1[k] == m0.remove(key@)[k] by {
                let j = choose|j: int| 0 <= j < ka.len() && ka[j] == k;
                assert(after[j].0@ == k);
                let j0 = if j < i {
                    j
                } else {
                    j + 1
                };
                assert(before[j0] == after[j]);
                assert(before[j0].0@ == k);
            }
            assert(m1 =~= m0.remove(key@));
            assert(before[i as int].0@ == key@);
        }
        self.entries = entries;
        Some(removed.1)
    }

    /// The keys of the map in ascending order.
    pub fn keys(&self) -> (r: Vec<String>)
        ensures
            is_key_listing(strings_view(r@), self@.dom()),
    {
        proof {
            use_type_invariant(self);
            lemma_entry_map(self.entries@);
        }
        let mut out: Vec<String> = Vec::new();
        let mut i: usize = 0;
        while i < self.entries.len()
            invariant
                i <= self.entries@.len(),
                out@.len() == i,
                forall|j: int| 0 <= j < i ==> (#[trigger] out@[j])@ == self.entries@[j].0@,
            decreases self.entries@.len() - i,
        {
            out.push(self.entries[i].0.clone());
            i = i + 1;
        }
        proof {
            assert(strings_view(out@) =~= entry_keys(self.entries@));
        }
        out
    }
}

impl StringMap<String> {
    /// A copy of the map with the same keys and values.
    pub fn duplicate(&self) -> (r: Self)
        ensures
            r@ == self@,
    {
        proof {
            use_type_invariant(self);
        }
        let mut entries: Vec<(String, String)> = Vec::new();
        let mut i: usize = 0;
        while i < self.entries.len()
            invariant
                i <= self.entries@.len(),
                entries@.len() == i,
                forall|j: int| 0 <= j < i ==> #[trigger] entries@[j] == self.entries@[j],
            decreases self.entries@.len() - i,
        {
            entries.push((self.entries[i].0.clone(), self.entries[i].1.clone()));
            i = i + 1;
        }
        assert(entries@ =~= self.entries@);
        StringMap { entries }
    }
}

} // verus!
