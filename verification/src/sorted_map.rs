//! Maps from texts to values that keep their keys in dictionary order.
use vstd::prelude::*;

use crate::text::{
    before,
    lemma_before_irreflexive,
    lemma_before_total,
    lemma_before_transitive,
    text_before,
    text_eq,
    texts,
};

verus! {

/// Texts in strictly increasing dictionary order.
pub open spec fn increasing(keys: Seq<Seq<char>>) -> bool {
    forall|i: int, j: int| 0 <= i < j < keys.len() ==> before(#[trigger] keys[i], #[trigger] keys[j])
}

/// A map from texts to values.
#[derive(Debug)]
pub struct SortedMap<V> {
    entries: Vec<(String, V)>,
}

spec fn keys_of<V>(entries: Seq<(String, V)>) -> Seq<Seq<char>> {
    Seq::new(entries.len(), |i: int| entries[i].0@)
}

spec fn map_of<V>(entries: Seq<(String, V)>) -> Map<Seq<char>, V> {
    Map::new(
        |k: Seq<char>| keys_of(entries).contains(k),
        |k: Seq<char>| entries[choose|i: int| 0 <= i < entries.len() && keys_of(entries)[i] == k].1,
    )
}

proof fn lemma_map_of<V>(entries: Seq<(String, V)>, i: int)
    requires
        increasing(keys_of(entries)),
        0 <= i < entries.len(),
    ensures
        map_of(entries).contains_key(entries[i].0@),
        map_of(entries)[entries[i].0@] == entries[i].1,
{
    let keys = keys_of(entries);
    let k = entries[i].0@;
    assert(keys[i] == k);
    let j = choose|j: int| 0 <= j < entries.len() && keys_of(entries)[j] == k;
    assert(keys[j] == k);
    lemma_before_irreflexive(k);
    if i < j {
        assert(before(keys[i], keys[j]));
    } else if j < i {
        assert(before(keys[j], keys[i]));
    }
}

proof fn lemma_map_insert<V>(entries: Seq<(String, V)>, i: int, key: String, value: V)
    requires
        increasing(keys_of(entries)),
        0 <= i <= entries.len(),
        forall|j: int| 0 <= j < i ==> before(#[trigger] keys_of(entries)[j], key@),
        forall|j: int| i <= j < entries.len() ==> before(key@, #[trigger] keys_of(entries)[j]),
    ensures
        increasing(keys_of(entries.insert(i, (key, value)))),
        map_of(entries.insert(i, (key, value))) == map_of(entries).insert(key@, value),
{
    let e2 = entries.insert(i, (key, value));
    let k1 = keys_of(entries);
    let k2 = keys_of(e2);
    assert(forall|j: int| 0 <= j < i ==> k2[j] == k1[j]);
    assert(k2[i] == key@);
    assert(forall|j: int| i < j < k2.len() ==> k2[j] == k1[j - 1]);
    assert forall|a: int, b: int| 0 <= a < b < k2.len() implies before(
        #[trigger] k2[a],
        #[trigger] k2[b],
    ) by {
        if b < i {
            assert(before(k1[a], k1[b]));
        } else if b == i {
            assert(before(k1[a], key@));
        } else if a == i {
            assert(before(key@, k1[b - 1]));
        } else if a < i {
            assert(before(k1[a], k1[b - 1]));
        } else {
            assert(before(k1[a - 1], k1[b - 1]));
        }
    }
    let m1 = map_of(entries).insert(key@, value);
    let m2 = map_of(e2);
    assert forall|k: Seq<char>| #[trigger] m1.contains_key(k) == m2.contains_key(k) by {
        if m2.contains_key(k) {
            let j = choose|j: int| 0 <= j < k2.len() && k2[j] == k;
            if j < i {
                assert(k1[j] == k);
            } else if j > i {
                assert(k1[j - 1] == k);
            }
        }
        if m1.contains_key(k) {
            if k == key@ {
                assert(k2[i] == k);
            } else {
                let j = choose|j: int| 0 <= j < k1.len() && k1[j] == k;
                if j < i {
                    assert(k2[j] == k);
                } else {
                    assert(k2[j + 1] == k);
                }
            }
        }
    }
    assert forall|k: Seq<char>| m2.contains_key(k) implies #[trigger] m2[k] == m1[k] by {
        let j = choose|j: int| 0 <= j < k2.len() && k2[j] == k;
        lemma_map_of(e2, j);
        if j == i {
        } else {
            lemma_before_irreflexive(key@);
            if j < i {
                assert(before(k1[j], key@));
                lemma_map_of(entries, j);
            } else {
                assert(before(key@, k1[j - 1]));
                lemma_map_of(entries, j - 1);
            }
        }
    }
    assert(m1 =~= m2);
}

proof fn lemma_map_update<V>(entries: Seq<(String, V)>, i: int, key: String, value: V)
    requires
        increasing(keys_of(entries)),
        0 <= i < entries.len(),
        entries[i].0@ == key@,
    ensures
        increasing(keys_of(entries.update(i, (key, value)))),
        map_of(entries.update(i, (key, value))) == map_of(entries).insert(key@, value),
{
    let e2 = entries.update(i, (key, value));
    assert(keys_of(e2) =~= keys_of(entries));
    let m1 = map_of(entries).insert(key@, value);
    let m2 = map_of(e2);
    assert forall|k: Seq<char>| m2.contains_key(k) implies #[trigger] m2[k] == m1[k] by {
        let j = choose|j: int| 0 <= j < e2.len() && keys_of(e2)[j] == k;
        lemma_map_of(e2, j);
        lemma_map_of(entries, j);
        if j != i {
            lemma_before_irreflexive(key@);
            if j < i {
                assert(before(keys_of(entries)[j], keys_of(entries)[i]));
            } else {
                assert(before(keys_of(entries)[i], keys_of(entries)[j]));
            }
        }
    }
    assert(keys_of(entries)[i] == key@);
    assert(m1 =~= m2);
}

proof fn lemma_map_remove<V>(entries: Seq<(String, V)>, i: int)
    requires
        increasing(keys_of(entries)),
        0 <= i < entries.len(),
    ensures
        increasing(keys_of(entries.remove(i))),
        map_of(entries.remove(i)) == map_of(entries).remove(entries[i].0@),
{
    let key = entries[i].0@;
    let e2 = entries.remove(i);
    let k1 = keys_of(entries);
    let k2 = keys_of(e2);
    assert(k1[i] == key);
    assert(forall|j: int| 0 <= j < i ==> k2[j] == k1[j]);
    assert(forall|j: int| i <= j < k2.len() ==> k2[j] == k1[j + 1]);
    assert forall|a: int, b: int| 0 <= a < b < k2.len() implies before(
        #[trigger] k2[a],
        #[trigger] k2[b],
    ) by {
        let x = if a < i {
            a
        } else {
            a + 1
        };
        let y = if b < i {
            b
        } else {
            b + 1
        };
        assert(before(k1[x], k1[y]));
    }
    lemma_before_irreflexive(key);
    let m1 = map_of(entries).remove(key);
    let m2 = map_of(e2);
    assert forall|k: Seq<char>| #[trigger] m1.contains_key(k) == m2.contains_key(k) by {
        if m2.contains_key(k) {
            let j = choose|j: int| 0 <= j < k2.len() && k2[j] == k;
            if j < i {
                assert(k1[j] == k && before(k1[j], k1[i]));
            } else {
                assert(k1[j + 1] == k && before(k1[i], k1[j + 1]));
            }
        }
        if m1.contains_key(k) {
            let j = choose|j: int| 0 <= j < k1.len() && k1[j] == k;
            if j < i {
                assert(k2[j] == k);
            } else {
                assert(k2[j - 1] == k);
            }
        }
    }
    assert forall|k: Seq<char>| m2.contains_key(k) implies #[trigger] m2[k] == m1[k] by {
        let j = choose|j: int| 0 <= j < k2.len() && k2[j] == k;
        lemma_map_of(e2, j);
        if j < i {
            lemma_map_of(entries, j);
        } else {
            lemma_map_of(entries, j + 1);
        }
    }
    assert(m1 =~= m2);
}

impl<V> View for SortedMap<V> {
    type V = Map<Seq<char>, V>;

    closed spec fn view(&self) -> Map<Seq<char>, V> {
        map_of(self.entries@)
    }
}

impl<V> SortedMap<V> {
    #[verifier::type_invariant]
    spec fn sorted(self) -> bool {
        increasing(keys_of(self.entries@))
    }

    /// The keys of the map in dictionary order.
    pub closed spec fn names(self) -> Seq<Seq<char>> {
        keys_of(self.entries@)
    }

    /// A map without entries.
    pub fn new() -> (r: SortedMap<V>)
        ensures
            r@ == Map::<Seq<char>, V>::empty(),
            r.names() == Seq::<Seq<char>>::empty(),
    {
        let entries: Vec<(String, V)> = Vec::new();
        assert(keys_of(entries@) =~= Seq::empty());
        assert(map_of(entries@) =~= Map::empty());
        SortedMap { entries }
    }

    /// The number of entries.
    pub fn len(&self) -> (r: usize)
        ensures
            r == self.names().len(),
    {
        self.entries.len()
    }

    /// Whether the map has no entry.
    pub fn is_empty(&self) -> (r: bool)
        ensures
            r == (self.names().len() == 0),
            r == (self@ == Map::<Seq<char>, V>::empty()),
    {
        let r = self.entries.is_empty();
        proof {
            use_type_invariant(self);
            if r {
                assert(self@ =~= Map::empty());
            } else {
                lemma_map_of(self.entries@, 0);
            }
        }
        r
    }

    /// The position of the first key that does not come before `key`.
    fn position(&self, key: &str) -> (r: usize)
        ensures
            r <= self.entries@.len(),
            forall|j: int| 0 <= j < r ==> before(#[trigger] keys_of(self.entries@)[j], key@),
            forall|j: int|
                r <= j < self.entries@.len() ==> before(key@, #[trigger] keys_of(self.entries@)[j])
                    || (j == r && keys_of(self.entries@)[j] == key@),
    {
        proof {
            use_type_invariant(self);
        }
        let mut i: usize = 0;
        while i < self.entries.len() && text_before(self.entries[i].0.as_str(), key)
            invariant
                i <= self.entries@.len(),
                forall|j: int| 0 <= j < i ==> before(#[trigger] keys_of(self.entries@)[j], key@),
            decreases self.entries.len() - i,
        {
            i = i + 1;
        }
        proof {
            let ks = keys_of(self.entries@);
            assert forall|j: int| i <= j < ks.len() implies before(key@, #[trigger] ks[j]) || (j == i
                && ks[j] == key@) by {
                lemma_before_total(ks[i as int], key@);
                if j > i {
                    assert(before(ks[i as int], ks[j]));
                    if before(key@, ks[i as int]) {
                        lemma_before_transitive(key@, ks[i as int], ks[j]);
                    }
                }
            }
        }
        i
    }

    /// The value of a key.
    pub fn get(&self, key: &str) -> (r: Option<&V>)
        ensures
            match r {
                Some(v) => self@.contains_key(key@) && *v == self@[key@],
                None => !self@.contains_key(key@),
            },
    {
        proof {
            use_type_invariant(self);
        }
        let i: usize = self.position(key);
        proof {
            lemma_before_irreflexive(key@);
        }
        if i < self.entries.len() && text_eq(self.entries[i].0.as_str(), key) {
            proof {
                lemma_map_of(self.entries@, i as int);
            }
            Some(&self.entries[i].1)
        } else {
            proof {
                if self@.contains_key(key@) {
                    let ks = keys_of(self.entries@);
                    let j = choose|j: int| 0 <= j < ks.len() && ks[j] == key@;
                    assert(ks[j] == key@);
                }
            }
            None
        }
    }

    /// Whether the map has a key.
    pub fn contains(&self, key: &str) -> (r: bool)
        ensures
            r == self@.contains_key(key@),
    {
        self.get(key).is_some()
    }

    /// Sets the value of a key.
    pub fn insert(&mut self, key: &str, value: V)
        ensures
            final(self)@ == old(self)@.insert(key@, value),
    {
        proof {
            use_type_invariant(&*self);
            lemma_before_irreflexive(key@);
        }
        let i: usize = self.position(key);
        let k = key.to_owned();
        let mut entries: Vec<(String, V)> = Vec::new();
        std::mem::swap(&mut entries, &mut self.entries);
        if i < entries.len() && text_eq(entries[i].0.as_str(), key) {
            proof {
                lemma_map_update(entries@, i as int, k, value);
            }
            entries[i] = (k, value);
        } else {
            proof {
                assert forall|j: int| i <= j < entries@.len() implies before(
                    key@,
                    #[trigger] keys_of(entries@)[j],
                ) by {}
                lemma_map_insert(entries@, i as int, k, value);
            }
            entries.insert(i, (k, value));
        }
        self.entries = entries;
    }

    /// Takes a key and its value out of the map.
    pub fn take(&mut self, key: &str) -> (r: Option<V>)
        ensures
            match r {
                Some(v) => old(self)@.contains_key(key@) && v == old(self)@[key@],
                None => !old(self)@.contains_key(key@),
            },
            final(self)@ == old(self)@.remove(key@),
    {
        proof {
            use_type_invariant(&*self);
            lemma_before_irreflexive(key@);
        }
        let ghost was = self@;
        let i: usize = self.position(key);
        if i < self.entries.len() && text_eq(self.entries[i].0.as_str(), key) {
            let mut entries: Vec<(String, V)> = Vec::new();
            std::mem::swap(&mut entries, &mut self.entries);
            proof {
                lemma_map_of(entries@, i as int);
                lemma_map_remove(entries@, i as int);
            }
            let (_, v) = entries.remove(i);
            self.entries = entries;
            Some(v)
        } else {
            proof {
                if was.contains_key(key@) {
                    let ks = keys_of(self.entries@);
                    let j = choose|j: int| 0 <= j < ks.len() && ks[j] == key@;
                    assert(ks[j] == key@);
                }
                assert(was.remove(key@) =~= was);
            }
            None
        }
    }

    /// The key at a place in dictionary order.
    pub fn key_at(&self, i: usize) -> (r: &str)
        requires
            i < self.names().len(),
        ensures
            r@ == self.names()[i as int],
            self@.contains_key(r@),
    {
        proof {
            use_type_invariant(self);
            lemma_map_of(self.entries@, i as int);
        }
        self.entries[i].0.as_str()
    }

    /// The value of the key at a place in dictionary order.
    pub fn value_at(&self, i: usize) -> (r: &V)
        requires
            i < self.names().len(),
        ensures
            self@.contains_key(self.names()[i as int]),
            *r == self@[self.names()[i as int]],
    {
        proof {
            use_type_invariant(self);
            lemma_map_of(self.entries@, i as int);
        }
        &self.entries[i].1
    }

    /// The keys in dictionary order: each key of the map, and no other, once.
    pub fn keys(&self) -> (r: Vec<String>)
        ensures
            texts(r@) == self.names(),
            increasing(self.names()),
            forall|k: Seq<char>| self@.contains_key(k) <==> #[trigger] self.names().contains(k),
    {
        proof {
            use_type_invariant(self);
        }
        let mut out: Vec<String> = Vec::new();
        let mut i: usize = 0;
        while i < self.entries.len()
            invariant
                i <= self.entries@.len(),
                out@.len() == i,
                forall|j: int| 0 <= j < i ==> (#[trigger] out@[j])@ == self.entries@[j].0@,
            decreases self.entries.len() - i,
        {
            out.push(self.entries[i].0.clone());
            i = i + 1;
        }
        assert(texts(out@) =~= self.names());
        out
    }
}

/// A sequence of texts in increasing order is determined by what it holds.
pub proof fn lemma_increasing_unique(a: Seq<Seq<char>>, b: Seq<Seq<char>>)
    requires
        increasing(a),
        increasing(b),
        forall|k: Seq<char>| a.contains(k) <==> b.contains(k),
    ensures
        a == b,
    decreases a.len() + b.len(),
{
    if a.len() == 0 {
        if b.len() > 0 {
            assert(b.contains(b[0]));
        }
        assert(a =~= b);
    } else if b.len() == 0 {
        assert(a.contains(a[0]));
    } else {
        let x = a.last();
        let y = b.last();
        assert(a[a.len() - 1] == x);
        assert(b[b.len() - 1] == y);
        assert(a.contains(x));
        assert(b.contains(y));
        let i = choose|i: int| 0 <= i < b.len() && b[i] == x;
        let j = choose|j: int| 0 <= j < a.len() && a[j] == y;
        if x != y {
            assert(before(b[i], b[b.len() - 1]));
            assert(before(a[j], a[a.len() - 1]));
            lemma_before_transitive(x, y, x);
            lemma_before_irreflexive(x);
        }
        let a1 = a.drop_last();
        let b1 = b.drop_last();
        assert forall|k: Seq<char>| a1.contains(k) <==> b1.contains(k) by {
            if a1.contains(k) {
                let p = choose|p: int| 0 <= p < a1.len() && a1[p] == k;
                assert(a[p] == k);
                assert(a.contains(k));
                assert(before(a[p], a[a.len() - 1]));
                lemma_before_irreflexive(x);
                let q = choose|q: int| 0 <= q < b.len() && b[q] == k;
                assert(q < b.len() - 1);
                assert(b1[q] == k);
            }
            if b1.contains(k) {
                let p = choose|p: int| 0 <= p < b1.len() && b1[p] == k;
                assert(b[p] == k);
                assert(b.contains(k));
                assert(before(b[p], b[b.len() - 1]));
                lemma_before_irreflexive(y);
                let q = choose|q: int| 0 <= q < a.len() && a[q] == k;
                assert(q < a.len() - 1);
                assert(a1[q] == k);
            }
        }
        assert(increasing(a1)) by {
            assert forall|p: int, q: int| 0 <= p < q < a1.len() implies before(
                #[trigger] a1[p],
                #[trigger] a1[q],
            ) by {
                assert(before(a[p], a[q]));
            }
        }
        assert(increasing(b1)) by {
            assert forall|p: int, q: int| 0 <= p < q < b1.len() implies before(
                #[trigger] b1[p],
                #[trigger] b1[q],
            ) by {
                assert(before(b[p], b[q]));
            }
        }
        lemma_increasing_unique(a1, b1);
        assert(a =~= a1.push(x));
        assert(b =~= b1.push(y));
    }
}

/// Keys are in order exactly when each comes before all behind it; then none is there
/// twice.
pub proof fn law_keys_in_order(keys: Seq<Seq<char>>)
    requires
        increasing(keys),
    ensures
        forall|i: int, j: int|
            0 <= i < j < keys.len() ==> before(#[trigger] keys[i], #[trigger] keys[j]),
        keys.no_duplicates(),
{
    assert forall|i: int, j: int| 0 <= i < j < keys.len() implies keys[i] != keys[j] by {
        assert(before(keys[i], keys[j]));
        crate::text::lemma_before_irreflexive(keys[i]);
    }
}

} // verus!
