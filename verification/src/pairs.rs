//! Keyed text values: an ordered list of key and value pairs in which no key
//! occurs twice.

use vstd::prelude::*;

verus! {

/// A key and its value, as sequences of characters.
pub type Pair = (Seq<char>, Seq<char>);

/// What a list of string pairs stands for.
pub open spec fn pair_views(entries: Seq<(String, String)>) -> Seq<Pair> {
    Seq::new(entries.len(), |i: int| (entries[i].0@, entries[i].1@))
}

/// Some pair of `s` has the key `key`.
pub open spec fn has_key(s: Seq<Pair>, key: Seq<char>) -> bool {
    exists|i: int| 0 <= i < s.len() && (#[trigger] s[i]).0 == key
}

/// The place of a pair with the key `key`, where there is one.
pub open spec fn index_of_key(s: Seq<Pair>, key: Seq<char>) -> int {
    choose|i: int| 0 <= i < s.len() && (#[trigger] s[i]).0 == key
}

/// No key occurs twice in `s`.
pub open spec fn distinct_keys(s: Seq<Pair>) -> bool {
    forall|i: int, j: int|
        0 <= i < s.len() && 0 <= j < s.len() && (#[trigger] s[i]).0 == (#[trigger] s[j]).0 ==> i
            == j
}

/// `s` after `key` was given the value `value`: the pair with that key holds
/// the new value in its old place, or, where the key is new, a new pair
/// stands at the end.
pub open spec fn with_pair(s: Seq<Pair>, key: Seq<char>, value: Seq<char>) -> Seq<Pair> {
    if has_key(s, key) {
        s.update(index_of_key(s, key), (key, value))
    } else {
        s.push((key, value))
    }
}

/// `s` without the pair that has the key `key`.
pub open spec fn without_key(s: Seq<Pair>, key: Seq<char>) -> Seq<Pair> {
    if has_key(s, key) {
        s.remove(index_of_key(s, key))
    } else {
        s
    }
}

/// Where no key occurs twice, taking out the key of the pair at place `i`
/// takes out that pair.
pub proof fn lemma_without_key_at(s: Seq<Pair>, i: int)
    requires
        distinct_keys(s),
        0 <= i < s.len(),
    ensures
        without_key(s, s[i].0) == s.remove(i),
{
    let k = index_of_key(s, s[i].0);
    assert(s[k].0 == s[i].0);
}

/// Where no key occurs twice, a key that was given a value has that value
/// afterwards, and still no key occurs twice.
pub proof fn lemma_with_pair_holds(s: Seq<Pair>, key: Seq<char>, value: Seq<char>)
    requires
        distinct_keys(s),
    ensures
        has_key(with_pair(s, key, value), key),
        with_pair(s, key, value)[index_of_key(with_pair(s, key, value), key)].1 == value,
        distinct_keys(with_pair(s, key, value)),
{
    let t = with_pair(s, key, value);
    if has_key(s, key) {
        let i = index_of_key(s, key);
        assert(t[i].0 == key);
        assert forall|a: int, b: int|
            0 <= a < t.len() && 0 <= b < t.len() && (#[trigger] t[a]).0 == (#[trigger] t[b]).0
            implies a == b by {
            assert(t[a].0 == s[a].0);
            assert(t[b].0 == s[b].0);
        }
    } else {
        assert(t[s.len() as int].0 == key);
        assert forall|a: int, b: int|
            0 <= a < t.len() && 0 <= b < t.len() && (#[trigger] t[a]).0 == (#[trigger] t[b]).0
            implies a == b by {
            if a < s.len() {
                assert(t[a] == s[a]);
            }
            if b < s.len() {
                assert(t[b] == s[b]);
            }
        }
    }
    let k = index_of_key(t, key);
    assert(t[k].0 == key);
}

/// Where no key occurs twice, a key that was taken out is not there
/// afterwards, and still no key occurs twice.
pub proof fn lemma_without_key_lacks(s: Seq<Pair>, key: Seq<char>)
    requires
        distinct_keys(s),
    ensures
        !has_key(without_key(s, key), key),
        distinct_keys(without_key(s, key)),
{
    let t = without_key(s, key);
    if has_key(s, key) {
        let i = index_of_key(s, key);
        let from = |k: int|
            if k < i {
                k
            } else {
                k + 1
            };
        assert forall|k: int| 0 <= k < t.len() implies (#[trigger] t[k]).0 != key by {
            assert(t[k] == s[from(k)]);
            assert(s[from(k)].0 == s[i].0 ==> from(k) == i);
        }
        assert forall|a: int, b: int|
            0 <= a < t.len() && 0 <= b < t.len() && (#[trigger] t[a]).0 == (#[trigger] t[b]).0
            implies a == b by {
            assert(t[a] == s[from(a)]);
            assert(t[b] == s[from(b)]);
        }
    }
}

/// A copy of a list of string pairs.
pub fn clone_pairs(entries: &Vec<(String, String)>) -> (r: Vec<(String, String)>)
    ensures
        pair_views(r@) == pair_views(entries@),
{
    let mut r: Vec<(String, String)> = Vec::new();
    let mut i: usize = 0;
    while i < entries.len()
        invariant
            i <= entries.len(),
            pair_views(r@) == pair_views(entries@).take(i as int),
        decreases entries.len() - i,
    {
        let ghost before = pair_views(r@);
        r.push((entries[i].0.clone(), entries[i].1.clone()));
        assert(pair_views(r@) =~= before.push(pair_views(entries@)[i as int]));
        i += 1;
        assert(pair_views(r@) =~= pair_views(entries@).take(i as int));
    }
    assert(pair_views(entries@).take(i as int) =~= pair_views(entries@));
    r
}

/// Keys with their values, in the order in which the keys came. No key
/// occurs twice.
pub struct KeyValues {
    entries: Vec<(String, String)>,
}

impl View for KeyValues {
    type V = Seq<Pair>;

    closed spec fn view(&self) -> Seq<Pair> {
        pair_views(self.entries@)
    }
}

impl KeyValues {
    #[verifier::type_invariant]
    spec fn keys_are_distinct(self) -> bool {
        distinct_keys(pair_views(self.entries@))
    }

    /// No pairs.
    pub fn new() -> (r: Self)
        ensures
            r@ == Seq::<Pair>::empty(),
    {
        let r = Self { entries: Vec::new() };
        assert(r@ =~= Seq::<Pair>::empty());
        r
    }

    /// A copy of the pairs.
    pub fn duplicate(&self) -> (r: Self)
        ensures
            r@ == self@,
    {
        proof {
            use_type_invariant(self);
        }
        let entries = clone_pairs(&self.entries);
        Self { entries }
    }

    /// The number of pairs.
    pub fn len(&self) -> (n: usize)
        ensures
            n == self@.len(),
            distinct_keys(self@),
    {
        proof {
            use_type_invariant(self);
        }
        self.entries.len()
    }

    /// The key of the pair at place `i`.
    pub fn key_at(&self, i: usize) -> (key: &String)
        requires
            i < self@.len(),
        ensures
            key@ == self@[i as int].0,
    {
        &self.entries[i].0
    }

    /// The value of the pair at place `i`.
    pub fn value_at(&self, i: usize) -> (value: &String)
        requires
            i < self@.len(),
        ensures
            value@ == self@[i as int].1,
    {
        &self.entries[i].1
    }

    /// The place of the pair with the key `key`, if there is one.
    pub fn position(&self, key: &String) -> (r: Option<usize>)
        ensures
            r is Some <==> has_key(self@, key@),
            r is Some ==> r->0 == index_of_key(self@, key@),
    {
        proof {
            use_type_invariant(self);
        }
        let mut i: usize = 0;
        while i < self.entries.len()
            invariant
                i <= self.entries.len(),
                distinct_keys(self@),
                forall|j: int| 0 <= j < i ==> (#[trigger] self@[j]).0 != key@,
            decreases self.entries.len() - i,
        {
            if self.entries[i].0 == *key {
                proof {
                    let s = self@;
                    assert(s[i as int].0 == key@);
                    let k = index_of_key(s, key@);
                    assert(s[k].0 == s[i as int].0);
                }
                return Some(i);
            }
            i += 1;
        }
        None
    }

    /// The value of `key`, if it has one.
    pub fn get(&self, key: &String) -> (r: Option<&String>)
        ensures
            r is Some <==> has_key(self@, key@),
            r is Some ==> r->0@ == self@[index_of_key(self@, key@)].1,
    {
        match self.position(key) {
            Some(i) => Some(&self.entries[i].1),
            None => None,
        }
    }

    /// Gives `key` the value `value`. A key that is already there keeps its
    /// place; a new key goes to the end.
    pub fn insert(&mut self, key: String, value: String)
        ensures
            final(self)@ == with_pair(old(self)@, key@, value@),
            distinct_keys(final(self)@),
    {
        proof {
            use_type_invariant(&*self);
        }
        let ghost before = self@;
        let found = self.position(&key);
        let mut entries: Vec<(String, String)> = Vec::new();
        core::mem::swap(&mut self.entries, &mut entries);
        match found {
            Some(i) => {
                entries.set(i, (key, value));
                assert(pair_views(entries@) =~= before.update(i as int, (key@, value@)));
            },
            None => {
                entries.push((key, value));
                assert(pair_views(entries@) =~= before.push((key@, value@)));
            },
        }
        self.entries = entries;
    }

    /// Takes out the pair with the key `key`, if there is one. The other
    /// pairs keep their order.
    pub fn remove(&mut self, key: &String)
        ensures
            final(self)@ == without_key(old(self)@, key@),
            distinct_keys(final(self)@),
    {
        proof {
            use_type_invariant(&*self);
        }
        let ghost before = self@;
        let found = self.position(key);
        let mut entries: Vec<(String, String)> = Vec::new();
        core::mem::swap(&mut self.entries, &mut entries);
        match found {
            Some(i) => {
                entries.remove(i);
                assert(pair_views(entries@) =~= before.remove(i as int));
            },
            None => {},
        }
        self.entries = entries;
    }
}

} // verus!
