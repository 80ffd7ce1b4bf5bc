//! A map from string keys to values, kept as a vector of key/value pairs
//! whose keys are pairwise distinct. Its view is the mathematical map from
//! the key's characters to the stored value; every module's state container
//! is one of these.

use vstd::prelude::*;

verus! {

/// The key at index `i` of a pair sequence, as its character sequence.
spec fn key_at<V>(s: Seq<(String, V)>, i: int) -> Seq<char> {
    s[i].0@
}

/// Some index of `s` holds the key `k`.
spec fn has_key<V>(s: Seq<(String, V)>, k: Seq<char>) -> bool {
    exists|i: int| 0 <= i < s.len() && #[trigger] key_at(s, i) == k
}

/// The index of `s` that holds the key `k`; meaningful only when the keys
/// of `s` are distinct and `k` is among them.
spec fn key_index<V>(s: Seq<(String, V)>, k: Seq<char>) -> int {
    choose|i: int| 0 <= i < s.len() && #[trigger] key_at(s, i) == k
}

/// The keys of `s` are pairwise distinct.
spec fn keys_distinct<V>(s: Seq<(String, V)>) -> bool {
    forall|i: int, j: int|
        0 <= i < s.len() && 0 <= j < s.len() && i != j ==> #[trigger] key_at(s, i)
            != #[trigger] key_at(s, j)
}

/// The map that a pair sequence denotes.
spec fn pairs_map<V>(s: Seq<(String, V)>) -> Map<Seq<char>, V> {
    Map::new(|k: Seq<char>| has_key(s, k), |k: Seq<char>| s[key_index(s, k)].1)
}

/// When the keys of `s` are distinct, the index holding `k` is unique.
proof fn lemma_key_index_is<V>(s: Seq<(String, V)>, k: Seq<char>, i: int)
    requires
        keys_distinct(s),
        0 <= i < s.len(),
        key_at(s, i) == k,
    ensures
        has_key(s, k),
        key_index(s, k) == i,
{
    assert(has_key(s, k));
    let j = key_index(s, k);
    if j != i {
        assert(key_at(s, i) != key_at(s, j));
        assert(false);
    }
}

/// Appending a pair with a fresh key denotes inserting it into the map.
proof fn lemma_push_pair<V>(s: Seq<(String, V)>, p: (String, V))
    requires
        keys_distinct(s),
        !has_key(s, p.0@),
    ensures
        keys_distinct(s.push(p)),
        pairs_map(s.push(p)) == pairs_map(s).insert(p.0@, p.1),
{
    let s2 = s.push(p);
    let n = s.len() as int;
    assert forall|i: int, j: int|
        0 <= i < s2.len() && 0 <= j < s2.len() && i != j implies #[trigger] key_at(s2, i)
        != #[trigger] key_at(s2, j) by {
        if i < n && j < n {
            assert(key_at(s2, i) == key_at(s, i));
            assert(key_at(s2, j) == key_at(s, j));
        } else if i == n {
            assert(key_at(s2, j) == key_at(s, j));
            if key_at(s, j) == p.0@ {
                assert(has_key(s, p.0@));
            }
        } else {
            assert(key_at(s2, i) == key_at(s, i));
            if key_at(s, i) == p.0@ {
                assert(has_key(s, p.0@));
            }
        }
    }
    assert forall|k: Seq<char>| #[trigger] has_key(s2, k) <==> (has_key(s, k) || k == p.0@) by {
        if has_key(s2, k) {
            let i = choose|i: int| 0 <= i < s2.len() && #[trigger] key_at(s2, i) == k;
            if i < n {
                assert(key_at(s, i) == k);
                assert(has_key(s, k));
            } else {
                assert(key_at(s2, n) == p.0@);
            }
        }
        if has_key(s, k) {
            let i = choose|i: int| 0 <= i < s.len() && #[trigger] key_at(s, i) == k;
            assert(key_at(s2, i) == k);
            assert(has_key(s2, k));
        }
        if k == p.0@ {
            assert(key_at(s2, n) == k);
            assert(has_key(s2, k));
        }
    }
    assert forall|k: Seq<char>| has_key(s2, k) implies #[trigger] pairs_map(s2)[k] == pairs_map(
        s,
    ).insert(p.0@, p.1)[k] by {
        if k == p.0@ {
            assert(key_at(s2, n) == k);
            lemma_key_index_is(s2, k, n);
            assert(pairs_map(s2)[k] == p.1);
        } else {
            let i = choose|i: int| 0 <= i < s.len() && #[trigger] key_at(s, i) == k;
            lemma_key_index_is(s, k, i);
            assert(key_at(s2, i) == k);
            lemma_key_index_is(s2, k, i);
            assert(s2[i] == s[i]);
            assert(pairs_map(s2)[k] == s[i].1);
            assert(pairs_map(s)[k] == s[i].1);
        }
    }
    assert(pairs_map(s2) =~= pairs_map(s).insert(p.0@, p.1));
}

/// Removing the pair at `idx` denotes removing its key from the map.
proof fn lemma_remove_pair<V>(s: Seq<(String, V)>, idx: int)
    requires
        keys_distinct(s),
        0 <= idx < s.len(),
    ensures
        keys_distinct(s.remove(idx)),
        pairs_map(s.remove(idx)) == pairs_map(s).remove(key_at(s, idx)),
{
    let s2 = s.remove(idx);
    let n = s.len() as int;
    let k0 = key_at(s, idx);
    assert(s2.len() == n - 1);
    assert forall|i: int| 0 <= i < s2.len() implies #[trigger] s2[i] == (if i < idx {
        s[i]
    } else {
        s[i + 1]
    }) by {}
    assert forall|i: int, j: int|
        0 <= i < s2.len() && 0 <= j < s2.len() && i != j implies #[trigger] key_at(s2, i)
        != #[trigger] key_at(s2, j) by {
        let oi: int = if i < idx { i } else { i + 1 };
        let oj: int = if j < idx { j } else { j + 1 };
        assert(key_at(s2, i) == key_at(s, oi));
        assert(key_at(s2, j) == key_at(s, oj));
    }
    assert forall|k: Seq<char>| #[trigger] has_key(s2, k) <==> (has_key(s, k) && k != k0) by {
        if has_key(s2, k) {
            let i = choose|i: int| 0 <= i < s2.len() && #[trigger] key_at(s2, i) == k;
            let oi: int = if i < idx { i } else { i + 1 };
            assert(key_at(s, oi) == k);
            assert(has_key(s, k));
            if k == k0 {
                assert(key_at(s, oi) == key_at(s, idx));
                assert(oi != idx);
                assert(false);
            }
        }
        if has_key(s, k) && k != k0 {
            let i = choose|i: int| 0 <= i < s.len() && #[trigger] key_at(s, i) == k;
            assert(i != idx);
            let i2: int = if i < idx { i } else { i - 1 };
            assert(key_at(s2, i2) == key_at(s, i));
            assert(has_key(s2, k));
        }
    }
    assert forall|k: Seq<char>| has_key(s2, k) implies #[trigger] pairs_map(s2)[k] == pairs_map(
        s,
    ).remove(k0)[k] by {
        let i = choose|i: int| 0 <= i < s2.len() && #[trigger] key_at(s2, i) == k;
        lemma_key_index_is(s2, k, i);
        let oi: int = if i < idx { i } else { i + 1 };
        assert(key_at(s, oi) == k);
        lemma_key_index_is(s, k, oi);
        assert(s2[i] == s[oi]);
        assert(pairs_map(s2)[k] == s[oi].1);
        assert(pairs_map(s)[k] == s[oi].1);
    }
    assert(pairs_map(s2) =~= pairs_map(s).remove(k0));
}

/// A lookup table from string keys to values of type `V`.
#[derive(Debug)]
pub struct Table<V> {
    pairs: Vec<(String, V)>,
}

impl<V> View for Table<V> {
    type V = Map<Seq<char>, V>;

    closed spec fn view(&self) -> Map<Seq<char>, V> {
        pairs_map(self.pairs@)
    }
}

impl<V> Table<V> {
    /// Well-formed: no key occurs twice.
    pub closed spec fn wf(&self) -> bool {
        keys_distinct(self.pairs@)
    }

    /// The empty table.
    pub fn new() -> (r: Self)
        ensures
            r.wf(),
            r@ == Map::<Seq<char>, V>::empty(),
    {
        let r = Table { pairs: Vec::new() };
        proof {
            assert(r@ =~= Map::<Seq<char>, V>::empty());
        }
        r
    }

    /// Whether no key is stored.
    pub fn is_empty(&self) -> (r: bool)
        requires
            self.wf(),
        ensures
            r == (self@ == Map::<Seq<char>, V>::empty()),
    {
        let r = self.pairs.is_empty();
        proof {
            if self.pairs@.len() == 0 {
                assert(self@ =~= Map::<Seq<char>, V>::empty());
            } else {
                let k0 = key_at(self.pairs@, 0);
                assert(has_key(self.pairs@, k0));
                assert(self@.dom().contains(k0));
                assert(!Map::<Seq<char>, V>::empty().dom().contains(k0));
            }
        }
        r
    }

    /// The value stored under `key`, if any.
    pub fn get(&self, key: &String) -> (r: Option<&V>)
        requires
            self.wf(),
        ensures
            match r {
                Some(v) => self@.dom().contains(key@) && *v == self@[key@],
                None => !self@.dom().contains(key@),
            },
    {
        let n = self.pairs.len();
        let mut i: usize = 0;
        while i < n
            invariant
                self.wf(),
                n == self.pairs@.len(),
                i <= n,
                forall|j: int| 0 <= j < i ==> #[trigger] key_at(self.pairs@, j) != key@,
            decreases n - i,
        {
            if self.pairs[i].0 == *key {
                proof {
                    lemma_key_index_is(self.pairs@, key@, i as int);
                }
                return Some(&self.pairs[i].1);
            }
            i = i + 1;
        }
        proof {
            assert(!has_key(self.pairs@, key@));
        }
        None
    }

    /// Whether a value is stored under `key`.
    pub fn contains_key(&self, key: &String) -> (r: bool)
        requires
            self.wf(),
        ensures
            r == self@.dom().contains(key@),
    {
        match self.get(key) {
            Some(_) => true,
            None => false,
        }
    }

    /// Removes the entry stored under `key`, if any.
    pub fn remove(&mut self, key: &String)
        requires
            old(self).wf(),
        ensures
            final(self).wf(),
            final(self)@ == old(self)@.remove(key@),
    {
        let n = self.pairs.len();
        let mut i: usize = 0;
        while i < n
            invariant
                self == old(self),
                self.wf(),
                n == self.pairs@.len(),
                i <= n,
                forall|j: int| 0 <= j < i ==> #[trigger] key_at(self.pairs@, j) != key@,
            decreases n - i,
        {
            if self.pairs[i].0 == *key {
                proof {
                    lemma_key_index_is(self.pairs@, key@, i as int);
                    lemma_remove_pair(self.pairs@, i as int);
                }
                let _ = self.pairs.remove(i);
                return ;
            }
            i = i + 1;
        }
        proof {
            assert(!has_key(self.pairs@, key@));
            assert(!self@.dom().contains(key@));
            assert(self@.remove(key@) =~= self@);
        }
    }

    /// Stores `value` under `key`, replacing any entry already there.
    pub fn insert(&mut self, key: String, value: V)
        requires
            old(self).wf(),
        ensures
            final(self).wf(),
            final(self)@ == old(self)@.insert(key@, value),
    {
        self.remove(&key);
        proof {
            assert(!self@.dom().contains(key@));
            assert(!has_key(self.pairs@, key@));
            lemma_push_pair(self.pairs@, (key, value));
            assert(old(self)@.remove(key@).insert(key@, value) =~= old(self)@.insert(
                key@,
                value,
            ));
        }
        self.pairs.push((key, value));
    }
}

} // verus!
