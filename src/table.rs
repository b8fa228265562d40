//! A small map from string keys to values that keeps insertion order.
use vstd::prelude::*;

verus! {

/// Whether no two items share a key.
pub open spec fn keys_distinct<V>(s: Seq<(String, V)>) -> bool {
    forall|i: int, j: int|
        0 <= i < s.len() && 0 <= j < s.len() && i != j ==> (#[trigger] s[i]).0@ != (
        #[trigger] s[j]).0@
}

/// Whether some item has key `k`.
pub open spec fn holds_key<V>(s: Seq<(String, V)>, k: Seq<char>) -> bool {
    exists|i: int| 0 <= i < s.len() && (#[trigger] s[i]).0@ == k
}

/// The position of the item with key `k` (meaningful when `holds_key`).
pub open spec fn find<V>(s: Seq<(String, V)>, k: Seq<char>) -> int {
    choose|i: int| 0 <= i < s.len() && (#[trigger] s[i]).0@ == k
}

/// The map that the items stand for.
pub open spec fn as_map<V>(s: Seq<(String, V)>) -> Map<Seq<char>, V> {
    Map::new(|k: Seq<char>| holds_key(s, k), |k: Seq<char>| s[find(s, k)].1)
}

/// With distinct keys, the item with key `k` is the one `find` names.
pub proof fn lemma_find_unique<V>(s: Seq<(String, V)>, k: Seq<char>, i: int)
    requires
        keys_distinct(s),
        0 <= i < s.len(),
        s[i].0@ == k,
    ensures
        holds_key(s, k),
        find(s, k) == i,
{
    assert(holds_key(s, k));
    let c = find(s, k);
    if c != i {
        assert(s[c].0@ != s[i].0@);
    }
}

/// Map of string keys to values, in insertion order.
pub struct Table<V> {
    items: Vec<(String, V)>,
}

impl<V> View for Table<V> {
    type V = Map<Seq<char>, V>;

    closed spec fn view(&self) -> Map<Seq<char>, V> {
        as_map(self.items@)
    }
}

impl<V> Table<V> {
    /// The items, oldest key first.
    pub closed spec fn items(&self) -> Seq<(String, V)> {
        self.items@
    }

    /// No key twice.
    pub closed spec fn well_formed(&self) -> bool {
        keys_distinct(self.items@)
    }

    /// The items stand for the map.
    pub proof fn lemma_view(&self)
        requires
            self.well_formed(),
        ensures
            self@ == as_map(self.items()),
            keys_distinct(self.items()),
            self@.dom().finite(),
            self@.len() == self.items().len(),
            forall|i: int|
                0 <= i < self.items().len() ==> self@.contains_key((#[trigger] self.items()[i]).0@)
                    && self@[self.items()[i].0@] == self.items()[i].1,
    {
        let s = self.items@;
        assert forall|i: int| 0 <= i < s.len() implies self@.contains_key((#[trigger] s[i]).0@)
            && self@[s[i].0@] == s[i].1 by {
            lemma_find_unique(s, s[i].0@, i);
        }
        lemma_map_len(s);
    }

    /// An empty table.
    pub fn new() -> (r: Self)
        ensures
            r.well_formed(),
            r@ == Map::<Seq<char>, V>::empty(),
            r.items().len() == 0,
    {
        let r = Table { items: Vec::new() };
        proof {
            assert(r@ =~= Map::<Seq<char>, V>::empty());
        }
        r
    }

    /// Number of keys.
    pub fn len(&self) -> (r: usize)
        ensures
            r == self.items().len(),
    {
        self.items.len()
    }

    /// Key of the `i`-th item.
    pub fn key_at(&self, i: usize) -> (r: &String)
        requires
            i < self.items().len(),
        ensures
            *r == self.items()[i as int].0,
    {
        &self.items[i].0
    }

    /// Value of the `i`-th item.
    pub fn value_at(&self, i: usize) -> (r: &V)
        requires
            i < self.items().len(),
        ensures
            *r == self.items()[i as int].1,
    {
        &self.items[i].1
    }

    fn position(&self, key: &str) -> (r: Option<usize>)
        requires
            self.well_formed(),
        ensures
            match r {
                Some(i) => i < self.items@.len() && self.items@[i as int].0@ == key@ && i == find(
                    self.items@,
                    key@,
                ),
                None => !holds_key(self.items@, key@),
            },
    {
        let k = String::from_str(key);
        let mut i: usize = 0;
        while i < self.items.len()
            invariant
                i <= self.items@.len(),
                self.well_formed(),
                k@ == key@,
                forall|j: int| 0 <= j < i ==> (#[trigger] self.items@[j]).0@ != key@,
            decreases self.items@.len() - i,
        {
            if self.items[i].0 == k {
                proof {
                    lemma_find_unique(self.items@, key@, i as int);
                }
                return Some(i);
            }
            i = i + 1;
        }
        None
    }

    /// Whether `key` is present.
    pub fn contains_key(&self, key: &str) -> (r: bool)
        requires
            self.well_formed(),
        ensures
            r == self@.contains_key(key@),
    {
        self.position(key).is_some()
    }

    /// The value under `key`.
    pub fn get(&self, key: &str) -> (r: Option<&V>)
        requires
            self.well_formed(),
        ensures
            r is Some <==> self@.contains_key(key@),
            r is Some ==> *r.unwrap() == self@[key@],
    {
        match self.position(key) {
            Some(i) => Some(&self.items[i].1),
            None => None,
        }
    }

    /// Puts `v` under `key`, replacing the value there and keeping its place,
    /// or adding the key last.
    pub fn insert(&mut self, key: String, v: V)
        requires
            old(self).well_formed(),
        ensures
            final(self).well_formed(),
            final(self)@ == old(self)@.insert(key@, v),
            holds_key(old(self).items(), key@) ==> final(self).items() == old(self).items().update(
                find(old(self).items(), key@),
                (key, v),
            ),
            !holds_key(old(self).items(), key@) ==> final(self).items() == old(self).items().push(
                (key, v),
            ),
    {
        let ghost k = key@;
        let ghost s = self.items@;
        let pos = self.position(key.as_str());
        match pos {
            Some(i) => {
                self.items.set(i, (key, v));
            },
            None => {
                self.items.push((key, v));
            },
        }
        proof {
            let t = self.items@;
            let i = match pos {
                Some(i) => i as int,
                None => s.len() as int,
            };
            assert(t[i].0@ == k);
            assert forall|a: int, b: int|
                0 <= a < t.len() && 0 <= b < t.len() && a != b implies (#[trigger] t[a]).0@ != (
                #[trigger] t[b]).0@ by {
                if a != i {
                    assert(t[a] == s[a]);
                }
                if b != i {
                    assert(t[b] == s[b]);
                }
            }
            assert forall|q: Seq<char>| #[trigger] holds_key(t, q) <==> (holds_key(s, q) || q == k) by {
                if holds_key(t, q) {
                    let j = find(t, q);
                    if j != i {
                        assert(t[j] == s[j]);
                    }
                }
                if holds_key(s, q) {
                    let j = find(s, q);
                    if j != i {
                        assert(t[j] == s[j]);
                    } else {
                        assert(t[i].0@ == k);
                    }
                }
            }
            assert forall|q: Seq<char>| holds_key(t, q) implies #[trigger] as_map(t)[q] == as_map(s).insert(
                k,
                v,
            )[q] by {
                let j = find(t, q);
                if q == k {
                    lemma_find_unique(t, k, i);
                } else {
                    assert(t[j] == s[j]);
                    lemma_find_unique(s, q, j);
                }
            }
            assert(as_map(t) =~= as_map(s).insert(k, v));
        }
    }

    /// Removes `key` and returns its value; the other items keep their order.
    pub fn remove(&mut self, key: &str) -> (r: Option<V>)
        requires
            old(self).well_formed(),
        ensures
            final(self).well_formed(),
            final(self)@ == old(self)@.remove(key@),
            r is Some <==> old(self)@.contains_key(key@),
            r is Some ==> r.unwrap() == old(self)@[key@],
            holds_key(old(self).items(), key@) ==> final(self).items() == old(self).items().remove(
                find(old(self).items(), key@),
            ),
            !holds_key(old(self).items(), key@) ==> final(self).items() == old(self).items(),
    {
        let ghost s = self.items@;
        match self.position(key) {
            Some(i) => {
                let (_k, v) = self.items.remove(i);
                proof {
                    let t = self.items@;
                    let k = key@;
                    assert forall|a: int, b: int|
                        0 <= a < t.len() && 0 <= b < t.len() && a != b implies (#[trigger] t[a]).0@
                        != (#[trigger] t[b]).0@ by {
                        let oa = if a < i {
                            a
                        } else {
                            a + 1
                        };
                        let ob = if b < i {
                            b
                        } else {
                            b + 1
                        };
                        assert(t[a] == s[oa] && t[b] == s[ob]);
                    }
                    assert forall|q: Seq<char>| #[trigger] holds_key(t, q) <==> (holds_key(s, q) && q != k) by {
                        if holds_key(t, q) {
                            let j = find(t, q);
                            let o = if j < i {
                                j
                            } else {
                                j + 1
                            };
                            assert(t[j] == s[o]);
                            if q == k {
                                assert(s[o].0@ != s[i as int].0@);
                            }
                        }
                        if holds_key(s, q) && q != k {
                            let j = find(s, q);
                            if j < i {
                                assert(t[j] == s[j]);
                            } else {
                                assert(j != i);
                                assert(t[j - 1] == s[j]);
                            }
                        }
                    }
                    assert forall|q: Seq<char>| holds_key(t, q) implies #[trigger] as_map(t)[q] == as_map(
                        s,
                    )[q] by {
                        let j = find(t, q);
                        let o = if j < i {
                            j
                        } else {
                            j + 1
                        };
                        assert(t[j] == s[o]);
                        lemma_find_unique(s, q, o);
                    }
                    assert(as_map(t) =~= as_map(s).remove(k));
                }
                Some(v)
            },
            None => {
                proof {
                    assert(as_map(s) =~= as_map(s).remove(key@));
                }
                None
            },
        }
    }
}

/// A table with distinct keys has as many keys as items.
pub proof fn lemma_map_len<V>(s: Seq<(String, V)>)
    requires
        keys_distinct(s),
    ensures
        as_map(s).dom().finite(),
        as_map(s).len() == s.len(),
    decreases s.len(),
{
    let m = as_map(s);
    if s.len() == 0 {
        assert(m.dom() =~= Set::<Seq<char>>::empty());
    } else {
        let d = s.drop_last();
        assert(keys_distinct(d)) by {
            assert forall|i: int, j: int|
                0 <= i < d.len() && 0 <= j < d.len() && i != j implies (#[trigger] d[i]).0@ != (
                #[trigger] d[j]).0@ by {
                assert(d[i] == s[i] && d[j] == s[j]);
            }
        }
        lemma_map_len(d);
        let k = s.last().0@;
        assert(s[s.len() - 1] == s.last());
        assert(!holds_key(d, k)) by {
            if holds_key(d, k) {
                let j = find(d, k);
                assert(d[j] == s[j]);
                assert(s[j].0@ != s[s.len() - 1].0@);
            }
        }
        assert forall|q: Seq<char>| #[trigger] holds_key(s, q) <==> (holds_key(d, q) || q == k) by {
            if holds_key(s, q) {
                let j = find(s, q);
                if j < s.len() - 1 {
                    assert(d[j] == s[j]);
                }
            }
            if holds_key(d, q) {
                let j = find(d, q);
                assert(d[j] == s[j]);
            }
        }
        assert(m.dom() =~= as_map(d).dom().insert(k));
    }
}

} // verus!
