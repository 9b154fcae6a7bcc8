//! A table of values keyed by strings, kept in insertion order, with at most
//! one entry per key. Its meaning is a finite map from keys to values.
use vstd::prelude::*;

verus! {

/// No key occurs twice among the entries.
pub open spec fn keys_unique<W>(s: Seq<(Seq<char>, W)>) -> bool {
    forall|i: int, j: int| 0 <= i < j < s.len() ==> #[trigger] s[i].0 != #[trigger] s[j].0
}

/// Some entry has the key `k`.
pub open spec fn has_key<W>(s: Seq<(Seq<char>, W)>, k: Seq<char>) -> bool {
    exists|i: int| 0 <= i < s.len() && #[trigger] s[i].0 == k
}

/// The map that the entries stand for.
pub open spec fn map_of<W>(s: Seq<(Seq<char>, W)>) -> Map<Seq<char>, W> {
    Map::new(
        |k: Seq<char>| has_key(s, k),
        |k: Seq<char>| s[choose|i: int| 0 <= i < s.len() && #[trigger] s[i].0 == k].1,
    )
}

pub proof fn lemma_map_of_index<W>(s: Seq<(Seq<char>, W)>, i: int)
    requires
        keys_unique(s),
        0 <= i < s.len(),
    ensures
        map_of(s).contains_key(s[i].0),
        map_of(s)[s[i].0] == s[i].1,
{
    let k = s[i].0;
    assert(has_key(s, k));
    let j = choose|j: int| 0 <= j < s.len() && #[trigger] s[j].0 == k;
    if j < i {
        assert(s[j].0 != s[i].0);
    } else if i < j {
        assert(s[i].0 != s[j].0);
    }
}

pub proof fn lemma_map_of_update<W>(s: Seq<(Seq<char>, W)>, i: int, w: W)
    requires
        keys_unique(s),
        0 <= i < s.len(),
    ensures
        keys_unique(s.update(i, (s[i].0, w))),
        map_of(s.update(i, (s[i].0, w))) == map_of(s).insert(s[i].0, w),
{
    let t = s.update(i, (s[i].0, w));
    assert forall|a: int, b: int| 0 <= a < b < t.len() implies #[trigger] t[a].0
        != #[trigger] t[b].0 by {
        assert(t[a].0 == s[a].0);
        assert(t[b].0 == s[b].0);
    }
    lemma_map_of_index(t, i);
    assert forall|k: Seq<char>|
        #[trigger] map_of(t).contains_key(k) == map_of(s).insert(s[i].0, w).contains_key(k) by {
        if has_key(t, k) {
            let j = choose|j: int| 0 <= j < t.len() && #[trigger] t[j].0 == k;
            assert(s[j].0 == k);
        }
        if has_key(s, k) {
            let j = choose|j: int| 0 <= j < s.len() && #[trigger] s[j].0 == k;
            assert(t[j].0 == k);
        }
    }
    assert forall|k: Seq<char>| #[trigger]
        map_of(t).contains_key(k) && k != s[i].0 implies map_of(t)[k] == map_of(s)[k] by {
        let j = choose|j: int| 0 <= j < t.len() && #[trigger] t[j].0 == k;
        lemma_map_of_index(t, j);
        lemma_map_of_index(s, j);
    }
    assert(map_of(t) =~= map_of(s).insert(s[i].0, w));
}

pub proof fn lemma_map_of_push<W>(s: Seq<(Seq<char>, W)>, k: Seq<char>, w: W)
    requires
        keys_unique(s),
        !has_key(s, k),
    ensures
        keys_unique(s.push((k, w))),
        map_of(s.push((k, w))) == map_of(s).insert(k, w),
{
    let t = s.push((k, w));
    assert forall|a: int, b: int| 0 <= a < b < t.len() implies #[trigger] t[a].0
        != #[trigger] t[b].0 by {
        if b == s.len() {
            assert(s[a].0 == t[a].0);
        } else {
            assert(t[a].0 == s[a].0);
            assert(t[b].0 == s[b].0);
        }
    }
    lemma_map_of_index(t, s.len() as int);
    assert forall|x: Seq<char>|
        #[trigger] map_of(t).contains_key(x) == map_of(s).insert(k, w).contains_key(x) by {
        if has_key(t, x) && x != k {
            let j = choose|j: int| 0 <= j < t.len() && #[trigger] t[j].0 == x;
            assert(s[j].0 == x);
        }
        if has_key(s, x) {
            let j = choose|j: int| 0 <= j < s.len() && #[trigger] s[j].0 == x;
            assert(t[j].0 == x);
        }
    }
    assert forall|x: Seq<char>| #[trigger]
        map_of(t).contains_key(x) && x != k implies map_of(t)[x] == map_of(s)[x] by {
        let j = choose|j: int| 0 <= j < t.len() && #[trigger] t[j].0 == x;
        lemma_map_of_index(t, j);
        lemma_map_of_index(s, j);
    }
    assert(map_of(t) =~= map_of(s).insert(k, w));
}

pub proof fn lemma_map_of_remove<W>(s: Seq<(Seq<char>, W)>, i: int)
    requires
        keys_unique(s),
        0 <= i < s.len(),
    ensures
        keys_unique(s.remove(i)),
        map_of(s.remove(i)) == map_of(s).remove(s[i].0),
{
    let t = s.remove(i);
    assert forall|a: int, b: int| 0 <= a < b < t.len() implies #[trigger] t[a].0
        != #[trigger] t[b].0 by {
        let a1 = if a < i { a } else { a + 1 };
        let b1 = if b < i { b } else { b + 1 };
        assert(t[a] == s[a1]);
        assert(t[b] == s[b1]);
    }
    assert forall|x: Seq<char>|
        #[trigger] map_of(t).contains_key(x) == map_of(s).remove(s[i].0).contains_key(x) by {
        if has_key(t, x) {
            let j = choose|j: int| 0 <= j < t.len() && #[trigger] t[j].0 == x;
            let j1 = if j < i { j } else { j + 1 };
            assert(s[j1].0 == x);
            if x == s[i].0 {
                assert(j1 != i);
            }
        }
        if has_key(s, x) && x != s[i].0 {
            let j = choose|j: int| 0 <= j < s.len() && #[trigger] s[j].0 == x;
            if j < i {
                assert(t[j].0 == x);
            } else {
                assert(t[j - 1].0 == x);
            }
        }
    }
    assert forall|x: Seq<char>| #[trigger] map_of(t).contains_key(x) implies map_of(t)[x] == map_of(
        s,
    )[x] by {
        let j = choose|j: int| 0 <= j < t.len() && #[trigger] t[j].0 == x;
        let j1 = if j < i { j } else { j + 1 };
        assert(t[j] == s[j1]);
        lemma_map_of_index(t, j);
        lemma_map_of_index(s, j1);
    }
    assert(map_of(t) =~= map_of(s).remove(s[i].0));
}

/// Values of type `V` under string keys.
#[derive(Debug)]
pub struct Table<V> {
    entries: Vec<(String, V)>,
}

impl<V: DeepView> Table<V> {
    /// The entries as keys and values.
    pub closed spec fn pairs(&self) -> Seq<(Seq<char>, V::V)> {
        self.entries@.map_values(|e: (String, V)| (e.0@, e.1.deep_view()))
    }

    /// The number of entries.
    pub closed spec fn size(&self) -> nat {
        self.entries@.len()
    }

    /// The key of the entry at `i`.
    pub closed spec fn key_spec(&self, i: int) -> Seq<char> {
        self.entries@[i].0@
    }

    /// The value of the entry at `i`.
    pub closed spec fn value_spec(&self, i: int) -> V {
        self.entries@[i].1
    }

    pub closed spec fn wf(&self) -> bool {
        keys_unique(self.pairs())
    }

    /// Every entry is in the map, and every key of the map has an entry.
    pub proof fn lemma_entries(&self)
        requires
            self.wf(),
        ensures
            forall|i: int|
                0 <= i < self.size() ==> #[trigger] self@.contains_key(self.key_spec(i))
                    && self@[self.key_spec(i)] == self.value_spec(i).deep_view(),
            forall|k: Seq<char>|
                #[trigger] self@.contains_key(k) ==> exists|i: int|
                    0 <= i < self.size() && #[trigger] self.key_spec(i) == k,
            forall|i: int, j: int|
                0 <= i < j < self.size() ==> #[trigger] self.key_spec(i) != #[trigger] self.key_spec(
                    j,
                ),
    {
        assert forall|i: int| 0 <= i < self.size() implies #[trigger] self@.contains_key(
            self.key_spec(i),
        ) && self@[self.key_spec(i)] == self.value_spec(i).deep_view() by {
            assert(self.pairs()[i] == (self.key_spec(i), self.value_spec(i).deep_view()));
            lemma_map_of_index(self.pairs(), i);
        }
        assert forall|k: Seq<char>| #[trigger] self@.contains_key(k) implies exists|i: int|
            0 <= i < self.size() && #[trigger] self.key_spec(i) == k by {
            let i = choose|i: int| 0 <= i < self.pairs().len() && #[trigger] self.pairs()[i].0 == k;
            assert(self.key_spec(i) == k);
        }
        assert forall|i: int, j: int| 0 <= i < j < self.size() implies #[trigger] self.key_spec(i)
            != #[trigger] self.key_spec(j) by {
            assert(self.pairs()[i].0 != self.pairs()[j].0);
        }
    }

    pub fn new() -> (r: Self)
        ensures
            r.wf(),
            r@ == Map::<Seq<char>, V::V>::empty(),
            r.size() == 0,
    {
        let r = Table { entries: Vec::new() };
        assert(r@ =~= Map::<Seq<char>, V::V>::empty());
        r
    }

    pub fn len(&self) -> (r: usize)
        ensures
            r == self.size(),
    {
        self.entries.len()
    }

    pub fn key_at(&self, i: usize) -> (r: &String)
        requires
            i < self.size(),
        ensures
            r@ == self.key_spec(i as int),
    {
        &self.entries[i].0
    }

    pub fn value_at(&self, i: usize) -> (r: &V)
        requires
            i < self.size(),
        ensures
            *r == self.value_spec(i as int),
    {
        &self.entries[i].1
    }

    /// Where the entry for `key` stands, if there is one.
    pub fn position(&self, key: &String) -> (r: Option<usize>)
        requires
            self.wf(),
        ensures
            r is None <==> !self@.contains_key(key@),
            r matches Some(i) ==> i < self.size() && self.key_spec(i as int) == key@
                && self@[key@] == self.value_spec(i as int).deep_view(),
    {
        let mut i: usize = 0;
        while i < self.entries.len()
            invariant
                self.wf(),
                i <= self.entries.len(),
                forall|j: int| 0 <= j < i ==> self.key_spec(j) != key@,
            decreases self.entries.len() - i,
        {
            if self.entries[i].0 == *key {
                proof {
                    self.lemma_entries();
                    assert(self@.contains_key(self.key_spec(i as int)));
                }
                return Some(i);
            }
            i = i + 1;
        }
        proof {
            self.lemma_entries();
        }
        None
    }

    /// The value under `key`, if there is one.
    pub fn get(&self, key: &String) -> (r: Option<&V>)
        requires
            self.wf(),
        ensures
            r is None <==> !self@.contains_key(key@),
            r matches Some(v) ==> self@[key@] == v.deep_view(),
    {
        match self.position(key) {
            Some(i) => Some(&self.entries[i].1),
            None => None,
        }
    }

    /// Takes the entry for `key` out, and returns its value.
    pub fn remove(&mut self, key: &String) -> (r: Option<V>)
        requires
            old(self).wf(),
        ensures
            final(self).wf(),
            final(self)@ == old(self)@.remove(key@),
            r is None <==> !old(self)@.contains_key(key@),
            r matches Some(v) ==> old(self)@[key@] == v.deep_view(),
    {
        match self.position(key) {
            Some(i) => {
                proof {
                    lemma_map_of_remove(self.pairs(), i as int);
                }
                let (_, value) = self.entries.remove(i);
                assert(self.pairs() =~= old(self).pairs().remove(i as int));
                Some(value)
            },
            None => {
                assert(old(self)@.remove(key@) =~= old(self)@);
                None
            },
        }
    }

    /// Puts `value` under `key`, in place of what was there.
    pub fn insert(&mut self, key: String, value: V)
        requires
            old(self).wf(),
        ensures
            final(self).wf(),
            final(self)@ == old(self)@.insert(key@, value.deep_view()),
    {
        let ghost k = key@;
        let ghost w = value.deep_view();
        match self.position(&key) {
            Some(i) => {
                proof {
                    lemma_map_of_update(self.pairs(), i as int, w);
                }
                self.entries.set(i, (key, value));
                assert(self.pairs() =~= old(self).pairs().update(i as int, (k, w)));
            },
            None => {
                proof {
                    if has_key(self.pairs(), k) {
                        let j = choose|j: int|
                            0 <= j < self.pairs().len() && #[trigger] self.pairs()[j].0 == k;
                        lemma_map_of_index(self.pairs(), j);
                    }
                    lemma_map_of_push(self.pairs(), k, w);
                }
                self.entries.push((key, value));
                assert(self.pairs() =~= old(self).pairs().push((k, w)));
            },
        }
    }
}

impl<V: DeepView> View for Table<V> {
    type V = Map<Seq<char>, V::V>;

    /// The map that the table stands for.
    closed spec fn view(&self) -> Map<Seq<char>, V::V> {
        map_of(self.pairs())
    }
}

} // verus!
