//! A map from strings to values that keeps its entries in the order of insertion.

use vstd::prelude::*;

verus! {

/// The keys of a sequence of entries, in order.
pub open spec fn keys_of<T>(m: Seq<(Seq<char>, T)>) -> Seq<Seq<char>> {
    Seq::new(m.len(), |i: int| m[i].0)
}

/// No key occurs in two entries.
pub open spec fn unique_keys<T>(m: Seq<(Seq<char>, T)>) -> bool {
    keys_of(m).no_duplicates()
}

/// Some entry has the key `k`.
pub open spec fn has_key<T>(m: Seq<(Seq<char>, T)>, k: Seq<char>) -> bool {
    keys_of(m).contains(k)
}

/// The place of the entry with key `k`.
pub open spec fn key_place<T>(m: Seq<(Seq<char>, T)>, k: Seq<char>) -> int {
    keys_of(m).index_of(k)
}

/// The value stored under `k`, if any.
pub open spec fn lookup<T>(m: Seq<(Seq<char>, T)>, k: Seq<char>) -> Option<T> {
    if has_key(m, k) {
        Some(m[key_place(m, k)].1)
    } else {
        None
    }
}

/// `m` with `v` stored under `k`: in place where `k` is present, else as the newest entry.
pub open spec fn put<T>(m: Seq<(Seq<char>, T)>, k: Seq<char>, v: T) -> Seq<(Seq<char>, T)> {
    if has_key(m, k) {
        m.update(key_place(m, k), (k, v))
    } else {
        m.push((k, v))
    }
}

/// `m` without the entry under `k`; the other entries keep their order.
pub open spec fn delete<T>(m: Seq<(Seq<char>, T)>, k: Seq<char>) -> Seq<(Seq<char>, T)> {
    if has_key(m, k) {
        m.remove(key_place(m, k))
    } else {
        m
    }
}

/// How many of `len` entries a listing passes over before the first one that it returns.
pub open spec fn skipped(from_index: i32, len: int) -> int {
    if from_index >= len {
        len
    } else {
        from_index as int
    }
}

/// How many of the `left` entries that remain a listing returns.
pub open spec fn taken(limit: i32, left: int) -> int {
    if limit >= left {
        left
    } else {
        limit as int
    }
}

/// One page of `m`: newest entry first, after `from_index` entries, at most
/// `limit` of them. A negative `from_index` or `limit` stands for a count
/// beyond any collection's size, and the page is empty.
pub open spec fn page<T>(m: Seq<T>, from_index: i32, limit: i32) -> Seq<T> {
    if from_index < 0 || limit < 0 {
        Seq::empty()
    } else {
        let start = skipped(from_index, m.len() as int);
        let count = taken(limit, m.len() - start);
        Seq::new(count as nat, |i: int| m[m.len() - 1 - start - i])
    }
}

/// The entries that a listing hands out, by their views.
pub open spec fn listed<V: View>(r: Seq<(&String, &V)>) -> Seq<(Seq<char>, V::V)> {
    Seq::new(r.len(), |i: int| (r[i].0@, r[i].1@))
}

/// With unique keys, the entry at place `i` is the one that its key finds.
pub proof fn lemma_key_place<T>(m: Seq<(Seq<char>, T)>, i: int)
    requires
        unique_keys(m),
        0 <= i < m.len(),
    ensures
        has_key(m, m[i].0),
        key_place(m, m[i].0) == i,
        lookup(m, m[i].0) == Some(m[i].1),
{
    let ks = keys_of(m);
    assert(ks[i] == m[i].0);
    let j = ks.index_of(m[i].0);
    assert(0 <= j < ks.len() && ks[j] == ks[i]);
}

/// A key that is present stands at a place within the map.
pub proof fn lemma_place_of_key<T>(m: Seq<(Seq<char>, T)>, k: Seq<char>)
    requires
        has_key(m, k),
    ensures
        0 <= key_place(m, k) < m.len(),
        m[key_place(m, k)].0 == k,
{
    let ks = keys_of(m);
    let j = ks.index_of(k);
    assert(0 <= j < ks.len() && ks[j] == k);
}

/// What `put` does to the keys and to each lookup.
pub proof fn lemma_put<T>(m: Seq<(Seq<char>, T)>, k: Seq<char>, v: T)
    requires
        unique_keys(m),
    ensures
        unique_keys(put(m, k, v)),
        forall|x: Seq<char>| #[trigger] has_key(put(m, k, v), x) <==> (x == k || has_key(m, x)),
        forall|x: Seq<char>| #[trigger]
            lookup(put(m, k, v), x) == (if x == k {
                Some(v)
            } else {
                lookup(m, x)
            }),
{
    let n = put(m, k, v);
    let ks = keys_of(m);
    if has_key(m, k) {
        lemma_place_of_key(m, k);
        let p = key_place(m, k);
        assert(keys_of(n) =~= ks);
        assert forall|x: Seq<char>| #[trigger]
            lookup(n, x) == (if x == k {
                Some(v)
            } else {
                lookup(m, x)
            }) by {
            if has_key(m, x) {
                lemma_place_of_key(m, x);
            }
        }
    } else {
        assert(keys_of(n) =~= ks.push(k));
        assert forall|x: Seq<char>| #[trigger] has_key(n, x) <==> (x == k || has_key(m, x)) by {
            if has_key(n, x) {
                let i = choose|i: int| 0 <= i < keys_of(n).len() && keys_of(n)[i] == x;
                if i < ks.len() {
                    assert(ks[i] == x);
                }
            }
            if x == k {
                assert(keys_of(n)[ks.len() as int] == k);
            }
            if has_key(m, x) {
                let i = choose|i: int| 0 <= i < ks.len() && ks[i] == x;
                assert(keys_of(n)[i] == x);
            }
        }
        assert forall|x: Seq<char>| #[trigger]
            lookup(n, x) == (if x == k {
                Some(v)
            } else {
                lookup(m, x)
            }) by {
            if has_key(n, x) {
                lemma_place_of_key(n, x);
                let j = key_place(n, x);
                if j < m.len() {
                    assert(m[j].0 == x);
                    lemma_key_place(m, j);
                }
            }
        }
    }
}

/// What `delete` does to the keys and to each lookup.
pub proof fn lemma_delete<T>(m: Seq<(Seq<char>, T)>, k: Seq<char>)
    requires
        unique_keys(m),
    ensures
        unique_keys(delete(m, k)),
        forall|x: Seq<char>| #[trigger] has_key(delete(m, k), x) <==> (x != k && has_key(m, x)),
        forall|x: Seq<char>| #[trigger]
            lookup(delete(m, k), x) == (if x == k {
                None
            } else {
                lookup(m, x)
            }),
{
    let n = delete(m, k);
    let ks = keys_of(m);
    if has_key(m, k) {
        lemma_place_of_key(m, k);
        let p = key_place(m, k);
        assert(keys_of(n) =~= ks.remove(p));
        assert forall|x: Seq<char>| #[trigger] has_key(n, x) <==> (x != k && has_key(m, x)) by {
            if has_key(n, x) {
                let i = choose|i: int| 0 <= i < keys_of(n).len() && keys_of(n)[i] == x;
                if i < p {
                    assert(ks[i] == x);
                } else {
                    assert(ks[i + 1] == x);
                }
            }
            if x != k && has_key(m, x) {
                let i = choose|i: int| 0 <= i < ks.len() && ks[i] == x;
                if i < p {
                    assert(keys_of(n)[i] == x);
                } else {
                    assert(keys_of(n)[i - 1] == x);
                }
            }
        }
        assert forall|x: Seq<char>| #[trigger]
            lookup(n, x) == (if x == k {
                None
            } else {
                lookup(m, x)
            }) by {
            if has_key(n, x) {
                lemma_place_of_key(n, x);
                let j = key_place(n, x);
                if j < p {
                    assert(m[j].0 == x);
                    lemma_key_place(m, j);
                } else {
                    assert(m[j + 1].0 == x);
                    lemma_key_place(m, j + 1);
                }
            }
        }
    }
}

/// Every value of `m` satisfies `f`.
pub open spec fn all_values<T>(m: Seq<(Seq<char>, T)>, f: spec_fn(T) -> bool) -> bool {
    forall|i: int| 0 <= i < m.len() ==> f(#[trigger] m[i].1)
}

/// `put` keeps a property of all values that the new value has too.
pub proof fn lemma_put_all<T>(m: Seq<(Seq<char>, T)>, k: Seq<char>, v: T, f: spec_fn(T) -> bool)
    requires
        all_values(m, f),
        f(v),
    ensures
        all_values(put(m, k, v), f),
{
    let n = put(m, k, v);
    if has_key(m, k) {
        lemma_place_of_key(m, k);
    }
    assert forall|i: int| 0 <= i < n.len() implies f(#[trigger] n[i].1) by {
        if has_key(m, k) {
            if i != key_place(m, k) {
                assert(n[i] == m[i]);
            }
        } else {
            if i < m.len() {
                assert(n[i] == m[i]);
            }
        }
    }
}

/// `delete` keeps a property of all values.
pub proof fn lemma_delete_all<T>(m: Seq<(Seq<char>, T)>, k: Seq<char>, f: spec_fn(T) -> bool)
    requires
        all_values(m, f),
    ensures
        all_values(delete(m, k), f),
{
    let n = delete(m, k);
    if has_key(m, k) {
        lemma_place_of_key(m, k);
        let p = key_place(m, k);
        assert forall|i: int| 0 <= i < n.len() implies f(#[trigger] n[i].1) by {
            if i < p {
                assert(n[i] == m[i]);
            } else {
                assert(n[i] == m[i + 1]);
            }
        }
    }
}

/// A map from strings to values. Its view lists the entries, oldest first.
#[derive(Debug)]
pub struct OrderedMap<V> {
    keys: Vec<String>,
    values: Vec<V>,
}

impl<V: View> View for OrderedMap<V> {
    type V = Seq<(Seq<char>, V::V)>;

    closed spec fn view(&self) -> Seq<(Seq<char>, V::V)> {
        Seq::new(self.keys@.len(), |i: int| (self.keys@[i]@, self.values@[i]@))
    }
}

impl<V: View> OrderedMap<V> {
    /// Every key has its value, and no key occurs twice.
    pub closed spec fn wf(&self) -> bool {
        self.keys@.len() == self.values@.len() && unique_keys(self@)
    }

    /// A well-formed map has no key twice.
    pub proof fn lemma_wf(&self)
        requires
            self.wf(),
        ensures
            unique_keys(self@),
    {
    }

    /// The empty map.
    pub fn new() -> (r: OrderedMap<V>)
        ensures
            r.wf(),
            r@ == Seq::<(Seq<char>, V::V)>::empty(),
    {
        let r = OrderedMap { keys: Vec::new(), values: Vec::new() };
        assert(r@ =~= Seq::<(Seq<char>, V::V)>::empty());
        assert(keys_of(r@) =~= Seq::<Seq<char>>::empty());
        r
    }

    /// The number of entries.
    pub fn len(&self) -> (n: usize)
        ensures
            n == self@.len(),
    {
        self.keys.len()
    }

    /// The key of the entry at place `i`, counted from the oldest.
    pub fn key_at(&self, i: usize) -> (r: &String)
        requires
            self.wf(),
            i < self@.len(),
        ensures
            r@ == self@[i as int].0,
    {
        &self.keys[i]
    }

    /// The value of the entry at place `i`, counted from the oldest.
    pub fn value_at(&self, i: usize) -> (r: &V)
        requires
            self.wf(),
            i < self@.len(),
        ensures
            r@ == self@[i as int].1,
    {
        &self.values[i]
    }

    /// The place of the entry under `key`, if there is one.
    pub fn position(&self, key: &String) -> (r: Option<usize>)
        requires
            self.wf(),
        ensures
            match r {
                Some(i) => i < self@.len() && self@[i as int].0 == key@ && has_key(self@, key@)
                    && key_place(self@, key@) == i,
                None => !has_key(self@, key@),
            },
    {
        let mut i: usize = 0;
        while i < self.keys.len()
            invariant
                i <= self.keys.len(),
                self.wf(),
                forall|j: int| 0 <= j < i ==> keys_of(self@)[j] != key@,
            decreases self.keys.len() - i,
        {
            if self.keys[i] == *key {
                proof {
                    lemma_key_place(self@, i as int);
                }
                return Some(i);
            }
            i += 1;
        }
        None
    }

    /// Whether an entry stands under `key`.
    pub fn contains_key(&self, key: &String) -> (r: bool)
        requires
            self.wf(),
        ensures
            r == has_key(self@, key@),
    {
        self.position(key).is_some()
    }

    /// The value under `key`, if there is one.
    pub fn get(&self, key: &String) -> (r: Option<&V>)
        requires
            self.wf(),
        ensures
            match r {
                Some(v) => lookup(self@, key@) == Some(v@),
                None => lookup(self@, key@).is_none(),
            },
    {
        match self.position(key) {
            Some(i) => Some(&self.values[i]),
            None => None,
        }
    }

    /// Stores `value` under `key`: in place where the key is present, else as the newest entry.
    pub fn insert(&mut self, key: String, value: V)
        requires
            old(self).wf(),
        ensures
            final(self).wf(),
            final(self)@ == put(old(self)@, key@, value@),
    {
        proof {
            lemma_put(self@, key@, value@);
        }
        match self.position(&key) {
            Some(i) => {
                self.values.remove(i);
                self.values.insert(i, value);
                assert(self@ =~= old(self)@.update(i as int, (key@, value@)));
            },
            None => {
                self.keys.push(key);
                self.values.push(value);
                assert(self@ =~= old(self)@.push((key@, value@)));
            },
        }
    }

    /// Removes the entry under `key` and hands out its value, if there was one.
    pub fn remove(&mut self, key: &String) -> (r: Option<V>)
        requires
            old(self).wf(),
        ensures
            final(self).wf(),
            final(self)@ == delete(old(self)@, key@),
            match r {
                Some(v) => lookup(old(self)@, key@) == Some(v@),
                None => !has_key(old(self)@, key@),
            },
    {
        proof {
            lemma_delete(self@, key@);
        }
        match self.position(key) {
            Some(i) => {
                self.keys.remove(i);
                let v = self.values.remove(i);
                assert(self@ =~= old(self)@.remove(i as int));
                Some(v)
            },
            None => None,
        }
    }

    /// Takes the entry at place `i` out of the map.
    pub fn remove_at(&mut self, i: usize) -> (r: (String, V))
        requires
            old(self).wf(),
            i < old(self)@.len(),
        ensures
            final(self).wf(),
            final(self)@ == old(self)@.remove(i as int),
            final(self)@ == delete(old(self)@, r.0@),
            !has_key(final(self)@, r.0@),
            r.0@ == old(self)@[i as int].0,
            r.1@ == old(self)@[i as int].1,
    {
        proof {
            lemma_key_place(self@, i as int);
            lemma_delete(self@, self@[i as int].0);
        }
        let k = self.keys.remove(i);
        let v = self.values.remove(i);
        assert(self@ =~= old(self)@.remove(i as int));
        (k, v)
    }

    /// Puts an entry with a new key at place `i`.
    pub fn insert_at(&mut self, i: usize, key: String, value: V)
        requires
            old(self).wf(),
            i <= old(self)@.len(),
            !has_key(old(self)@, key@),
        ensures
            final(self).wf(),
            final(self)@ == old(self)@.insert(i as int, (key@, value@)),
    {
        self.keys.insert(i, key);
        self.values.insert(i, value);
        assert(self@ =~= old(self)@.insert(i as int, (key@, value@)));
        proof {
            let ks = keys_of(old(self)@);
            let ns = keys_of(self@);
            assert(ns =~= ks.insert(i as int, key@));
            assert forall|a: int, b: int| 0 <= a < ns.len() && 0 <= b < ns.len() && a != b implies ns[a]
                != ns[b] by {
                let a0 = if a < i { a } else { a - 1 };
                let b0 = if b < i { b } else { b - 1 };
                if a != i && b != i {
                    assert(ks[a0] == ns[a] && ks[b0] == ns[b]);
                } else if a == i {
                    assert(ks[b0] == ns[b]);
                } else {
                    assert(ks[a0] == ns[a]);
                }
            }
        }
    }

    /// One page of the entries: newest first, after `from_index` of them, at most `limit`.
    pub fn list<'a>(&'a self, from_index: i32, limit: i32) -> (r: Vec<(&'a String, &'a V)>)
        requires
            self.wf(),
        ensures
            listed(r@) == page(self@, from_index, limit),
    {
        let mut r: Vec<(&'a String, &'a V)> = Vec::new();
        if from_index < 0 || limit < 0 {
            assert(listed(r@) =~= page(self@, from_index, limit));
            return r;
        }
        let n: usize = self.keys.len();
        let start: usize = if from_index as usize >= n {
            n
        } else {
            from_index as usize
        };
        let left: usize = n - start;
        let count: usize = if limit as usize >= left {
            left
        } else {
            limit as usize
        };
        let mut i: usize = 0;
        while i < count
            invariant
                self.wf(),
                n == self.keys.len(),
                start + count <= n,
                i <= count,
                r.len() == i,
                forall|j: int| 0 <= j < i ==> #[trigger] listed(r@)[j] == self@[n - 1 - start - j],
            decreases count - i,
        {
            let at: usize = n - 1 - start - i;
            let ghost before = r@;
            r.push((&self.keys[at], &self.values[at]));
            assert forall|j: int| 0 <= j < i + 1 implies #[trigger] listed(r@)[j] == self@[n - 1 - start - j] by {
                if j < i {
                    assert(r@[j] == before[j]);
                    assert(listed(before)[j] == self@[n - 1 - start - j]);
                } else {
                    assert(r@[j] == (&self.keys[at as int], &self.values[at as int]));
                }
            }
            i += 1;
        }
        assert(listed(r@) =~= page(self@, from_index, limit));
        r
    }
}

} // verus!
