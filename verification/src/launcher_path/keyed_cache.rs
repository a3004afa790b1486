//! A cache of values by key: what the launcher keeps of the descriptions it has read
//! or installed, so that each is read from disk once.
use vstd::prelude::*;

use crate::text::str_eq;

verus! {

/// A key of a cache, compared by its view.
pub trait CacheKey: View + Sized {
    /// Whether two keys are the same key.
    fn same_key(&self, other: &Self) -> (r: bool)
        ensures
            r == (self@ == other@),
    ;
}

impl CacheKey for String {
    fn same_key(&self, other: &Self) -> (r: bool) {
        str_eq(self.as_str(), other.as_str())
    }
}

impl CacheKey for u128 {
    fn same_key(&self, other: &Self) -> (r: bool) {
        *self == *other
    }
}

/// The map that a list of entries stands for: a later entry wins over an earlier one.
pub open spec fn map_of<K: View, T>(s: Seq<(K, T)>) -> Map<K::V, T>
    decreases s.len(),
{
    if s.len() == 0 {
        Map::empty()
    } else {
        map_of(s.drop_last()).insert(s.last().0@, s.last().1)
    }
}

/// No two entries have the same key.
pub open spec fn distinct_keys<K: View, T>(s: Seq<(K, T)>) -> bool {
    forall|i: int, j: int| 0 <= i < s.len() && 0 <= j < s.len() && i != j ==> s[i].0@ != s[j].0@
}

/// What a lookup of `k` in `m` gives.
pub open spec fn lookup<KV, T>(m: Map<KV, T>, k: KV) -> Option<T> {
    if m.contains_key(k) {
        Some(m[k])
    } else {
        None
    }
}

/// With distinct keys, the map has one key per entry.
proof fn lemma_map_of_len<K: View, T>(s: Seq<(K, T)>)
    requires
        distinct_keys(s),
    ensures
        map_of(s).dom().finite(),
        map_of(s).dom().len() == s.len(),
    decreases s.len(),
{
    if s.len() > 0 {
        let d = s.drop_last();
        assert(distinct_keys(d));
        lemma_map_of_len(d);
        lemma_map_of_dom(d, s.last().0@);
        assert(!map_of(d).contains_key(s.last().0@));
    }
}

/// The keys of the map are the keys of the entries.
proof fn lemma_map_of_dom<K: View, T>(s: Seq<(K, T)>, k: K::V)
    ensures
        map_of(s).contains_key(k) <==> exists|i: int| 0 <= i < s.len() && s[i].0@ == k,
    decreases s.len(),
{
    if s.len() > 0 {
        lemma_map_of_dom(s.drop_last(), k);
        if map_of(s).contains_key(k) && k != s.last().0@ {
            let i = choose|i: int| 0 <= i < s.drop_last().len() && s.drop_last()[i].0@ == k;
            assert(s[i].0@ == k);
        }
        if exists|i: int| 0 <= i < s.len() && s[i].0@ == k {
            let i = choose|i: int| 0 <= i < s.len() && s[i].0@ == k;
            if i < s.len() - 1 {
                assert(s.drop_last()[i].0@ == k);
            }
        }
    }
}

/// With distinct keys, the map holds each entry's value under its key.
proof fn lemma_map_of_at<K: View, T>(s: Seq<(K, T)>, i: int)
    requires
        distinct_keys(s),
        0 <= i < s.len(),
    ensures
        map_of(s).contains_key(s[i].0@),
        map_of(s)[s[i].0@] == s[i].1,
    decreases s.len(),
{
    if i < s.len() - 1 {
        let d = s.drop_last();
        assert(distinct_keys(d));
        lemma_map_of_at(d, i);
        assert(d[i] == s[i]);
    }
}

/// Replacing the entry of a key changes the map at that key alone.
proof fn lemma_map_of_update<K: View, T>(s: Seq<(K, T)>, i: int, e: (K, T))
    requires
        distinct_keys(s),
        0 <= i < s.len(),
        s[i].0@ == e.0@,
    ensures
        map_of(s.update(i, e)) == map_of(s).insert(e.0@, e.1),
    decreases s.len(),
{
    let u = s.update(i, e);
    if i == s.len() - 1 {
        assert(u.drop_last() =~= s.drop_last());
        assert(map_of(u) =~= map_of(s).insert(e.0@, e.1));
    } else {
        let d = s.drop_last();
        assert(distinct_keys(d));
        lemma_map_of_update(d, i, e);
        assert(u.drop_last() =~= d.update(i, e));
        assert(s.last().0@ != e.0@);
        assert(map_of(u) =~= map_of(s).insert(e.0@, e.1));
    }
}

/// Taking out the entry of a key takes the key out of the map.
proof fn lemma_map_of_remove<K: View, T>(s: Seq<(K, T)>, i: int)
    requires
        distinct_keys(s),
        0 <= i < s.len(),
    ensures
        map_of(s.remove(i)) == map_of(s).remove(s[i].0@),
        distinct_keys(s.remove(i)),
    decreases s.len(),
{
    let r = s.remove(i);
    let k = s[i].0@;
    if i == s.len() - 1 {
        assert(r =~= s.drop_last());
        lemma_map_of_dom(s.drop_last(), k);
        assert(map_of(r) =~= map_of(s).remove(k));
    } else {
        let d = s.drop_last();
        assert(distinct_keys(d));
        lemma_map_of_remove(d, i);
        assert(r.drop_last() =~= d.remove(i));
        assert(r.last() == s.last());
        assert(s.last().0@ != k);
        assert(map_of(r) =~= map_of(s).remove(k));
    }
}

/// Values by key. The entries never repeat a key.
#[derive(Debug)]
pub struct KeyedCache<K, T> {
    entries: Vec<(K, T)>,
}

impl<K: View, T> View for KeyedCache<K, T> {
    type V = Map<K::V, T>;

    closed spec fn view(&self) -> Map<K::V, T> {
        map_of(self.entries@)
    }
}

impl<K: CacheKey, T> KeyedCache<K, T> {
    /// The cache is well formed: no key occurs twice.
    pub closed spec fn wf(&self) -> bool {
        distinct_keys(self.entries@)
    }

    /// The entries of the cache, in the order they are kept.
    pub closed spec fn entry_seq(&self) -> Seq<(K, T)> {
        self.entries@
    }

    /// The cache is the map of its entries, whose keys are distinct.
    pub proof fn lemma_entries(&self)
        requires
            self.wf(),
        ensures
            self@ == map_of(self.entry_seq()),
            distinct_keys(self.entry_seq()),
            forall|i: int|
                #![trigger self.entry_seq()[i]]
                0 <= i < self.entry_seq().len() ==> self@.contains_key(self.entry_seq()[i].0@)
                    && self@[self.entry_seq()[i].0@] == self.entry_seq()[i].1,
            forall|k: K::V|
                #![trigger self@.contains_key(k)]
                self@.contains_key(k) ==> exists|i: int|
                    0 <= i < self.entry_seq().len() && self.entry_seq()[i].0@ == k,
            self@.dom().finite(),
            self@.dom().len() == self.entry_seq().len(),
    {
        assert forall|i: int|
            #![trigger self.entry_seq()[i]]
            0 <= i < self.entry_seq().len() implies self@.contains_key(self.entry_seq()[i].0@)
            && self@[self.entry_seq()[i].0@] == self.entry_seq()[i].1 by {
            lemma_map_of_at(self.entries@, i);
        }
        assert forall|k: K::V| #![trigger self@.contains_key(k)] self@.contains_key(k) implies exists|
            i: int,
        | 0 <= i < self.entry_seq().len() && self.entry_seq()[i].0@ == k by {
            lemma_map_of_dom(self.entries@, k);
            let i = choose|i: int| 0 <= i < self.entries@.len() && self.entries@[i].0@ == k;
            assert(self.entry_seq()[i].0@ == k);
        }
        lemma_map_of_len(self.entries@);
    }

    /// The number of entries.
    pub fn len(&self) -> (r: usize)
        ensures
            r == self.entry_seq().len(),
    {
        self.entries.len()
    }

    /// The key of entry `i`.
    pub fn key_at(&self, i: usize) -> (r: &K)
        requires
            i < self.entry_seq().len(),
        ensures
            *r == self.entry_seq()[i as int].0,
    {
        &self.entries[i].0
    }

    /// The value of entry `i`.
    pub fn value_at(&self, i: usize) -> (r: &T)
        requires
            i < self.entry_seq().len(),
        ensures
            *r == self.entry_seq()[i as int].1,
    {
        &self.entries[i].1
    }

    /// The values of the cache, in the order of its entries.
    pub fn into_values(self) -> (r: Vec<T>)
        ensures
            r@ == self.entry_seq().map_values(|e: (K, T)| e.1),
    {
        let ghost all = self.entries@;
        let mut rest = self.entries;
        let mut out: Vec<T> = Vec::new();
        assert(all.take(0).map_values(|e: (K, T)| e.1) =~= out@);
        while rest.len() > 0
            invariant
                rest@.len() <= all.len(),
                rest@ == all.skip(all.len() - rest@.len()),
                out@ == all.take(all.len() - rest@.len()).map_values(|e: (K, T)| e.1),
            decreases rest@.len(),
        {
            let ghost k = all.len() - rest@.len();
            let (_, v) = rest.remove(0);
            assert(rest@ =~= all.skip(all.len() - rest@.len()));
            out.push(v);
            assert(all.take(k + 1).map_values(|e: (K, T)| e.1) =~= all.take(k).map_values(
                |e: (K, T)| e.1,
            ).push(all[k].1));
        }
        assert(all.take(all.len() as int) =~= all);
        out
    }

    /// Takes out the value kept under `key`, if any.
    pub fn remove(&mut self, key: &K) -> (r: Option<T>)
        requires
            old(self).wf(),
        ensures
            final(self).wf(),
            final(self)@ == old(self)@.remove(key@),
            match r {
                Some(v) => lookup(old(self)@, key@) == Some(v),
                None => lookup(old(self)@, key@) is None,
            },
    {
        proof {
            lemma_map_of_dom(self.entries@, key@);
        }
        match self.index_of(key) {
            Some(i) => {
                proof {
                    lemma_map_of_at(self.entries@, i as int);
                    lemma_map_of_remove(self.entries@, i as int);
                }
                let (_, v) = self.entries.remove(i);
                Some(v)
            },
            None => {
                assert(old(self)@.remove(key@) =~= old(self)@);
                None
            },
        }
    }

    /// An empty cache.
    pub fn new() -> (r: Self)
        ensures
            r.wf(),
            r@ == Map::<K::V, T>::empty(),
    {
        let r = KeyedCache { entries: Vec::new() };
        assert(r@ =~= Map::<K::V, T>::empty());
        r
    }

    /// Where the entry of `key` stands, if there is one.
    fn index_of(&self, key: &K) -> (r: Option<usize>)
        ensures
            match r {
                Some(i) => i < self.entries@.len() && self.entries@[i as int].0@ == key@,
                None => forall|i: int|
                    0 <= i < self.entries@.len() ==> self.entries@[i].0@ != key@,
            },
    {
        let mut i: usize = 0;
        while i < self.entries.len()
            invariant
                i <= self.entries@.len(),
                forall|j: int| 0 <= j < i ==> self.entries@[j].0@ != key@,
            decreases self.entries@.len() - i,
        {
            if self.entries[i].0.same_key(key) {
                return Some(i);
            }
            i = i + 1;
        }
        None
    }

    /// The value kept under `key`, if any.
    pub fn get(&self, key: &K) -> (r: Option<&T>)
        requires
            self.wf(),
        ensures
            match r {
                Some(v) => lookup(self@, key@) == Some(*v),
                None => lookup(self@, key@) is None,
            },
    {
        proof {
            lemma_map_of_dom(self.entries@, key@);
        }
        match self.index_of(key) {
            Some(i) => {
                proof {
                    lemma_map_of_at(self.entries@, i as int);
                }
                Some(&self.entries[i].1)
            },
            None => None,
        }
    }

    /// Whether a value is kept under `key`.
    pub fn contains(&self, key: &K) -> (r: bool)
        ensures
            r == self@.contains_key(key@),
    {
        proof {
            lemma_map_of_dom(self.entries@, key@);
        }
        self.index_of(key).is_some()
    }

    /// Keeps `value` under `key`, in place of what was kept there.
    pub fn insert(&mut self, key: K, value: T)
        requires
            old(self).wf(),
        ensures
            final(self).wf(),
            final(self)@ == old(self)@.insert(key@, value),
    {
        match self.index_of(&key) {
            Some(i) => {
                proof {
                    lemma_map_of_update(self.entries@, i as int, (key, value));
                }
                self.entries.set(i, (key, value));
            },
            None => {
                let ghost before = self.entries@;
                self.entries.push((key, value));
                assert(self.entries@.drop_last() =~= before);
            },
        }
    }
}

/// Reading back a key just written gives what was written; every other key gives
/// what it gave before.
pub proof fn law_insert_then_lookup<KV, T>(m: Map<KV, T>, k: KV, v: T, other: KV)
    ensures
        lookup(m.insert(k, v), k) == Some(v),
        other != k ==> lookup(m.insert(k, v), other) == lookup(m, other),
{
}

} // verus!
