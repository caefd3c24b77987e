//! A small text-to-text map that keeps its entries in the order in which
//! their keys first arrived.
//!
//! Headers, query parameters and the per-request data bag are all maps of this
//! kind. A key occurs at most once; writing to a key that is present replaces
//! its value where it stands.

use vstd::prelude::*;
use crate::text::str_eq;

verus! {

/// One entry, as texts.
pub type Pair = (Seq<char>, Seq<char>);

/// The entries of a list of owned pairs, as texts.
pub open spec fn pair_texts(entries: Seq<(String, String)>) -> Seq<Pair> {
    Seq::new(entries.len(), |i: int| (entries[i].0@, entries[i].1@))
}

/// The map that a list of entries denotes; a later entry wins over an
/// earlier one with the same key.
pub open spec fn map_of(p: Seq<Pair>) -> Map<Seq<char>, Seq<char>>
    decreases p.len(),
{
    if p.len() == 0 {
        Map::empty()
    } else {
        map_of(p.drop_last()).insert(p.last().0, p.last().1)
    }
}

/// No key occurs twice.
pub open spec fn distinct_keys(p: Seq<Pair>) -> bool {
    forall|i: int, j: int| 0 <= i < j < p.len() ==> (#[trigger] p[i]).0 != (#[trigger] p[j]).0
}

/// Whether some entry has the key `k`.
pub open spec fn has_key(p: Seq<Pair>, k: Seq<char>) -> bool {
    exists|i: int| 0 <= i < p.len() && (#[trigger] p[i]).0 == k
}

/// The map holds exactly the keys of the entries.
pub proof fn lemma_map_of_keys(p: Seq<Pair>, k: Seq<char>)
    ensures
        map_of(p).contains_key(k) <==> has_key(p, k),
    decreases p.len(),
{
    if p.len() > 0 {
        let q = p.drop_last();
        lemma_map_of_keys(q, k);
        if has_key(p, k) {
            let i = choose|i: int| 0 <= i < p.len() && (#[trigger] p[i]).0 == k;
            if i < q.len() {
                assert(q[i].0 == k);
            }
        }
        if has_key(q, k) {
            let i = choose|i: int| 0 <= i < q.len() && (#[trigger] q[i]).0 == k;
            assert(p[i].0 == k);
        }
        if p.last().0 == k {
            assert(p[p.len() - 1].0 == k);
        }
    }
}

/// With distinct keys, each entry is what the map holds for its key.
pub proof fn lemma_map_of_entry(p: Seq<Pair>, i: int)
    requires
        distinct_keys(p),
        0 <= i < p.len(),
    ensures
        map_of(p).contains_key(p[i].0),
        map_of(p)[p[i].0] == p[i].1,
    decreases p.len(),
{
    let q = p.drop_last();
    if i < p.len() - 1 {
        assert(q[i] == p[i]);
        assert(p[i].0 != p[p.len() - 1].0);
        assert(distinct_keys(q)) by {
            assert forall|a: int, b: int| 0 <= a < b < q.len() implies (#[trigger] q[a]).0 != (
            #[trigger] q[b]).0 by {
                assert(q[a] == p[a] && q[b] == p[b]);
            }
        }
        lemma_map_of_entry(q, i);
    }
}

/// Dropping the last entry keeps the keys distinct.
pub proof fn lemma_distinct_drop_last(p: Seq<Pair>)
    requires
        distinct_keys(p),
        p.len() > 0,
    ensures
        distinct_keys(p.drop_last()),
{
    let q = p.drop_last();
    assert forall|a: int, b: int| 0 <= a < b < q.len() implies (#[trigger] q[a]).0 != (
    #[trigger] q[b]).0 by {
        assert(q[a] == p[a] && q[b] == p[b]);
    }
}

/// Replacing the value of entry `i` is a write to its key.
pub proof fn lemma_map_of_update(p: Seq<Pair>, i: int, v: Seq<char>)
    requires
        distinct_keys(p),
        0 <= i < p.len(),
    ensures
        map_of(p.update(i, (p[i].0, v))) == map_of(p).insert(p[i].0, v),
        distinct_keys(p.update(i, (p[i].0, v))),
    decreases p.len(),
{
    let k = p[i].0;
    let u = p.update(i, (k, v));
    assert(distinct_keys(u)) by {
        assert forall|a: int, b: int| 0 <= a < b < u.len() implies (#[trigger] u[a]).0 != (
        #[trigger] u[b]).0 by {
            assert(u[a].0 == p[a].0 && u[b].0 == p[b].0);
        }
    }
    let q = p.drop_last();
    lemma_distinct_drop_last(p);
    if i == p.len() - 1 {
        assert(u.drop_last() =~= q);
        assert(map_of(u) =~= map_of(p).insert(k, v));
    } else {
        assert(q[i] == p[i]);
        lemma_map_of_update(q, i, v);
        assert(u.drop_last() =~= q.update(i, (k, v)));
        assert(u.last() == p.last());
        assert(p[i].0 != p[p.len() - 1].0);
        assert(map_of(u) =~= map_of(p).insert(k, v));
    }
}

/// Taking entry `i` out removes its key.
pub proof fn lemma_map_of_remove(p: Seq<Pair>, i: int)
    requires
        distinct_keys(p),
        0 <= i < p.len(),
    ensures
        map_of(p.remove(i)) == map_of(p).remove(p[i].0),
        distinct_keys(p.remove(i)),
    decreases p.len(),
{
    let k = p[i].0;
    let r = p.remove(i);
    assert(distinct_keys(r)) by {
        assert forall|a: int, b: int| 0 <= a < b < r.len() implies (#[trigger] r[a]).0 != (
        #[trigger] r[b]).0 by {
            let a2 = if a < i { a } else { a + 1 };
            let b2 = if b < i { b } else { b + 1 };
            assert(r[a] == p[a2] && r[b] == p[b2]);
        }
    }
    let q = p.drop_last();
    lemma_distinct_drop_last(p);
    if i == p.len() - 1 {
        assert(r =~= q);
        lemma_map_of_keys(q, k);
        if has_key(q, k) {
            let j = choose|j: int| 0 <= j < q.len() && (#[trigger] q[j]).0 == k;
            assert(p[j].0 == k);
            assert(p[j].0 != p[i].0);
        }
        assert(map_of(r) =~= map_of(p).remove(k));
    } else {
        assert(q[i] == p[i]);
        lemma_map_of_remove(q, i);
        assert(r.drop_last() =~= q.remove(i));
        assert(r.last() == p.last());
        assert(p[i].0 != p[p.len() - 1].0);
        assert(map_of(r) =~= map_of(p).remove(k));
    }
}

/// With distinct keys the map has as many keys as there are entries.
pub proof fn lemma_map_of_len(p: Seq<Pair>)
    requires
        distinct_keys(p),
    ensures
        map_of(p).dom().finite(),
        map_of(p).dom().len() == p.len(),
    decreases p.len(),
{
    if p.len() > 0 {
        let q = p.drop_last();
        lemma_distinct_drop_last(p);
        lemma_map_of_len(q);
        lemma_map_of_keys(q, p.last().0);
        if has_key(q, p.last().0) {
            let j = choose|j: int| 0 <= j < q.len() && (#[trigger] q[j]).0 == p.last().0;
            assert(p[j].0 == p[p.len() - 1].0);
        }
        assert(map_of(p).dom() =~= map_of(q).dom().insert(p.last().0));
    }
}

/// A map from text to text, in insertion order.
#[derive(Debug)]
pub struct StringMap {
    entries: Vec<(String, String)>,
}

impl View for StringMap {
    type V = Map<Seq<char>, Seq<char>>;

    open spec fn view(&self) -> Map<Seq<char>, Seq<char>> {
        map_of(self.pairs())
    }
}

impl StringMap {
    /// The entries in the order in which their keys first arrived.
    pub closed spec fn pairs(&self) -> Seq<Pair> {
        pair_texts(self.entries@)
    }

    #[verifier::type_invariant]
    spec fn keys_are_distinct(&self) -> bool {
        distinct_keys(pair_texts(self.entries@))
    }

    /// An empty map.
    pub fn new() -> (m: Self)
        ensures
            m.pairs() == Seq::<Pair>::empty(),
            m@ == Map::<Seq<char>, Seq<char>>::empty(),
    {
        let m = StringMap { entries: Vec::new() };
        assert(m.pairs() =~= Seq::<Pair>::empty());
        m
    }

    /// The position of `key` among the entries, if it is present.
    fn find(&self, key: &str) -> (at: Option<usize>)
        ensures
            at matches Some(i) ==> i < self.pairs().len() && self.pairs()[i as int].0 == key@,
            at is None ==> !has_key(self.pairs(), key@),
    {
        let mut i: usize = 0;
        while i < self.entries.len()
            invariant
                i <= self.entries@.len(),
                forall|k: int| 0 <= k < i ==> (#[trigger] self.pairs()[k]).0 != key@,
            decreases self.entries.len() - i,
        {
            if str_eq(self.entries[i].0.as_str(), key) {
                return Some(i);
            }
            i = i + 1;
        }
        None
    }

    /// The number of entries.
    pub fn len(&self) -> (n: usize)
        ensures
            n == self.pairs().len(),
            n == self@.dom().len(),
            self@.dom().finite(),
    {
        proof {
            use_type_invariant(self);
            lemma_map_of_len(self.pairs());
        }
        self.entries.len()
    }

    /// Whether the map holds nothing.
    pub fn is_empty(&self) -> (empty: bool)
        ensures
            empty == (self.pairs().len() == 0),
            empty == (self@ == Map::<Seq<char>, Seq<char>>::empty()),
    {
        proof {
            if self.pairs().len() > 0 {
                lemma_map_of_keys(self.pairs(), self.pairs()[0].0);
                assert(self@.contains_key(self.pairs()[0].0));
            } else {
                assert(self@ =~= Map::<Seq<char>, Seq<char>>::empty());
            }
        }
        self.entries.len() == 0
    }

    /// Whether `key` is present.
    pub fn contains_key(&self, key: &str) -> (present: bool)
        ensures
            present == self@.contains_key(key@),
    {
        proof {
            lemma_map_of_keys(self.pairs(), key@);
        }
        self.find(key).is_some()
    }

    /// The value stored under `key`.
    pub fn get(&self, key: &str) -> (value: Option<&String>)
        ensures
            value is Some <==> self@.contains_key(key@),
            value matches Some(v) ==> v@ == self@[key@],
    {
        proof {
            use_type_invariant(self);
            lemma_map_of_keys(self.pairs(), key@);
        }
        match self.find(key) {
            Some(i) => {
                proof {
                    lemma_map_of_entry(self.pairs(), i as int);
                }
                Some(&self.entries[i].1)
            },
            None => None,
        }
    }

    /// Stores `value` under `key`. A key that is present keeps its place and
    /// gets the new value; a new key goes to the end.
    pub fn insert(&mut self, key: String, value: String)
        ensures
            final(self)@ == old(self)@.insert(key@, value@),
            has_key(old(self).pairs(), key@) ==> exists|i: int|
                0 <= i < old(self).pairs().len() && (#[trigger] old(self).pairs()[i]).0 == key@
                    && final(self).pairs() == old(self).pairs().update(i, (key@, value@)),
            !has_key(old(self).pairs(), key@) ==> final(self).pairs() == old(self).pairs().push(
                (key@, value@),
            ),
    {
        proof {
            use_type_invariant(&*self);
        }
        let ghost before = self.pairs();
        let found = self.find(key.as_str());
        let ghost k = key@;
        let ghost v = value@;
        let mut entries: Vec<(String, String)> = Vec::new();
        assert(pair_texts(entries@) =~= Seq::<Pair>::empty());
        core::mem::swap(&mut entries, &mut self.entries);
        match found {
            Some(i) => {
                proof {
                    lemma_map_of_update(before, i as int, v);
                }
                entries.set(i, (key, value));
                assert(pair_texts(entries@) =~= before.update(i as int, (k, v)));
            },
            None => {
                entries.push((key, value));
                assert(pair_texts(entries@) =~= before.push((k, v)));
                assert(before.push((k, v)).drop_last() =~= before);
                assert(distinct_keys(pair_texts(entries@))) by {
                    let now = pair_texts(entries@);
                    assert forall|a: int, b: int| 0 <= a < b < now.len() implies (#[trigger] now[a]).0
                        != (#[trigger] now[b]).0 by {
                        assert(now[a] == before[a]);
                        if b < before.len() {
                            assert(now[b] == before[b]);
                        }
                    }
                }
            },
        }
        core::mem::swap(&mut entries, &mut self.entries);
    }

    /// Takes `key` out of the map and returns what was stored under it.
    pub fn remove(&mut self, key: &str) -> (taken: Option<String>)
        ensures
            final(self)@ == old(self)@.remove(key@),
            taken is Some <==> old(self)@.contains_key(key@),
            taken matches Some(v) ==> v@ == old(self)@[key@],
            taken is Some ==> exists|i: int|
                0 <= i < old(self).pairs().len() && (#[trigger] old(self).pairs()[i]).0 == key@
                    && final(self).pairs() == old(self).pairs().remove(i),
            taken is None ==> final(self).pairs() == old(self).pairs(),
    {
        proof {
            use_type_invariant(&*self);
            lemma_map_of_keys(self.pairs(), key@);
        }
        let ghost before = self.pairs();
        match self.find(key) {
            Some(i) => {
                proof {
                    lemma_map_of_entry(before, i as int);
                    lemma_map_of_remove(before, i as int);
                }
                let mut entries: Vec<(String, String)> = Vec::new();
                assert(pair_texts(entries@) =~= Seq::<Pair>::empty());
                core::mem::swap(&mut entries, &mut self.entries);
                let entry = entries.remove(i);
                assert(pair_texts(entries@) =~= before.remove(i as int));
                core::mem::swap(&mut entries, &mut self.entries);
                Some(entry.1)
            },
            None => {
                assert(self@ =~= old(self)@.remove(key@));
                None
            },
        }
    }

    /// Empties the map.
    pub fn clear(&mut self)
        ensures
            final(self).pairs() == Seq::<Pair>::empty(),
            final(self)@ == Map::<Seq<char>, Seq<char>>::empty(),
    {
        let mut entries: Vec<(String, String)> = Vec::new();
        assert(pair_texts(entries@) =~= Seq::<Pair>::empty());
        core::mem::swap(&mut entries, &mut self.entries);
    }

    /// The key of entry `i`.
    pub fn key_at(&self, i: usize) -> (key: &String)
        requires
            i < self.pairs().len(),
        ensures
            key@ == self.pairs()[i as int].0,
    {
        &self.entries[i].0
    }

    /// The value of entry `i`.
    pub fn value_at(&self, i: usize) -> (value: &String)
        requires
            i < self.pairs().len(),
        ensures
            value@ == self.pairs()[i as int].1,
    {
        &self.entries[i].1
    }

    /// A copy with the same entries in the same order.
    pub fn duplicate(&self) -> (copy: Self)
        ensures
            copy.pairs() == self.pairs(),
            copy@ == self@,
    {
        proof {
            use_type_invariant(self);
        }
        let mut entries: Vec<(String, String)> = Vec::new();
        let mut i: usize = 0;
        while i < self.entries.len()
            invariant
                i <= self.entries@.len(),
                pair_texts(entries@) == pair_texts(self.entries@).take(i as int),
            decreases self.entries.len() - i,
        {
            let ghost before = pair_texts(entries@);
            entries.push((self.entries[i].0.clone(), self.entries[i].1.clone()));
            assert(pair_texts(entries@) =~= before.push(pair_texts(self.entries@)[i as int]));
            assert(pair_texts(self.entries@).take(i + 1) =~= pair_texts(self.entries@).take(
                i as int,
            ).push(pair_texts(self.entries@)[i as int]));
            i = i + 1;
        }
        assert(pair_texts(self.entries@).take(self.entries@.len() as int) =~= pair_texts(
            self.entries@,
        ));
        StringMap { entries }
    }
}

impl Clone for StringMap {
    fn clone(&self) -> (copy: Self)
        ensures
            copy.pairs() == self.pairs(),
            copy@ == self@,
    {
        self.duplicate()
    }
}

impl Default for StringMap {
    fn default() -> (m: Self)
        ensures
            m@ == Map::<Seq<char>, Seq<char>>::empty(),
    {
        StringMap::new()
    }
}

} // verus!
