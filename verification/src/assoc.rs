//! A map kept as a list of pairs.

use vstd::prelude::*;

use crate::text::same;

verus! {

/// What can stand for a key: a value that can be told apart by its view.
pub trait Key: View + Sized {
    fn same(&self, other: &Self) -> (r: bool)
        ensures
            r == (self@ == other@),
    ;
}

impl Key for String {
    fn same(&self, other: &Self) -> (r: bool) {
        same(self.as_str(), other.as_str())
    }
}

impl Key for u64 {
    fn same(&self, other: &Self) -> (r: bool) {
        *self == *other
    }
}

impl Key for (u64, u64) {
    fn same(&self, other: &Self) -> (r: bool) {
        self.0 == other.0 && self.1 == other.1
    }
}

/// The map a list of pairs stands for.
pub open spec fn map_of<K: Key, V>(pairs: Seq<(K, V)>) -> Map<K::V, V>
    decreases pairs.len(),
{
    if pairs.len() == 0 {
        Map::empty()
    } else {
        map_of(pairs.drop_last()).insert(pairs.last().0@, pairs.last().1)
    }
}

/// No key stands twice.
pub open spec fn distinct<K: Key, V>(pairs: Seq<(K, V)>) -> bool {
    forall|i: int, j: int|
        0 <= i < j < pairs.len() ==> (#[trigger] pairs[i]).0@ != (#[trigger] pairs[j]).0@
}

proof fn lemma_map_of<K: Key, V>(pairs: Seq<(K, V)>)
    requires
        distinct(pairs),
    ensures
        forall|i: int|
            0 <= i < pairs.len() ==> map_of(pairs).contains_key((#[trigger] pairs[i]).0@) && map_of(
                pairs,
            )[pairs[i].0@] == pairs[i].1,
        forall|k: K::V| #[trigger]
            map_of(pairs).contains_key(k) ==> exists|i: int| 0 <= i < pairs.len() && pairs[i].0@ == k,
        map_of(pairs).dom().finite(),
        map_of(pairs).dom().len() == pairs.len(),
    decreases pairs.len(),
{
    if pairs.len() > 0 {
        let front = pairs.drop_last();
        assert(distinct(front)) by {
            assert forall|i: int, j: int| 0 <= i < j < front.len() implies (#[trigger] front[i]).0@
                != (#[trigger] front[j]).0@ by {
                assert(pairs[i].0@ != pairs[j].0@);
            }
        }
        lemma_map_of(front);
        let n = pairs.len() - 1;
        assert forall|i: int| 0 <= i < pairs.len() implies map_of(pairs).contains_key(
            (#[trigger] pairs[i]).0@,
        ) && map_of(pairs)[pairs[i].0@] == pairs[i].1 by {
            if i < n {
                assert(front[i] == pairs[i]);
                assert(pairs[i].0@ != pairs[n].0@);
            }
        }
        assert forall|k: K::V| #[trigger] map_of(pairs).contains_key(k) implies exists|i: int|
            0 <= i < pairs.len() && pairs[i].0@ == k by {
            if map_of(front).contains_key(k) {
                let i = choose|i: int| 0 <= i < front.len() && front[i].0@ == k;
                assert(pairs[i].0@ == k);
            } else {
                assert(pairs[n].0@ == k);
            }
        }
        assert(!map_of(front).contains_key(pairs[n].0@)) by {
            if map_of(front).contains_key(pairs[n].0@) {
                let i = choose|i: int| 0 <= i < front.len() && front[i].0@ == pairs[n].0@;
                assert(pairs[i].0@ != pairs[n].0@);
            }
        }
        assert(map_of(pairs).dom() =~= map_of(front).dom().insert(pairs[n].0@));
    }
}

/// A map kept as a list of pairs.
pub struct Assoc<K, V> {
    pairs: Vec<(K, V)>,
}

impl<K: Key, V> Assoc<K, V> {
    /// The map itself.
    pub closed spec fn map(self) -> Map<K::V, V> {
        map_of(self.pairs@)
    }

    /// No key stands twice.
    pub closed spec fn wf(self) -> bool {
        distinct(self.pairs@)
    }

    /// The empty map.
    pub fn new() -> (r: Self)
        ensures
            r.wf(),
            r.map() == Map::<K::V, V>::empty(),
    {
        Assoc { pairs: Vec::new() }
    }

    fn position(&self, key: &K) -> (r: Option<usize>)
        requires
            self.wf(),
        ensures
            match r {
                Some(i) => i < self.pairs@.len() && self.pairs@[i as int].0@ == key@
                    && self.map().contains_key(key@) && self.map()[key@] == self.pairs@[i as int].1,
                None => !self.map().contains_key(key@) && forall|i: int|
                    0 <= i < self.pairs@.len() ==> (#[trigger] self.pairs@[i]).0@ != key@,
            },
    {
        proof {
            lemma_map_of(self.pairs@);
        }
        let mut i: usize = 0;
        while i < self.pairs.len()
            invariant
                i <= self.pairs@.len(),
                self.wf(),
                forall|j: int| 0 <= j < i ==> (#[trigger] self.pairs@[j]).0@ != key@,
            decreases self.pairs@.len() - i,
        {
            if self.pairs[i].0.same(key) {
                proof {
                    lemma_map_of(self.pairs@);
                }
                return Some(i);
            }
            i = i + 1;
        }
        None
    }

    /// How many keys there are.
    pub fn len(&self) -> (r: usize)
        requires
            self.wf(),
        ensures
            r == self.map().dom().len(),
    {
        proof {
            lemma_map_of(self.pairs@);
        }
        self.pairs.len()
    }

    /// What stands under a key.
    pub fn get(&self, key: &K) -> (r: Option<&V>)
        requires
            self.wf(),
        ensures
            match r {
                Some(v) => self.map().contains_key(key@) && *v == self.map()[key@],
                None => !self.map().contains_key(key@),
            },
    {
        match self.position(key) {
            Some(i) => Some(&self.pairs[i].1),
            None => None,
        }
    }

    fn remove_at(&mut self, i: usize) -> (r: (K, V))
        requires
            old(self).wf(),
            i < old(self).pairs@.len(),
        ensures
            final(self).wf(),
            r == old(self).pairs@[i as int],
            final(self).pairs@ == old(self).pairs@.remove(i as int),
            final(self).map() == old(self).map().remove(r.0@),
            old(self).map().contains_key(r.0@),
            old(self).map()[r.0@] == r.1,
    {
        let ghost before = self.pairs@;
        let r = self.pairs.remove(i);
        proof {
            let after = self.pairs@;
            let key = r.0@;
            assert(after =~= before.remove(i as int));
            assert forall|a: int, b: int| 0 <= a < b < after.len() implies (#[trigger] after[a]).0@ != (
            #[trigger] after[b]).0@ by {
                let x = if a < i {
                    a
                } else {
                    a + 1
                };
                let y = if b < i {
                    b
                } else {
                    b + 1
                };
                assert(after[a] == before[x] && after[b] == before[y]);
            }
            lemma_map_of(before);
            lemma_map_of(after);
            assert(before[i as int] == r);
            let m = map_of(before).remove(key);
            assert forall|q: K::V| m.contains_key(q) == #[trigger] map_of(after).contains_key(q) && (
            m.contains_key(q) ==> m[q] == map_of(after)[q]) by {
                if m.contains_key(q) {
                    let j = choose|j: int| 0 <= j < before.len() && before[j].0@ == q;
                    let x = if j < i {
                        j
                    } else {
                        j - 1
                    };
                    assert(after[x] == before[j]);
                }
                if map_of(after).contains_key(q) {
                    let j = choose|j: int| 0 <= j < after.len() && after[j].0@ == q;
                    let x = if j < i {
                        j
                    } else {
                        j + 1
                    };
                    assert(before[x] == after[j]);
                }
            }
            assert(map_of(after) =~= m);
        }
        r
    }

    /// Takes what stands under a key, and the key with it.
    pub fn remove(&mut self, key: &K) -> (r: Option<V>)
        requires
            old(self).wf(),
        ensures
            final(self).wf(),
            final(self).map() == old(self).map().remove(key@),
            match r {
                Some(v) => old(self).map().contains_key(key@) && v == old(self).map()[key@],
                None => !old(self).map().contains_key(key@),
            },
    {
        match self.position(key) {
            Some(i) => Some(self.remove_at(i).1),
            None => {
                assert(self.map().remove(key@) =~= self.map());
                None
            },
        }
    }

    /// Puts a value under a key, in the place of what stood there.
    pub fn insert(&mut self, key: K, value: V)
        requires
            old(self).wf(),
        ensures
            final(self).wf(),
            final(self).map() == old(self).map().insert(key@, value),
    {
        let ghost original = self.map();
        let _gone = self.remove(&key);
        let ghost before = self.pairs@;
        proof {
            lemma_map_of(before);
        }
        self.pairs.push((key, value));
        proof {
            let after = self.pairs@;
            assert(after.drop_last() =~= before);
            assert forall|a: int, b: int| 0 <= a < b < after.len() implies (#[trigger] after[a]).0@ != (
            #[trigger] after[b]).0@ by {
                if b == before.len() {
                    assert(map_of(before).contains_key(before[a].0@));
                } else {
                    assert(before[a].0@ != before[b].0@);
                }
            }
            assert(self.map() =~= original.insert(key@, value));
        }
    }
}

impl<K: Key, V> Assoc<K, V> {
    /// The pairs, each key once.
    pub fn into_pairs(self) -> (r: Vec<(K, V)>)
        requires
            self.wf(),
        ensures
            map_of(r@) == self.map(),
            distinct(r@),
    {
        self.pairs
    }
}

/// What has its time. Moments are counted on a clock that never goes back.
pub trait Perishable: Sized {
    /// Still within its time.
    spec fn lasts(self, now: u64) -> bool;

    fn is_fresh(&self, now: u64) -> (r: bool)
        ensures
            r == self.lasts(now),
    ;
}

/// The part of a map that is still within its time.
pub open spec fn fresh_part<Q, V: Perishable>(m: Map<Q, V>, now: u64) -> Map<Q, V> {
    m.restrict(Set::new(|k: Q| m.contains_key(k) && m[k].lasts(now)))
}

impl<K: Key, V: Perishable> Assoc<K, V> {
    /// Forgets what has outlived its time.
    pub fn sweep(&mut self, now: u64)
        requires
            old(self).wf(),
        ensures
            final(self).wf(),
            final(self).map() == fresh_part(old(self).map(), now),
    {
        let ghost original = self.map();
        let mut i: usize = 0;
        while i < self.pairs.len()
            invariant
                i <= self.pairs@.len(),
                self.wf(),
                original == old(self).map(),
                forall|k: K::V| #[trigger]
                    self.map().contains_key(k) ==> original.contains_key(k) && original[k]
                        == self.map()[k],
                forall|k: K::V| #[trigger]
                    original.contains_key(k) && original[k].lasts(now) ==> self.map().contains_key(k),
                forall|j: int| 0 <= j < i ==> (#[trigger] self.pairs@[j]).1.lasts(now),
            decreases self.pairs@.len() - i,
        {
            let ghost before = self.pairs@;
            let kept = self.pairs[i].1.is_fresh(now);
            if kept {
                i = i + 1;
            } else {
                let _gone = self.remove_at(i);
                assert(forall|j: int| 0 <= j < i ==> self.pairs@[j] == before[j]);
            }
        }
        proof {
            lemma_map_of(self.pairs@);
            let kept = fresh_part(original, now);
            assert forall|k: K::V| #[trigger] self.map().contains_key(k) implies kept.contains_key(
                k,
            ) by {
                let j = choose|j: int| 0 <= j < self.pairs@.len() && self.pairs@[j].0@ == k;
                assert(self.pairs@[j].1.lasts(now));
            }
            assert(self.map() =~= kept);
        }
    }
}

} // verus!
