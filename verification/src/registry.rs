//! Handle-indexed registry: an insertion-ordered association list from
//! `u64` handles to records, with a `Map` view for contracts.  Insertion
//! order is kept because reverse lookups scan the records in order.

use vstd::prelude::*;

verus! {

/// The map described by an association list, later entries winning.
pub open spec fn map_of<T>(s: Seq<(u64, T)>) -> Map<u64, T>
    decreases s.len(),
{
    if s.len() == 0 {
        Map::empty()
    } else {
        map_of(s.drop_last()).insert(s.last().0, s.last().1)
    }
}

/// Key distinctness for an association list.
pub open spec fn distinct_keys<T>(s: Seq<(u64, T)>) -> bool {
    forall|i: int, j: int| 0 <= i < j < s.len() ==> (#[trigger] s[i]).0 != (#[trigger] s[j]).0
}

/// Basic facts about `map_of`: a finite domain whose members are exactly
/// the listed keys.
pub proof fn lemma_map_of_dom<T>(s: Seq<(u64, T)>)
    ensures
        map_of(s).dom().finite(),
        forall|k: u64|
            map_of(s).dom().contains(k) <==> exists|i: int| 0 <= i < s.len() && (#[trigger] s[i]).0 == k,
    decreases s.len(),
{
    if s.len() > 0 {
        lemma_map_of_dom(s.drop_last());
        assert forall|k: u64| map_of(s).dom().contains(k) implies exists|i: int|
            0 <= i < s.len() && (#[trigger] s[i]).0 == k by {
            if k == s.last().0 {
                assert(s[s.len() - 1].0 == k);
            } else {
                let i = choose|i: int| 0 <= i < s.drop_last().len() && (#[trigger] s.drop_last()[i]).0 == k;
                assert(s[i].0 == k);
            }
        }
        assert forall|k: u64| (exists|i: int| 0 <= i < s.len() && (#[trigger] s[i]).0 == k) implies map_of(
            s,
        ).dom().contains(k) by {
            let i = choose|i: int| 0 <= i < s.len() && (#[trigger] s[i]).0 == k;
            if i < s.len() - 1 {
                assert(s.drop_last()[i].0 == k);
            }
        }
    }
}

/// With distinct keys, `map_of` maps each listed key to its listed value,
/// and the domain has as many members as the list.
pub proof fn lemma_map_of_index<T>(s: Seq<(u64, T)>)
    requires
        distinct_keys(s),
    ensures
        forall|i: int| 0 <= i < s.len() ==> map_of(s).dom().contains((#[trigger] s[i]).0),
        forall|i: int| 0 <= i < s.len() ==> map_of(s)[(#[trigger] s[i]).0] == s[i].1,
        map_of(s).dom().len() == s.len(),
    decreases s.len(),
{
    lemma_map_of_dom(s);
    if s.len() > 0 {
        lemma_map_of_index(s.drop_last());
        lemma_map_of_dom(s.drop_last());
        let k = s.last().0;
        assert(!map_of(s.drop_last()).dom().contains(k)) by {
            if map_of(s.drop_last()).dom().contains(k) {
                let i = choose|i: int|
                    0 <= i < s.drop_last().len() && (#[trigger] s.drop_last()[i]).0 == k;
                assert(s[i].0 == s[s.len() - 1].0);
            }
        }
        assert(map_of(s).dom() =~= map_of(s.drop_last()).dom().insert(k));
        vstd::set::axiom_set_insert_len(map_of(s.drop_last()).dom(), k);
        assert forall|i: int| 0 <= i < s.len() implies map_of(s)[(#[trigger] s[i]).0] == s[i].1 by {
            if i < s.len() - 1 {
                assert(s.drop_last()[i] == s[i]);
                assert(s[i].0 != k);
            }
        }
    }
}

/// Removing the entry at `i` removes exactly its key from the map.
pub proof fn lemma_map_of_remove<T>(s: Seq<(u64, T)>, i: int)
    requires
        distinct_keys(s),
        0 <= i < s.len(),
    ensures
        map_of(s.remove(i)) == map_of(s).remove(s[i].0),
    decreases s.len(),
{
    lemma_map_of_dom(s);
    lemma_map_of_dom(s.drop_last());
    if i == s.len() - 1 {
        assert(s.remove(i) =~= s.drop_last());
        assert(!map_of(s.drop_last()).dom().contains(s[i].0)) by {
            if map_of(s.drop_last()).dom().contains(s[i].0) {
                let j = choose|j: int|
                    0 <= j < s.drop_last().len() && (#[trigger] s.drop_last()[j]).0 == s[i].0;
                assert(s[j].0 == s[i].0);
            }
        }
        assert(map_of(s).remove(s[i].0) =~= map_of(s.drop_last()));
    } else {
        assert(s.remove(i).last() == s.last());
        assert(s.remove(i).drop_last() =~= s.drop_last().remove(i));
        lemma_map_of_remove(s.drop_last(), i);
        assert(s.drop_last()[i] == s[i]);
        assert(s[i].0 != s.last().0);
        assert(map_of(s.drop_last()).remove(s[i].0).insert(s.last().0, s.last().1) =~= map_of(
            s.drop_last(),
        ).insert(s.last().0, s.last().1).remove(s[i].0));
        assert(map_of(s.remove(i)) =~= map_of(s).remove(s[i].0));
    }
}

/// A registry of records keyed by opaque `u64` handles.
pub struct Registry<V> {
    entries: Vec<(u64, V)>,
}

impl<V: View> View for Registry<V> {
    type V = Map<u64, V::V>;

    open spec fn view(&self) -> Map<u64, V::V> {
        map_of(self.entries_seq())
    }
}

impl<V: View> Registry<V> {
    /// The entries in insertion order, with record views.
    pub closed spec fn entries_seq(&self) -> Seq<(u64, V::V)> {
        self.entries@.map_values(|e: (u64, V)| (e.0, e.1@))
    }

    /// Every handle appears at most once.
    pub open spec fn wf(&self) -> bool {
        distinct_keys(self.entries_seq())
    }

    /// Exports the connection between the ordered entries and the map view.
    pub proof fn lemma_view(&self)
        ensures
            self@.dom().finite(),
            forall|k: u64|
                self@.dom().contains(k) <==> exists|i: int|
                    0 <= i < self.entries_seq().len() && (#[trigger] self.entries_seq()[i]).0 == k,
            self.wf() ==> forall|i: int|
                0 <= i < self.entries_seq().len() ==> self@.dom().contains(
                    (#[trigger] self.entries_seq()[i]).0,
                ) && self@[self.entries_seq()[i].0] == self.entries_seq()[i].1,
            self.wf() ==> self@.dom().len() == self.entries_seq().len(),
    {
        lemma_map_of_dom(self.entries_seq());
        if self.wf() {
            lemma_map_of_index(self.entries_seq());
        }
    }

    /// Creates an empty registry.
    pub fn new() -> (r: Registry<V>)
        ensures
            r@ == Map::<u64, V::V>::empty(),
            r.entries_seq() == Seq::<(u64, V::V)>::empty(),
            r.wf(),
    {
        let r = Registry { entries: Vec::new() };
        proof {
            assert(r.entries_seq() =~= Seq::<(u64, V::V)>::empty());
        }
        r
    }

    /// The number of registered records.
    pub fn len(&self) -> (n: usize)
        ensures
            n == self.entries_seq().len(),
    {
        proof {
            assert(self.entries_seq().len() == self.entries@.len());
        }
        self.entries.len()
    }

    /// The handle of the record at position `i`.
    pub fn key_at(&self, i: usize) -> (k: u64)
        requires
            i < self.entries_seq().len(),
        ensures
            k == self.entries_seq()[i as int].0,
    {
        self.entries[i].0
    }

    /// The record at position `i`.
    pub fn val_at(&self, i: usize) -> (v: &V)
        requires
            i < self.entries_seq().len(),
        ensures
            v@ == self.entries_seq()[i as int].1,
    {
        &self.entries[i].1
    }

    /// Position of a handle in the entry list, if present.
    fn index_of(&self, k: u64) -> (r: Option<usize>)
        ensures
            match r {
                Some(i) => i < self.entries_seq().len() && self.entries_seq()[i as int].0 == k,
                None => forall|i: int|
                    0 <= i < self.entries_seq().len() ==> (#[trigger] self.entries_seq()[i]).0 != k,
            },
    {
        let n = self.entries.len();
        proof {
            assert(self.entries_seq().len() == self.entries@.len());
        }
        let mut i: usize = 0;
        while i < n
            invariant
                i <= n,
                n == self.entries_seq().len(),
                n == self.entries@.len(),
                forall|j: int| 0 <= j < i ==> (#[trigger] self.entries_seq()[j]).0 != k,
            decreases n - i,
        {
            if self.entries[i].0 == k {
                return Some(i);
            }
            i = i + 1;
        }
        None
    }

    /// Whether a record is registered under `k`.
    pub fn contains(&self, k: u64) -> (r: bool)
        ensures
            r == self@.dom().contains(k),
    {
        proof {
            self.lemma_view();
        }
        self.index_of(k).is_some()
    }

    /// Direct lookup by handle.
    pub fn get(&self, k: u64) -> (r: Option<&V>)
        requires
            self.wf(),
        ensures
            match r {
                Some(v) => self@.dom().contains(k) && v@ == self@[k],
                None => !self@.dom().contains(k),
            },
    {
        proof {
            self.lemma_view();
        }
        match self.index_of(k) {
            Some(i) => Some(&self.entries[i].1),
            None => None,
        }
    }

    /// Registers a record under a handle not yet in use.
    pub fn insert(&mut self, k: u64, v: V)
        requires
            old(self).wf(),
            !old(self)@.dom().contains(k),
        ensures
            final(self).wf(),
            final(self)@ == old(self)@.insert(k, v@),
            final(self).entries_seq() == old(self).entries_seq().push((k, v@)),
    {
        proof {
            old(self).lemma_view();
        }
        self.entries.push((k, v));
        proof {
            assert(self.entries_seq() =~= old(self).entries_seq().push((k, v@)));
            assert(self.entries_seq().drop_last() =~= old(self).entries_seq());
        }
    }

    /// Replaces the record under `k` in place; `false` (and no change) if
    /// `k` is not registered.
    pub fn replace(&mut self, k: u64, v: V) -> (r: bool)
        requires
            old(self).wf(),
        ensures
            final(self).wf(),
            r == old(self)@.dom().contains(k),
            r ==> final(self)@ == old(self)@.insert(k, v@) && exists|i: int|
                0 <= i < old(self).entries_seq().len() && old(self).entries_seq()[i].0 == k
                    && final(self).entries_seq() == old(self).entries_seq().update(i, (k, v@)),
            !r ==> final(self)@ == old(self)@ && final(self).entries_seq() == old(
                self,
            ).entries_seq(),
    {
        proof {
            old(self).lemma_view();
        }
        match self.index_of(k) {
            Some(i) => {
                self.entries.set(i, (k, v));
                proof {
                    let olds = old(self).entries_seq();
                    let s = olds.update(i as int, (k, v@));
                    assert(self.entries_seq() =~= s);
                    assert forall|a: int, b: int|
                        0 <= a < b < s.len() implies (#[trigger] s[a]).0 != (#[trigger] s[b]).0 by {
                        assert(olds[a].0 != olds[b].0);
                    }
                    lemma_map_of_index(s);
                    lemma_map_of_dom(s);
                    lemma_map_of_index(olds);
                    lemma_map_of_dom(olds);
                    assert forall|x: u64| map_of(s).dom().contains(x) implies old(self)@.insert(
                        k,
                        v@,
                    ).dom().contains(x) && map_of(s)[x] == old(self)@.insert(k, v@)[x] by {
                        let j = choose|j: int| 0 <= j < s.len() && (#[trigger] s[j]).0 == x;
                        assert(map_of(s)[x] == s[j].1);
                        if j == i {
                            assert(x == k && s[j].1 == v@);
                        } else {
                            assert(s[j] == olds[j]);
                            assert(olds[j].0 != olds[i as int].0);
                            assert(old(self)@[x] == olds[j].1);
                        }
                    }
                    assert forall|x: u64| old(self)@.insert(k, v@).dom().contains(x) implies map_of(
                        s,
                    ).dom().contains(x) by {
                        if x == k {
                            assert(s[i as int].0 == x);
                        } else {
                            let j = choose|j: int| 0 <= j < olds.len() && (#[trigger] olds[j]).0 == x;
                            assert(s[j].0 == x);
                        }
                    }
                    assert(map_of(s) =~= old(self)@.insert(k, v@));
                }
                true
            },
            None => false,
        }
    }

    /// Removes and returns the record under `k`; `None` if absent.
    pub fn remove(&mut self, k: u64) -> (r: Option<V>)
        requires
            old(self).wf(),
        ensures
            final(self).wf(),
            match r {
                Some(v) => old(self)@.dom().contains(k) && v@ == old(self)@[k] && final(self)@
                    == old(self)@.remove(k),
                None => !old(self)@.dom().contains(k) && final(self)@ == old(self)@
                    && final(self).entries_seq() == old(self).entries_seq(),
            },
    {
        proof {
            old(self).lemma_view();
        }
        match self.index_of(k) {
            Some(i) => {
                let (_, v) = self.entries.remove(i);
                proof {
                    assert(self.entries_seq() =~= old(self).entries_seq().remove(i as int));
                    lemma_map_of_remove(old(self).entries_seq(), i as int);
                    assert forall|a: int, b: int|
                        0 <= a < b < self.entries_seq().len() implies (#[trigger] self.entries_seq()[a]).0
                        != (#[trigger] self.entries_seq()[b]).0 by {
                        let s = old(self).entries_seq();
                        if b < i {
                            assert(s[a].0 != s[b].0);
                        } else if a < i {
                            assert(s[a].0 != s[b + 1].0);
                        } else {
                            assert(s[a + 1].0 != s[b + 1].0);
                        }
                    }
                }
                Some(v)
            },
            None => None,
        }
    }
}

} // verus!
