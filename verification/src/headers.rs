//! The header mapping of requests and responses: byte-string names to
//! byte-string values, last write wins, lookup by exact byte equality.
//!
//! The representation is an association list with no duplicate keys; its
//! abstract value is the map obtained by inserting the entries in order.

use vstd::prelude::*;
use crate::bytes::bytes_eq;

verus! {

/// The map described by an entry list, inserting the entries in order, so a
/// later entry for the same key wins.
pub open spec fn map_of_entries(es: Seq<(Seq<u8>, Seq<u8>)>) -> Map<Seq<u8>, Seq<u8>>
    decreases es.len(),
{
    if es.len() == 0 {
        Map::empty()
    } else {
        map_of_entries(es.drop_last()).insert(es.last().0, es.last().1)
    }
}

/// A key is in the map exactly when some entry carries it.
pub proof fn lemma_map_of_entries_contains(es: Seq<(Seq<u8>, Seq<u8>)>, k: Seq<u8>)
    ensures
        map_of_entries(es).contains_key(k) <==> exists|i: int|
            0 <= i < es.len() && #[trigger] es[i].0 == k,
    decreases es.len(),
{
    if es.len() > 0 {
        lemma_map_of_entries_contains(es.drop_last(), k);
        if map_of_entries(es).contains_key(k) {
            if es.last().0 != k {
                let i = choose|i: int| 0 <= i < es.drop_last().len() && #[trigger] es.drop_last()[i].0 == k;
                assert(es[i].0 == k);
            } else {
                assert(es[es.len() - 1].0 == k);
            }
        }
        if exists|i: int| 0 <= i < es.len() && #[trigger] es[i].0 == k {
            let i = choose|i: int| 0 <= i < es.len() && #[trigger] es[i].0 == k;
            if i < es.len() - 1 {
                assert(es.drop_last()[i].0 == k);
            }
        }
    }
}

/// An entry whose key no later entry repeats gives the key its value.
pub proof fn lemma_map_of_entries_value(es: Seq<(Seq<u8>, Seq<u8>)>, i: int)
    requires
        0 <= i < es.len(),
        forall|j: int| i < j < es.len() ==> (#[trigger] es[j]).0 != es[i].0,
    ensures
        map_of_entries(es).contains_key(es[i].0),
        map_of_entries(es)[es[i].0] == es[i].1,
    decreases es.len(),
{
    if i == es.len() - 1 {
    } else {
        assert(es.last().0 != es[i].0);
        assert(es.drop_last()[i] == es[i]);
        assert(forall|j: int|
            i < j < es.drop_last().len() ==> (#[trigger] es.drop_last()[j]).0 != es.drop_last()[i].0);
        lemma_map_of_entries_value(es.drop_last(), i);
    }
}

/// Headers of a request or a response. Lookup is by exact, case-sensitive
/// byte equality; inserting an existing name replaces its value.
pub struct HeaderMap {
    pub entries: Vec<(Vec<u8>, Vec<u8>)>,
}

impl HeaderMap {
    /// The entries as sequences, in storage order.
    pub open spec fn entries_view(&self) -> Seq<(Seq<u8>, Seq<u8>)> {
        self.entries@.map_values(|e: (Vec<u8>, Vec<u8>)| (e.0@, e.1@))
    }

    /// No two entries carry the same key.
    pub open spec fn wf(&self) -> bool {
        forall|i: int, j: int|
            #![trigger self.entries_view()[i], self.entries_view()[j]]
            0 <= i < j < self.entries_view().len()
                ==> self.entries_view()[i].0 != self.entries_view()[j].0
    }

    pub fn new() -> (r: HeaderMap)
        ensures
            r@ == Map::<Seq<u8>, Seq<u8>>::empty(),
            r.wf(),
            r.entries_view() == Seq::<(Seq<u8>, Seq<u8>)>::empty(),
    {
        let r = HeaderMap { entries: Vec::new() };
        proof {
            assert(r.entries_view() =~= Seq::<(Seq<u8>, Seq<u8>)>::empty());
        }
        r
    }

    pub fn len(&self) -> (r: usize)
        ensures
            r == self.entries_view().len(),
    {
        self.entries.len()
    }

    /// The value stored under `k`, if any.
    pub fn get(&self, k: &Vec<u8>) -> (r: Option<&Vec<u8>>)
        requires
            self.wf(),
        ensures
            match r {
                Some(v) => self@.contains_key(k@) && v@ == self@[k@],
                None => !self@.contains_key(k@),
            },
    {
        let n: usize = self.entries.len();
        let mut i: usize = 0;
        while i < n
            invariant
                self.wf(),
                n == self.entries_view().len(),
                0 <= i <= n,
                forall|j: int| 0 <= j < i ==> (#[trigger] self.entries_view()[j]).0 != k@,
            decreases n - i,
        {
            if bytes_eq(&self.entries[i].0, k) {
                proof {
                    assert(self.entries_view()[i as int].0 == k@);
                    assert(forall|j: int|
                        i < j < self.entries_view().len()
                            ==> (#[trigger] self.entries_view()[j]).0 != self.entries_view()[i as int].0);
                    lemma_map_of_entries_value(self.entries_view(), i as int);
                }
                return Some(&self.entries[i].1);
            }
            i += 1;
        }
        proof {
            lemma_map_of_entries_contains(self.entries_view(), k@);
        }
        None
    }

    /// Stores `v` under `k`, replacing any previous value.
    pub fn insert(&mut self, k: Vec<u8>, v: Vec<u8>)
        requires
            old(self).wf(),
        ensures
            final(self)@ == old(self)@.insert(k@, v@),
            final(self).wf(),
    {
        let n: usize = self.entries.len();
        let mut i: usize = 0;
        while i < n
            invariant
                self == old(self),
                self.wf(),
                n == self.entries_view().len(),
                0 <= i <= n,
                forall|j: int| 0 <= j < i ==> (#[trigger] self.entries_view()[j]).0 != k@,
            decreases n - i,
        {
            if bytes_eq(&self.entries[i].0, &k) {
                proof {
                    assert(self.entries_view()[i as int].0 == k@);
                }
                let ghost old_es = self.entries_view();
                self.entries[i] = (k, v);
                proof {
                    assert(self.entries_view() =~= old_es.update(i as int, (k@, v@)));
                    lemma_map_of_entries_update(old_es, i as int, v@);
                    assert(self@ == old(self)@.insert(k@, v@));
                }
                return;
            }
            i += 1;
        }
        let ghost old_es = self.entries_view();
        self.entries.push((k, v));
        proof {
            assert(self.entries_view() =~= old_es.push((k@, v@)));
            assert(self.entries_view().drop_last() =~= old_es);
            assert(self@ == old(self)@.insert(k@, v@));
            assert forall|a: int, b: int|
                0 <= a < b < self.entries_view().len() implies
                (self.entries_view()[a]).0 != (self.entries_view()[b]).0 by {
                if b < self.entries_view().len() - 1 {
                    assert(self.entries_view()[a] == old_es[a]);
                    assert(self.entries_view()[b] == old_es[b]);
                } else {
                    assert(self.entries_view()[a] == old_es[a]);
                    assert((old_es[a]).0 != k@);
                }
            }
        }
    }
}

/// Replacing the value of the entry that holds a key (no later entry
/// repeating it) changes the map as an insert of that key does.
pub proof fn lemma_map_of_entries_update(es: Seq<(Seq<u8>, Seq<u8>)>, i: int, v: Seq<u8>)
    requires
        0 <= i < es.len(),
        forall|j: int| i < j < es.len() ==> (#[trigger] es[j]).0 != es[i].0,
    ensures
        map_of_entries(es.update(i, (es[i].0, v))) == map_of_entries(es).insert(es[i].0, v),
    decreases es.len(),
{
    let es2 = es.update(i, (es[i].0, v));
    if i == es.len() - 1 {
        assert(es2.drop_last() =~= es.drop_last());
        assert(es2.last() == (es[i].0, v));
        assert(map_of_entries(es2) == map_of_entries(es.drop_last()).insert(es[i].0, v));
        assert(map_of_entries(es.drop_last()).insert(es.last().0, es.last().1).insert(es[i].0, v)
            =~= map_of_entries(es.drop_last()).insert(es[i].0, v));
    } else {
        assert(es2.drop_last() =~= es.drop_last().update(i, (es[i].0, v)));
        assert(es2.last() == es.last());
        assert(es.drop_last()[i] == es[i]);
        assert(forall|j: int|
            i < j < es.drop_last().len() ==> (#[trigger] es.drop_last()[j]).0 != es.drop_last()[i].0);
        lemma_map_of_entries_update(es.drop_last(), i, v);
        assert(es.last().0 != es[i].0);
        assert(map_of_entries(es.drop_last()).insert(es[i].0, v).insert(es.last().0, es.last().1)
            =~= map_of_entries(es.drop_last()).insert(es.last().0, es.last().1).insert(es[i].0, v));
    }
}

impl View for HeaderMap {
    type V = Map<Seq<u8>, Seq<u8>>;

    open spec fn view(&self) -> Map<Seq<u8>, Seq<u8>> {
        map_of_entries(self.entries_view())
    }
}

} // verus!
