//! The last-known-good result of each target, by target identity.

use vstd::prelude::*;
use crate::source_query::{A2SInfoResult, A2SInfoView};

verus! {

/// Maps target identity (`host:port`) to the last result a query of it gave.
/// Entries are only ever added or replaced by a newer result, never removed.
pub struct AggregationCache {
    entries: Vec<(String, A2SInfoResult)>,
}

/// The map that a list of entries with distinct keys stands for.
pub open spec fn map_of(s: Seq<(String, A2SInfoResult)>) -> Map<Seq<char>, A2SInfoView>
    decreases s.len(),
{
    if s.len() == 0 {
        Map::empty()
    } else {
        map_of(s.drop_last()).insert(s.last().0@, s.last().1@)
    }
}

/// No two entries share a key.
pub open spec fn keys_distinct(s: Seq<(String, A2SInfoResult)>) -> bool {
    forall|i: int, j: int| 0 <= i < s.len() && 0 <= j < s.len() && i != j ==> s[i].0@ != s[j].0@
}

proof fn lemma_map_of_at(s: Seq<(String, A2SInfoResult)>, i: int)
    requires
        keys_distinct(s),
        0 <= i < s.len(),
    ensures
        map_of(s).contains_key(s[i].0@),
        map_of(s)[s[i].0@] == s[i].1@,
    decreases s.len(),
{
    if i < s.len() - 1 {
        lemma_map_of_at(s.drop_last(), i);
    }
}

proof fn lemma_map_of_absent(s: Seq<(String, A2SInfoResult)>, k: Seq<char>)
    requires
        forall|i: int| 0 <= i < s.len() ==> s[i].0@ != k,
    ensures
        !map_of(s).contains_key(k),
    decreases s.len(),
{
    if s.len() > 0 {
        lemma_map_of_absent(s.drop_last(), k);
    }
}

proof fn lemma_map_of_update(s: Seq<(String, A2SInfoResult)>, i: int, e: (String, A2SInfoResult))
    requires
        keys_distinct(s),
        0 <= i < s.len(),
        s[i].0@ == e.0@,
    ensures
        map_of(s.update(i, e)) == map_of(s).insert(e.0@, e.1@),
    decreases s.len(),
{
    let t = s.update(i, e);
    if i == s.len() - 1 {
        assert(t.drop_last() == s.drop_last());
        assert(map_of(t) =~= map_of(s).insert(e.0@, e.1@));
    } else {
        assert(t.drop_last() == s.drop_last().update(i, e));
        lemma_map_of_update(s.drop_last(), i, e);
        assert(s.last().0@ != e.0@);
        assert(map_of(t) =~= map_of(s).insert(e.0@, e.1@));
    }
}

impl View for AggregationCache {
    type V = Map<Seq<char>, A2SInfoView>;

    closed spec fn view(&self) -> Map<Seq<char>, A2SInfoView> {
        map_of(self.entries@)
    }
}

impl AggregationCache {
    /// The cache's entries have distinct keys.
    pub closed spec fn wf(&self) -> bool {
        keys_distinct(self.entries@)
    }

    /// An empty cache.
    pub fn new() -> (r: AggregationCache)
        ensures
            r.wf(),
            r@ == Map::<Seq<char>, A2SInfoView>::empty(),
    {
        AggregationCache { entries: Vec::new() }
    }

    fn find(&self, key: &String) -> (r: Option<usize>)
        ensures
            match r {
                Some(i) => i < self.entries@.len() && self.entries@[i as int].0@ == key@,
                None => forall|i: int| 0 <= i < self.entries@.len() ==> self.entries@[i].0@ != key@,
            },
    {
        let mut i: usize = 0;
        while i < self.entries.len()
            invariant
                i <= self.entries@.len(),
                forall|j: int| 0 <= j < i ==> self.entries@[j].0@ != key@,
            decreases self.entries.len() - i,
        {
            if self.entries[i].0 == *key {
                return Some(i);
            }
            i = i + 1;
        }
        None
    }

    /// The last result cached for `key`.
    pub fn get(&self, key: &String) -> (r: Option<&A2SInfoResult>)
        requires
            self.wf(),
        ensures
            match r {
                Some(x) => self@.contains_key(key@) && self@[key@] == x@,
                None => !self@.contains_key(key@),
            },
    {
        match self.find(key) {
            Some(i) => {
                proof {
                    lemma_map_of_at(self.entries@, i as int);
                }
                Some(&self.entries[i].1)
            },
            None => {
                proof {
                    lemma_map_of_absent(self.entries@, key@);
                }
                None
            },
        }
    }

    /// Records `value` as the last result for `key`, replacing any earlier one.
    pub fn insert(&mut self, key: String, value: A2SInfoResult)
        requires
            old(self).wf(),
        ensures
            final(self).wf(),
            final(self)@ == old(self)@.insert(key@, value@),
    {
        let ghost k = key@;
        let ghost v = value@;
        match self.find(&key) {
            Some(i) => {
                let ghost s = self.entries@;
                let ghost e = (key, value);
                self.entries.remove(i);
                self.entries.insert(i, (key, value));
                proof {
                    assert(self.entries@ =~= s.update(i as int, e));
                    lemma_map_of_update(s, i as int, e);
                }
            },
            None => {
                let ghost s = self.entries@;
                self.entries.push((key, value));
                proof {
                    assert(self.entries@.drop_last() == s);
                }
            },
        }
    }
}

} // verus!
