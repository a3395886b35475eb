//! Metadata of a record: a map from text to text.
use crate::text::same_text;
use vstd::prelude::*;

verus! {

/// A map from text to text, kept as a list of entries of which no two have the same key.
#[derive(Debug)]
pub struct Metadata {
    entries: Vec<(String, String)>,
}

/// The map that a list of entries stands for: a later entry for a key takes the place of an
/// earlier one.
pub open spec fn map_of(entries: Seq<(String, String)>) -> Map<Seq<char>, Seq<char>>
    decreases entries.len(),
{
    if entries.len() == 0 {
        Map::empty()
    } else {
        map_of(entries.drop_last()).insert(entries.last().0@, entries.last().1@)
    }
}

/// No two entries have the same key.
pub open spec fn distinct_keys(entries: Seq<(String, String)>) -> bool {
    forall|i: int, j: int|
        0 <= i < j < entries.len() ==> (#[trigger] entries[i]).0@ != (#[trigger] entries[j]).0@
}

/// The map of optional metadata.
pub open spec fn opt_metadata(m: Option<Metadata>) -> Option<Map<Seq<char>, Seq<char>>> {
    match m {
        Some(x) => Some(x@),
        None => None,
    }
}

impl View for Metadata {
    type V = Map<Seq<char>, Seq<char>>;

    closed spec fn view(&self) -> Map<Seq<char>, Seq<char>> {
        map_of(self.entries@)
    }
}

proof fn lemma_map_of_key(entries: Seq<(String, String)>, k: Seq<char>)
    ensures
        map_of(entries).dom().contains(k) <==> exists|i: int|
            0 <= i < entries.len() && (#[trigger] entries[i]).0@ == k,
    decreases entries.len(),
{
    if entries.len() > 0 {
        let rest = entries.drop_last();
        lemma_map_of_key(rest, k);
        assert(forall|i: int| 0 <= i < rest.len() ==> rest[i] == #[trigger] entries[i]);
        if map_of(entries).dom().contains(k) && entries.last().0@ != k {
            let i = choose|i: int| 0 <= i < rest.len() && (#[trigger] rest[i]).0@ == k;
            assert(entries[i].0@ == k);
        }
        if exists|i: int| 0 <= i < entries.len() && (#[trigger] entries[i]).0@ == k {
            let i = choose|i: int| 0 <= i < entries.len() && (#[trigger] entries[i]).0@ == k;
            if i < rest.len() {
                assert(rest[i].0@ == k);
            }
        }
    }
}

/// The entries are those of the map, each of them once.
pub open spec fn lists(entries: Seq<(String, String)>, map: Map<Seq<char>, Seq<char>>) -> bool {
    &&& forall|i: int|
        0 <= i < entries.len() ==> map.dom().contains((#[trigger] entries[i]).0@)
            && map[entries[i].0@] == entries[i].1@
    &&& forall|k: Seq<char>| #[trigger]
        map.dom().contains(k) ==> exists|i: int|
            0 <= i < entries.len() && (#[trigger] entries[i]).0@ == k
}

/// Where no two entries have the same key, all of them are entries of the map.
pub proof fn lemma_distinct_entries(entries: Seq<(String, String)>)
    requires
        distinct_keys(entries),
    ensures
        lists(entries, map_of(entries)),
    decreases entries.len(),
{
    if entries.len() > 0 {
        let rest = entries.drop_last();
        assert forall|i: int, j: int| 0 <= i < j < rest.len() implies (#[trigger] rest[i]).0@ != (
        #[trigger] rest[j]).0@ by {
            assert(entries[i].0@ != entries[j].0@);
        }
        lemma_distinct_entries(rest);
        assert forall|i: int| 0 <= i < entries.len() implies map_of(entries).dom().contains(
            (#[trigger] entries[i]).0@,
        ) && map_of(entries)[entries[i].0@] == entries[i].1@ by {
            if i < rest.len() {
                assert(rest[i] == entries[i]);
                assert(entries[i].0@ != entries[entries.len() - 1].0@);
            }
        }
    }
    assert forall|k: Seq<char>| #[trigger] map_of(entries).dom().contains(k) implies exists|i: int|
        0 <= i < entries.len() && (#[trigger] entries[i]).0@ == k by {
        lemma_map_of_key(entries, k);
    }
}

impl Metadata {
    #[verifier::type_invariant]
    spec fn wf(self) -> bool {
        distinct_keys(self.entries@)
    }

    /// The empty map.
    pub fn new() -> (res: Self)
        ensures
            res@ == Map::<Seq<char>, Seq<char>>::empty(),
    {
        Metadata { entries: Vec::new() }
    }

    /// The map that a list of entries stands for.
    pub fn from_entries(entries: Vec<(String, String)>) -> (res: Self)
        ensures
            res@ == map_of(entries@),
    {
        let mut res = Metadata::new();
        let ghost all = entries@;
        assert(all.take(0) =~= Seq::empty());
        for entry in it: entries
            invariant
                it.seq() == all,
                res@ == map_of(all.take(it.index() as int)),
        {
            let ghost i = it.index() as int;
            assert(all.take(i + 1).drop_last() =~= all.take(i));
            res.insert(entry.0, entry.1);
        }
        assert(all.take(all.len() as int) =~= all);
        res
    }

    /// The entries of the map, each key once.
    pub fn entries(&self) -> (res: &Vec<(String, String)>)
        ensures
            map_of(res@) == self@,
            distinct_keys(res@),
    {
        proof {
            use_type_invariant(self);
        }
        &self.entries
    }

    /// The value of `key`.
    pub fn get(&self, key: &str) -> (res: Option<&String>)
        ensures
            match res {
                Some(v) => self@.dom().contains(key@) && v@ == self@[key@],
                None => !self@.dom().contains(key@),
            },
    {
        let mut i: usize = self.entries.len();
        assert(self.entries@.take(i as int) =~= self.entries@);
        while i > 0
            invariant
                i <= self.entries@.len(),
                map_of(self.entries@.take(i as int)).dom().contains(key@)
                    == self@.dom().contains(key@),
                self@.dom().contains(key@) ==> map_of(self.entries@.take(i as int))[key@]
                    == self@[key@],
            decreases i,
        {
            let ghost upto = self.entries@.take(i as int);
            assert(upto.drop_last() =~= self.entries@.take(i - 1));
            i -= 1;
            if same_text(self.entries[i].0.as_str(), key) {
                return Some(&self.entries[i].1);
            }
        }
        None
    }

    fn without(&self, key: &str) -> (res: Vec<(String, String)>)
        ensures
            map_of(res@) == self@.remove(key@),
            distinct_keys(res@),
            forall|j: int| 0 <= j < res@.len() ==> (#[trigger] res@[j]).0@ != key@,
    {
        proof {
            use_type_invariant(self);
        }
        let ghost all = self.entries@;
        let mut kept: Vec<(String, String)> = Vec::new();
        let mut i: usize = 0;
        assert(all.take(0) =~= Seq::empty());
        assert(map_of(kept@) =~= map_of(all.take(0)).remove(key@));
        while i < self.entries.len()
            invariant
                all == self.entries@,
                distinct_keys(all),
                i <= all.len(),
                map_of(kept@) == map_of(all.take(i as int)).remove(key@),
                distinct_keys(kept@),
                forall|j: int| 0 <= j < kept@.len() ==> (#[trigger] kept@[j]).0@ != key@,
                forall|j: int, k: int|
                    0 <= j < kept@.len() && i <= k < all.len() ==> (#[trigger] kept@[j]).0@ != (
                    #[trigger] all[k]).0@,
            decreases all.len() - i,
        {
            let ghost before = kept@;
            assert(all.take(i + 1).drop_last() =~= all.take(i as int));
            if !same_text(self.entries[i].0.as_str(), key) {
                kept.push((self.entries[i].0.clone(), self.entries[i].1.clone()));
                assert(kept@.drop_last() =~= before);
            }
            assert(map_of(kept@) =~= map_of(all.take(i + 1)).remove(key@));
            i += 1;
        }
        assert(all.take(all.len() as int) =~= all);
        kept
    }

    /// Removes `key` and gives back the value that it had.
    pub fn remove(&mut self, key: &str) -> (res: Option<String>)
        ensures
            final(self)@ == old(self)@.remove(key@),
            match res {
                Some(v) => old(self)@.dom().contains(key@) && v@ == old(self)@[key@],
                None => !old(self)@.dom().contains(key@),
            },
    {
        let found = match self.get(key) {
            Some(v) => Some(v.clone()),
            None => None,
        };
        let kept = self.without(key);
        self.entries = kept;
        found
    }

    /// Gives `key` the value `value`.
    pub fn insert(&mut self, key: String, value: String)
        ensures
            final(self)@ == old(self)@.insert(key@, value@),
    {
        let mut entries = self.without(key.as_str());
        let ghost before = entries@;
        let ghost k = key@;
        entries.push((key, value));
        assert(entries@.drop_last() =~= before);
        self.entries = entries;
        assert(self@ =~= old(self)@.insert(k, value@));
    }

    /// Whether every entry of `filter` is an entry of this map.
    pub fn satisfies(&self, filter: &Metadata) -> (res: bool)
        ensures
            res == filter@.submap_of(self@),
    {
        let mut i: usize = 0;
        while i < filter.entries.len()
            invariant
                i <= filter.entries@.len(),
                forall|j: int| 0 <= j < i ==> {
                    let k = (#[trigger] filter.entries@[j]).0@;
                    self@.dom().contains(k) && filter@.dom().contains(k) && self@[k] == filter@[k]
                },
            decreases filter.entries@.len() - i,
        {
            let key = filter.entries[i].0.as_str();
            proof {
                lemma_map_of_key(filter.entries@, key@);
                assert(filter.entries@[i as int].0@ == key@);
            }
            let same = match (self.get(key), filter.get(key)) {
                (Some(a), Some(b)) => same_text(a.as_str(), b.as_str()),
                _ => false,
            };
            if !same {
                return false;
            }
            i += 1;
        }
        assert forall|k: Seq<char>| #[trigger] filter@.dom().contains(k) implies self@.dom().contains(
            k,
        ) && filter@[k] == self@[k] by {
            lemma_map_of_key(filter.entries@, k);
            let j = choose|j: int|
                0 <= j < filter.entries@.len() && (#[trigger] filter.entries@[j]).0@ == k;
            assert(filter.entries@[j].0@ == k);
        }
        true
    }
}

impl Clone for Metadata {
    fn clone(&self) -> (res: Self)
        ensures
            res@ == self@,
    {
        proof {
            use_type_invariant(self);
        }
        let mut entries: Vec<(String, String)> = Vec::new();
        let mut i: usize = 0;
        while i < self.entries.len()
            invariant
                i <= self.entries@.len(),
                entries@ =~= self.entries@.take(i as int),
            decreases self.entries@.len() - i,
        {
            entries.push((self.entries[i].0.clone(), self.entries[i].1.clone()));
            i += 1;
        }
        assert(entries@ =~= self.entries@);
        Metadata { entries }
    }
}

} // verus!
