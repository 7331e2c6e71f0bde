//! A small map from texts to values.
use vstd::prelude::*;
use crate::text::same;

verus! {

/// What a list of entries says: of two entries with one key, the later one counts.
pub open spec fn entries_map<V>(entries: Seq<(String, V)>) -> Map<Seq<char>, V>
    decreases entries.len(),
{
    if entries.len() == 0 {
        Map::empty()
    } else {
        entries_map(entries.drop_last()).insert(entries.last().0@, entries.last().1)
    }
}

/// A map from texts to values, as an association list.
pub struct Table<V> {
    entries: Vec<(String, V)>,
}

impl<V> View for Table<V> {
    type V = Map<Seq<char>, V>;

    closed spec fn view(&self) -> Map<Seq<char>, V> {
        entries_map(self.entries@)
    }
}

proof fn lemma_listed<V>(entries: Seq<(String, V)>, i: int)
    requires
        0 <= i < entries.len(),
        forall|j: int| i < j < entries.len() ==> (#[trigger] entries[j]).0@ != entries[i].0@,
    ensures
        entries_map(entries).contains_key(entries[i].0@),
        entries_map(entries)[entries[i].0@] == entries[i].1,
    decreases entries.len(),
{
    if i < entries.len() - 1 {
        let rest = entries.drop_last();
        assert forall|j: int| i < j < rest.len() implies (#[trigger] rest[j]).0@
            != rest[i].0@ by {
            assert(rest[j] == entries[j]);
        }
        lemma_listed(rest, i);
        assert(rest[i] == entries[i]);
        assert(entries[entries.len() - 1].0@ != entries[i].0@);
    }
}

proof fn lemma_unlisted<V>(entries: Seq<(String, V)>, key: Seq<char>)
    requires
        forall|i: int| 0 <= i < entries.len() ==> (#[trigger] entries[i]).0@ != key,
    ensures
        !entries_map(entries).contains_key(key),
    decreases entries.len(),
{
    if entries.len() > 0 {
        let rest = entries.drop_last();
        assert forall|i: int| 0 <= i < rest.len() implies (#[trigger] rest[i]).0@ != key by {
            assert(rest[i] == entries[i]);
        }
        lemma_unlisted(rest, key);
        assert(entries[entries.len() - 1].0@ != key);
    }
}

proof fn lemma_removed<V>(entries: Seq<(String, V)>, i: int)
    requires
        0 <= i < entries.len(),
    ensures
        entries_map(entries.remove(i)).remove(entries[i].0@) == entries_map(entries).remove(
            entries[i].0@,
        ),
    decreases entries.len(),
{
    let key = entries[i].0@;
    let left = entries.remove(i);
    let rest = entries.drop_last();
    if i == entries.len() - 1 {
        assert(left =~= rest);
    } else {
        lemma_removed(rest, i);
        assert(left.drop_last() =~= rest.remove(i));
        assert(left.last() == entries.last());
        let last = entries.last();
        if last.0@ != key {
            assert(entries_map(left).remove(key) =~= entries_map(rest.remove(i)).remove(key).insert(
                last.0@,
                last.1,
            ));
            assert(entries_map(entries).remove(key) =~= entries_map(rest).remove(key).insert(
                last.0@,
                last.1,
            ));
        } else {
            assert(entries_map(left).remove(key) =~= entries_map(rest.remove(i)).remove(key));
            assert(entries_map(entries).remove(key) =~= entries_map(rest).remove(key));
        }
    }
    assert(entries_map(left).remove(key) =~= entries_map(entries).remove(key));
}

impl<V> Table<V> {
    pub fn new() -> (r: Self)
        ensures
            r@ == Map::<Seq<char>, V>::empty(),
    {
        Table { entries: Vec::new() }
    }

    fn position(&self, key: &str) -> (r: Option<usize>)
        ensures
            r matches Some(i) ==> i < self.entries@.len() && self@.contains_key(key@)
                && self@[key@] == self.entries@[i as int].1,
            r is None ==> !self@.contains_key(key@),
    {
        let mut i: usize = self.entries.len();
        while i > 0
            invariant
                i <= self.entries@.len(),
                forall|k: int|
                    i <= k < self.entries@.len() ==> (#[trigger] self.entries@[k]).0@ != key@,
            decreases i,
        {
            i -= 1;
            if same(self.entries[i].0.as_str(), key) {
                proof {
                    lemma_listed(self.entries@, i as int);
                }
                return Some(i);
            }
        }
        proof {
            lemma_unlisted(self.entries@, key@);
        }
        None
    }

    pub fn get(&self, key: &str) -> (r: Option<&V>)
        ensures
            r matches Some(value) ==> self@.contains_key(key@) && *value == self@[key@],
            r is None ==> !self@.contains_key(key@),
    {
        match self.position(key) {
            Some(i) => Some(&self.entries[i].1),
            None => None,
        }
    }

    pub fn contains_key(&self, key: &str) -> (r: bool)
        ensures
            r == self@.contains_key(key@),
    {
        self.position(key).is_some()
    }

    pub fn is_empty(&self) -> (r: bool)
        ensures
            r == (self@ == Map::<Seq<char>, V>::empty()),
    {
        proof {
            if self.entries@.len() > 0 {
                let n = self.entries@.len() - 1;
                lemma_listed(self.entries@, n);
            }
        }
        self.entries.len() == 0
    }

    pub fn remove(&mut self, key: &str)
        ensures
            final(self)@ == old(self)@.remove(key@),
    {
        let ghost before = self@;
        let mut i: usize = self.entries.len();
        while i > 0
            invariant
                i <= self.entries@.len(),
                self@.remove(key@) == before.remove(key@),
                forall|k: int|
                    i <= k < self.entries@.len() ==> (#[trigger] self.entries@[k]).0@ != key@,
            decreases i,
        {
            i -= 1;
            if same(self.entries[i].0.as_str(), key) {
                let ghost listed = self.entries@;
                proof {
                    lemma_removed(listed, i as int);
                }
                self.entries.remove(i);
                assert forall|k: int| i <= k < self.entries@.len() implies (
                #[trigger] self.entries@[k]).0@ != key@ by {
                    assert(self.entries@[k] == listed[k + 1]);
                }
            }
        }
        proof {
            lemma_unlisted(self.entries@, key@);
            assert(self@ =~= self@.remove(key@));
        }
    }

    pub fn insert(&mut self, key: String, value: V)
        ensures
            final(self)@ == old(self)@.insert(key@, value),
    {
        let ghost before = self@;
        self.remove(key.as_str());
        let ghost listed = self.entries@;
        let ghost name = key@;
        self.entries.push((key, value));
        proof {
            assert(self.entries@.drop_last() =~= listed);
            assert(self@ =~= before.insert(name, value));
        }
    }

    /// Keeps the entries whose keys are in `listed`.
    pub fn retain(&mut self, listed: &Vec<String>)
        ensures
            final(self)@ == old(self)@.restrict(crate::text::texts(listed@).to_set()),
    {
        let ghost before = self@;
        let ghost keys = crate::text::texts(listed@).to_set();
        let mut i: usize = self.entries.len();
        while i > 0
            invariant
                i <= self.entries@.len(),
                keys == crate::text::texts(listed@).to_set(),
                self@.restrict(keys) == before.restrict(keys),
                forall|k: int|
                    i <= k < self.entries@.len() ==> keys.contains(
                        (#[trigger] self.entries@[k]).0@,
                    ),
            decreases i,
        {
            i -= 1;
            if !is_listed(listed, self.entries[i].0.as_str()) {
                let ghost all = self.entries@;
                proof {
                    lemma_removed(all, i as int);
                    let key = all[i as int].0@;
                    assert(self@.restrict(keys) =~= self@.remove(key).restrict(keys));
                }
                self.entries.remove(i);
                proof {
                    let key = all[i as int].0@;
                    assert(self@.restrict(keys) =~= self@.remove(key).restrict(keys));
                    assert forall|k: int| i <= k < self.entries@.len() implies keys.contains(
                        (#[trigger] self.entries@[k]).0@,
                    ) by {
                        assert(self.entries@[k] == all[k + 1]);
                    }
                }
            }
        }
        proof {
            lemma_all_listed(self.entries@, keys);
            assert(self@ =~= self@.restrict(keys));
        }
    }
}

proof fn lemma_all_listed<V>(entries: Seq<(String, V)>, keys: Set<Seq<char>>)
    requires
        forall|k: int| 0 <= k < entries.len() ==> keys.contains((#[trigger] entries[k]).0@),
    ensures
        entries_map(entries).dom().subset_of(keys),
    decreases entries.len(),
{
    if entries.len() > 0 {
        let rest = entries.drop_last();
        assert forall|k: int| 0 <= k < rest.len() implies keys.contains(
            (#[trigger] rest[k]).0@,
        ) by {
            assert(rest[k] == entries[k]);
        }
        lemma_all_listed(rest, keys);
        assert(keys.contains(entries[entries.len() - 1].0@));
    }
}

/// Whether a text is among others.
pub fn is_listed(listed: &Vec<String>, key: &str) -> (r: bool)
    ensures
        r == crate::text::texts(listed@).contains(key@),
{
    let ghost all = crate::text::texts(listed@);
    let mut i: usize = 0;
    while i < listed.len()
        invariant
            i <= listed@.len(),
            all == crate::text::texts(listed@),
            forall|k: int| 0 <= k < i ==> all[k] != key@,
        decreases listed@.len() - i,
    {
        if same(listed[i].as_str(), key) {
            assert(all[i as int] == key@);
            return true;
        }
        i += 1;
    }
    false
}

} // verus!
