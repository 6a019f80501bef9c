//! A small map keyed by text, kept as a list of entries whose keys are
//! pairwise distinct. Inserting an existing key replaces its value in place.

use vstd::prelude::*;

verus! {

pub struct TextMap<V> {
    entries: Vec<(String, V)>,
}

/// The map a list of entries stands for, later entries winning.
pub open spec fn entries_map<V>(es: Seq<(String, V)>) -> Map<Seq<char>, V>
    decreases es.len(),
{
    if es.len() == 0 {
        Map::empty()
    } else {
        entries_map(es.drop_last()).insert(es.last().0@, es.last().1)
    }
}

/// No two entries share a key.
pub open spec fn keys_distinct<V>(es: Seq<(String, V)>) -> bool {
    forall|i: int, j: int|
        0 <= i < es.len() && 0 <= j < es.len() && i != j ==> #[trigger] es[i].0@ != #[trigger] es[j].0@
}

proof fn lemma_absent<V>(es: Seq<(String, V)>, k: Seq<char>)
    requires
        forall|i: int| 0 <= i < es.len() ==> #[trigger] es[i].0@ != k,
    ensures
        !entries_map(es).contains_key(k),
    decreases es.len(),
{
    if es.len() > 0 {
        assert(es.last().0@ != k);
        lemma_absent(es.drop_last(), k);
    }
}

proof fn lemma_at<V>(es: Seq<(String, V)>, j: int)
    requires
        keys_distinct(es),
        0 <= j < es.len(),
    ensures
        entries_map(es).contains_key(es[j].0@),
        entries_map(es)[es[j].0@] == es[j].1,
    decreases es.len(),
{
    if j < es.len() - 1 {
        let d = es.drop_last();
        assert(d[j] == es[j]);
        assert(keys_distinct(d)) by {
            assert forall|a: int, b: int|
                0 <= a < d.len() && 0 <= b < d.len() && a != b implies #[trigger] d[a].0@
                != #[trigger] d[b].0@ by {
                assert(d[a] == es[a] && d[b] == es[b]);
            }
        }
        lemma_at(d, j);
        assert(es[es.len() - 1].0@ != es[j].0@);
    }
}

proof fn lemma_update<V>(es: Seq<(String, V)>, j: int, e: (String, V))
    requires
        keys_distinct(es),
        0 <= j < es.len(),
        e.0@ == es[j].0@,
    ensures
        entries_map(es.update(j, e)) == entries_map(es).insert(e.0@, e.1),
    decreases es.len(),
{
    let u = es.update(j, e);
    if j == es.len() - 1 {
        assert(u.drop_last() =~= es.drop_last());
        assert(entries_map(u) =~= entries_map(es).insert(e.0@, e.1));
    } else {
        let d = es.drop_last();
        assert(u.drop_last() =~= d.update(j, e));
        assert(keys_distinct(d)) by {
            assert forall|a: int, b: int|
                0 <= a < d.len() && 0 <= b < d.len() && a != b implies #[trigger] d[a].0@
                != #[trigger] d[b].0@ by {
                assert(d[a] == es[a] && d[b] == es[b]);
            }
        }
        lemma_update(d, j, e);
        assert(es[es.len() - 1].0@ != es[j].0@);
        assert(u.last() == es.last());
        assert(entries_map(u) =~= entries_map(es).insert(e.0@, e.1));
    }
}

impl<V> TextMap<V> {
    #[verifier::type_invariant]
    spec fn inv(self) -> bool {
        keys_distinct(self.entries@)
    }

    /// The map's contents.
    pub closed spec fn view(&self) -> Map<Seq<char>, V> {
        entries_map(self.entries@)
    }

    pub fn new() -> (r: Self)
        ensures
            r.view() == Map::<Seq<char>, V>::empty(),
    {
        TextMap { entries: Vec::new() }
    }

    /// Index of the entry with key `key`, if there is one.
    fn position(&self, key: &String) -> (r: Option<usize>)
        ensures
            match r {
                Some(j) => j < self.entries@.len() && self.entries@[j as int].0@ == key@,
                None => forall|i: int|
                    0 <= i < self.entries@.len() ==> #[trigger] self.entries@[i].0@ != key@,
            },
    {
        let mut i: usize = 0;
        while i < self.entries.len()
            invariant
                0 <= i <= self.entries@.len(),
                forall|k: int| 0 <= k < i ==> #[trigger] self.entries@[k].0@ != key@,
            decreases self.entries@.len() - i,
        {
            if self.entries[i].0 == *key {
                return Some(i);
            }
            i += 1;
        }
        None
    }

    /// Sets the value of `key`, replacing any value it had.
    pub fn insert(&mut self, key: String, value: V)
        ensures
            final(self).view() == old(self).view().insert(key@, value),
    {
        proof {
            use_type_invariant(&*self);
        }
        let ghost k = key@;
        let pos = self.position(&key);
        let mut es: Vec<(String, V)> = Vec::new();
        std::mem::swap(&mut es, &mut self.entries);
        let ghost before = es@;
        match pos {
            Some(j) => {
                proof {
                    lemma_update(before, j as int, (key, value));
                }
                es.set(j, (key, value));
                assert(keys_distinct(es@)) by {
                    assert forall|a: int, b: int|
                        0 <= a < es@.len() && 0 <= b < es@.len() && a != b implies #[trigger] es@[a].0@
                        != #[trigger] es@[b].0@ by {
                        assert(a != j ==> es@[a] == before[a]);
                        assert(b != j ==> es@[b] == before[b]);
                    }
                }
            },
            None => {
                es.push((key, value));
                assert(es@.drop_last() =~= before);
                assert(keys_distinct(es@)) by {
                    assert forall|a: int, b: int|
                        0 <= a < es@.len() && 0 <= b < es@.len() && a != b implies #[trigger] es@[a].0@
                        != #[trigger] es@[b].0@ by {
                        if a < before.len() {
                            assert(es@[a] == before[a]);
                        }
                        if b < before.len() {
                            assert(es@[b] == before[b]);
                        }
                    }
                }
            },
        }
        self.entries = es;
        assert(k == key@);
    }

    /// The value of `key`, if it has one.
    pub fn get(&self, key: &String) -> (r: Option<&V>)
        ensures
            match r {
                Some(v) => self.view().contains_key(key@) && *v == self.view()[key@],
                None => !self.view().contains_key(key@),
            },
    {
        proof {
            use_type_invariant(self);
        }
        match self.position(key) {
            Some(j) => {
                proof {
                    lemma_at(self.entries@, j as int);
                }
                Some(&self.entries[j].1)
            },
            None => {
                proof {
                    lemma_absent(self.entries@, key@);
                }
                None
            },
        }
    }

    /// Whether `key` has a value.
    pub fn contains_key(&self, key: &String) -> (r: bool)
        ensures
            r == self.view().contains_key(key@),
    {
        self.get(key).is_some()
    }
}

} // verus!
