//! A map from offset names to values.
use vstd::prelude::*;

verus! {

/// Offsets by name. Looking a name up gives the value that was stored
/// for it last.
pub struct OffsetMap {
    entries: Vec<(String, u64)>,
}

/// The names of a sequence of entries.
pub open spec fn entry_names(es: Seq<(String, u64)>) -> Seq<Seq<char>> {
    es.map_values(|e: (String, u64)| e.0@)
}

/// The value stored last for `k` among `es`.
pub open spec fn lookup(es: Seq<(String, u64)>, k: Seq<char>) -> Option<u64>
    decreases es.len(),
{
    if es.len() == 0 {
        None
    } else if es.last().0@ == k {
        Some(es.last().1)
    } else {
        lookup(es.drop_last(), k)
    }
}

/// The map that a sequence of (name, value) entries stands for.
pub open spec fn entries_map(es: Seq<(String, u64)>) -> Map<Seq<char>, u64> {
    Map::new(|k: Seq<char>| lookup(es, k) is Some, |k: Seq<char>| lookup(es, k).unwrap())
}

/// Replacing the value of the last entry named `k` changes only `k`.
proof fn lemma_lookup_update(es: Seq<(String, u64)>, i: int, e: (String, u64), k: Seq<char>)
    requires
        0 <= i < es.len(),
        es[i].0@ == e.0@,
        forall|j: int| i < j < es.len() ==> (#[trigger] es[j]).0@ != e.0@,
    ensures
        lookup(es.update(i, e), k) == (if k == e.0@ {
            Some(e.1)
        } else {
            lookup(es, k)
        }),
    decreases es.len(),
{
    let es2 = es.update(i, e);
    if i == es.len() - 1 {
        assert(es2.drop_last() == es.drop_last());
    } else {
        assert(es2.drop_last() == es.drop_last().update(i, e));
        assert(es2.last() == es.last());
        lemma_lookup_update(es.drop_last(), i, e, k);
    }
}

/// A name that no entry has is not found.
proof fn lemma_lookup_absent(es: Seq<(String, u64)>, k: Seq<char>)
    requires
        forall|j: int| 0 <= j < es.len() ==> (#[trigger] es[j]).0@ != k,
    ensures
        lookup(es, k) is None,
    decreases es.len(),
{
    if es.len() > 0 {
        lemma_lookup_absent(es.drop_last(), k);
    }
}

/// A name is found exactly when some entry has it.
proof fn lemma_lookup_some(es: Seq<(String, u64)>, k: Seq<char>)
    ensures
        lookup(es, k) is Some <==> entry_names(es).contains(k),
    decreases es.len(),
{
    if es.len() > 0 {
        lemma_lookup_some(es.drop_last(), k);
        assert(entry_names(es.drop_last()) == entry_names(es).drop_last());
        if entry_names(es).contains(k) && es.last().0@ != k {
            let j = choose|j: int| 0 <= j < entry_names(es).len() && entry_names(es)[j] == k;
            assert(j < es.len() - 1);
            assert(entry_names(es.drop_last())[j] == k);
        }
        if es.last().0@ == k {
            assert(entry_names(es)[es.len() - 1] == k);
        }
        if entry_names(es.drop_last()).contains(k) {
            let j = choose|j: int| 0 <= j < entry_names(es.drop_last()).len() && entry_names(es.drop_last())[j] == k;
            assert(entry_names(es)[j] == k);
        }
    }
}

impl View for OffsetMap {
    type V = Map<Seq<char>, u64>;

    closed spec fn view(&self) -> Map<Seq<char>, u64> {
        entries_map(self.entries@)
    }
}

impl OffsetMap {
    /// No two entries have the same name.
    #[verifier::type_invariant]
    spec fn names_unique(&self) -> bool {
        entry_names(self.entries@).no_duplicates()
    }

    /// The entries, in the order they were first stored.
    pub closed spec fn entry_seq(&self) -> Seq<(String, u64)> {
        self.entries@
    }

    /// An empty map.
    pub fn new() -> (m: Self)
        ensures
            m@ == Map::<Seq<char>, u64>::empty(),
    {
        let m = OffsetMap { entries: Vec::new() };
        assert(m@ =~= Map::<Seq<char>, u64>::empty());
        m
    }

    /// Where the last entry named `key` stands.
    fn position(&self, key: &String) -> (r: Option<usize>)
        ensures
            match r {
                Some(i) => i < self.entries@.len() && self.entries@[i as int].0@ == key@
                    && forall|j: int|
                    i < j < self.entries@.len() ==> (#[trigger] self.entries@[j]).0@ != key@,
                None => forall|j: int|
                    0 <= j < self.entries@.len() ==> (#[trigger] self.entries@[j]).0@ != key@,
            },
    {
        let mut i = self.entries.len();
        while i > 0
            invariant
                i <= self.entries@.len(),
                forall|j: int| i <= j < self.entries@.len() ==> (#[trigger] self.entries@[j]).0@ != key@,
            decreases i,
        {
            if self.entries[i - 1].0 == *key {
                return Some(i - 1);
            }
            i = i - 1;
        }
        None
    }

    /// The value stored for `key`, if any.
    pub fn get(&self, key: &String) -> (r: Option<u64>)
        ensures
            r == (if self@.contains_key(key@) {
                Some(self@[key@])
            } else {
                None::<u64>
            }),
    {
        match self.position(key) {
            Some(i) => {
                let ghost es = self.entries@;
                proof {
                    lemma_lookup_update(es, i as int, es[i as int], key@);
                    assert(es.update(i as int, es[i as int]) == es);
                }
                Some(self.entries[i].1)
            },
            None => {
                proof {
                    lemma_lookup_absent(self.entries@, key@);
                }
                None
            },
        }
    }

    /// Stores `value` for `key`, in place of any value stored before.
    pub fn insert(&mut self, key: String, value: u64)
        ensures
            final(self)@ == old(self)@.insert(key@, value),
    {
        proof {
            use_type_invariant(&*self);
        }
        let ghost es = self.entries@;
        match self.position(&key) {
            Some(i) => {
                let ghost e = (key, value);
                assert(entry_names(es.update(i as int, e)) =~= entry_names(es));
                let mut entries: Vec<(String, u64)> = Vec::new();
                std::mem::swap(&mut entries, &mut self.entries);
                entries.set(i, (key, value));
                self.entries = entries;
                proof {
                    assert forall|k: Seq<char>|
                        lookup(self.entries@, k) == (if k == e.0@ {
                            Some(value)
                        } else {
                            lookup(es, k)
                        }) by {
                        lemma_lookup_update(es, i as int, e, k);
                    }
                    assert(self@ =~= entries_map(es).insert(e.0@, value));
                }
            },
            None => {
                assert(!entry_names(es).contains(key@));
                assert(entry_names(es.push((key, value))) =~= entry_names(es).push(key@));
                let mut entries: Vec<(String, u64)> = Vec::new();
                std::mem::swap(&mut entries, &mut self.entries);
                entries.push((key, value));
                self.entries = entries;
                proof {
                    assert(self.entries@.drop_last() == es);
                    assert(self@ =~= entries_map(es).insert(self.entries@.last().0@, value));
                }
            },
        }
    }

    /// Stores every entry of `other`, whose values win over those already
    /// stored under the same names.
    pub fn extend(&mut self, other: &OffsetMap)
        ensures
            final(self)@ == old(self)@.union_prefer_right(other@),
    {
        let n: usize = other.entries.len();
        let mut i: usize = 0;
        while i < n
            invariant
                n == other.entries@.len(),
                i <= n,
                self@ == old(self)@.union_prefer_right(entries_map(other.entries@.take(i as int))),
            decreases n - i,
        {
            let key = other.entries[i].0.clone();
            let value: u64 = other.entries[i].1;
            let ghost before = self@;
            self.insert(key, value);
            proof {
                let es = other.entries@;
                assert(es.take(i + 1).drop_last() == es.take(i as int));
                assert(entries_map(es.take(i + 1)) =~= entries_map(es.take(i as int)).insert(
                    es[i as int].0@,
                    es[i as int].1,
                ));
                assert(self@ =~= old(self)@.union_prefer_right(entries_map(es.take(i + 1))));
            }
            i = i + 1;
        }
        assert(other.entries@.take(n as int) == other.entries@);
    }

    /// The number of names stored.
    pub fn len(&self) -> (r: usize)
        ensures
            r == self@.dom().len(),
            r == self.entry_seq().len(),
    {
        proof {
            use_type_invariant(self);
            let es = self.entries@;
            assert forall|k: Seq<char>| self@.dom().contains(k) <==> entry_names(es).to_set().contains(k) by {
                lemma_lookup_some(es, k);
            }
            assert(self@.dom() =~= entry_names(es).to_set());
            entry_names(es).unique_seq_to_set();
        }
        self.entries.len()
    }

    /// The `i`-th entry, in the order names were first stored.
    pub fn entry(&self, i: usize) -> (r: (&String, u64))
        requires
            i < self.entry_seq().len(),
        ensures
            *r.0 == self.entry_seq()[i as int].0,
            r.1 == self.entry_seq()[i as int].1,
            self@.contains_key(r.0@),
            self@[r.0@] == r.1,
    {
        proof {
            use_type_invariant(self);
            let es = self.entries@;
            assert forall|j: int| i < j < es.len() implies (#[trigger] es[j]).0@ != es[i as int].0@ by {
                assert(entry_names(es)[j] == es[j].0@);
                assert(entry_names(es)[i as int] == es[i as int].0@);
            }
            lemma_lookup_update(es, i as int, es[i as int], es[i as int].0@);
            assert(es.update(i as int, es[i as int]) == es);
        }
        (&self.entries[i].0, self.entries[i].1)
    }
}

} // verus!
