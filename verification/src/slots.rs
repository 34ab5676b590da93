//! Fenced slot values keyed by slot name: a finite map from name to value.
use vstd::prelude::*;

verus! {

/// Slot name → value. A name is held at most once.
#[derive(Debug, Clone, PartialEq, Eq)]
pub struct SlotMap {
    entries: Vec<(String, String)>,
}

/// The value held for `key` in an entry list, the first entry with that name winning.
pub open spec fn entries_lookup(entries: Seq<(String, String)>, key: Seq<char>) -> Option<Seq<char>>
    decreases entries.len(),
{
    if entries.len() == 0 {
        None
    } else if entries[0].0@ == key {
        Some(entries[0].1@)
    } else {
        entries_lookup(entries.drop_first(), key)
    }
}

impl SlotMap {
    /// The value held for `key`, if any.
    pub closed spec fn lookup(&self, key: Seq<char>) -> Option<Seq<char>> {
        entries_lookup(self.entries@, key)
    }

    /// The number of names held.
    pub closed spec fn size(&self) -> nat {
        self.entries@.len()
    }

    /// The empty map.
    pub fn new() -> (m: SlotMap)
        ensures
            forall|k: Seq<char>| m.lookup(k) is None,
            m.size() == 0,
    {
        SlotMap { entries: Vec::new() }
    }

    /// The value held for `key`.
    pub fn get(&self, key: &str) -> (r: Option<&String>)
        ensures
            r matches Some(v) ==> self.lookup(key@) == Some(v@),
            r is None ==> self.lookup(key@) is None,
    {
        let mut i: usize = 0;
        assert(self.entries@.subrange(0, self.entries@.len() as int) =~= self.entries@);
        while i < self.entries.len()
            invariant
                i <= self.entries.len(),
                self.lookup(key@) == entries_lookup(
                    self.entries@.subrange(i as int, self.entries@.len() as int),
                    key@,
                ),
            decreases self.entries.len() - i,
        {
            let ghost rest = self.entries@.subrange(i as int, self.entries@.len() as int);
            assert(rest.drop_first() =~= self.entries@.subrange(
                i + 1,
                self.entries@.len() as int,
            ));
            if crate::text::str_eq(self.entries[i].0.as_str(), key) {
                return Some(&self.entries[i].1);
            }
            i = i + 1;
        }
        None
    }

    /// Hold `value` for `key`, replacing any value held for it before.
    pub fn insert(&mut self, key: String, value: String)
        ensures
            final(self).lookup(key@) == Some(value@),
            forall|k: Seq<char>| k != key@ ==> final(self).lookup(k) == old(self).lookup(k),
    {
        let ghost old_entries = self.entries@;
        let mut i: usize = 0;
        while i < self.entries.len()
            invariant
                i <= self.entries.len(),
                self.entries@ == old_entries,
                old(self).entries@ == old_entries,
                forall|j: int| 0 <= j < i ==> self.entries@[j].0@ != key@,
            decreases self.entries.len() - i,
        {
            if self.entries[i].0 == key {
                let ghost before = self.entries@;
                let mut entries = Vec::new();
                std::mem::swap(&mut entries, &mut self.entries);
                entries.set(i, (key, value));
                self.entries = entries;
                proof {
                    lemma_lookup_update(before, i as int, self.entries@[i as int]);
                    assert(self.entries@ =~= before.update(i as int, self.entries@[i as int]));
                    assert forall|k: Seq<char>| k != key@ implies self.lookup(k) == entries_lookup(
                        old_entries,
                        k,
                    ) by {}
                }
                return;
            }
            i = i + 1;
        }
        self.entries.push((key, value));
        proof {
            lemma_lookup_push(old_entries, self.entries@.last());
        }
    }
}

proof fn lemma_lookup_push(entries: Seq<(String, String)>, e: (String, String))
    requires
        forall|j: int| 0 <= j < entries.len() ==> entries[j].0@ != e.0@,
    ensures
        entries_lookup(entries.push(e), e.0@) == Some(e.1@),
        forall|k: Seq<char>|
            k != e.0@ ==> entries_lookup(entries.push(e), k) == entries_lookup(entries, k),
    decreases entries.len(),
{
    if entries.len() > 0 {
        assert(entries.push(e).drop_first() =~= entries.drop_first().push(e));
        lemma_lookup_push(entries.drop_first(), e);
        assert forall|k: Seq<char>| k != e.0@ implies entries_lookup(entries.push(e), k)
            == entries_lookup(entries, k) by {
            assert(entries.push(e)[0] == entries[0]);
            if entries[0].0@ != k {
                assert(entries_lookup(entries.push(e), k) == entries_lookup(
                    entries.drop_first().push(e),
                    k,
                ));
                assert(entries_lookup(entries, k) == entries_lookup(entries.drop_first(), k));
            }
        }
    } else {
        assert(entries.push(e).drop_first() =~= Seq::<(String, String)>::empty());
        assert forall|k: Seq<char>| k != e.0@ implies entries_lookup(entries.push(e), k)
            == entries_lookup(entries, k) by {
            assert(entries_lookup(entries.push(e).drop_first(), k) is None);
        }
    }
}

proof fn lemma_lookup_update(entries: Seq<(String, String)>, i: int, e: (String, String))
    requires
        0 <= i < entries.len(),
        entries[i].0@ == e.0@,
        forall|j: int| 0 <= j < i ==> entries[j].0@ != e.0@,
    ensures
        entries_lookup(entries.update(i, e), e.0@) == Some(e.1@),
        forall|k: Seq<char>|
            k != e.0@ ==> entries_lookup(entries.update(i, e), k) == entries_lookup(entries, k),
    decreases entries.len(),
{
    if i > 0 {
        assert(entries.update(i, e).drop_first() =~= entries.drop_first().update(i - 1, e));
        lemma_lookup_update(entries.drop_first(), i - 1, e);
        assert forall|k: Seq<char>| k != e.0@ implies entries_lookup(entries.update(i, e), k)
            == entries_lookup(entries, k) by {
            assert(entries.update(i, e)[0] == entries[0]);
            if entries[0].0@ != k {
                assert(entries_lookup(entries.update(i, e), k) == entries_lookup(
                    entries.drop_first().update(i - 1, e),
                    k,
                ));
                assert(entries_lookup(entries, k) == entries_lookup(entries.drop_first(), k));
            }
        }
    } else {
        assert(entries.update(i, e).drop_first() =~= entries.drop_first());
        assert forall|k: Seq<char>| k != e.0@ implies entries_lookup(entries.update(i, e), k)
            == entries_lookup(entries, k) by {
            assert(entries.update(i, e)[0] == e);
        }
    }
}

} // verus!
