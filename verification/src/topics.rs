//! The topic-module registry's rules: a topic's slot table (kept in name order with no
//! name twice), lookup by id, and the stable order by id in which topics are listed.
use vstd::prelude::*;
use crate::extract::slot_entry;
use crate::order::{str_lt, strictly_sorted};
use crate::text::{lemma_seq_lt_irreflexive, lemma_seq_lt_total, lemma_seq_lt_transitive, seq_lt};
use crate::types::{SlotSpec, Topic};

verus! {

/// The slot names of a table, in table order.
pub open spec fn slot_names(slots: Seq<(String, SlotSpec)>) -> Seq<Seq<char>> {
    slots.map_values(|e: (String, SlotSpec)| e.0@)
}

proof fn lemma_sorted_distinct_names(slots: Seq<(String, SlotSpec)>, i: int, j: int)
    requires
        strictly_sorted(slot_names(slots)),
        0 <= i < slots.len(),
        0 <= j < slots.len(),
        i != j,
    ensures
        slots[i].0@ != slots[j].0@,
{
    let n = slot_names(slots);
    if i < j {
        assert(seq_lt(n[i], n[j]));
    } else {
        assert(seq_lt(n[j], n[i]));
    }
    lemma_seq_lt_irreflexive(slots[i].0@);
}

/// In a table with no name twice, the entry for a name is the one that carries it.
proof fn lemma_slot_entry_at(slots: Seq<(String, SlotSpec)>, i: int)
    requires
        strictly_sorted(slot_names(slots)),
        0 <= i < slots.len(),
    ensures
        slot_entry(slots, slots[i].0@) == Some(slots[i].1),
    decreases slots.len(),
{
    let last = slots.len() - 1;
    if i != last {
        lemma_sorted_distinct_names(slots, i, last);
        let d = slots.drop_last();
        assert(slot_names(d) =~= slot_names(slots).drop_last());
        assert(d[i] == slots[i]);
        lemma_slot_entry_at(d, i);
    }
}

proof fn lemma_slot_entry_absent(slots: Seq<(String, SlotSpec)>, k: Seq<char>)
    requires
        forall|i: int| 0 <= i < slots.len() ==> slots[i].0@ != k,
    ensures
        slot_entry(slots, k) is None,
    decreases slots.len(),
{
    if slots.len() > 0 {
        lemma_slot_entry_absent(slots.drop_last(), k);
    }
}

proof fn lemma_slot_entry_some(slots: Seq<(String, SlotSpec)>, k: Seq<char>)
    requires
        slot_entry(slots, k) is Some,
    ensures
        exists|i: int| 0 <= i < slots.len() && slots[i].0@ == k && slot_entry(slots, k) == Some(slots[i].1),
    decreases slots.len(),
{
    if slots.last().0@ != k {
        lemma_slot_entry_some(slots.drop_last(), k);
        let i = choose|i: int| 0 <= i < slots.drop_last().len() && slots.drop_last()[i].0@ == k
            && slot_entry(slots.drop_last(), k) == Some(slots.drop_last()[i].1);
        assert(slots[i] == slots.drop_last()[i]);
    } else {
        assert(slots[slots.len() - 1] == slots.last());
    }
}

impl Topic {
    /// Whether the slot table is in ascending name order with no name twice.
    pub open spec fn slots_ordered(&self) -> bool {
        strictly_sorted(slot_names(self.slots@))
    }

    /// Whether the slot table is in ascending name order with no name twice.
    pub fn slots_are_ordered(&self) -> (b: bool)
        ensures
            b == self.slots_ordered(),
    {
        let n = self.slots.len();
        let ghost names = slot_names(self.slots@);
        if n == 0 {
            return true;
        }
        let mut i: usize = 1;
        while i < n
            invariant
                1 <= i <= n,
                n == self.slots.len(),
                names == slot_names(self.slots@),
                strictly_sorted(names.take(i as int)),
            decreases n - i,
        {
            assert(names[i - 1] == self.slots@[i - 1].0@);
            assert(names[i as int] == self.slots@[i as int].0@);
            if !str_lt(self.slots[i - 1].0.as_str(), self.slots[i].0.as_str()) {
                assert(!strictly_sorted(names));
                return false;
            }
            proof {
                let t = names.take(i + 1);
                assert forall|a: int, b: int| 0 <= a < b < t.len() implies seq_lt(
                    #[trigger] t[a],
                    #[trigger] t[b],
                ) by {
                    if b < i {
                        assert(names.take(i as int)[a] == t[a]);
                        assert(names.take(i as int)[b] == t[b]);
                    } else if a < i - 1 {
                        assert(names.take(i as int)[a] == t[a]);
                        assert(names.take(i as int)[i - 1] == names[i - 1]);
                        lemma_seq_lt_transitive(t[a], names[i - 1], t[b]);
                    }
                }
            }
            i = i + 1;
        }
        assert(names.take(n as int) =~= names);
        true
    }

    /// Set the vocabulary of a slot, replacing any held for that name, keeping the table in
    /// name order with no name twice.
    pub fn insert_slot(&mut self, name: String, spec: SlotSpec)
        requires
            old(self).slots_ordered(),
        ensures
            final(self).slots_ordered(),
            slot_entry(final(self).slots@, name@) == Some(spec),
            forall|k: Seq<char>|
                k != name@ ==> slot_entry(final(self).slots@, k) == slot_entry(old(self).slots@, k),
            final(self).id == old(self).id,
            final(self).ruleset == old(self).ruleset,
            final(self).description == old(self).description,
            final(self).system_prompt == old(self).system_prompt,
            final(self).tags == old(self).tags,
            final(self).rules_path == old(self).rules_path,
    {
        let ghost old_slots = self.slots@;
        let ghost old_names = slot_names(old_slots);
        let mut p: usize = 0;
        while p < self.slots.len() && str_lt(self.slots[p].0.as_str(), name.as_str())
            invariant
                p <= self.slots.len(),
                self.slots@ == old_slots,
                old_names == slot_names(old_slots),
                strictly_sorted(old_names),
                forall|j: int| 0 <= j < p ==> seq_lt(#[trigger] old_names[j], name@),
            decreases self.slots.len() - p,
        {
            p = p + 1;
        }
        let mut slots = Vec::new();
        std::mem::swap(&mut slots, &mut self.slots);
        let entry = (name, spec);
        let ghost e = entry;
        if p < slots.len() && slots[p].0 == entry.0 {
            slots.set(p, entry);
            self.slots = slots;
            proof {
                let ns = self.slots@;
                assert(ns =~= old_slots.update(p as int, e));
                assert(slot_names(ns) =~= old_names);
                lemma_slot_entry_at(ns, p as int);
                assert forall|k: Seq<char>| k != e.0@ implies slot_entry(ns, k) == slot_entry(
                    old_slots,
                    k,
                ) by {
                    if exists|i: int| 0 <= i < old_slots.len() && old_slots[i].0@ == k {
                        let i = choose|i: int| 0 <= i < old_slots.len() && old_slots[i].0@ == k;
                        assert(i != p);
                        lemma_slot_entry_at(old_slots, i);
                        assert(ns[i] == old_slots[i]);
                        lemma_slot_entry_at(ns, i);
                    } else {
                        lemma_slot_entry_absent(old_slots, k);
                        assert forall|i: int| 0 <= i < ns.len() implies ns[i].0@ != k by {
                            if i != p {
                                assert(ns[i] == old_slots[i]);
                            }
                        }
                        lemma_slot_entry_absent(ns, k);
                    }
                }
            }
        } else {
            proof {
                if p < old_slots.len() {
                    lemma_seq_lt_total(old_names[p as int], e.0@);
                    assert forall|j: int| p <= j < old_names.len() implies seq_lt(
                        e.0@,
                        #[trigger] old_names[j],
                    ) by {
                        if j > p {
                            lemma_seq_lt_transitive(e.0@, old_names[p as int], old_names[j]);
                        }
                    }
                }
            }
            slots.insert(p, entry);
            self.slots = slots;
            proof {
                let ns = self.slots@;
                let nn = slot_names(ns);
                assert(ns =~= old_slots.insert(p as int, e));
                assert(nn =~= old_names.insert(p as int, e.0@));
                assert forall|i: int, j: int| 0 <= i < j < nn.len() implies seq_lt(
                    #[trigger] nn[i],
                    #[trigger] nn[j],
                ) by {
                    if j < p {
                    } else if j == p {
                    } else if i < p {
                        lemma_seq_lt_transitive(old_names[i], e.0@, old_names[j - 1]);
                    } else if i == p {
                    } else {
                    }
                }
                assert(ns[p as int] == e);
                lemma_slot_entry_at(ns, p as int);
                assert forall|k: Seq<char>| k != e.0@ implies slot_entry(ns, k) == slot_entry(
                    old_slots,
                    k,
                ) by {
                    if exists|i: int| 0 <= i < old_slots.len() && old_slots[i].0@ == k {
                        let i = choose|i: int| 0 <= i < old_slots.len() && old_slots[i].0@ == k;
                        lemma_slot_entry_at(old_slots, i);
                        if i < p {
                            assert(ns[i] == old_slots[i]);
                            lemma_slot_entry_at(ns, i);
                        } else {
                            assert(ns[i + 1] == old_slots[i]);
                            lemma_slot_entry_at(ns, i + 1);
                        }
                    } else {
                        lemma_slot_entry_absent(old_slots, k);
                        assert forall|i: int| 0 <= i < ns.len() implies ns[i].0@ != k by {
                            if i < p {
                                assert(ns[i] == old_slots[i]);
                            } else if i > p {
                                assert(ns[i] == old_slots[i - 1]);
                            }
                        }
                        lemma_slot_entry_absent(ns, k);
                    }
                }
            }
        }
    }
}

/// The first topic with the given id.
pub open spec fn topic_with_id(topics: Seq<Topic>, id: Seq<char>) -> Option<Topic>
    decreases topics.len(),
{
    if topics.len() == 0 {
        None
    } else if topics[0].id@ == id {
        Some(topics[0])
    } else {
        topic_with_id(topics.drop_first(), id)
    }
}

/// Find one topic by id.
pub fn find_topic(topics: Vec<Topic>, id: &str) -> (r: Option<Topic>)
    ensures
        r == topic_with_id(topics@, id@),
{
    let ghost all = topics@;
    let mut list = topics;
    assert(all.subrange(0, all.len() as int) =~= all);
    let mut i: usize = 0;
    while i < list.len()
        invariant
            list@ == all,
            all == topics@,
            i <= all.len(),
            topic_with_id(all, id@) == topic_with_id(all.subrange(i as int, all.len() as int), id@),
        decreases all.len() - i,
    {
        let ghost rest = all.subrange(i as int, all.len() as int);
        assert(rest.drop_first() =~= all.subrange(i + 1, all.len() as int));
        if crate::text::str_eq(list[i].id.as_str(), id) {
            assert(rest[0] == all[i as int]);
            assert(topic_with_id(rest, id@) == Some(all[i as int]));
            let t = list.swap_remove(i);
            assert(t == all[i as int]);
            return Some(t);
        }
        i = i + 1;
    }
    None
}

/// The first position in `s` whose id sorts after `key` (or the end).
pub open spec fn first_after(s: Seq<Topic>, key: Seq<char>) -> nat
    decreases s.len(),
{
    if s.len() == 0 {
        0
    } else if seq_lt(key, s[0].id@) {
        0
    } else {
        1 + first_after(s.drop_first(), key)
    }
}

/// `s` in ascending id order, topics with equal ids kept in their given order (a stable
/// sort): each topic goes after every earlier one whose id is not after its own.
pub open spec fn by_id(s: Seq<Topic>) -> Seq<Topic>
    decreases s.len(),
{
    if s.len() == 0 {
        s
    } else {
        let sorted = by_id(s.drop_last());
        sorted.insert(first_after(sorted, s.last().id@) as int, s.last())
    }
}

/// Deterministic order so that callers (router, tests) see a stable list.
pub fn sort_topics_by_id(topics: Vec<Topic>) -> (r: Vec<Topic>)
    ensures
        r@ == by_id(topics@),
{
    let ghost all = topics@;
    let mut topics = topics;
    let total = topics.len();
    let mut sorted: Vec<Topic> = Vec::new();
    let mut n: usize = 0;
    assert(topics@ =~= all.subrange(0, total as int));
    while n < total
        invariant
            total == all.len(),
            n <= total,
            topics@ == all.subrange(n as int, total as int),
            sorted@ == by_id(all.take(n as int)),
        decreases total - n,
    {
        assert(all.take(n + 1).drop_last() =~= all.take(n as int));
        assert(all.take(n + 1).last() == all[n as int]);
        let t = topics.remove(0);
        assert(topics@ =~= all.subrange(n + 1, total as int));
        let mut p: usize = 0;
        assert(sorted@.subrange(0, sorted@.len() as int) =~= sorted@);
        while p < sorted.len() && !str_lt(t.id.as_str(), sorted[p].id.as_str())
            invariant
                p <= sorted.len(),
                first_after(sorted@, t.id@) == p + first_after(
                    sorted@.subrange(p as int, sorted@.len() as int),
                    t.id@,
                ),
            decreases sorted.len() - p,
        {
            assert(sorted@.subrange(p as int, sorted@.len() as int).drop_first() =~= sorted@.subrange(
                p + 1,
                sorted@.len() as int,
            ));
            p = p + 1;
        }
        proof {
            if p < sorted.len() {
                assert(sorted@.subrange(p as int, sorted@.len() as int)[0] == sorted@[p as int]);
            }
        }
        sorted.insert(p, t);
        n = n + 1;
    }
    assert(all.take(total as int) =~= all);
    sorted
}

/// Whether the topics are in ascending id order.
pub open spec fn ascending_ids(s: Seq<Topic>) -> bool {
    forall|i: int, j: int| 0 <= i < j < s.len() ==> !seq_lt(#[trigger] s[j].id@, #[trigger] s[i].id@)
}

proof fn lemma_first_after(s: Seq<Topic>, key: Seq<char>)
    ensures
        first_after(s, key) <= s.len(),
        forall|i: int| 0 <= i < first_after(s, key) ==> !seq_lt(key, #[trigger] s[i].id@),
        first_after(s, key) < s.len() ==> seq_lt(key, s[first_after(s, key) as int].id@),
    decreases s.len(),
{
    if s.len() > 0 && !seq_lt(key, s[0].id@) {
        lemma_first_after(s.drop_first(), key);
        assert forall|i: int| 0 <= i < first_after(s, key) implies !seq_lt(key, #[trigger] s[i].id@) by {
            if i > 0 {
                assert(s[i] == s.drop_first()[i - 1]);
            }
        }
    }
}

/// Listing law: topics come out in ascending id order, each topic exactly once.
pub proof fn lemma_by_id(s: Seq<Topic>)
    ensures
        by_id(s).len() == s.len(),
        ascending_ids(by_id(s)),
        forall|x: Topic| by_id(s).contains(x) <==> s.contains(x),
    decreases s.len(),
{
    if s.len() > 0 {
        let sorted = by_id(s.drop_last());
        lemma_by_id(s.drop_last());
        let key = s.last().id@;
        lemma_first_after(sorted, key);
        let p = first_after(sorted, key) as int;
        let r = sorted.insert(p, s.last());
        assert forall|i: int, j: int| 0 <= i < j < r.len() implies !seq_lt(
            #[trigger] r[j].id@,
            #[trigger] r[i].id@,
        ) by {
            if j < p {
                assert(r[i] == sorted[i] && r[j] == sorted[j]);
            } else if j == p {
                assert(r[i] == sorted[i]);
            } else if i < p {
                assert(r[i] == sorted[i] && r[j] == sorted[j - 1]);
            } else if i == p {
                assert(r[j] == sorted[j - 1]);
                if seq_lt(sorted[j - 1].id@, key) {
                    lemma_seq_lt_transitive(sorted[j - 1].id@, key, sorted[p].id@);
                    if j - 1 == p {
                        lemma_seq_lt_irreflexive(sorted[p].id@);
                    }
                }
            } else {
                assert(r[i] == sorted[i - 1] && r[j] == sorted[j - 1]);
            }
        }
        assert forall|x: Topic| r.contains(x) <==> s.contains(x) by {
            if r.contains(x) {
                let i = choose|i: int| 0 <= i < r.len() && r[i] == x;
                if i == p {
                    assert(s[s.len() - 1] == x);
                } else {
                    let k = if i < p {
                        i
                    } else {
                        i - 1
                    };
                    assert(sorted[k] == x);
                    assert(sorted.contains(x));
                    assert(s.drop_last().contains(x));
                    let j = choose|j: int| 0 <= j < s.drop_last().len() && s.drop_last()[j] == x;
                    assert(s[j] == x);
                }
            }
            if s.contains(x) {
                let i = choose|i: int| 0 <= i < s.len() && s[i] == x;
                if i == s.len() - 1 {
                    assert(r[p] == x);
                } else {
                    assert(s.drop_last()[i] == x);
                    assert(s.drop_last().contains(x));
                    assert(sorted.contains(x));
                    let j = choose|j: int| 0 <= j < sorted.len() && sorted[j] == x;
                    if j < p {
                        assert(r[j] == x);
                    } else {
                        assert(r[j + 1] == x);
                    }
                }
            }
        }
    }
}

} // verus!
