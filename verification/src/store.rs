//! The datastore's own rules, apart from the storage itself: how a partial update merges
//! into a stored lesson, and which trusted lessons tag-matched retrieval hands to
//! extraction (k≈1: more retrieved hurts).
use vstd::prelude::*;
use crate::types::{
    CorrectionType, EngineError, StoredStrategyItem, StrategyItem, StrategyItemPatch, TrustState,
    correction_type_text, trust_state_text,
};

verus! {

impl StoredStrategyItem {
    /// The lesson as a few-shot example.
    pub fn to_strategy_item(&self) -> (s: StrategyItem)
        ensures
            s.title == self.title,
            s.description == self.description,
            s.content == self.content,
            s.tags@ == self.tags@,
    {
        let tags = self.tags.clone();
        assert(tags@ =~= self.tags@);
        StrategyItem {
            title: self.title.clone(),
            description: self.description.clone(),
            content: self.content.clone(),
            tags,
        }
    }
}

/// A stored lesson after a partial update: each field the patch sets replaces the stored
/// one; identity, text, tags and provenance never change.
pub open spec fn patched(existing: StoredStrategyItem, patch: StrategyItemPatch) -> StoredStrategyItem {
    StoredStrategyItem {
        trust_state: match patch.trust_state {
            Some(t) => t,
            None => existing.trust_state,
        },
        helpful: match patch.helpful {
            Some(h) => h,
            None => existing.helpful,
        },
        harmful: match patch.harmful {
            Some(h) => h,
            None => existing.harmful,
        },
        gate: match patch.gate {
            Some(g) => Some(g),
            None => existing.gate,
        },
        approved_by: match patch.approved_by {
            Some(a) => Some(a),
            None => existing.approved_by,
        },
        approved_at: match patch.approved_at {
            Some(a) => Some(a),
            None => existing.approved_at,
        },
        ..existing
    }
}

/// Merge a partial update into a stored lesson.
pub fn apply_patch(existing: StoredStrategyItem, patch: StrategyItemPatch) -> (r: StoredStrategyItem)
    ensures
        r == patched(existing, patch),
{
    let StrategyItemPatch { trust_state, helpful, harmful, gate, approved_by, approved_at } = patch;
    let mut r = existing;
    if let Some(t) = trust_state {
        r.trust_state = t;
    }
    if let Some(h) = helpful {
        r.helpful = h;
    }
    if let Some(h) = harmful {
        r.harmful = h;
    }
    if let Some(g) = gate {
        r.gate = Some(g);
    }
    if let Some(a) = approved_by {
        r.approved_by = Some(a);
    }
    if let Some(a) = approved_at {
        r.approved_at = Some(a);
    }
    r
}

/// A lesson's ranking score: helpful minus harmful votes.
pub open spec fn score(item: StoredStrategyItem) -> int {
    item.helpful - item.harmful
}

/// Whether a lesson may be retrieved for these tags: it is trusted and shares a tag.
pub open spec fn retrievable(item: StoredStrategyItem, tags: Seq<String>) -> bool {
    &&& item.trust_state == TrustState::Trusted
    &&& exists|i: int, j: int|
        0 <= i < item.tags@.len() && 0 <= j < tags.len() && #[trigger] item.tags@[i]@
            == #[trigger] tags[j]@
}

/// The retrievable lessons, in stored order.
pub open spec fn retrievable_items(items: Seq<StoredStrategyItem>, tags: Seq<String>) -> Seq<
    StoredStrategyItem,
>
    decreases items.len(),
{
    if items.len() == 0 {
        Seq::empty()
    } else {
        let before = retrievable_items(items.drop_last(), tags);
        if retrievable(items.last(), tags) {
            before.push(items.last())
        } else {
            before
        }
    }
}

/// The first position in `s` whose score is below `v` (or the end).
pub open spec fn first_lower(s: Seq<StoredStrategyItem>, v: int) -> nat
    decreases s.len(),
{
    if s.len() == 0 {
        0
    } else if score(s[0]) < v {
        0
    } else {
        1 + first_lower(s.drop_first(), v)
    }
}

/// `s` by descending score, ties kept in their stored order (a stable sort): each lesson
/// goes after every earlier one that scores at least as much.
pub open spec fn by_score(s: Seq<StoredStrategyItem>) -> Seq<StoredStrategyItem>
    decreases s.len(),
{
    if s.len() == 0 {
        s
    } else {
        let sorted = by_score(s.drop_last());
        sorted.insert(first_lower(sorted, score(s.last())) as int, s.last())
    }
}

/// Tag-matched retrieval: the best-scoring `k` retrievable lessons.
pub open spec fn retrieved(items: Seq<StoredStrategyItem>, tags: Seq<String>, k: nat) -> Seq<
    StoredStrategyItem,
> {
    let sorted = by_score(retrievable_items(items, tags));
    if k < sorted.len() {
        sorted.take(k as int)
    } else {
        sorted
    }
}

/// Whether `s` never rises in score.
pub open spec fn descending(s: Seq<StoredStrategyItem>) -> bool {
    forall|i: int, j: int| 0 <= i < j < s.len() ==> score(#[trigger] s[i]) >= score(#[trigger] s[j])
}

proof fn lemma_first_lower(s: Seq<StoredStrategyItem>, v: int)
    ensures
        first_lower(s, v) <= s.len(),
        forall|i: int| 0 <= i < first_lower(s, v) ==> score(#[trigger] s[i]) >= v,
        first_lower(s, v) < s.len() ==> score(s[first_lower(s, v) as int]) < v,
    decreases s.len(),
{
    if s.len() > 0 && score(s[0]) >= v {
        lemma_first_lower(s.drop_first(), v);
        assert forall|i: int| 0 <= i < first_lower(s, v) implies score(#[trigger] s[i]) >= v by {
            if i > 0 {
                assert(s[i] == s.drop_first()[i - 1]);
            }
        }
    }
}

/// Ranking keeps exactly the lessons it was given and orders them by descending score.
pub proof fn lemma_by_score(s: Seq<StoredStrategyItem>)
    ensures
        by_score(s).len() == s.len(),
        descending(by_score(s)),
        forall|x: StoredStrategyItem| by_score(s).contains(x) <==> s.contains(x),
    decreases s.len(),
{
    if s.len() > 0 {
        let sorted = by_score(s.drop_last());
        lemma_by_score(s.drop_last());
        let v = score(s.last());
        lemma_first_lower(sorted, v);
        let p = first_lower(sorted, v) as int;
        let r = sorted.insert(p, s.last());
        assert forall|i: int, j: int| 0 <= i < j < r.len() implies score(#[trigger] r[i]) >= score(
            #[trigger] r[j],
        ) by {
            if j < p {
                assert(r[i] == sorted[i] && r[j] == sorted[j]);
            } else if j == p {
                assert(r[i] == sorted[i]);
            } else if i < p {
                assert(r[i] == sorted[i] && r[j] == sorted[j - 1]);
            } else if i == p {
                assert(r[j] == sorted[j - 1]);
                assert(score(sorted[p]) < v);
            } else {
                assert(r[i] == sorted[i - 1] && r[j] == sorted[j - 1]);
            }
        }
        assert forall|x: StoredStrategyItem| r.contains(x) <==> s.contains(x) by {
            if r.contains(x) {
                let i = choose|i: int| 0 <= i < r.len() && r[i] == x;
                if i == p {
                    assert(s[s.len() - 1] == x);
                } else {
                    let k = if i < p {
                        i
                    } else {
                        i - 1
                    };
                    assert(sorted[k] == x);
                    assert(sorted.contains(x));
                    assert(s.drop_last().contains(x));
                    let j = choose|j: int| 0 <= j < s.drop_last().len() && s.drop_last()[j] == x;
                    assert(s[j] == x);
                }
            }
            if s.contains(x) {
                let i = choose|i: int| 0 <= i < s.len() && s[i] == x;
                if i == s.len() - 1 {
                    assert(r[p] == x);
                } else {
                    assert(s.drop_last()[i] == x);
                    assert(s.drop_last().contains(x));
                    assert(sorted.contains(x));
                    let j = choose|j: int| 0 <= j < sorted.len() && sorted[j] == x;
                    if j < p {
                        assert(r[j] == x);
                    } else {
                        assert(r[j + 1] == x);
                    }
                }
            }
        }
    }
}

proof fn lemma_retrievable_items(items: Seq<StoredStrategyItem>, tags: Seq<String>)
    ensures
        forall|x: StoredStrategyItem|
            retrievable_items(items, tags).contains(x) ==> items.contains(x) && retrievable(x, tags),
    decreases items.len(),
{
    if items.len() > 0 {
        lemma_retrievable_items(items.drop_last(), tags);
        let before = retrievable_items(items.drop_last(), tags);
        let r = retrievable_items(items, tags);
        assert forall|x: StoredStrategyItem| r.contains(x) implies items.contains(x)
            && retrievable(x, tags) by {
            let i = choose|i: int| 0 <= i < r.len() && r[i] == x;
            if i < before.len() {
                assert(before[i] == x);
                assert(before.contains(x));
                assert(items.drop_last().contains(x));
                let j = choose|j: int| 0 <= j < items.drop_last().len() && items.drop_last()[j] == x;
                assert(items[j] == x);
            } else {
                assert(x == items.last());
                assert(items[items.len() - 1] == x);
            }
        }
    }
}

/// Retrieval law: only trusted lessons that share a tag are handed out, at most `k` of
/// them, best score first.
pub proof fn lemma_retrieval_sound(items: Seq<StoredStrategyItem>, tags: Seq<String>, k: nat)
    ensures
        retrieved(items, tags, k).len() <= k,
        descending(retrieved(items, tags, k)),
        forall|i: int|
            0 <= i < retrieved(items, tags, k).len() ==> {
                let x = #[trigger] retrieved(items, tags, k)[i];
                &&& items.contains(x)
                &&& x.trust_state == TrustState::Trusted
                &&& retrievable(x, tags)
            },
{
    let f = retrievable_items(items, tags);
    lemma_retrievable_items(items, tags);
    lemma_by_score(f);
    let sorted = by_score(f);
    let r = retrieved(items, tags, k);
    assert forall|i: int| 0 <= i < r.len() implies {
        let x = #[trigger] r[i];
        &&& items.contains(x)
        &&& x.trust_state == TrustState::Trusted
        &&& retrievable(x, tags)
    } by {
        assert(r[i] == sorted[i]);
        assert(sorted.contains(sorted[i]));
        assert(f.contains(r[i]));
        assert(items.contains(r[i]) && retrievable(r[i], tags));
    }
    assert forall|i: int, j: int| 0 <= i < j < r.len() implies score(#[trigger] r[i]) >= score(
        #[trigger] r[j],
    ) by {
        assert(r[i] == sorted[i] && r[j] == sorted[j]);
    }
}

proof fn lemma_retrievable_items_complete(items: Seq<StoredStrategyItem>, tags: Seq<String>, x: StoredStrategyItem)
    requires
        items.contains(x),
        retrievable(x, tags),
    ensures
        retrievable_items(items, tags).contains(x),
    decreases items.len(),
{
    let before = retrievable_items(items.drop_last(), tags);
    if items.last() == x {
        assert(retrievable_items(items, tags) == before.push(x));
        assert(before.push(x)[before.len() as int] == x);
    } else {
        let j = choose|j: int| 0 <= j < items.len() && items[j] == x;
        assert(j < items.len() - 1);
        assert(items.drop_last()[j] == x);
        lemma_retrievable_items_complete(items.drop_last(), tags, x);
        let i = choose|i: int| 0 <= i < before.len() && before[i] == x;
        if retrievable(items.last(), tags) {
            assert(before.push(items.last())[i] == x);
        }
    }
}

/// Retrieval law: nothing better is left out. A trusted lesson that shares a tag and is not
/// handed out scores no higher than any lesson that is; and fewer than `k` lessons are
/// handed out only when every such lesson is.
pub proof fn lemma_retrieval_takes_the_best(items: Seq<StoredStrategyItem>, tags: Seq<String>, k: nat)
    ensures
        forall|x: StoredStrategyItem, y: StoredStrategyItem|
            items.contains(x) && x.trust_state == TrustState::Trusted && retrievable(x, tags)
                && !retrieved(items, tags, k).contains(x) && #[trigger] retrieved(items, tags, k).contains(y)
                ==> #[trigger] score(x) <= score(y),
        retrieved(items, tags, k).len() == k || forall|x: StoredStrategyItem|
            items.contains(x) && retrievable(x, tags) ==> #[trigger] retrieved(items, tags, k).contains(x),
{
    let f = retrievable_items(items, tags);
    lemma_by_score(f);
    let sorted = by_score(f);
    let r = retrieved(items, tags, k);
    assert forall|x: StoredStrategyItem, y: StoredStrategyItem|
        items.contains(x) && x.trust_state == TrustState::Trusted && retrievable(x, tags) && !r.contains(x)
            && #[trigger] r.contains(y) implies #[trigger] score(x) <= score(y) by {
        lemma_retrievable_items_complete(items, tags, x);
        assert(sorted.contains(x));
        let ix = choose|i: int| 0 <= i < sorted.len() && sorted[i] == x;
        let iy = choose|i: int| 0 <= i < r.len() && r[i] == y;
        if k < sorted.len() {
            assert(r[iy] == sorted[iy]);
            if ix < k {
                assert(r[ix] == x);
            }
            assert(score(sorted[iy]) >= score(sorted[ix]));
        } else {
            assert(r[ix] == x);
        }
    }
    if r.len() != k {
        assert(!(k < sorted.len()));
        assert forall|x: StoredStrategyItem| items.contains(x) && retrievable(x, tags) implies #[trigger] r.contains(
            x,
        ) by {
            lemma_retrievable_items_complete(items, tags, x);
        }
    }
}

/// Whether every pair of `r`, taken in order, stands in the same order in `s`.
spec fn in_order_of(r: Seq<StoredStrategyItem>, s: Seq<StoredStrategyItem>) -> bool {
    forall|i: int, j: int|
        0 <= i < j < r.len() ==> #[trigger] pair_in_order(r, s, i, j)
}

/// Whether `r[i]` and `r[j]` stand in `s` in that order.
spec fn pair_in_order(r: Seq<StoredStrategyItem>, s: Seq<StoredStrategyItem>, i: int, j: int) -> bool {
    exists|p: int, q: int|
        0 <= p < q < s.len() && #[trigger] s[p] == r[i] && #[trigger] s[q] == r[j]
}

/// Whether every equally scored pair of `r`, taken in order, stands in the same order in `s`.
spec fn ties_in_order_of(r: Seq<StoredStrategyItem>, s: Seq<StoredStrategyItem>) -> bool {
    forall|i: int, j: int|
        #![trigger r[i], r[j]]
        0 <= i < j < r.len() && score(r[i]) == score(r[j]) ==> exists|p: int, q: int|
            0 <= p < q < s.len() && #[trigger] s[p] == #[trigger] r[i] && #[trigger] s[q] == #[trigger] r[j]
}

proof fn lemma_by_score_stable(s: Seq<StoredStrategyItem>)
    ensures
        ties_in_order_of(by_score(s), s),
    decreases s.len(),
{
    if s.len() > 0 {
        let d = s.drop_last();
        let x = s.last();
        lemma_by_score_stable(d);
        lemma_by_score(d);
        let sorted = by_score(d);
        let v = score(x);
        lemma_first_lower(sorted, v);
        let p0 = first_lower(sorted, v) as int;
        let r = sorted.insert(p0, x);
        assert(r == by_score(s));
        assert forall|i: int, j: int|
            #![trigger r[i], r[j]]
            0 <= i < j < r.len() && score(r[i]) == score(r[j]) implies exists|p: int, q: int|
                0 <= p < q < s.len() && #[trigger] s[p] == #[trigger] r[i] && #[trigger] s[q] == #[trigger] r[j] by {
            if i == p0 {
                assert(r[j] == sorted[j - 1]);
                assert(score(sorted[j - 1]) <= score(sorted[p0]));
                assert(false);
            } else if j == p0 {
                assert(r[i] == sorted[i]);
                assert(sorted.contains(sorted[i]));
                assert(d.contains(sorted[i]));
                let p = choose|p: int| 0 <= p < d.len() && d[p] == sorted[i];
                assert(s[p] == r[i] && s[s.len() - 1] == r[j]);
            } else {
                let i2 = if i < p0 { i } else { i - 1 };
                let j2 = if j < p0 { j } else { j - 1 };
                assert(r[i] == sorted[i2] && r[j] == sorted[j2]);
                let (p, q) = choose|p: int, q: int|
                    0 <= p < q < d.len() && #[trigger] d[p] == #[trigger] sorted[i2] && #[trigger] d[q] == #[trigger] sorted[j2];
                assert(s[p] == d[p] && s[q] == d[q]);
            }
        }
    }
}

proof fn lemma_retrievable_pair_in_order(items: Seq<StoredStrategyItem>, tags: Seq<String>, i: int, j: int)
    requires
        0 <= i < j < retrievable_items(items, tags).len(),
    ensures
        exists|p: int, q: int|
            0 <= p < q < items.len() && #[trigger] items[p] == #[trigger] retrievable_items(items, tags)[i]
                && #[trigger] items[q] == #[trigger] retrievable_items(items, tags)[j],
    decreases items.len(),
{
    let d = items.drop_last();
    let before = retrievable_items(d, tags);
    let f = retrievable_items(items, tags);
    if j < before.len() {
        assert(f[i] == before[i] && f[j] == before[j]);
        lemma_retrievable_pair_in_order(d, tags, i, j);
        let (p, q) = choose|p: int, q: int|
            0 <= p < q < d.len() && #[trigger] d[p] == #[trigger] before[i] && #[trigger] d[q] == #[trigger] before[j];
        assert(items[p] == d[p] && items[q] == d[q]);
    } else {
        assert(f == before.push(items.last()));
        assert(f[i] == before[i]);
        lemma_retrievable_items(d, tags);
        assert(before.contains(before[i]));
        assert(d.contains(before[i]));
        let p = choose|p: int| 0 <= p < d.len() && d[p] == before[i];
        assert(items[p] == f[i] && items[items.len() - 1] == f[j]);
    }
}

proof fn lemma_retrievable_items_in_order(items: Seq<StoredStrategyItem>, tags: Seq<String>)
    ensures
        in_order_of(retrievable_items(items, tags), items),
{
    let f = retrievable_items(items, tags);
    assert forall|i: int, j: int| 0 <= i < j < f.len() implies #[trigger] pair_in_order(f, items, i, j) by {
        lemma_retrievable_pair_in_order(items, tags, i, j);
    }
}

/// Retrieval law: ties keep the stored order. Of two equally scored lessons handed out, the
/// one handed out first stands earlier among the stored lessons.
pub proof fn lemma_retrieval_keeps_tie_order(items: Seq<StoredStrategyItem>, tags: Seq<String>, k: nat)
    ensures
        forall|i: int, j: int|
            0 <= i < j < retrieved(items, tags, k).len() && score(retrieved(items, tags, k)[i]) == score(
                retrieved(items, tags, k)[j],
            ) ==> exists|p: int, q: int|
                0 <= p < q < items.len() && #[trigger] items[p] == #[trigger] retrieved(items, tags, k)[i]
                    && #[trigger] items[q] == #[trigger] retrieved(items, tags, k)[j],
{
    let f = retrievable_items(items, tags);
    let sorted = by_score(f);
    let r = retrieved(items, tags, k);
    lemma_by_score_stable(f);
    lemma_retrievable_items_in_order(items, tags);
    assert forall|i: int, j: int| 0 <= i < j < r.len() && score(r[i]) == score(r[j]) implies exists|p: int, q: int|
        0 <= p < q < items.len() && #[trigger] items[p] == #[trigger] r[i] && #[trigger] items[q] == #[trigger] r[j] by {
        assert(r[i] == sorted[i] && r[j] == sorted[j]);
        let (a, b) = choose|p: int, q: int|
            0 <= p < q < f.len() && #[trigger] f[p] == #[trigger] sorted[i] && #[trigger] f[q] == #[trigger] sorted[j];
        assert(0 <= a < b < f.len());
        assert(pair_in_order(f, items, a, b));
        let (p, q) = choose|p: int, q: int|
            0 <= p < q < items.len() && #[trigger] items[p] == #[trigger] f[a] && #[trigger] items[q] == #[trigger] f[b];
        assert(items[p] == r[i] && items[q] == r[j]);
    }
}

fn shares_tag(item: &StoredStrategyItem, tags: &Vec<String>) -> (b: bool)
    ensures
        b == exists|i: int, j: int|
            0 <= i < item.tags@.len() && 0 <= j < tags@.len() && #[trigger] item.tags@[i]@
                == #[trigger] tags@[j]@,
{
    let mut i: usize = 0;
    while i < item.tags.len()
        invariant
            i <= item.tags.len(),
            forall|a: int, b: int|
                0 <= a < i && 0 <= b < tags@.len() ==> #[trigger] item.tags@[a]@ != #[trigger] tags@[b]@,
        decreases item.tags.len() - i,
    {
        let mut j: usize = 0;
        while j < tags.len()
            invariant
                i < item.tags.len(),
                j <= tags.len(),
                forall|a: int, b: int|
                    0 <= a < i && 0 <= b < tags@.len() ==> #[trigger] item.tags@[a]@ != #[trigger] tags@[b]@,
                forall|b: int| 0 <= b < j ==> item.tags@[i as int]@ != #[trigger] tags@[b]@,
            decreases tags.len() - j,
        {
            if item.tags[i] == tags[j] {
                return true;
            }
            j = j + 1;
        }
        i = i + 1;
    }
    false
}

fn item_score(item: &StoredStrategyItem) -> (s: i128)
    ensures
        s == score(*item),
{
    (item.helpful as i128) - (item.harmful as i128)
}

/// k≈1 tag-matched retrieval of TRUSTED lessons for few-shot injection: the trusted lessons
/// that share a tag with `tags`, by descending helpful-minus-harmful score (ties in stored
/// order), at most `k` of them.
pub fn trusted_by_tags(items: Vec<StoredStrategyItem>, tags: &Vec<String>, k: usize) -> (r: Vec<StrategyItem>)
    ensures
        r.len() == retrieved(items@, tags@, k as nat).len(),
        forall|i: int|
            0 <= i < r.len() ==> {
                let x = retrieved(items@, tags@, k as nat)[i];
                &&& (#[trigger] r@[i]).title == x.title
                &&& r@[i].description == x.description
                &&& r@[i].content == x.content
                &&& r@[i].tags@ == x.tags@
            },
{
    let ghost all = items@;
    let mut sorted: Vec<StoredStrategyItem> = Vec::new();
    let mut items = items;
    let mut n: usize = 0;
    let total = items.len();
    assert(items@ =~= all.subrange(0, total as int));
    // Drain front to back so that ties keep their stored order.
    while n < total
        invariant
            total == all.len(),
            n <= total,
            items@ == all.subrange(n as int, total as int),
            sorted@ == by_score(retrievable_items(all.take(n as int), tags@)),
        decreases total - n,
    {
        let ghost prev = retrievable_items(all.take(n as int), tags@);
        assert(all.take(n + 1).drop_last() =~= all.take(n as int));
        assert(all.take(n + 1).last() == all[n as int]);
        let it = items.remove(0);
        assert(items@ =~= all.subrange(n + 1, total as int));
        if it.trust_state == TrustState::Trusted && shares_tag(&it, tags) {
            assert(retrievable_items(all.take(n + 1), tags@) == prev.push(it));
            assert(prev.push(it).drop_last() =~= prev);
            let v = item_score(&it);
            let mut p: usize = 0;
            assert(sorted@.subrange(0, sorted@.len() as int) =~= sorted@);
            while p < sorted.len() && item_score(&sorted[p]) >= v
                invariant
                    p <= sorted.len(),
                    first_lower(sorted@, v as int) == p + first_lower(
                        sorted@.subrange(p as int, sorted@.len() as int),
                        v as int,
                    ),
                decreases sorted.len() - p,
            {
                assert(sorted@.subrange(p as int, sorted@.len() as int).drop_first() =~= sorted@.subrange(
                    p + 1,
                    sorted@.len() as int,
                ));
                p = p + 1;
            }
            proof {
                if p < sorted.len() {
                    assert(sorted@.subrange(p as int, sorted@.len() as int)[0] == sorted@[p as int]);
                }
            }
            sorted.insert(p, it);
        } else {
            assert(retrievable_items(all.take(n + 1), tags@) == prev);
        }
        n = n + 1;
    }
    assert(all.take(total as int) =~= all);
    let mut r: Vec<StrategyItem> = Vec::new();
    let mut i: usize = 0;
    while i < sorted.len() && i < k
        invariant
            i <= sorted.len(),
            i <= k,
            r.len() == i,
            forall|j: int|
                0 <= j < i ==> {
                    let x = sorted@[j];
                    &&& (#[trigger] r@[j]).title == x.title
                    &&& r@[j].description == x.description
                    &&& r@[j].content == x.content
                    &&& r@[j].tags@ == x.tags@
                },
        decreases sorted.len() - i,
    {
        r.push(sorted[i].to_strategy_item());
        i = i + 1;
    }
    r
}

/// The name a trust state is stored under.
pub fn trust_state_name(t: TrustState) -> (r: &'static str)
    ensures
        r@ == trust_state_text(t),
{
    match t {
        TrustState::Provisional => "provisional",
        TrustState::Trusted => "trusted",
    }
}

/// Read a stored trust state; anything else is a store error.
pub fn parse_trust_state(s: &str) -> (r: Result<TrustState, EngineError>)
    ensures
        r matches Ok(t) ==> trust_state_text(t) == s@,
        r is Err ==> s@ != "provisional"@ && s@ != "trusted"@,
{
    if crate::text::str_eq(s, "provisional") {
        Ok(TrustState::Provisional)
    } else if crate::text::str_eq(s, "trusted") {
        Ok(TrustState::Trusted)
    } else {
        let mut m = String::from_str("unknown trust_state: ");
        m.append(s);
        Err(EngineError::Store(m))
    }
}

/// Read a stored correction type; anything else is a store error.
pub fn parse_correction_type(s: &str) -> (r: Result<CorrectionType, EngineError>)
    ensures
        r matches Ok(t) ==> correction_type_text(t) == s@,
        r is Err ==> s@ != "fact_mapping"@ && s@ != "rule_defect"@ && s@ != "vocabulary_gap"@,
{
    if crate::text::str_eq(s, "fact_mapping") {
        Ok(CorrectionType::FactMapping)
    } else if crate::text::str_eq(s, "rule_defect") {
        Ok(CorrectionType::RuleDefect)
    } else if crate::text::str_eq(s, "vocabulary_gap") {
        Ok(CorrectionType::VocabularyGap)
    } else {
        let mut m = String::from_str("unknown correction_type: ");
        m.append(s);
        Err(EngineError::Store(m))
    }
}

} // verus!
