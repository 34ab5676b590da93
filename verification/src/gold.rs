//! Gold-set scoring for the learning verification gate: whether one pipeline outcome
//! matches a gold expectation, and the seam through which a whole gold set is scored.
use vstd::prelude::*;
use crate::order::views;
use crate::types::{EngineError, Outcome, Ratio, StrategyItem};

verus! {

/// Gold-set accuracy and case count: the two numbers the verification gate compares.
#[derive(Debug, Clone, Copy, PartialEq, Eq, Structural)]
pub struct GoldScore {
    pub accuracy: Ratio,
    pub total: usize,
}

/// The verification-gate scoring seam. `extra` holds the candidate lesson(s), injected as
/// few-shot examples on top of trusted retrieval. Implementations run the pipeline over
/// the gold set (or, in tests, return fixed scores). `scores` is each implementation's own
/// account of which results it may give for which lessons (by default, any); nothing else
/// is assumed.
pub trait Scorer {
    /// Whether `r` is a result this scorer may give when scoring with the lessons `extra`.
    /// An implementation that says nothing of its results allows every one.
    open spec fn scores(&self, extra: Seq<StrategyItem>, r: Result<GoldScore, EngineError>) -> bool {
        true
    }

    fn score(&self, extra: &[StrategyItem]) -> (r: Result<GoldScore, EngineError>)
        ensures
            self.scores(extra@, r),
    ;
}

/// The production scorer's settings: it runs every topic's gold cases through the full
/// pipeline (route, extract, solve, gate) as of this date.
#[derive(Debug, Clone, PartialEq, Eq)]
pub struct LiveScorer {
    /// As-of date for rule selection.
    pub as_of_date: String,
}

impl LiveScorer {
    pub fn new(as_of_date: &str) -> (s: LiveScorer)
        ensures
            s.as_of_date@ == as_of_date@,
    {
        LiveScorer { as_of_date: String::from_str(as_of_date) }
    }
}

/// The score of a sweep in which `ok` of `total` cases came out right: accuracy
/// `ok / total`, zero for an empty set.
pub fn gold_score(ok: usize, total: usize) -> (s: GoldScore)
    requires
        ok <= total,
    ensures
        s.total == total,
        s.accuracy.num == ok,
        s.accuracy.den == total,
{
    GoldScore { accuracy: Ratio { num: ok as u64, den: total as u64 }, total }
}

/// One gold case of a sweep: a case without a question (`None`) is skipped; any other
/// counts, and counts as right when its run came back and matched the expectation.
pub fn tally_case(ok: usize, total: usize, verdict: Option<bool>) -> (r: (usize, usize))
    requires
        ok <= total < usize::MAX,
    ensures
        r == match verdict {
            None => (ok, total),
            Some(right) => (if right { (ok + 1) as usize } else { ok }, (total + 1) as usize),
        },
        r.0 <= r.1,
{
    match verdict {
        None => (ok, total),
        Some(right) => (if right { ok + 1 } else { ok }, total + 1),
    }
}

/// Whether `v` holds a string equal to `s`.
pub fn contains_str(v: &Vec<String>, s: &String) -> (b: bool)
    ensures
        b == views(v@).contains(s@),
{
    let mut i: usize = 0;
    while i < v.len()
        invariant
            i <= v.len(),
            forall|j: int| 0 <= j < i ==> v@[j]@ != s@,
        decreases v.len() - i,
    {
        if v[i] == *s {
            assert(views(v@)[i as int] == s@);
            return true;
        }
        i = i + 1;
    }
    false
}

/// True if two citation lists hold the same set of strings (order and repeats ignored).
pub fn same_set(a: &Vec<String>, b: &Vec<String>) -> (r: bool)
    ensures
        r == (views(a@).to_set() == views(b@).to_set()),
{
    let mut i: usize = 0;
    while i < a.len()
        invariant
            i <= a.len(),
            forall|j: int| 0 <= j < i ==> views(b@).contains(#[trigger] views(a@)[j]),
        decreases a.len() - i,
    {
        if !contains_str(b, &a[i]) {
            assert(views(a@).to_set().contains(views(a@)[i as int]));
            return false;
        }
        i = i + 1;
    }
    let mut k: usize = 0;
    while k < b.len()
        invariant
            k <= b.len(),
            forall|j: int| 0 <= j < a.len() ==> views(b@).contains(#[trigger] views(a@)[j]),
            forall|j: int| 0 <= j < k ==> views(a@).contains(#[trigger] views(b@)[j]),
        decreases b.len() - k,
    {
        if !contains_str(a, &b[k]) {
            assert(views(b@).to_set().contains(views(b@)[k as int]));
            return false;
        }
        k = k + 1;
    }
    assert(views(a@).to_set() =~= views(b@).to_set());
    true
}

/// Did a pipeline outcome match a gold expectation? When the gold case is `solved`: an
/// answer with the expected decision and, if citations are given, the same citation set.
/// Otherwise: an abstain.
pub open spec fn correct_of(
    out: Outcome,
    expect_status: Seq<char>,
    decision: Option<Seq<char>>,
    citations: Option<Seq<Seq<char>>>,
) -> bool {
    if expect_status == "solved"@ {
        match out {
            Outcome::Answer { decision: got, citations: got_citations, .. } => {
                &&& Some(got@) == decision
                &&& match citations {
                    Some(want) => views(got_citations@).to_set() == want.to_set(),
                    None => true,
                }
            },
            Outcome::Abstain { .. } => false,
        }
    } else {
        out is Abstain
    }
}

/// Did the pipeline outcome match the gold expectation?
pub fn correct(
    out: &Outcome,
    expect_status: &str,
    decision: &Option<String>,
    citations: &Option<Vec<String>>,
) -> (r: bool)
    ensures
        r == correct_of(
            *out,
            expect_status@,
            decision.deep_view(),
            match citations {
                Some(c) => Some(views(c@)),
                None => None,
            },
        ),
{
    if crate::text::str_eq(expect_status, "solved") {
        match out {
            Outcome::Answer { decision: got_decision, citations: got_citations, .. } => {
                match decision {
                    Some(d) => {
                        if *got_decision != *d {
                            return false;
                        }
                    },
                    None => {
                        return false;
                    },
                }
                match citations {
                    Some(want) => same_set(got_citations, want),
                    None => true,
                }
            },
            Outcome::Abstain { .. } => false,
        }
    } else {
        match out {
            Outcome::Abstain { .. } => true,
            Outcome::Answer { .. } => false,
        }
    }
}

/// Gold-correctness law: for a `solved` expectation, an outcome is right exactly when it is
/// an answer with the expected decision that, when citations are expected, cites every
/// expected § and no other (order and repeats aside); for any other expectation, exactly
/// when it abstains.
pub proof fn lemma_correct_means(
    out: Outcome,
    expect_status: Seq<char>,
    decision: Option<Seq<char>>,
    citations: Option<Seq<Seq<char>>>,
)
    ensures
        expect_status == "solved"@ ==> (correct_of(out, expect_status, decision, citations) <==> (
        out is Answer && decision == Some(out->Answer_decision@) && (citations matches Some(
            want,
        ) ==> (forall|x: Seq<char>| #[trigger] views(out->Answer_citations@).contains(x) ==> want.contains(x))
            && (forall|x: Seq<char>| #[trigger] want.contains(x) ==> views(
            out->Answer_citations@,
        ).contains(x))))),
        expect_status != "solved"@ ==> (correct_of(out, expect_status, decision, citations)
            <==> out is Abstain),
{
    if let Outcome::Answer { decision: d, citations: c, .. } = out {
        if let Some(want) = citations {
            let got = views(c@);
            if got.to_set() == want.to_set() {
                assert forall|x: Seq<char>| #[trigger] got.contains(x) implies want.contains(x) by {
                    assert(got.to_set().contains(x));
                    assert(want.to_set().contains(x));
                }
                assert forall|x: Seq<char>| #[trigger] want.contains(x) implies got.contains(x) by {
                    assert(want.to_set().contains(x));
                    assert(got.to_set().contains(x));
                }
            }
            if (forall|x: Seq<char>| #[trigger] got.contains(x) ==> want.contains(x)) && (forall|x: Seq<char>| #[trigger] want.contains(x) ==> got.contains(x)) {
                assert(got.to_set() =~= want.to_set());
            }
        }
    }
}

} // verus!
