//! The continual-learning loop's decisions.
//!
//!   episode → typed correction
//!     • fact_mapping   → distill a lesson → verification gate (provenance present + cites
//!                        the governing § + no gold-set regression) → provisional → human
//!                        approval → trusted → retrieved into extraction
//!     • rule_defect / vocabulary_gap → queued for a human rule edit, never autonomous
//!
//! The verification gate is the product: a lesson that regresses the gold set is blocked, and approval
//! is refused unless the verification gate passed, even for a human approver. The verification gate fails closed on
//! a scorer error and on an empty gold set.
use vstd::prelude::*;
use vstd::string::*;
use crate::gold::{GoldScore, Scorer};
use crate::text::{decimal, decimal_string, digit, digit_str, join, lemma_join_take};
use crate::types::{
    correction_type_text, error_message, Correction, CorrectionType, EngineError, Episode,
    GateResult, Provenance, Ratio, StoredStrategyItem, StrategyItem, StrategyItemInput,
    StrategyItemPatch, TrustState, ratio_lt,
};

verus! {

/// A distilled lesson before identity, timestamp and gate verdict are stamped.
#[derive(Debug, Clone, PartialEq, Eq)]
pub struct Draft {
    pub title: String,
    pub description: String,
    pub content: String,
    pub tags: Vec<String>,
    pub trust_state: TrustState,
    pub provenance: Provenance,
    pub helpful: i32,
    pub harmful: i32,
}

impl Draft {
    /// The lesson as a few-shot example.
    pub fn as_strategy_item(&self) -> (s: StrategyItem)
        ensures
            s.title == self.title,
            s.description == self.description,
            s.content == self.content,
            s.tags@ == self.tags@,
    {
        let tags = self.tags.clone();
        assert(tags@ =~= self.tags@);
        StrategyItem {
            title: self.title.clone(),
            description: self.description.clone(),
            content: self.content.clone(),
            tags,
        }
    }

    /// The lesson as stored, carrying its gate verdict and no approval.
    pub fn into_input(self, gate: GateResult) -> (s: StrategyItemInput)
        ensures
            s.title == self.title,
            s.description == self.description,
            s.content == self.content,
            s.tags == self.tags,
            s.trust_state == self.trust_state,
            s.provenance == self.provenance,
            s.helpful == self.helpful,
            s.harmful == self.harmful,
            s.gate == Some(gate),
            s.approved_by is None,
            s.approved_at is None,
    {
        StrategyItemInput {
            title: self.title,
            description: self.description,
            content: self.content,
            tags: self.tags,
            trust_state: self.trust_state,
            provenance: self.provenance,
            helpful: self.helpful,
            harmful: self.harmful,
            gate: Some(gate),
            approved_by: None,
            approved_at: None,
        }
    }
}

/// The section a lesson cites: the correction's governing §, else `rule`.
pub open spec fn section_of(c: Correction) -> Seq<char> {
    match c.governing_section {
        Some(s) => s@,
        None => "rule"@,
    }
}

/// The corrected outcome: the correction's decision, else `correction`.
pub open spec fn corrected_of(c: Correction) -> Seq<char> {
    match c.corrected_decision {
        Some(d) => d@,
        None => "correction"@,
    }
}

/// The lesson text for a correction of an episode.
pub open spec fn lesson_content(e: Episode, c: Correction) -> Seq<char> {
    "For a case like \""@ + e.question@ + "\", the correct outcome is "@ + corrected_of(c)
        + " ("@ + section_of(c) + ")."@ + match c.note {
        Some(n) => " "@ + n@,
        None => Seq::empty(),
    }
}

fn opt_or(o: &Option<String>, default: &str) -> (r: String)
    ensures
        r@ == match o {
            Some(s) => s@,
            None => default@,
        },
{
    match o {
        Some(s) => s.clone(),
        None => String::from_str(default),
    }
}

/// Whether `d` is the lesson distilled from a correction of an episode: titled by the
/// cited section and corrected outcome, described by the note, attributed to the episode,
/// the correction and the expert, provisional, with no votes.
pub open spec fn is_distilled(d: Draft, episode: Episode, correction: Correction, tags: Vec<String>) -> bool {
    &&& d.title@ == section_of(correction) + ": "@ + corrected_of(correction)
    &&& d.description@ == match correction.note {
        Some(n) => n@,
        None => "expert correction"@,
    }
    &&& d.content@ == lesson_content(episode, correction)
    &&& d.tags == tags
    &&& d.trust_state == TrustState::Provisional
    &&& d.provenance.episode_id.deep_view() == Some(episode.id@)
    &&& d.provenance.correction_id.deep_view() == Some(correction.id@)
    &&& d.provenance.source@ == "expert:"@ + correction.expert@
    &&& d.helpful == 0
    &&& d.harmful == 0
}

/// Distill a `fact_mapping` correction into a provisional, fully attributed lesson.
pub fn distill(episode: &Episode, correction: &Correction, tags: Vec<String>) -> (d: Draft)
    ensures
        is_distilled(d, *episode, *correction, tags),
{
    let sec = opt_or(&correction.governing_section, "rule");
    let corrected = opt_or(&correction.corrected_decision, "correction");
    let mut title = sec.clone();
    title.append(": ");
    title.append(corrected.as_str());
    let description = opt_or(&correction.note, "expert correction");
    let mut content = String::from_str("For a case like \"");
    content.append(episode.question.as_str());
    content.append("\", the correct outcome is ");
    content.append(corrected.as_str());
    content.append(" (");
    content.append(sec.as_str());
    content.append(").");
    match &correction.note {
        Some(n) => {
            content.append(" ");
            content.append(n.as_str());
        },
        None => {},
    }
    let mut source = String::from_str("expert:");
    source.append(correction.expert.as_str());
    let ghost t = tags;
    let d = Draft {
        title,
        description,
        content,
        tags,
        trust_state: TrustState::Provisional,
        provenance: Provenance {
            episode_id: Some(episode.id.clone()),
            correction_id: Some(correction.id.clone()),
            source,
        },
        helpful: 0,
        harmful: 0,
    };
    assert(d.title@ == section_of(*correction) + ": "@ + corrected_of(*correction));
    assert(d.content@ == lesson_content(*episode, *correction));
    assert(d.tags == t);
    assert(d.provenance.episode_id.deep_view() == Some(episode.id@));
    d
}

/// 2 to the power `k`.
pub open spec fn two_to(k: nat) -> nat
    decreases k,
{
    if k == 0 {
        1
    } else {
        2 * two_to((k - 1) as nat)
    }
}

/// The whole number nearest to `a / b`, a tie going to the even one.
pub open spec fn round_even(a: nat, b: nat) -> nat {
    let q = a / b;
    let r = a % b;
    if 2 * r > b {
        q + 1
    } else if 2 * r < b {
        q
    } else if q % 2 == 0 {
        q
    } else {
        q + 1
    }
}

/// `n / d` brought into `[2^52, 2^53)`, the range of a double's significand, by doubling
/// `n` (counted in `up`) or `d` (counted in `down`).
pub open spec fn scaled(n: nat, d: nat, up: nat, down: nat) -> (nat, nat, nat, nat)
    decreases (if n < 0x10_0000_0000_0000 * d {
        0x10_0000_0000_0000 * d - n
    } else {
        0
    }) + (if n >= 0x20_0000_0000_0000 * d {
        n + 1 - 0x20_0000_0000_0000 * d
    } else {
        0
    }),
{
    if n == 0 || d == 0 {
        (n, d, up, down)
    } else if n < 0x10_0000_0000_0000 * d {
        scaled(2 * n, d, up + 1, down)
    } else if n >= 0x20_0000_0000_0000 * d {
        scaled(n, 2 * d, up, down + 1)
    } else {
        (n, d, up, down)
    }
}

/// Lesson-text law: the lesson always ends its statement with the corrected outcome and
/// the governing § in brackets, `<outcome> (<§>).` (`correction` and `rule` standing in
/// for a missing outcome or §), whatever the note; a note only adds a space and itself
/// after that.
pub proof fn lemma_lesson_cites_its_section(e: Episode, c: Correction, note: String)
    ensures
        ({
            let plain = lesson_content(e, (Correction { note: None, ..c }));
            let outcome = match c.corrected_decision {
                Some(d) => d@,
                None => "correction"@,
            };
            let sec = match c.governing_section {
                Some(s) => s@,
                None => "rule"@,
            };
            let tail = outcome + " ("@ + sec + ")."@;
            &&& plain.len() >= tail.len()
            &&& plain.subrange(plain.len() - tail.len(), plain.len() as int) == tail
            &&& lesson_content(e, (Correction { note: Some(note), ..c })) == plain + " "@ + note@
        }),
{
    let plain = lesson_content(e, Correction { note: None, ..c });
    let tail = corrected_of(c) + " ("@ + section_of(c) + ")."@;
    let head = "For a case like \""@ + e.question@ + "\", the correct outcome is "@;
    assert(plain =~= head + tail);
    assert(plain.subrange(plain.len() - tail.len(), plain.len() as int) =~= tail);
    assert(lesson_content(e, Correction { note: Some(note), ..c }) =~= plain + " "@ + note@);
}

/// Thousandths of a ratio as `{:.3}` prints `num as f64 / den as f64`: the ratio rounded to
/// the nearest double (its significand rounded to nearest, ties to even), then that
/// double's exact value rounded to thousandths, a tie going to the even neighbour.
pub open spec fn thousandths(r: Ratio) -> nat {
    if r.den == 0 || r.num == 0 {
        0
    } else {
        let (n, d, up, down) = scaled(r.num as nat, r.den as nat, 0, 0);
        round_even(round_even(n, d) * two_to(down) * 1000, two_to(up))
    }
}

fn round_even_exec(a: u128, b: u128) -> (r: u128)
    requires
        b > 0,
        a < 0x1_0000_0000_0000_0000_0000_0000_0000_0000 - 1,
    ensures
        r == round_even(a as nat, b as nat),
        r <= a / b + 1,
{
    let q = a / b;
    let rem = a % b;
    proof {
        assert(q <= a) by (nonlinear_arith)
            requires
                b > 0,
                q == a / b,
        ;
    }
    if rem > b - rem {
        q + 1
    } else if rem < b - rem {
        q
    } else if q % 2 == 0 {
        q
    } else {
        q + 1
    }
}

/// A ratio written with three decimals, e.g. `0.800`.
pub open spec fn fixed3(r: Ratio) -> Seq<char> {
    let t = thousandths(r);
    decimal(t / 1000) + "."@ + digit((t % 1000) / 100) + digit((t % 100) / 10) + digit(t % 10)
}

/// A ratio written with three decimals.
pub fn fixed3_string(r: Ratio) -> (s: String)
    ensures
        s@ == fixed3(r),
{
    let t: u128 = if r.den == 0 || r.num == 0 {
        0
    } else {
        let mut n: u128 = r.num as u128;
        let mut d: u128 = r.den as u128;
        let mut pu: u128 = 1;
        let mut pd: u128 = 1;
        let ghost mut up: nat = 0;
        let ghost mut down: nat = 0;
        while n < 0x10_0000_0000_0000 * d || n >= 0x20_0000_0000_0000 * d
            invariant
                scaled(r.num as nat, r.den as nat, 0, 0) == scaled(n as nat, d as nat, up, down),
                pu == two_to(up),
                pd == two_to(down),
                1 <= pu <= n,
                1 <= pd <= d,
                n < 0x40_0000_0000_0000_0000_0000_0000_0000,
                d < 0x2_0000_0000_0000_0000,
                up == 0 ==> n == r.num,
                up > 0 ==> n < 0x20_0000_0000_0000 * d && down == 0,
                down > 0 ==> n >= 0x10_0000_0000_0000 * d,
            decreases (if n < 0x10_0000_0000_0000 * d {
                0x10_0000_0000_0000 * d - n
            } else {
                0
            }) + (if n >= 0x20_0000_0000_0000 * d {
                n + 1 - 0x20_0000_0000_0000 * d
            } else {
                0
            }),
        {
            if n < 0x10_0000_0000_0000 * d {
                n = 2 * n;
                pu = 2 * pu;
                proof {
                    up = up + 1;
                }
            } else {
                d = 2 * d;
                pd = 2 * pd;
                proof {
                    down = down + 1;
                }
            }
        }
        let m = round_even_exec(n, d);
        proof {
            let q: int = n as int / d as int;
            if up > 0 {
                assert(pd == 1);
                assert(q < 0x20_0000_0000_0000) by (nonlinear_arith)
                    requires
                        n < 0x20_0000_0000_0000 * d,
                        d > 0,
                        q == n as int / d as int,
                ;
            } else {
                assert(q * pd <= n) by (nonlinear_arith)
                    requires
                        q == n as int / d as int,
                        d > 0,
                        pd <= d,
                        n >= 0,
                ;
            }
            assert(m * pd <= 0x4_0000_0000_0000_0000) by (nonlinear_arith)
                requires
                    m <= q + 1,
                    up > 0 ==> pd == 1 && q < 0x20_0000_0000_0000,
                    up == 0 ==> q * pd <= n && n < 0x1_0000_0000_0000_0000,
                    pd <= d,
                    d < 0x2_0000_0000_0000_0000,
                    q >= 0,
            ;
        }
        let x = m * pd * 1000;
        round_even_exec(x, pu)
    };
    let mut s = decimal_string(t / 1000);
    s.append(".");
    s.append(digit_str((t % 1000) / 100));
    s.append(digit_str((t % 100) / 10));
    s.append(digit_str(t % 10));
    s
}

/// Whether a lesson names both the episode and the correction it came from.
pub open spec fn has_provenance(d: Draft) -> bool {
    d.provenance.episode_id is Some && d.provenance.correction_id is Some
}

/// The verification gate's reasons to refuse, in order: orphan lesson, missing source, empty gold set,
/// gold-set regression.
pub open spec fn gate_reasons(d: Draft, baseline: GoldScore, candidate: GoldScore) -> Seq<
    Seq<char>,
> {
    let r1: Seq<Seq<char>> = if !has_provenance(d) {
        seq!["missing provenance (orphan learning)"@]
    } else {
        Seq::empty()
    };
    let r2 = if d.provenance.source@.len() == 0 {
        r1.push("missing source"@)
    } else {
        r1
    };
    let r3 = if baseline.total == 0 {
        r2.push("no gold cases to verify against"@)
    } else {
        r2
    };
    if ratio_lt(candidate.accuracy, baseline.accuracy) {
        r3.push(
            "regresses gold set: "@ + fixed3(candidate.accuracy) + " < "@ + fixed3(
                baseline.accuracy,
            ),
        )
    } else {
        r3
    }
}

/// The verification gate's verdict, given the lesson and the two gold-set scores (without, then with,
/// the lesson). A scorer error fails the verification gate with only that reason and zero accuracies.
pub open spec fn gate_verdict_of(
    d: Draft,
    baseline: Result<GoldScore, EngineError>,
    candidate: Result<GoldScore, EngineError>,
) -> (bool, Seq<Seq<char>>, Ratio, Ratio) {
    match baseline {
        Err(e) => (
            false,
            seq!["gate verification errored: "@ + error_message(e)],
            Ratio { num: 0, den: 1 },
            Ratio { num: 0, den: 1 },
        ),
        Ok(b) => match candidate {
            Err(e) => (
                false,
                seq!["gate verification errored: "@ + error_message(e)],
                Ratio { num: 0, den: 1 },
                Ratio { num: 0, den: 1 },
            ),
            Ok(c) => {
                let reasons = gate_reasons(d, b, c);
                (reasons.len() == 0, reasons, b.accuracy, c.accuracy)
            },
        },
    }
}

/// Whether a gate result is the verdict `gate_verdict_of` gives.
pub open spec fn is_verdict(
    g: GateResult,
    d: Draft,
    baseline: Result<GoldScore, EngineError>,
    candidate: Result<GoldScore, EngineError>,
) -> bool {
    let v = gate_verdict_of(d, baseline, candidate);
    &&& g.passed == v.0
    &&& g.reasons.deep_view() == v.1
    &&& g.baseline_accuracy == v.2
    &&& g.candidate_accuracy == v.3
}

fn errored(e: &EngineError) -> (g: GateResult)
    ensures
        !g.passed,
        g.reasons.deep_view() == seq!["gate verification errored: "@ + error_message(*e)],
        g.baseline_accuracy == (Ratio { num: 0, den: 1 }),
        g.candidate_accuracy == (Ratio { num: 0, den: 1 }),
{
    let mut reason = String::from_str("gate verification errored: ");
    let m = e.message();
    reason.append(m.as_str());
    let mut reasons = Vec::new();
    reasons.push(reason);
    assert(reasons.deep_view() =~= seq!["gate verification errored: "@ + error_message(*e)]);
    GateResult {
        passed: false,
        reasons,
        baseline_accuracy: Ratio { num: 0, den: 1 },
        candidate_accuracy: Ratio { num: 0, den: 1 },
    }
}

/// `a < b` as rationals.
pub fn ratio_less(a: Ratio, b: Ratio) -> (r: bool)
    ensures
        r == ratio_lt(a, b),
{
    let an: u128 = if a.den == 0 { 0 } else { a.num as u128 };
    let ad: u128 = if a.den == 0 { 1 } else { a.den as u128 };
    let bn: u128 = if b.den == 0 { 0 } else { b.num as u128 };
    let bd: u128 = if b.den == 0 { 1 } else { b.den as u128 };
    assert(an * bd <= 0xffff_ffff_ffff_ffffu128 * 0xffff_ffff_ffff_ffffu128) by (nonlinear_arith)
        requires
            an <= 0xffff_ffff_ffff_ffffu128,
            bd <= 0xffff_ffff_ffff_ffffu128,
    ;
    assert(bn * ad <= 0xffff_ffff_ffff_ffffu128 * 0xffff_ffff_ffff_ffffu128) by (nonlinear_arith)
        requires
            bn <= 0xffff_ffff_ffff_ffffu128,
            ad <= 0xffff_ffff_ffff_ffffu128,
    ;
    an * bd < bn * ad
}

/// The verification gate's verdict from the two gold-set scores.
pub fn gate_verdict(
    d: &Draft,
    baseline: &Result<GoldScore, EngineError>,
    candidate: &Result<GoldScore, EngineError>,
) -> (g: GateResult)
    ensures
        is_verdict(g, *d, *baseline, *candidate),
{
    let b = match baseline {
        Ok(b) => *b,
        Err(e) => {
            return errored(e);
        },
    };
    let c = match candidate {
        Ok(c) => *c,
        Err(e) => {
            return errored(e);
        },
    };
    let mut reasons: Vec<String> = Vec::new();
    if d.provenance.episode_id.is_none() || d.provenance.correction_id.is_none() {
        reasons.push(String::from_str("missing provenance (orphan learning)"));
    }
    if d.provenance.source.as_str().is_empty() {
        reasons.push(String::from_str("missing source"));
    }
    if b.total == 0 {
        reasons.push(String::from_str("no gold cases to verify against"));
    }
    if ratio_less(c.accuracy, b.accuracy) {
        let mut m = String::from_str("regresses gold set: ");
        let cs = fixed3_string(c.accuracy);
        let bs = fixed3_string(b.accuracy);
        m.append(cs.as_str());
        m.append(" < ");
        m.append(bs.as_str());
        reasons.push(m);
    }
    assert(reasons.deep_view() =~= gate_reasons(*d, b, c));
    let passed = reasons.len() == 0;
    GateResult { passed, reasons, baseline_accuracy: b.accuracy, candidate_accuracy: c.accuracy }
}

/// Whether `x` is the lesson as a few-shot example: the lesson's title, description,
/// content and tags.
pub open spec fn is_lesson_item(x: StrategyItem, d: Draft) -> bool {
    &&& x.title == d.title
    &&& x.description == d.description
    &&& x.content == d.content
    &&& x.tags@ == d.tags@
}

/// Whether `g` is what the verification gate gives for `draft` with this scorer: the gold
/// set is scored first with no lesson (`b`); only when that came back is it scored again
/// with the lesson as its one extra example (`c`), while an error stops it there (`c` is
/// that error); the verdict is `gate_verdict_of` for the two scores.
pub open spec fn scored_verdict<S: Scorer + ?Sized>(g: GateResult, draft: Draft, scorer: &S) -> bool {
    exists|b: Result<GoldScore, EngineError>, c: Result<GoldScore, EngineError>, x: StrategyItem|
        #![trigger is_lesson_item(x, draft), is_verdict(g, draft, b, c)]
        is_lesson_item(x, draft) && scorer.scores(Seq::empty(), b) && (b is Ok ==> scorer.scores(
            seq![x],
            c,
        )) && (b is Err ==> c == b) && is_verdict(g, draft, b, c)
}

/// VERIFICATION GATE: provenance present, no gold-set regression, a non-empty gold set.
/// Scores the gold set without the lesson, then (unless that failed) with the lesson as its
/// one extra example; the verdict is the one `gate_verdict_of` gives for those two scores,
/// so the lesson passes only if both scores came back, the gold set is non-empty, the
/// lesson is attributed and it does not lower the accuracy.
pub fn verify<S: Scorer + ?Sized>(draft: &Draft, scorer: &S) -> (g: GateResult)
    ensures
        scored_verdict(g, *draft, scorer),
        g.passed ==> has_provenance(*draft) && draft.provenance.source@.len() > 0,
{
    let none: [StrategyItem; 0] = [];
    let baseline = scorer.score(&none);
    assert(none@ =~= Seq::<StrategyItem>::empty());
    let item = draft.as_strategy_item();
    let ghost x = item;
    match &baseline {
        Ok(_) => {
            let extra = [item];
            let candidate = scorer.score(&extra);
            assert(extra@ =~= seq![x]);
            let g = gate_verdict(draft, &baseline, &candidate);
            proof {
                if g.passed {
                    assert(gate_verdict_of(*draft, baseline, candidate).1.len() == 0);
                }
                assert(is_lesson_item(x, *draft));
                assert(scorer.scores(Seq::empty(), baseline));
            }
            g
        },
        Err(_) => {
            let g = gate_verdict(draft, &baseline, &baseline);
            proof {
                assert(is_lesson_item(x, *draft));
                assert(scorer.scores(Seq::empty(), baseline));
            }
            g
        },
    }
}

/// Where a submitted correction goes.
#[derive(Debug, Clone, Copy, PartialEq, Eq, Structural)]
pub enum Routed {
    /// A `fact_mapping` lesson went through the verification gate.
    Gate,
    /// A rule or vocabulary correction was queued for a human (no lesson created).
    Human,
}

/// The result of submitting a correction: where it routed, the stored correction and,
/// on the verification gate path, the stored lesson with its gate verdict.
#[derive(Debug, Clone, PartialEq, Eq)]
pub struct SubmitOutcome {
    pub routed: Routed,
    pub correction: Correction,
    pub item: Option<StoredStrategyItem>,
}

/// Only a `fact_mapping` correction is learned from; rule and vocabulary corrections edit
/// the rules themselves and go to a human.
pub fn route_correction(kind: CorrectionType) -> (r: Routed)
    ensures
        r == (if kind == CorrectionType::FactMapping {
            Routed::Gate
        } else {
            Routed::Human
        }),
{
    match kind {
        CorrectionType::FactMapping => Routed::Gate,
        CorrectionType::RuleDefect => Routed::Human,
        CorrectionType::VocabularyGap => Routed::Human,
    }
}

pub open spec fn opt_text(o: Option<String>) -> Seq<char> {
    match o {
        Some(s) => s@,
        None => Seq::empty(),
    }
}

/// The review-queue checklist line for a correction sent to a human.
pub open spec fn review_line_of(c: Correction) -> Seq<char> {
    "- [ ] "@ + c.created_at@ + " **"@ + correction_type_text(c.correction_type) + "** (episode "@
        + c.episode_id@ + ") by "@ + c.expert@ + ": "@ + opt_text(c.corrected_decision) + " "@
        + opt_text(c.governing_section) + " \u{2014} "@ + opt_text(c.note) + "\n"@
}

fn append_opt(s: &mut String, o: &Option<String>)
    ensures
        final(s)@ == old(s)@ + opt_text(*o),
{
    match o {
        Some(t) => s.append(t.as_str()),
        None => {
            assert(old(s)@ + Seq::<char>::empty() =~= old(s)@);
        },
    }
}

/// The name a correction type is stored and shown under.
pub fn correction_type_name(t: CorrectionType) -> (r: &'static str)
    ensures
        r@ == correction_type_text(t),
{
    match t {
        CorrectionType::FactMapping => "fact_mapping",
        CorrectionType::RuleDefect => "rule_defect",
        CorrectionType::VocabularyGap => "vocabulary_gap",
    }
}

/// The checklist line appended to the human review queue for a rule or vocabulary
/// correction.
pub fn review_queue_line(c: &Correction) -> (r: String)
    ensures
        r@ == review_line_of(*c),
{
    let mut r = String::from_str("- [ ] ");
    r.append(c.created_at.as_str());
    r.append(" **");
    r.append(correction_type_name(c.correction_type));
    r.append("** (episode ");
    r.append(c.episode_id.as_str());
    r.append(") by ");
    r.append(c.expert.as_str());
    r.append(": ");
    append_opt(&mut r, &c.corrected_decision);
    r.append(" ");
    append_opt(&mut r, &c.governing_section);
    r.append(" \u{2014} ");
    append_opt(&mut r, &c.note);
    r.append("\n");
    r
}

/// Check that a `fact_mapping` correction can be learned from: its episode must exist and
/// it must cite the governing § (citation-exists).
pub fn lesson_episode(correction: &Correction, episode: Option<Episode>) -> (r: Result<
    Episode,
    EngineError,
>)
    ensures
        r matches Ok(e) ==> episode == Some(e) && correction.governing_section is Some,
        episode is Some && correction.governing_section is Some ==> r == Ok::<Episode, EngineError>(
            episode->0,
        ),
        episode is None ==> (r matches Err(EngineError::Learn(m)) && m@ == "episode "@
            + correction.episode_id@ + " not found"@),
        episode is Some && correction.governing_section is None ==> (r matches Err(
            EngineError::Learn(m),
        ) && m@ == "fact_mapping correction must cite a governing \u{a7} (citation-exists)"@),
{
    let e = match episode {
        Some(e) => e,
        None => {
            let mut m = String::from_str("episode ");
            m.append(correction.episode_id.as_str());
            m.append(" not found");
            return Err(EngineError::Learn(m));
        },
    };
    if correction.governing_section.is_none() {
        return Err(
            EngineError::Learn(
                String::from_str("fact_mapping correction must cite a governing \u{a7} (citation-exists)"),
            ),
        );
    }
    Ok(e)
}

/// Whether `g` is the verdict the verification gate gives, with this scorer, on the lesson
/// distilled from a correction of an episode.
pub open spec fn gate_of_distilled<S: Scorer + ?Sized>(
    g: GateResult,
    episode: Episode,
    correction: Correction,
    tags: Vec<String>,
    scorer: &S,
) -> bool {
    exists|d: Draft| #[trigger] is_distilled(d, episode, correction, tags) && scored_verdict(g, d, scorer)
}

/// Distill a checked correction into a provisional lesson and run the verification gate on it; the
/// lesson is stored with the verdict, never trusted.
pub fn gated_lesson<S: Scorer + ?Sized>(
    episode: &Episode,
    correction: &Correction,
    tags: Vec<String>,
    scorer: &S,
) -> (s: StrategyItemInput)
    ensures
        s.trust_state == TrustState::Provisional,
        s.approved_by is None,
        s.approved_at is None,
        s.tags == tags,
        s.provenance.episode_id.deep_view() == Some(episode.id@),
        s.provenance.correction_id.deep_view() == Some(correction.id@),
        s.content@ == lesson_content(*episode, *correction),
        s.gate matches Some(g) && gate_of_distilled(g, *episode, *correction, tags, scorer),
{
    let ghost t = tags;
    let draft = distill(episode, correction, tags);
    let gate = verify(&draft, scorer);
    let ghost d = draft;
    let ghost g = gate;
    let s = draft.into_input(gate);
    assert(is_distilled(d, *episode, *correction, t));
    assert(gate_of_distilled(g, *episode, *correction, t, scorer));
    assert(s.gate == Some(g));
    s
}

/// What to do on a human approval.
#[derive(Debug, Clone, PartialEq, Eq)]
pub enum Approval {
    /// The lesson is already trusted: nothing to change.
    AlreadyTrusted(StoredStrategyItem),
    /// Promote the lesson with this update.
    Promote(StrategyItemPatch),
}

/// The first lesson with the given id.
pub open spec fn find_item(items: Seq<StoredStrategyItem>, id: Seq<char>) -> Option<StoredStrategyItem>
    decreases items.len(),
{
    if items.len() == 0 {
        None
    } else if items[0].id@ == id {
        Some(items[0])
    } else {
        find_item(items.drop_first(), id)
    }
}

/// Whether a stored lesson's gate verdict is a pass.
pub open spec fn gate_passed(item: StoredStrategyItem) -> bool {
    item.gate matches Some(g) && g.passed
}

/// Why a lesson's gate did not pass: its reasons joined by `; `, or that no gate ran.
pub open spec fn refusal_why(item: StoredStrategyItem) -> Seq<char> {
    match item.gate {
        Some(g) => join(g.reasons.deep_view(), "; "@),
        None => "no gate run"@,
    }
}

/// Approval law: whatever gate verdict a lesson carries, approval reads only whether it
/// passed, never the accuracies it recorded; and every lesson the verification gate
/// passed (a verdict `gate_verdict` can give, for any lesson and any scores, equal
/// accuracies included) can be approved.
pub proof fn lemma_gate_pass_is_approvable(
    item: StoredStrategyItem,
    g: GateResult,
    d: Draft,
    baseline: Result<GoldScore, EngineError>,
    candidate: Result<GoldScore, EngineError>,
    baseline_accuracy: Ratio,
    candidate_accuracy: Ratio,
)
    requires
        item.gate == Some(g),
    ensures
        gate_passed(item) == g.passed,
        gate_passed(item) == gate_passed(
            (StoredStrategyItem {
                gate: Some((GateResult { baseline_accuracy, candidate_accuracy, ..g })),
                ..item
            }),
        ),
        is_verdict(g, d, baseline, candidate) && g.passed ==> gate_passed(item),
{
}

/// HUMAN approval (provisional → trusted). Refused unless the verification gate passed: a lesson that
/// failed the verification gate cannot be promoted, even by a human. An already trusted lesson is left
/// as it is.
pub fn approval_step(
    items: Vec<StoredStrategyItem>,
    id: &str,
    approver: &str,
    approved_at: String,
) -> (r: Result<Approval, EngineError>)
    ensures
        find_item(items@, id@) is None ==> (r matches Err(EngineError::Learn(m)) && m@
            == "strategy item "@ + id@ + " not found"@),
        find_item(items@, id@) matches Some(item) ==> {
            if item.trust_state == TrustState::Trusted {
                r == Ok::<Approval, EngineError>(Approval::AlreadyTrusted(item))
            } else if gate_passed(item) {
                r matches Ok(Approval::Promote(p)) && p.trust_state == Some(TrustState::Trusted)
                    && p.approved_by.deep_view() == Some(approver@) && p.approved_at
                    == Some(approved_at) && p.helpful is None && p.harmful is None && p.gate is None
            } else {
                r matches Err(EngineError::Learn(m)) && m@
                    == "cannot approve: verification gate did not pass ("@ + refusal_why(item)
                    + ")"@
            }
        },
{
    let mut i: usize = 0;
    assert(items@.subrange(0, items@.len() as int) =~= items@);
    while i < items.len()
        invariant
            i <= items.len(),
            find_item(items@, id@) == find_item(items@.subrange(i as int, items@.len() as int), id@),
        ensures
            i <= items.len(),
            find_item(items@, id@) == find_item(items@.subrange(i as int, items@.len() as int), id@),
            i < items.len() ==> items@[i as int].id@ == id@,
        decreases items.len() - i,
    {
        let ghost rest = items@.subrange(i as int, items@.len() as int);
        assert(rest.drop_first() =~= items@.subrange(i + 1, items@.len() as int));
        if crate::text::str_eq(items[i].id.as_str(), id) {
            break;
        }
        i = i + 1;
    }
    proof {
        if i < items.len() {
            assert(items@.subrange(i as int, items@.len() as int)[0] == items@[i as int]);
        }
    }
    if i == items.len() {
        let mut m = String::from_str("strategy item ");
        m.append(id);
        m.append(" not found");
        return Err(EngineError::Learn(m));
    }
    let mut items = items;
    let item = items.swap_remove(i);
    match item.trust_state {
        TrustState::Trusted => {
            return Ok(Approval::AlreadyTrusted(item));
        },
        TrustState::Provisional => {},
    }
    let passed = match &item.gate {
        Some(g) => g.passed,
        None => false,
    };
    if passed {
        return Ok(
            Approval::Promote(
                StrategyItemPatch {
                    trust_state: Some(TrustState::Trusted),
                    helpful: None,
                    harmful: None,
                    gate: None,
                    approved_by: Some(String::from_str(approver)),
                    approved_at: Some(approved_at),
                },
            ),
        );
    }
    let why = match &item.gate {
        Some(g) => join_strings(&g.reasons, "; "),
        None => String::from_str("no gate run"),
    };
    let mut m = String::from_str("cannot approve: verification gate did not pass (");
    m.append(why.as_str());
    m.append(")");
    Err(EngineError::Learn(m))
}

/// The strings joined with `sep`.
pub fn join_strings(parts: &Vec<String>, sep: &str) -> (r: String)
    ensures
        r@ == join(parts.deep_view(), sep@),
{
    let ghost pv = parts.deep_view();
    let mut r = String::new();
    let mut i: usize = 0;
    while i < parts.len()
        invariant
            i <= parts.len(),
            pv == parts.deep_view(),
            r@ == join(pv.take(i as int), sep@),
        decreases parts.len() - i,
    {
        proof {
            lemma_join_take(pv, sep@, i as int);
        }
        if i > 0 {
            r.append(sep);
        }
        r.append(parts[i].as_str());
        assert(r@ =~= join(pv.take(i + 1), sep@));
        i = i + 1;
    }
    assert(pv.take(parts.len() as int) =~= pv);
    r
}

/// Verification-gate law: a lesson passes exactly when both gold-set runs came back, the
/// gold set is not empty, the lesson names its episode, correction and source, and it does
/// not lower the gold-set accuracy. So a scorer error, an empty gold set, an orphan lesson
/// or a regression each fail it (fail-closed).
pub proof fn lemma_gate_passes_exactly_when_verified(
    d: Draft,
    baseline: Result<GoldScore, EngineError>,
    candidate: Result<GoldScore, EngineError>,
)
    ensures
        gate_verdict_of(d, baseline, candidate).0 <==> (baseline matches Ok(b) && candidate
            matches Ok(c) && has_provenance(d) && d.provenance.source@.len() > 0 && b.total > 0
            && !ratio_lt(c.accuracy, b.accuracy)),
{
    if let (Ok(b), Ok(c)) = (baseline, candidate) {
        let r = gate_reasons(d, b, c);
        if !has_provenance(d) || d.provenance.source@.len() == 0 || b.total == 0 || ratio_lt(
            c.accuracy,
            b.accuracy,
        ) {
            assert(r.len() > 0);
        }
    }
}

/// Promotion law: the update an approval makes turns a lesson trusted, so a lesson that
/// shares a tag is retrieved from then on; before it, a provisional lesson never is.
pub proof fn lemma_promotion_makes_retrievable(
    item: StoredStrategyItem,
    patch: StrategyItemPatch,
    tags: Seq<String>,
)
    requires
        patch.trust_state == Some(TrustState::Trusted),
    ensures
        item.trust_state == TrustState::Provisional ==> !crate::store::retrievable(item, tags),
        crate::store::retrievable(crate::store::patched(item, patch), tags) <==> exists|i: int, j: int|
            0 <= i < item.tags@.len() && 0 <= j < tags.len() && #[trigger] item.tags@[i]@
                == #[trigger] tags[j]@,
{
    assert(crate::store::patched(item, patch).tags == item.tags);
}

/// Whether every trusted lesson carries a passed verification gate.
pub open spec fn trusted_are_gated(items: Seq<StoredStrategyItem>) -> bool {
    forall|j: int|
        0 <= j < items.len() && (#[trigger] items[j]).trust_state == TrustState::Trusted ==> gate_passed(
            items[j],
        )
}

/// Whether no two lessons share an id.
pub open spec fn unique_ids(items: Seq<StoredStrategyItem>) -> bool {
    forall|j: int, k: int| 0 <= j < k < items.len() ==> (#[trigger] items[j]).id@ != (#[trigger] items[k]).id@
}

/// The lessons after the update `p` is applied to the lesson(s) with id `id`.
pub open spec fn updated(items: Seq<StoredStrategyItem>, id: Seq<char>, p: StrategyItemPatch) -> Seq<
    StoredStrategyItem,
> {
    items.map_values(|y: StoredStrategyItem| if y.id@ == id { crate::store::patched(y, p) } else { y })
}

proof fn lemma_find_item_at(items: Seq<StoredStrategyItem>, id: Seq<char>)
    ensures
        find_item(items, id) matches Some(x) ==> exists|k: int|
            0 <= k < items.len() && #[trigger] items[k] == x && items[k].id@ == id,
    decreases items.len(),
{
    if items.len() > 0 && items[0].id@ != id {
        lemma_find_item_at(items.drop_first(), id);
        if let Some(x) = find_item(items, id) {
            let k = choose|k: int|
                0 <= k < items.drop_first().len() && #[trigger] items.drop_first()[k] == x
                    && items.drop_first()[k].id@ == id;
            assert(items[k + 1] == x);
        }
    } else if items.len() > 0 {
        assert(items[0] == items[0]);
    }
}

/// Store law: every trusted lesson carries a passed verification gate, and that stays so
/// through submissions and approvals. Adding a provisional lesson (all a submission adds)
/// keeps it; so does applying, to the lesson with the approved id (ids being unique), an
/// update that sets no gate when that lesson's gate passed (all an approval promotes).
/// A store that starts empty holds it trivially.
pub proof fn lemma_trusted_stay_gated(
    items: Seq<StoredStrategyItem>,
    added: StoredStrategyItem,
    id: Seq<char>,
    p: StrategyItemPatch,
)
    requires
        trusted_are_gated(items),
    ensures
        added.trust_state == TrustState::Provisional ==> trusted_are_gated(items.push(added)),
        unique_ids(items) ==> (find_item(items, id) matches Some(x) ==> (gate_passed(x) && p.gate is None
            ==> trusted_are_gated(updated(items, id, p)))),
{
    if added.trust_state == TrustState::Provisional {
        let t = items.push(added);
        assert forall|j: int|
            0 <= j < t.len() && (#[trigger] t[j]).trust_state == TrustState::Trusted implies gate_passed(
            t[j],
        ) by {
            assert(j < items.len());
            assert(t[j] == items[j]);
        }
    }
    lemma_find_item_at(items, id);
    if unique_ids(items) && find_item(items, id) is Some {
        let x = find_item(items, id)->0;
        if gate_passed(x) && p.gate is None {
            let k = choose|k: int| 0 <= k < items.len() && #[trigger] items[k] == x && items[k].id@ == id;
            let u = updated(items, id, p);
            assert forall|j: int|
                0 <= j < u.len() && (#[trigger] u[j]).trust_state == TrustState::Trusted implies gate_passed(
                u[j],
            ) by {
                if items[j].id@ == id {
                    if j != k {
                        if j < k {
                            assert(items[j].id@ != items[k].id@);
                        } else {
                            assert(items[k].id@ != items[j].id@);
                        }
                    }
                    assert(u[j] == crate::store::patched(items[j], p));
                } else {
                    assert(u[j] == items[j]);
                }
            }
        }
    }
}

/// A change the learning loop makes to the stored lessons: a submission adds a lesson; an
/// approval applies its update to the lesson with the approved id.
pub enum LessonChange {
    Add(StoredStrategyItem),
    Approve(Seq<char>, StrategyItemPatch),
}

/// Whether the learning loop can make this change: a submission adds a provisional lesson
/// under a fresh id (what `gated_lesson` gives, stored); an approval promotes only a
/// lesson whose gate passed and sets no gate (what `approval_step` gives).
pub open spec fn allowed_change(items: Seq<StoredStrategyItem>, c: LessonChange) -> bool {
    match c {
        LessonChange::Add(x) => x.trust_state == TrustState::Provisional && forall|j: int|
            0 <= j < items.len() ==> (#[trigger] items[j]).id@ != x.id@,
        LessonChange::Approve(id, p) => find_item(items, id) matches Some(x) && gate_passed(x)
            && p.gate is None,
    }
}

/// The lessons after a change.
pub open spec fn apply_change(items: Seq<StoredStrategyItem>, c: LessonChange) -> Seq<StoredStrategyItem> {
    match c {
        LessonChange::Add(x) => items.push(x),
        LessonChange::Approve(id, p) => updated(items, id, p),
    }
}

/// The lessons after a run of changes, in order.
pub open spec fn replay(items: Seq<StoredStrategyItem>, cs: Seq<LessonChange>) -> Seq<StoredStrategyItem>
    decreases cs.len(),
{
    if cs.len() == 0 {
        items
    } else {
        apply_change(replay(items, cs.drop_last()), cs.last())
    }
}

proof fn lemma_change_keeps_ids_unique(items: Seq<StoredStrategyItem>, c: LessonChange)
    requires
        unique_ids(items),
        allowed_change(items, c),
    ensures
        unique_ids(apply_change(items, c)),
{
    match c {
        LessonChange::Add(x) => {
            let t = items.push(x);
            assert forall|j: int, k: int| 0 <= j < k < t.len() implies (#[trigger] t[j]).id@ != (
            #[trigger] t[k]).id@ by {
                assert(t[j] == items[j]);
                if k < items.len() {
                    assert(t[k] == items[k]);
                } else {
                    assert(items[j].id@ != x.id@);
                }
            }
        },
        LessonChange::Approve(id, p) => {
            let u = updated(items, id, p);
            assert forall|j: int, k: int| 0 <= j < k < u.len() implies (#[trigger] u[j]).id@ != (
            #[trigger] u[k]).id@ by {
                assert(u[j].id == items[j].id);
                assert(u[k].id == items[k].id);
                assert(items[j].id@ != items[k].id@);
            }
        },
    }
}

/// Store law over whole runs: starting from lessons whose trusted ones all carry a passed
/// verification gate (an empty store does), every run of changes the learning loop can make
/// (submissions and approvals, in any order) keeps it so, and keeps ids unique.
pub proof fn lemma_runs_keep_trusted_gated(items: Seq<StoredStrategyItem>, cs: Seq<LessonChange>)
    requires
        unique_ids(items),
        trusted_are_gated(items),
        forall|i: int| 0 <= i < cs.len() ==> allowed_change(replay(items, cs.take(i)), #[trigger] cs[i]),
    ensures
        unique_ids(replay(items, cs)),
        trusted_are_gated(replay(items, cs)),
    decreases cs.len(),
{
    if cs.len() > 0 {
        let d = cs.drop_last();
        assert forall|i: int| 0 <= i < d.len() implies allowed_change(
            replay(items, d.take(i)),
            #[trigger] d[i],
        ) by {
            assert(d.take(i) =~= cs.take(i));
            assert(d[i] == cs[i]);
        }
        lemma_runs_keep_trusted_gated(items, d);
        let before = replay(items, d);
        let last_i = cs.len() - 1;
        assert(cs.take(last_i) =~= d);
        assert(allowed_change(replay(items, cs.take(last_i)), cs[last_i]));
        let c = cs.last();
        lemma_change_keeps_ids_unique(before, c);
        match c {
            LessonChange::Add(x) => {
                lemma_trusted_stay_gated(before, x, Seq::empty(), StrategyItemPatch {
                    trust_state: None,
                    helpful: None,
                    harmful: None,
                    gate: None,
                    approved_by: None,
                    approved_at: None,
                });
            },
            LessonChange::Approve(id, p) => {
                lemma_trusted_stay_gated(before, before[0], id, p);
            },
        }
    }
}

} // verus!
