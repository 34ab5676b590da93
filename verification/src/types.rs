//! Shared engine types. Fail-closed by construction: an `Outcome` is either a fully
//! cited `Answer` or an `Abstain` with a reason, never a bare guess.
use vstd::prelude::*;

verus! {

/// A determinate decision.
pub const STATUS_SOLVED: &'static str = "solved";

/// Insufficient facts.
pub const STATUS_ABSTAIN: &'static str = "abstain";

/// Contradictory input.
pub const STATUS_CONFLICT: &'static str = "conflict";

/// Facts or rules failed to parse.
pub const STATUS_SCHEMA_INVALID: &'static str = "schema_invalid";

/// The `solved` status, as text.
pub open spec fn solved_status() -> Seq<char> {
    "solved"@
}

/// The regulated answer, or a refusal. The single thing `gate` produces.
#[derive(Debug, Clone, PartialEq, Eq)]
pub enum Outcome {
    Answer { decision: String, citations: Vec<String>, justification: Vec<String> },
    Abstain { reason: String },
}

/// One slot in a topic's fixed vocabulary.
#[derive(Debug, Clone, PartialEq, Eq)]
pub struct SlotSpec {
    /// Allowed values (excludes "unknown").
    pub enum_: Vec<String>,
    /// Fact with "{}" replaced by the value, e.g. "vat_status(supplier, {})".
    pub fact_template: String,
}

/// One accounting topic, loaded from a rules module. `slots` is kept in ascending order
/// of slot name with no name twice (see `Topic::insert_slot`), the order in which every
/// function here walks it.
#[derive(Debug, Clone, PartialEq, Eq)]
pub struct Topic {
    pub id: String,
    pub ruleset: String,
    pub description: String,
    pub system_prompt: String,
    pub slots: Vec<(String, SlotSpec)>,
    pub tags: Vec<String>,
    pub rules_path: String,
}

/// Topic-agnostic result of one solve.
#[derive(Debug, Clone, PartialEq, Eq)]
pub struct SolverResult {
    pub decision: Option<String>,
    pub status: String,
    pub citations: Vec<String>,
    pub justification: Vec<String>,
}

/// Engine error. Every fallible boundary maps to one of these or to an abstain.
#[derive(Debug, Clone, PartialEq, Eq)]
pub enum EngineError {
    /// A topic module's description or rules file could not be read or parsed.
    Topics(String),
    /// The language-model driver failed.
    Claude(String),
    /// A budget ceiling was exceeded.
    Budget(String),
    /// The datastore failed.
    Store(String),
    /// The learning loop refused or failed.
    Learn(String),
}

/// The text an `EngineError` displays as.
pub open spec fn error_message(e: EngineError) -> Seq<char> {
    match e {
        EngineError::Topics(m) => "topics error: "@ + m@,
        EngineError::Claude(m) => "llm error: "@ + m@,
        EngineError::Budget(m) => "budget error: "@ + m@,
        EngineError::Store(m) => "store error: "@ + m@,
        EngineError::Learn(m) => "learn error: "@ + m@,
    }
}

impl EngineError {
    /// The human-readable text of the error.
    pub fn message(&self) -> (r: String)
        ensures
            r@ == error_message(*self),
    {
        let (prefix, m) = match self {
            EngineError::Topics(m) => ("topics error: ", m),
            EngineError::Claude(m) => ("llm error: ", m),
            EngineError::Budget(m) => ("budget error: ", m),
            EngineError::Store(m) => ("store error: ", m),
            EngineError::Learn(m) => ("learn error: ", m),
        };
        let mut r = String::from_str(prefix);
        r.append(m.as_str());
        r
    }
}

/// What an ask records: the raw material a correction attaches to.
#[derive(Debug, Clone, PartialEq, Eq)]
pub struct EpisodeInput {
    pub topic: Option<String>,
    pub question: String,
    pub as_of_date: String,
    pub facts: Option<Vec<String>>,
    pub decision: Option<String>,
    pub status: String,
    pub citations: Vec<String>,
}

/// A stored episode.
#[derive(Debug, Clone, PartialEq, Eq)]
pub struct Episode {
    pub id: String,
    pub created_at: String,
    pub topic: Option<String>,
    pub question: String,
    pub as_of_date: String,
    pub facts: Option<Vec<String>>,
    pub decision: Option<String>,
    pub status: String,
    pub citations: Vec<String>,
}

/// The kind of an expert correction.
#[derive(Debug, Clone, Copy, PartialEq, Eq, Structural)]
pub enum CorrectionType {
    FactMapping,
    RuleDefect,
    VocabularyGap,
}

pub open spec fn correction_type_text(t: CorrectionType) -> Seq<char> {
    match t {
        CorrectionType::FactMapping => "fact_mapping"@,
        CorrectionType::RuleDefect => "rule_defect"@,
        CorrectionType::VocabularyGap => "vocabulary_gap"@,
    }
}

/// An expert correction before it is stored.
#[derive(Debug, Clone, PartialEq, Eq)]
pub struct CorrectionInput {
    pub episode_id: String,
    pub correction_type: CorrectionType,
    pub corrected_decision: Option<String>,
    pub governing_section: Option<String>,
    pub expert: String,
    pub note: Option<String>,
}

/// A stored expert correction.
#[derive(Debug, Clone, PartialEq, Eq)]
pub struct Correction {
    pub id: String,
    pub created_at: String,
    pub episode_id: String,
    pub correction_type: CorrectionType,
    pub corrected_decision: Option<String>,
    pub governing_section: Option<String>,
    pub expert: String,
    pub note: Option<String>,
}

/// Whether a lesson may be retrieved into extraction.
#[derive(Debug, Clone, Copy, PartialEq, Eq, Structural)]
pub enum TrustState {
    Provisional,
    Trusted,
}

pub open spec fn trust_state_text(t: TrustState) -> Seq<char> {
    match t {
        TrustState::Provisional => "provisional"@,
        TrustState::Trusted => "trusted"@,
    }
}

/// Where a lesson came from.
#[derive(Debug, Clone, PartialEq, Eq)]
pub struct Provenance {
    pub episode_id: Option<String>,
    pub correction_id: Option<String>,
    pub source: String,
}

/// A gold-set accuracy held exactly as `num / den`; a zero `den` reads as zero.
#[derive(Debug, Clone, Copy, PartialEq, Eq, Structural)]
pub struct Ratio {
    pub num: u64,
    pub den: u64,
}

/// `a < b` as rational numbers.
pub open spec fn ratio_lt(a: Ratio, b: Ratio) -> bool {
    let an: int = if a.den == 0 { 0 } else { a.num as int };
    let ad: int = if a.den == 0 { 1 } else { a.den as int };
    let bn: int = if b.den == 0 { 0 } else { b.num as int };
    let bd: int = if b.den == 0 { 1 } else { b.den as int };
    an * bd < bn * ad
}

/// The verdict of the verification gate on one lesson.
#[derive(Debug, Clone, PartialEq, Eq)]
pub struct GateResult {
    pub passed: bool,
    pub reasons: Vec<String>,
    pub baseline_accuracy: Ratio,
    pub candidate_accuracy: Ratio,
}

/// A lesson as injected into extraction as a few-shot example.
#[derive(Debug, Clone, PartialEq, Eq)]
pub struct StrategyItem {
    pub title: String,
    pub description: String,
    pub content: String,
    pub tags: Vec<String>,
}

/// A lesson before it is stored.
#[derive(Debug, Clone, PartialEq, Eq)]
pub struct StrategyItemInput {
    pub title: String,
    pub description: String,
    pub content: String,
    pub tags: Vec<String>,
    pub trust_state: TrustState,
    pub provenance: Provenance,
    pub helpful: i32,
    pub harmful: i32,
    pub gate: Option<GateResult>,
    pub approved_by: Option<String>,
    pub approved_at: Option<String>,
}

/// A stored lesson.
#[derive(Debug, Clone, PartialEq, Eq)]
pub struct StoredStrategyItem {
    pub id: String,
    pub created_at: String,
    pub title: String,
    pub description: String,
    pub content: String,
    pub tags: Vec<String>,
    pub trust_state: TrustState,
    pub provenance: Provenance,
    pub helpful: i64,
    pub harmful: i64,
    pub gate: Option<GateResult>,
    pub approved_by: Option<String>,
    pub approved_at: Option<String>,
}

/// A partial update of a stored lesson; `None` keeps the stored value.
#[derive(Debug, Clone, PartialEq, Eq)]
pub struct StrategyItemPatch {
    pub trust_state: Option<TrustState>,
    pub helpful: Option<i64>,
    pub harmful: Option<i64>,
    pub gate: Option<GateResult>,
    pub approved_by: Option<String>,
    pub approved_at: Option<String>,
}

impl Default for StrategyItemPatch {
    fn default() -> (p: Self)
        ensures
            p.trust_state is None,
            p.helpful is None,
            p.harmful is None,
            p.gate is None,
            p.approved_by is None,
            p.approved_at is None,
    {
        StrategyItemPatch {
            trust_state: None,
            helpful: None,
            harmful: None,
            gate: None,
            approved_by: None,
            approved_at: None,
        }
    }
}

} // verus!
