//! The solver front and back end: the program text handed to the ASP solver, and the
//! compile-or-refuse reading of the atoms it shows. Decision labels, citations and
//! justification are emitted by the rules as atoms, never hard-coded here.
use vstd::prelude::*;
use vstd::string::*;
use crate::order::{sorted_dedup, sorted_distinct, views};
use crate::text::{
    chars_of, is_ws, join, lemma_join_take, substring, trim, trim_bounds, trim_end, trim_start,
};
use crate::types::SolverResult;

verus! {

/// `s` without its trailing `.` characters.
pub open spec fn strip_trailing_dots(s: Seq<char>) -> Seq<char>
    decreases s.len(),
{
    if s.len() > 0 && s.last() == '.' {
        strip_trailing_dots(s.drop_last())
    } else {
        s
    }
}

/// A fact line trimmed and ending in exactly one `.`; a blank line stays empty.
pub open spec fn normalized(fact: Seq<char>) -> Seq<char> {
    let t = trim(fact);
    if t.len() == 0 {
        Seq::empty()
    } else {
        strip_trailing_dots(t) + seq!['.']
    }
}

/// Normalize a fact line: trim and ensure exactly one trailing ".". Empty stays empty.
pub fn normalize(fact: &str) -> (r: String)
    ensures
        r@ == normalized(fact@),
{
    let s = chars_of(fact);
    let (a, b) = trim_bounds(&s, 0, s.len());
    assert(s@.subrange(0, s.len() as int) =~= s@);
    if a == b {
        assert(s@.subrange(a as int, b as int) =~= Seq::<char>::empty());
        return String::new();
    }
    let mut e = b;
    while e > a && s[e - 1] == '.'
        invariant
            a <= e <= b <= s.len(),
            strip_trailing_dots(s@.subrange(a as int, b as int)) == strip_trailing_dots(
                s@.subrange(a as int, e as int),
            ),
        decreases e - a,
    {
        assert(s@.subrange(a as int, e as int).drop_last() =~= s@.subrange(a as int, e - 1));
        e = e - 1;
    }
    let mut r = substring(fact, a, e);
    r.append(".");
    proof {
        reveal_strlit(".");
    }
    r
}

/// The normalized, non-blank facts, in order.
pub open spec fn kept_facts(facts: Seq<String>) -> Seq<Seq<char>>
    decreases facts.len(),
{
    if facts.len() == 0 {
        Seq::empty()
    } else {
        let before = kept_facts(facts.drop_last());
        let n = normalized(facts.last()@);
        if n.len() == 0 {
            before
        } else {
            before.push(n)
        }
    }
}

/// The program handed to the solver: the rule set, a newline, then the kept facts one
/// per line.
pub open spec fn program_of(ruleset: Seq<char>, facts: Seq<String>) -> Seq<char> {
    ruleset + "\n"@ + join(kept_facts(facts), "\n"@)
}

/// What each non-blank fact line says: the line trimmed and stripped of its trailing dots,
/// in order; blank lines say nothing.
pub open spec fn fact_keys(facts: Seq<String>) -> Seq<Seq<char>>
    decreases facts.len(),
{
    if facts.len() == 0 {
        Seq::empty()
    } else {
        let before = fact_keys(facts.drop_last());
        let t = trim(facts.last()@);
        if t.len() == 0 {
            before
        } else {
            before.push(strip_trailing_dots(t))
        }
    }
}

proof fn lemma_kept_are_keys(facts: Seq<String>)
    ensures
        kept_facts(facts) == fact_keys(facts).map_values(|k: Seq<char>| k + seq!['.']),
    decreases facts.len(),
{
    if facts.len() > 0 {
        lemma_kept_are_keys(facts.drop_last());
        let keys = fact_keys(facts.drop_last());
        let t = trim(facts.last()@);
        if t.len() > 0 {
            let k = strip_trailing_dots(t);
            assert(keys.push(k).map_values(|k: Seq<char>| k + seq!['.']) =~= keys.map_values(
                |k: Seq<char>| k + seq!['.'],
            ).push(k + seq!['.']));
        }
    } else {
        assert(fact_keys(facts).map_values(|k: Seq<char>| k + seq!['.']) =~= Seq::<Seq<char>>::empty());
    }
}

/// Equivalent fact lists give the same program: blank lines, surrounding white space and
/// trailing dots do not matter, only what each non-blank line says, in order.
pub proof fn lemma_equivalent_facts_same_program(
    ruleset: Seq<char>,
    facts: Seq<String>,
    other: Seq<String>,
)
    requires
        fact_keys(facts) == fact_keys(other),
    ensures
        program_of(ruleset, facts) == program_of(ruleset, other),
{
    lemma_kept_are_keys(facts);
    lemma_kept_are_keys(other);
}

/// Build the solver program from a rule set and the extracted facts.
pub fn solver_program(ruleset: &str, facts: &Vec<String>) -> (r: String)
    ensures
        r@ == program_of(ruleset@, facts@),
{
    let mut kept: Vec<String> = Vec::new();
    let mut i: usize = 0;
    while i < facts.len()
        invariant
            i <= facts.len(),
            views(kept@) == kept_facts(facts@.take(i as int)),
        decreases facts.len() - i,
    {
        let n = normalize(facts[i].as_str());
        assert(facts@.take(i + 1).drop_last() =~= facts@.take(i as int));
        if !n.as_str().is_empty() {
            kept.push(n);
            assert(views(kept@) =~= kept_facts(facts@.take(i as int)).push(n@));
        }
        i = i + 1;
    }
    assert(facts@.take(facts.len() as int) =~= facts@);
    let ghost parts = views(kept@);
    let mut block = String::new();
    let mut j: usize = 0;
    while j < kept.len()
        invariant
            j <= kept.len(),
            parts == views(kept@),
            block@ == join(parts.take(j as int), "\n"@),
        decreases kept.len() - j,
    {
        proof {
            lemma_join_take(parts, "\n"@, j as int);
        }
        if j > 0 {
            block.append("\n");
        }
        block.append(kept[j].as_str());
        assert(block@ =~= join(parts.take(j + 1), "\n"@));
        j = j + 1;
    }
    assert(parts.take(kept.len() as int) =~= parts);
    let mut r = String::from_str(ruleset);
    r.append("\n");
    r.append(block.as_str());
    r
}

/// The argument text of a shown atom `name(args)`, when `s` is `prefix` + args + `)`.
pub open spec fn unwrap_call(s: Seq<char>, prefix: Seq<char>) -> Option<Seq<char>> {
    if s.len() >= prefix.len() + 1 && s.subrange(0, prefix.len() as int) == prefix && s.last()
        == ')' {
        Some(s.subrange(prefix.len() as int, s.len() - 1))
    } else {
        None
    }
}

/// `s` without its leading `c` characters.
pub open spec fn strip_leading(s: Seq<char>, c: char) -> Seq<char>
    decreases s.len(),
{
    if s.len() > 0 && s[0] == c {
        strip_leading(s.drop_first(), c)
    } else {
        s
    }
}

/// `s` without its trailing `c` characters.
pub open spec fn strip_trailing(s: Seq<char>, c: char) -> Seq<char>
    decreases s.len(),
{
    if s.len() > 0 && s.last() == c {
        strip_trailing(s.drop_last(), c)
    } else {
        s
    }
}

/// `str::trim_matches('"')`.
pub open spec fn strip_quotes(s: Seq<char>) -> Seq<char> {
    strip_trailing(strip_leading(s, '"'), '"')
}

/// How the reader files one shown atom: 0 a decision, 1 a citation, 2 a justification,
/// 3 anything else; with the text it keeps. Checked in that order.
pub open spec fn classify(s: Seq<char>) -> (int, Seq<char>) {
    match unwrap_call(s, "decision("@) {
        Some(x) => (0, x),
        None => match unwrap_call(s, "cite("@) {
            Some(x) => (1, strip_quotes(x)),
            None => match unwrap_call(s, "because("@) {
                Some(x) => (2, x),
                None => match unwrap_call(s, "because_not("@) {
                    Some(x) => (2, x),
                    None => (3, Seq::empty()),
                },
            },
        },
    }
}

/// The texts that the atoms of `kind` contribute, in the order shown.
pub open spec fn atoms_of(symbols: Seq<Seq<char>>, kind: int) -> Seq<Seq<char>>
    decreases symbols.len(),
{
    if symbols.len() == 0 {
        Seq::empty()
    } else {
        let before = atoms_of(symbols.drop_last(), kind);
        let c = classify(symbols.last());
        if c.0 == kind {
            before.push(c.1)
        } else {
            before
        }
    }
}

/// The atoms the solver showed, sorted into decisions, citations and justification.
pub struct ShownAtoms {
    pub decisions: Vec<String>,
    pub cites: Vec<String>,
    pub because: Vec<String>,
}

fn unwrap_call_exec(s: &Vec<char>, text: &str, prefix: &str) -> (r: Option<(usize, usize)>)
    requires
        s@ == text@,
    ensures
        r matches Some((a, b)) ==> a <= b <= s.len() && unwrap_call(s@, prefix@) == Some(
            s@.subrange(a as int, b as int),
        ),
        r is None ==> unwrap_call(s@, prefix@) is None,
{
    let p = chars_of(prefix);
    if s.len() <= p.len() {
        return None;
    }
    if !crate::text::matches_at(s, &p, 0) {
        return None;
    }
    if s[s.len() - 1] != ')' {
        return None;
    }
    Some((p.len(), s.len() - 1))
}

fn strip_quotes_bounds(s: &Vec<char>, a: usize, b: usize) -> (r: (usize, usize))
    requires
        a <= b <= s.len(),
    ensures
        r.0 <= r.1 <= s.len(),
        s@.subrange(r.0 as int, r.1 as int) == strip_quotes(s@.subrange(a as int, b as int)),
{
    let mut x = a;
    while x < b && s[x] == '"'
        invariant
            a <= x <= b <= s.len(),
            strip_leading(s@.subrange(a as int, b as int), '"') == strip_leading(
                s@.subrange(x as int, b as int),
                '"',
            ),
        decreases b - x,
    {
        assert(s@.subrange(x as int, b as int).drop_first() =~= s@.subrange(x + 1, b as int));
        x = x + 1;
    }
    let mut y = b;
    while y > x && s[y - 1] == '"'
        invariant
            a <= x <= y <= b <= s.len(),
            strip_quotes(s@.subrange(a as int, b as int)) == strip_trailing(
                s@.subrange(x as int, y as int),
                '"',
            ),
        decreases y - x,
    {
        assert(s@.subrange(x as int, y as int).drop_last() =~= s@.subrange(x as int, y - 1));
        y = y - 1;
    }
    (x, y)
}

/// File every shown atom as a decision, a citation (quotes stripped) or a justification.
pub fn classify_symbols(symbols: &Vec<String>) -> (r: ShownAtoms)
    ensures
        views(r.decisions@) == atoms_of(views(symbols@), 0),
        views(r.cites@) == atoms_of(views(symbols@), 1),
        views(r.because@) == atoms_of(views(symbols@), 2),
{
    let mut r = ShownAtoms { decisions: Vec::new(), cites: Vec::new(), because: Vec::new() };
    let mut i: usize = 0;
    while i < symbols.len()
        invariant
            i <= symbols.len(),
            views(r.decisions@) == atoms_of(views(symbols@.take(i as int)), 0),
            views(r.cites@) == atoms_of(views(symbols@.take(i as int)), 1),
            views(r.because@) == atoms_of(views(symbols@.take(i as int)), 2),
        decreases symbols.len() - i,
    {
        let text = symbols[i].as_str();
        let s = chars_of(text);
        let ghost sym = symbols@[i as int]@;
        proof {
            assert(views(symbols@.take(i + 1)).drop_last() =~= views(symbols@.take(i as int)));
            assert(views(symbols@.take(i + 1)).last() == sym);
            reveal_strlit("decision(");
            reveal_strlit("cite(");
            reveal_strlit("because(");
            reveal_strlit("because_not(");
        }
        let ghost d0 = views(r.decisions@);
        let ghost c0 = views(r.cites@);
        let ghost b0 = views(r.because@);
        if let Some((a, b)) = unwrap_call_exec(&s, text, "decision(") {
            let x = substring(text, a, b);
            r.decisions.push(x);
            assert(views(r.decisions@) =~= d0.push(x@));
        } else if let Some((a, b)) = unwrap_call_exec(&s, text, "cite(") {
            let (qa, qb) = strip_quotes_bounds(&s, a, b);
            let x = substring(text, qa, qb);
            r.cites.push(x);
            assert(views(r.cites@) =~= c0.push(x@));
        } else if let Some((a, b)) = unwrap_call_exec(&s, text, "because(") {
            let x = substring(text, a, b);
            r.because.push(x);
            assert(views(r.because@) =~= b0.push(x@));
        } else if let Some((a, b)) = unwrap_call_exec(&s, text, "because_not(") {
            let x = substring(text, a, b);
            r.because.push(x);
            assert(views(r.because@) =~= b0.push(x@));
        }
        i = i + 1;
    }
    assert(symbols@.take(symbols.len() as int) =~= symbols@);
    r
}

/// What a solve yields from the atoms shown across all models, or from a solver error:
/// exactly one distinct decision is `solved` (with the distinct citations and
/// justification, sorted); several are a `conflict`; none is `abstain`; an error is
/// `schema_invalid`. Only `solved` carries a decision, citations or justification.
pub open spec fn solver_result_of(shown: Result<Seq<Seq<char>>, ()>) -> (
    Option<Seq<char>>,
    Seq<char>,
    Seq<Seq<char>>,
    Seq<Seq<char>>,
) {
    match shown {
        Err(_) => (None, "schema_invalid"@, Seq::empty(), Seq::empty()),
        Ok(symbols) => {
            let d = sorted_distinct(atoms_of(symbols, 0));
            if d.len() == 1 {
                (
                    Some(d[0]),
                    "solved"@,
                    sorted_distinct(atoms_of(symbols, 1)),
                    sorted_distinct(atoms_of(symbols, 2)),
                )
            } else if d.len() > 1 {
                (None, "conflict"@, Seq::empty(), Seq::empty())
            } else {
                (None, "abstain"@, Seq::empty(), Seq::empty())
            }
        },
    }
}

/// The solver's shown atoms (or its error) as a topic-agnostic result. Never panics.
pub fn solve_from_symbols(shown: &Result<Vec<String>, String>) -> (r: SolverResult)
    ensures
        ({
            let spec = solver_result_of(
                match shown {
                    Ok(v) => Ok(views(v@)),
                    Err(_) => Err(()),
                },
            );
            &&& r.decision.deep_view() == spec.0
            &&& r.status@ == spec.1
            &&& views(r.citations@) == spec.2
            &&& views(r.justification@) == spec.3
        }),
{
    let symbols = match shown {
        Ok(v) => v,
        Err(_) => {
            return SolverResult {
                decision: None,
                status: String::from_str("schema_invalid"),
                citations: Vec::new(),
                justification: Vec::new(),
            };
        },
    };
    let atoms = classify_symbols(symbols);
    let decisions = sorted_dedup(atoms.decisions);
    if decisions.len() == 1 {
        let decision = decisions[0].clone();
        let citations = sorted_dedup(atoms.cites);
        let justification = sorted_dedup(atoms.because);
        SolverResult {
            decision: Some(decision),
            status: String::from_str("solved"),
            citations,
            justification,
        }
    } else if decisions.len() > 1 {
        SolverResult {
            decision: None,
            status: String::from_str("conflict"),
            citations: Vec::new(),
            justification: Vec::new(),
        }
    } else {
        SolverResult {
            decision: None,
            status: String::from_str("abstain"),
            citations: Vec::new(),
            justification: Vec::new(),
        }
    }
}

proof fn lemma_trim_start_shape(s: Seq<char>)
    ensures
        trim_start(s).len() == 0 || !is_ws(trim_start(s)[0]),
    decreases s.len(),
{
    if s.len() > 0 && is_ws(s[0]) {
        lemma_trim_start_shape(s.drop_first());
    }
}

proof fn lemma_trim_end_shape(s: Seq<char>)
    ensures
        trim_end(s).len() <= s.len(),
        trim_end(s) == s.subrange(0, trim_end(s).len() as int),
        trim_end(s).len() == 0 || !is_ws(trim_end(s).last()),
    decreases s.len(),
{
    if s.len() > 0 && is_ws(s.last()) {
        lemma_trim_end_shape(s.drop_last());
        assert(s.drop_last().subrange(0, trim_end(s).len() as int) =~= s.subrange(
            0,
            trim_end(s).len() as int,
        ));
    } else {
        assert(s.subrange(0, s.len() as int) =~= s);
    }
}

/// A trimmed text starts and ends with a non-white-space character.
proof fn lemma_trim_shape(s: Seq<char>)
    ensures
        trim(s).len() == 0 || (!is_ws(trim(s)[0]) && !is_ws(trim(s).last())),
{
    lemma_trim_start_shape(s);
    lemma_trim_end_shape(trim_start(s));
    if trim(s).len() > 0 {
        assert(trim(s)[0] == trim_start(s)[0]);
    }
}

proof fn lemma_strip_shape(s: Seq<char>)
    ensures
        strip_trailing_dots(s).len() <= s.len(),
        strip_trailing_dots(s) == s.subrange(0, strip_trailing_dots(s).len() as int),
        strip_trailing_dots(s).len() == 0 || strip_trailing_dots(s).last() != '.',
    decreases s.len(),
{
    if s.len() > 0 && s.last() == '.' {
        lemma_strip_shape(s.drop_last());
        assert(s.drop_last().subrange(0, strip_trailing_dots(s).len() as int) =~= s.subrange(
            0,
            strip_trailing_dots(s).len() as int,
        ));
    } else {
        assert(s.subrange(0, s.len() as int) =~= s);
    }
}

/// Normalization law: a normalized fact is empty or ends in exactly one `.`, and
/// normalizing it again changes nothing.
pub proof fn lemma_normalized_fact(fact: Seq<char>)
    ensures
        normalized(fact).len() == 0 || (normalized(fact).last() == '.' && (normalized(fact).len()
            == 1 || normalized(fact)[normalized(fact).len() - 2] != '.')),
        normalized(normalized(fact)) == normalized(fact),
{
    let t = trim(fact);
    lemma_trim_shape(fact);
    if t.len() > 0 {
        let st = strip_trailing_dots(t);
        lemma_strip_shape(t);
        let n = st + seq!['.'];
        assert(n == normalized(fact));
        assert(!is_ws(n.last()));
        if st.len() > 0 {
            assert(st[0] == t[0]);
            assert(n[0] == st[0]);
        }
        assert(!is_ws(n[0]));
        // The normalized text is its own trim.
        assert(trim_start(n) == n);
        assert(trim_end(n) == n);
        assert(trim(n) == n);
        // Stripping its dots gives back the text before the single dot.
        assert(n.drop_last() =~= st);
        assert(strip_trailing_dots(n) == strip_trailing_dots(st));
        if st.len() > 0 {
            assert(strip_trailing_dots(st) == st);
        } else {
            assert(st =~= Seq::<char>::empty());
        }
        if n.len() >= 2 {
            assert(n[n.len() - 2] == st.last());
        }
    } else {
        assert(normalized(fact) =~= Seq::<char>::empty());
        assert(trim(Seq::<char>::empty()) =~= Seq::<char>::empty());
    }
}

} // verus!
