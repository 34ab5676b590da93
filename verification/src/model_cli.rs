//! How the local model CLI is driven and how its run is judged: the argument list of a
//! one-shot JSON-mode call, whether a reply failed, and the error for a failed run. The
//! host spawns the process; every failure comes back as an error and the caller abstains.
use vstd::prelude::*;
use crate::text::{chars_of, decimal, decimal_string, str_eq, substring, trim, trim_bounds};
use crate::types::EngineError;

verus! {

/// The arguments of a one-shot call: the prompt, the system prompt, JSON output, no MCP
/// servers (otherwise each spawn starts them and hangs), project settings only, and the
/// model when one is named.
pub open spec fn cli_args_of(prompt: Seq<char>, system: Seq<char>, model: Option<Seq<char>>) -> Seq<
    Seq<char>,
> {
    let base = seq![
        "-p"@,
        prompt,
        "--system-prompt"@,
        system,
        "--output-format"@,
        "json"@,
        "--strict-mcp-config"@,
        "--setting-sources"@,
        "project"@,
    ];
    match model {
        Some(m) => base + seq!["--model"@, m],
        None => base,
    }
}

/// The argument list of a one-shot JSON-mode call.
pub fn cli_args(prompt: &str, system: &str, model: Option<&str>) -> (r: Vec<String>)
    ensures
        r.deep_view() == cli_args_of(
            prompt@,
            system@,
            match model {
                Some(m) => Some(m@),
                None => None,
            },
        ),
{
    let mut r: Vec<String> = Vec::new();
    r.push(String::from_str("-p"));
    r.push(String::from_str(prompt));
    r.push(String::from_str("--system-prompt"));
    r.push(String::from_str(system));
    r.push(String::from_str("--output-format"));
    r.push(String::from_str("json"));
    r.push(String::from_str("--strict-mcp-config"));
    r.push(String::from_str("--setting-sources"));
    r.push(String::from_str("project"));
    match model {
        Some(m) => {
            r.push(String::from_str("--model"));
            r.push(String::from_str(m));
        },
        None => {},
    }
    let ghost base = seq![
        "-p"@,
        prompt@,
        "--system-prompt"@,
        system@,
        "--output-format"@,
        "json"@,
        "--strict-mcp-config"@,
        "--setting-sources"@,
        "project"@,
    ];
    proof {
        match model {
            Some(m) => assert(r.deep_view() =~= base + seq!["--model"@, m@]),
            None => assert(r.deep_view() =~= base),
        }
    }
    r
}

/// Whether a reply failed: flagged `is_error`, or carrying a `subtype` other than
/// `success`.
pub fn reply_failed(is_error: Option<bool>, subtype: Option<&str>) -> (b: bool)
    ensures
        b == (is_error == Some(true) || (subtype matches Some(s) && s@ != "success"@)),
{
    let flagged = match is_error {
        Some(e) => e,
        None => false,
    };
    let not_success = match subtype {
        Some(s) => !str_eq(s, "success"),
        None => false,
    };
    flagged || not_success
}

/// An exit code as its decimal numeral, or `signal` when the process had none.
pub open spec fn code_text(code: Option<i32>) -> Seq<char> {
    match code {
        Some(c) => if c < 0 {
            "-"@ + decimal((-c) as nat)
        } else {
            decimal(c as nat)
        },
        None => "signal"@,
    }
}

/// The first 200 characters of the trimmed error output.
pub open spec fn stderr_excerpt(stderr: Seq<char>) -> Seq<char> {
    let t = trim(stderr);
    if t.len() > 200 {
        t.take(200)
    } else {
        t
    }
}

/// The error for a run that exited unsuccessfully: its exit code and what it wrote to
/// stderr, trimmed and cut at 200 characters.
pub fn exit_failure(code: Option<i32>, stderr: &str) -> (e: EngineError)
    ensures
        e matches EngineError::Claude(m) && m@ == "model cli exit "@ + code_text(code) + ": "@
            + stderr_excerpt(stderr@),
{
    let code_s = match code {
        Some(c) => if c < 0 {
            let magnitude: i128 = -(c as i128);
            let mut s = String::from_str("-");
            let n = decimal_string(magnitude as u128);
            s.append(n.as_str());
            s
        } else {
            decimal_string(c as u128)
        },
        None => String::from_str("signal"),
    };
    let cs = chars_of(stderr);
    let (a, b) = trim_bounds(&cs, 0, cs.len());
    assert(cs@.subrange(0, cs.len() as int) =~= stderr@);
    let end = if b - a > 200 {
        a + 200
    } else {
        b
    };
    let excerpt = substring(stderr, a, end);
    assert(excerpt@ =~= stderr_excerpt(stderr@));
    let mut m = String::from_str("model cli exit ");
    m.append(code_s.as_str());
    m.append(": ");
    m.append(excerpt.as_str());
    EngineError::Claude(m)
}

} // verus!
