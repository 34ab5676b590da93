//! The call-count half of the per-process cost guard: a runaway-loop cap on model calls.
//! The spend half (US dollars, reported per call as a float) is kept by the host, which
//! tells `charge_call` whether the spend cap is reached.
use vstd::prelude::*;
use crate::text::{decimal, decimal_string};

verus! {

/// Why a model call was refused.
#[derive(Debug, Clone, Copy, PartialEq, Eq, Structural)]
pub enum Refusal {
    /// More calls than the cap allows.
    CallCap,
    /// The spend cap is reached.
    SpendCap,
}

/// Calls made so far and the most allowed.
#[derive(Debug)]
pub struct CallBudget {
    calls: u64,
    max_calls: u64,
}

impl CallBudget {
    pub closed spec fn calls(&self) -> u64 {
        self.calls
    }

    pub closed spec fn max_calls(&self) -> u64 {
        self.max_calls
    }

    /// No calls made yet.
    pub fn new(max_calls: u64) -> (b: CallBudget)
        ensures
            b.calls() == 0,
            b.max_calls() == max_calls,
    {
        CallBudget { calls: 0, max_calls }
    }

    /// Pre-call gate: counts the call, then refuses when the call cap is exceeded, else
    /// when the spend cap is reached. A refused call still counts.
    pub fn charge_call(&mut self, spend_reached: bool) -> (r: Result<(), Refusal>)
        requires
            old(self).calls() < u64::MAX,
        ensures
            final(self).calls() == old(self).calls() + 1,
            final(self).max_calls() == old(self).max_calls(),
            r == if final(self).calls() > final(self).max_calls() {
                Err(Refusal::CallCap)
            } else if spend_reached {
                Err(Refusal::SpendCap)
            } else {
                Ok::<(), Refusal>(())
            },
    {
        self.calls = self.calls + 1;
        if self.calls > self.max_calls {
            return Err(Refusal::CallCap);
        }
        if spend_reached {
            return Err(Refusal::SpendCap);
        }
        Ok(())
    }

    /// Calls made so far, refused ones included.
    pub fn calls_used(&self) -> (n: u64)
        ensures
            n == self.calls(),
    {
        self.calls
    }

    /// The call cap.
    pub fn max_calls_allowed(&self) -> (n: u64)
        ensures
            n == self.max_calls(),
    {
        self.max_calls
    }
}

/// The message of a call-cap refusal.
pub fn call_cap_message(max_calls: u64) -> (m: String)
    ensures
        m@ == "LLM call budget exceeded ("@ + decimal(max_calls as nat)
            + "). Raise MAX_LLM_CALLS or check for a loop."@,
{
    let mut m = String::from_str("LLM call budget exceeded (");
    let n = decimal_string(max_calls as u128);
    m.append(n.as_str());
    m.append("). Raise MAX_LLM_CALLS or check for a loop.");
    m
}

} // verus!
