use accounting_engine::budget::{call_cap_message, CallBudget, Refusal};

#[test]
fn allows_calls_under_the_cap() {
    let mut b = CallBudget::new(3);
    assert!(b.charge_call(false).is_ok());
    assert!(b.charge_call(false).is_ok());
    assert!(b.charge_call(false).is_ok());
    assert_eq!(b.calls_used(), 3);
}

#[test]
fn a_call_over_the_cap_is_refused_first() {
    let mut b = CallBudget::new(2);
    assert!(b.charge_call(false).is_ok());
    assert!(b.charge_call(false).is_ok());
    assert_eq!(b.charge_call(true), Err(Refusal::CallCap));
    assert_eq!(b.calls_used(), 3);
}

#[test]
fn refuses_when_call_cap_exceeded() {
    let mut b = CallBudget::new(2);
    assert!(b.charge_call(false).is_ok());
    assert!(b.charge_call(false).is_ok());
    assert_eq!(b.charge_call(false), Err(Refusal::CallCap));
}

#[test]
fn refuses_when_spend_cap_reached() {
    // Spend cap 0.50, 0.60 spent after the first call: the second call finds it reached.
    let max_spend_usd = 0.50_f64;
    let mut spent_usd = 0.0_f64;
    let mut b = CallBudget::new(50);
    assert!(b.charge_call(spent_usd >= max_spend_usd).is_ok());
    spent_usd += 0.60;
    assert_eq!(b.charge_call(spent_usd >= max_spend_usd), Err(Refusal::SpendCap));
}

#[test]
fn spend_cap_refuses_under_the_call_cap() {
    let mut b = CallBudget::new(50);
    assert!(b.charge_call(false).is_ok());
    assert_eq!(b.charge_call(true), Err(Refusal::SpendCap));
    assert_eq!(b.max_calls_allowed(), 50);
}

#[test]
fn call_cap_message_names_the_cap() {
    assert_eq!(
        call_cap_message(50),
        "LLM call budget exceeded (50). Raise MAX_LLM_CALLS or check for a loop."
    );
    assert_eq!(
        call_cap_message(0),
        "LLM call budget exceeded (0). Raise MAX_LLM_CALLS or check for a loop."
    );
}
