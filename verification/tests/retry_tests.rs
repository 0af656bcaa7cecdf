use vidfetch::retry::{RetryDecision, RetryLoop};

#[test]
fn fails_twice_then_succeeds_in_three_attempts() {
    let outcomes = [false, false, true];
    let mut invocations: u64 = 0;
    let mut state = RetryLoop::new(0);
    let result = loop {
        let outcome = outcomes[invocations as usize];
        invocations += 1;
        match state.record_attempt(outcome) {
            RetryDecision::Succeeded { attempts } => break attempts,
            RetryDecision::RetryAfter { delay_secs } => assert_eq!(delay_secs, 0),
        }
    };
    assert_eq!(invocations, 3);
    assert_eq!(result, 3);
}

#[test]
fn immediate_success_counts_one_attempt() {
    let mut state = RetryLoop::new(10);
    assert_eq!(state.record_attempt(true), RetryDecision::Succeeded { attempts: 1 });
}

#[test]
fn failure_reports_the_configured_delay() {
    let mut state = RetryLoop::new(10);
    assert_eq!(state.record_attempt(false), RetryDecision::RetryAfter { delay_secs: 10 });
    assert_eq!(state.attempts, 1);
    assert_eq!(state.record_attempt(false), RetryDecision::RetryAfter { delay_secs: 10 });
    assert_eq!(state.attempts, 2);
}
