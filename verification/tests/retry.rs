use voidpost_core::dht_retry::AttemptOutcome;
use voidpost_core::dht_retry::DhtError;
use voidpost_core::dht_retry::RetryDecision;
use voidpost_core::dht_retry::RetryState;
use voidpost_core::dht_retry::MAX_RETRIES;

#[test]
fn success_returns_value() {
    let (state, decision) = RetryState::new().decide(AttemptOutcome::Succeeded(7u32));
    assert_eq!(state, RetryState::new());
    assert!(matches!(decision, RetryDecision::Return(7)));
}

#[test]
fn other_errors_give_up_at_once() {
    let (_, decision) = RetryState::new().decide::<u32>(AttemptOutcome::Failed("boom".to_string()));
    match decision {
        RetryDecision::GiveUp(DhtError::Failed { message }) => assert_eq!(message, "boom"),
        _ => panic!("expected to give up"),
    }
}

#[test]
fn try_again_backs_off_exponentially_then_gives_up() {
    let mut state = RetryState::new();
    let mut sleeps = Vec::new();
    loop {
        let (next, decision) = state.decide::<u32>(AttemptOutcome::TryAgain("not ready".to_string()));
        state = next;
        match decision {
            RetryDecision::SleepThenRetry { secs } => sleeps.push(secs),
            RetryDecision::GiveUp(DhtError::Exhausted { attempts, message }) => {
                assert_eq!(attempts, MAX_RETRIES);
                assert_eq!(message, "not ready");
                break;
            }
            _ => panic!("unexpected decision"),
        }
    }
    assert_eq!(sleeps, vec![2, 4, 8, 16]);
    assert_eq!(state.attempt, 5);
}

#[test]
fn success_after_retries() {
    let (state, d1) = RetryState::new().decide::<&str>(AttemptOutcome::TryAgain("wait".to_string()));
    assert!(matches!(d1, RetryDecision::SleepThenRetry { secs: 2 }));
    let (_, d2) = state.decide(AttemptOutcome::Succeeded("done"));
    assert!(matches!(d2, RetryDecision::Return("done")));
}
