use sport_analytics::errors::FetchError;
use sport_analytics::sport_radar::utils::{resolve_fetch, should_retry, FetchOutcome, RetryPolicy};

const MINUTE_NANOS: u64 = 60_000_000_000;

#[test]
fn immediate_success_waits_for_nothing() {
    let (result, waited) =
        resolve_fetch(vec![FetchOutcome::Success { value: 7u32 }], MINUTE_NANOS);
    assert_eq!(result, Ok(7));
    assert_eq!(waited, 0);
}

#[test]
fn two_transport_failures_then_success() {
    let outcomes = vec![
        FetchOutcome::Transport,
        FetchOutcome::Transport,
        FetchOutcome::Success { value: "body".to_string() },
    ];
    let (result, waited) = resolve_fetch(outcomes, MINUTE_NANOS);
    assert_eq!(result, Ok("body".to_string()));
    // 100 ms, then 100^2 ms = 10 s, both under the 60 s cap.
    assert_eq!(waited, 100_000_000 + 10_000_000_000);
}

#[test]
fn backoff_is_cut_to_the_cap() {
    let outcomes = vec![
        FetchOutcome::Transport,
        FetchOutcome::Transport,
        FetchOutcome::Transport,
        FetchOutcome::Success { value: 1u8 },
    ];
    // A jittered cap of 50 ms cuts every delay, the first one too.
    let (result, waited) = resolve_fetch(outcomes, 50_000_000);
    assert_eq!(result, Ok(1));
    assert_eq!(waited, 50_000_000 + 50_000_000 + 50_000_000);
}

#[test]
fn decode_failure_is_fatal_and_never_retried() {
    let outcomes: Vec<FetchOutcome<u32>> = vec![
        FetchOutcome::Transport,
        FetchOutcome::Decode,
        FetchOutcome::Success { value: 3 },
    ];
    let (result, waited) = resolve_fetch(outcomes, MINUTE_NANOS);
    assert_eq!(result, Err(FetchError::Decode));
    assert_eq!(waited, 100_000_000, "only the transport failure was retried");

    let (result, waited) = resolve_fetch::<u32>(vec![FetchOutcome::Decode], MINUTE_NANOS);
    assert_eq!(result, Err(FetchError::Decode));
    assert_eq!(waited, 0);
}

#[test]
fn retry_condition_is_transport_only() {
    assert!(should_retry::<u32>(&FetchOutcome::Transport));
    assert!(!should_retry::<u32>(&FetchOutcome::Decode));
    assert!(!should_retry(&FetchOutcome::Success { value: 0u32 }));
}

#[test]
fn policy_yields_the_exponential_schedule() {
    let mut policy = RetryPolicy::new(MINUTE_NANOS);
    assert_eq!(policy.next_delay(), 100_000_000);
    assert_eq!(policy.next_delay(), 10_000_000_000);
    // 100^3 ms = 1_000_000 s, far over the minute cap.
    assert_eq!(policy.next_delay(), MINUTE_NANOS);
    assert_eq!(policy.next_delay(), MINUTE_NANOS);
}

#[test]
fn error_messages() {
    assert_eq!(FetchError::Transport.message(), "transport failure");
    assert_eq!(FetchError::Decode.message(), "malformed response");
}
