use chain_gateway::retry::{
    attempt_result, Retry, RetryStep, MAX_ATTEMPTS, REQUEST_TIMEOUT_SECS, WAIT_TIME_MS,
};

/// Delivers to `endpoint` as the client does: attempt, record, pause, again.
/// Gives the result, the number of calls made and the pauses taken.
fn deliver<F: FnMut(u32) -> Result<u32, String>>(mut endpoint: F) -> (Result<u32, String>, u32, Vec<u64>) {
    let mut retry = Retry::new();
    let mut calls = 0;
    let mut pauses = Vec::new();
    loop {
        calls += 1;
        let outcome = endpoint(calls);
        match retry.record(outcome) {
            RetryStep::Finished(result) => return (result, calls, pauses),
            RetryStep::Again { wait_ms } => pauses.push(wait_ms),
        }
        assert!(calls < 100);
    }
}

#[test]
fn endpoint_that_fails_twice_then_succeeds_is_delivered_on_the_third_attempt() {
    let (result, calls, pauses) =
        deliver(|call| if call < 3 { Err(format!("failure {}", call)) } else { Ok(call) });
    assert_eq!(result, Ok(3));
    assert_eq!(calls, 3);
    assert_eq!(pauses, vec![1000, 1000]);
}

#[test]
fn endpoint_that_always_fails_gets_exactly_three_attempts() {
    let (result, calls, pauses) = deliver(|call| Err(format!("failure {}", call)));
    assert_eq!(result, Err("failure 3".to_string()));
    assert_eq!(calls, 3);
    assert_eq!(pauses, vec![1000, 1000]);
}

#[test]
fn endpoint_that_succeeds_at_once_gets_one_attempt() {
    let (result, calls, pauses) = deliver(|call| Ok(call * 10));
    assert_eq!(result, Ok(10));
    assert_eq!(calls, 1);
    assert!(pauses.is_empty());
}

#[test]
fn endpoint_that_succeeds_on_the_second_attempt_gets_two() {
    let (result, calls, pauses) =
        deliver(|call| if call < 2 { Err("down".to_string()) } else { Ok(call) });
    assert_eq!(result, Ok(2));
    assert_eq!(calls, 2);
    assert_eq!(pauses, vec![1000]);
}

#[test]
fn every_failure_is_retried_alike() {
    let (result, calls, _) = deliver(|call| match call {
        1 => Err("404 Not Found".to_string()),
        2 => Err("timed out".to_string()),
        _ => Err("400 Bad Request".to_string()),
    });
    assert_eq!(result, Err("400 Bad Request".to_string()));
    assert_eq!(calls, 3);
}

#[test]
fn attempts_are_counted() {
    let mut retry = Retry::new();
    assert_eq!(retry.attempts(), 0);
    assert!(!retry.is_finished());
    assert_eq!(retry.record::<u8, u8>(Err(1)), RetryStep::Again { wait_ms: 1000 });
    assert_eq!(retry.attempts(), 1);
    assert!(!retry.is_finished());
    assert_eq!(retry.record::<u8, u8>(Err(2)), RetryStep::Again { wait_ms: 1000 });
    assert_eq!(retry.attempts(), 2);
    assert_eq!(retry.record::<u8, u8>(Err(3)), RetryStep::Finished(Err(3)));
    assert_eq!(retry.attempts(), 3);
    assert!(retry.is_finished());
}

#[test]
fn a_finished_delivery_counts_no_further_attempt() {
    let mut retry = Retry::new();
    assert_eq!(retry.record::<u8, u8>(Ok(7)), RetryStep::Finished(Ok(7)));
    assert!(retry.is_finished());
    assert_eq!(retry.attempts(), 1);
    assert_eq!(retry.record::<u8, u8>(Err(9)), RetryStep::Finished(Err(9)));
    assert_eq!(retry.record::<u8, u8>(Ok(8)), RetryStep::Finished(Ok(8)));
    assert_eq!(retry.attempts(), 1);
    assert!(retry.is_finished());
}

#[test]
fn retry_constants() {
    assert_eq!(MAX_ATTEMPTS, 3);
    assert_eq!(WAIT_TIME_MS, 1000);
    assert_eq!(REQUEST_TIMEOUT_SECS, 30);
}

#[test]
fn only_a_status_in_the_two_hundreds_is_a_delivery() {
    assert_eq!(attempt_result(200), Ok(()));
    assert_eq!(attempt_result(204), Ok(()));
    assert_eq!(attempt_result(299), Ok(()));
    assert_eq!(attempt_result(199), Err(199));
    assert_eq!(attempt_result(300), Err(300));
    assert_eq!(attempt_result(302), Err(302));
    assert_eq!(attempt_result(404), Err(404));
    assert_eq!(attempt_result(500), Err(500));
    assert_eq!(attempt_result(0), Err(0));
    assert_eq!(attempt_result(u16::MAX), Err(u16::MAX));
}

#[test]
fn refused_deliveries_are_retried_by_status() {
    let statuses = [503u16, 404, 200, 500];
    let (result, calls, _) = deliver(|call| {
        attempt_result(statuses[(call - 1) as usize]).map(|_| call).map_err(|s| s.to_string())
    });
    assert_eq!(result, Ok(3));
    assert_eq!(calls, 3);
}
