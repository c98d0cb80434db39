use bestftp::reconnect::{
    backoff_delay_ms, reconnect_with_retry, AttemptOutcome, Reconnect, ReconnectStep,
};

/// Drives a reconnection against a server that can be reached from the
/// attempt `reachable_from` on and turns the credentials down at the
/// attempt `refuses_at`.
fn drive(
    max_attempts: u32,
    reachable_from: Option<u32>,
    refuses_at: Option<u32>,
) -> (Result<u32, String>, Vec<u64>) {
    let mut reconnect: Reconnect = reconnect_with_retry(max_attempts);
    let mut delays = Vec::new();
    loop {
        match reconnect.next_step() {
            ReconnectStep::GiveUp(text) => return (Err(text), delays),
            ReconnectStep::Attempt { number, delay_ms } => {
                delays.push(delay_ms);
                assert!(reconnect.may_go_on());
                if refuses_at == Some(number) {
                    reconnect.record(&AttemptOutcome::LoginFailed(format!("denied {}", number)));
                    assert!(!reconnect.may_go_on());
                    continue;
                }
                if reachable_from.map(|n| number >= n).unwrap_or(false) {
                    return (Ok(number), delays);
                }
                reconnect.record(&AttemptOutcome::ConnectFailed(format!("refused {}", number)));
            }
        }
    }
}

#[test]
fn the_pause_doubles_and_stops_at_ten_seconds() {
    assert_eq!(backoff_delay_ms(0), 0);
    assert_eq!(backoff_delay_ms(1), 0);
    assert_eq!(backoff_delay_ms(2), 1000);
    assert_eq!(backoff_delay_ms(3), 2000);
    assert_eq!(backoff_delay_ms(4), 4000);
    assert_eq!(backoff_delay_ms(5), 8000);
    assert_eq!(backoff_delay_ms(6), 10000);
    assert_eq!(backoff_delay_ms(7), 10000);
    assert_eq!(backoff_delay_ms(66), 10000);
    assert_eq!(backoff_delay_ms(u32::MAX), 10000);
}

#[test]
fn reachable_at_once() {
    assert_eq!(drive(3, Some(1), None), (Ok(1), vec![0]));
}

#[test]
fn reachable_by_the_second_attempt() {
    assert_eq!(drive(3, Some(2), None), (Ok(2), vec![0, 1000]));
}

#[test]
fn reachable_by_the_third_attempt() {
    assert_eq!(drive(3, Some(3), None), (Ok(3), vec![0, 1000, 2000]));
}

#[test]
fn never_reachable_gives_the_aggregate_error() {
    let (result, delays) = drive(3, None, None);
    assert_eq!(
        result,
        Err("Failed to reconnect after 3 attempts. Last error: Connection failed on attempt 3: refused 3"
            .to_string())
    );
    assert_eq!(delays, vec![0, 1000, 2000]);
}

#[test]
fn reachable_too_late_is_not_reached() {
    let (result, delays) = drive(3, Some(4), None);
    assert!(result.is_err());
    assert_eq!(delays.len(), 3);
}

#[test]
fn credentials_turned_down_are_not_tried_again() {
    let (result, delays) = drive(3, Some(2), Some(1));
    assert_eq!(
        result,
        Err("Failed to reconnect after 1 attempts. Last error: Login failed on attempt 1: denied 1"
            .to_string())
    );
    assert_eq!(delays, vec![0]);
    let (later, delays) = drive(5, None, Some(2));
    assert_eq!(
        later,
        Err("Failed to reconnect after 2 attempts. Last error: Login failed on attempt 2: denied 2"
            .to_string())
    );
    assert_eq!(delays, vec![0, 1000]);
}

#[test]
fn no_attempts_allowed() {
    let (result, delays) = drive(0, Some(1), None);
    assert_eq!(result, Err("Failed to reconnect after 0 attempts. Last error: ".to_string()));
    assert!(delays.is_empty());
}

#[test]
fn many_attempts_keep_the_longest_pause() {
    let (result, delays) = drive(8, None, None);
    assert!(result.is_err());
    assert_eq!(delays, vec![0, 1000, 2000, 4000, 8000, 10000, 10000, 10000]);
}

#[test]
fn a_success_told_changes_nothing() {
    let mut reconnect = reconnect_with_retry(3);
    reconnect.record(&AttemptOutcome::Connected);
    assert_eq!(reconnect.attempts(), 0);
    reconnect.record(&AttemptOutcome::ConnectFailed("x".to_string()));
    assert_eq!(reconnect.attempts(), 1);
    assert_eq!(reconnect.max_attempts(), 3);
}

#[test]
fn nothing_is_counted_once_the_end_is_reached() {
    let mut reconnect = reconnect_with_retry(1);
    reconnect.record(&AttemptOutcome::ConnectFailed("x".to_string()));
    reconnect.record(&AttemptOutcome::ConnectFailed("y".to_string()));
    assert_eq!(reconnect.attempts(), 1);
    match reconnect.next_step() {
        ReconnectStep::GiveUp(text) => assert_eq!(
            text,
            "Failed to reconnect after 1 attempts. Last error: Connection failed on attempt 1: x"
        ),
        ReconnectStep::Attempt { .. } => panic!("an attempt too many"),
    }
}
