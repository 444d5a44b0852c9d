use latte::config::PRINT_RETRY_ERROR_LIMIT;
use latte::retry_error::{
    get_exponential_retry_interval, handle_retry_error, report_attempt, retry_interval,
    RetryAction, MAX_DURATION_NS,
};
use latte::stats::session::SessionStats;

const MS: u128 = 1_000_000;
const MIN: u128 = 100 * MS;
const MAX: u128 = 5_000 * MS;

#[test]
fn interval_grows_with_attempts_and_is_capped_by_max() {
    let first = get_exponential_retry_interval(MIN, MAX, 1);
    assert!(first >= 150 * MS && first < 250 * MS);
    assert!(get_exponential_retry_interval(MIN, MAX, 10) <= MAX);
}

#[test]
fn large_attempt_numbers_do_not_overflow() {
    for attempt in [63, 64, 65, 1000, u64::MAX] {
        let interval = get_exponential_retry_interval(MIN, MAX, attempt);
        assert!(interval <= MAX, "attempt {attempt}: {interval:?} > max");
        assert!(
            interval >= MAX - MIN / 2,
            "attempt {attempt}: {interval:?} lost the exponential cap"
        );
    }
}

#[test]
fn the_interval_doubles_with_every_attempt() {
    assert_eq!(retry_interval(MIN, MAX, 0, 0), 50 * MS);
    assert_eq!(retry_interval(MIN, MAX, 0, 100 * MS - 1), 150 * MS - 1);
    assert_eq!(retry_interval(MIN, MAX, 1, 7), 150 * MS + 7);
    assert_eq!(retry_interval(MIN, MAX, 5, 50 * MS), 3_200 * MS);
    assert_eq!(retry_interval(MIN, MAX, 6, 50 * MS), MAX);
    assert_eq!(retry_interval(3, 1_000, 1, 2), 7);
}

#[test]
fn later_attempts_wait_no_less() {
    for attempt in 0..80 {
        assert!(retry_interval(MIN, MAX, attempt, 9) <= retry_interval(MIN, MAX, attempt + 1, 9));
    }
    assert_eq!(retry_interval(1, MAX_DURATION_NS, 63, 0), 1 << 63);
    assert_eq!(retry_interval(1, MAX_DURATION_NS, 64, 0), 1 << 63);
}

#[test]
fn extreme_intervals_are_handled() {
    assert_eq!(retry_interval(0, MAX, 70, 0), 0);
    assert_eq!(get_exponential_retry_interval(0, MAX, 70), 0);
    assert_eq!(get_exponential_retry_interval(MIN, 0, 3), 0);
    assert_eq!(retry_interval(MAX_DURATION_NS, MAX_DURATION_NS, 63, 0), MAX_DURATION_NS);
    assert_eq!(
        retry_interval(MAX_DURATION_NS, MAX_DURATION_NS, 0, 1),
        MAX_DURATION_NS - MAX_DURATION_NS / 2 + 1
    );
}

#[test]
fn the_offset_is_drawn_anew() {
    let intervals: Vec<u128> =
        (0..50).map(|_| get_exponential_retry_interval(MIN, MAX, 2)).collect();
    assert!(intervals.iter().all(|i| *i >= 350 * MS && *i < 450 * MS));
    assert!(intervals.iter().any(|i| *i != intervals[0]));
}

#[test]
fn a_failed_attempt_is_kept_for_the_report() {
    let mut stats = SessionStats::new();
    let action = report_attempt(&mut stats, "now".to_string(), 1, 3, 2_999_999, "oops");
    let message = "now: [ERROR][Attempt 1/3][Retry in 2 ms] oops".to_string();
    assert_eq!(action, RetryAction::Wait { message: message.clone(), interval_ns: 2_999_999 });
    assert_eq!(stats.req_retry_count, 1);
    assert!(stats.req_retry_errors.contains(&message));
}

#[test]
fn the_last_attempt_is_printed() {
    let mut stats = SessionStats::new();
    let action = report_attempt(&mut stats, "now".to_string(), 3, 3, 5, "oops");
    assert_eq!(
        action,
        RetryAction::Print { message: "now: [ERROR][Attempt 3/3] oops".to_string() }
    );
    assert_eq!(stats, SessionStats::new());
}

#[test]
fn errors_carry_the_time_in_utc() {
    let mut stats = SessionStats::new();
    let action = handle_retry_error(&mut stats, MIN, MAX, 4, 4, 1_700_000_000_123, "oops");
    assert_eq!(
        action,
        RetryAction::Print {
            message: "2023-11-14 22:13:20.123: [ERROR][Attempt 4/4] oops".to_string()
        }
    );
    let action = handle_retry_error(&mut stats, MIN, MAX, 4, 4, i64::MAX, "oops");
    assert_eq!(
        action,
        RetryAction::Print { message: ": [ERROR][Attempt 4/4] oops".to_string() }
    );
    match handle_retry_error(&mut stats, MIN, MAX, 0, 4, -1, "oops") {
        RetryAction::Wait { message, interval_ns } => {
            assert!(interval_ns >= 50 * MS && interval_ns < 150 * MS);
            assert_eq!(
                message,
                format!(
                    "1969-12-31 23:59:59.999: [ERROR][Attempt 0/4][Retry in {} ms] oops",
                    interval_ns / MS
                )
            );
        }
        other => panic!("{:?}", other),
    }
}

#[test]
fn only_the_first_errors_are_kept() {
    let mut stats = SessionStats::new();
    for attempt in 0..20 {
        report_attempt(&mut stats, attempt.to_string(), attempt, 100, 0, "oops");
    }
    assert_eq!(stats.req_retry_count, 20);
    assert_eq!(stats.req_retry_errors.len() as u64, PRINT_RETRY_ERROR_LIMIT);
}
