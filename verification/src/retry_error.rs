//! What happens between two attempts at the same request.
use vstd::prelude::*;
use vstd::arithmetic::power2::{lemma2_to64, pow2};

use crate::stats::session::SessionStats;
use crate::text::{nat_text, u128_text, u64_text};

verus! {

/// The largest duration there is, in nanoseconds: 2^64 seconds less a nanosecond.
pub const MAX_DURATION_NS: u128 = 18_446_744_073_709_551_615_999_999_999;

/// How the time of an error is written.
pub const TIME_FORMAT: &'static str = "%Y-%m-%d %H:%M:%S%.3f";

/// How `chrono` writes a time, given in milliseconds since the epoch, or nothing where it is out
/// of the range of dates.
pub uninterp spec fn utc_text(millis: i64, format: Seq<char>) -> Option<Seq<char>>;

/// The time to wait before the next attempt: the shortest time, doubled with every attempt up to
/// the 63rd, spread by half the shortest time both ways, and capped by the longest time.
pub open spec fn interval(min_ns: nat, max_ns: nat, attempt: nat, jitter_ns: nat) -> int {
    let doublings = if attempt < 63 {
        attempt
    } else {
        63
    };
    let spread = min_ns * pow2(doublings) + jitter_ns - min_ns / 2;
    if spread < max_ns {
        spread
    } else {
        max_ns as int
    }
}

/// A random offset is below the shortest time, and zero where that is.
pub open spec fn is_jitter(jitter_ns: nat, min_ns: nat) -> bool {
    jitter_ns < min_ns || jitter_ns == 0
}

/// Draws a random number.
///
/// Calls `rand::random`, of which nothing is claimed.
#[verifier::external_body]
fn random_number() -> (r: u128) {
    rand::random()
}

/// Writes a time.
///
/// Calls `chrono::DateTime::from_timestamp_millis` and formats the result; claims only that it
/// depends on nothing but the time and the format.
#[verifier::external_body]
fn format_utc(millis: i64, format: &str) -> (r: Option<String>)
    requires
        format@ == TIME_FORMAT@,
    ensures
        match r {
            Some(text) => utc_text(millis, format@) == Some(text@),
            None => utc_text(millis, format@) is None,
        },
{
    match chrono::DateTime::from_timestamp_millis(millis) {
        Some(time) => Some(time.format(format).to_string()),
        None => None,
    }
}

/// Doubling once more.
proof fn lemma_pow2_step(n: nat)
    ensures
        pow2(n + 1) == 2 * pow2(n),
        pow2(n) > 0,
{
    vstd::arithmetic::power2::lemma_pow2_unfold(n + 1);
    vstd::arithmetic::power2::lemma_pow2_pos(n);
}

/// Fewer doublings give no more.
proof fn lemma_doublings_grow(min_ns: nat, a: nat, b: nat)
    requires
        a <= b,
    ensures
        min_ns * pow2(a) <= min_ns * pow2(b),
    decreases b - a,
{
    if a < b {
        lemma_doublings_grow(min_ns, a, (b - 1) as nat);
        lemma_pow2_step((b - 1) as nat);
        assert(min_ns * (2 * pow2((b - 1) as nat)) >= min_ns * pow2((b - 1) as nat))
            by (nonlinear_arith)
            requires
                pow2((b - 1) as nat) > 0,
        ;
    }
}

/// Computes the time to wait before the next attempt from a random offset.
pub fn retry_interval(min_ns: u128, max_ns: u128, attempt: u64, jitter_ns: u128) -> (r: u128)
    requires
        min_ns <= MAX_DURATION_NS,
        max_ns <= MAX_DURATION_NS,
        is_jitter(jitter_ns as nat, min_ns as nat),
    ensures
        r == interval(min_ns as nat, max_ns as nat, attempt as nat, jitter_ns as nat),
{
    let doublings: u64 = if attempt < 63 {
        attempt
    } else {
        63
    };
    let mut base: u128 = min_ns;
    let mut i: u64 = 0;
    proof {
        lemma2_to64();
        assert(min_ns * pow2(0) == min_ns) by (nonlinear_arith)
            requires
                pow2(0) == 1,
        ;
    }
    while i < doublings
        invariant
            i <= doublings,
            doublings <= 63,
            min_ns <= MAX_DURATION_NS,
            max_ns <= MAX_DURATION_NS,
            is_jitter(jitter_ns as nat, min_ns as nat),
            base == min_ns * pow2(i as nat),
            base <= 2 * (max_ns + min_ns),
            doublings == (if attempt < 63 {
                attempt
            } else {
                63
            }),
        decreases doublings - i,
    {
        if base >= max_ns + min_ns {
            proof {
                lemma_doublings_grow(min_ns as nat, i as nat, doublings as nat);
            }
            return max_ns;
        }
        proof {
            lemma_pow2_step(i as nat);
            assert(min_ns * (2 * pow2(i as nat)) == 2 * (min_ns * pow2(i as nat)))
                by (nonlinear_arith);
        }
        base = base * 2;
        i += 1;
    }
    proof {
        lemma_pow2_step(doublings as nat);
        assert(min_ns * pow2(doublings as nat) >= min_ns) by (nonlinear_arith)
            requires
                pow2(doublings as nat) > 0,
        ;
    }
    let spread: u128 = base + jitter_ns - min_ns / 2;
    if spread < max_ns {
        spread
    } else {
        max_ns
    }
}

/// Chooses the time to wait before the next attempt.
pub fn get_exponential_retry_interval(
    min_interval_ns: u128,
    max_interval_ns: u128,
    current_attempt_num: u64,
) -> (r: u128)
    requires
        min_interval_ns <= MAX_DURATION_NS,
        max_interval_ns <= MAX_DURATION_NS,
    ensures
        exists|jitter_ns: nat|
            #![trigger is_jitter(jitter_ns, min_interval_ns as nat)]
            is_jitter(jitter_ns, min_interval_ns as nat) && r == interval(
                min_interval_ns as nat,
                max_interval_ns as nat,
                current_attempt_num as nat,
                jitter_ns,
            ),
        r <= max_interval_ns,
        current_attempt_num <= 63 ==> r <= min_interval_ns * pow2(current_attempt_num as nat) + (
        min_interval_ns + 1) / 2,
        current_attempt_num <= 63 && min_interval_ns * pow2(current_attempt_num as nat)
            <= max_interval_ns ==> r >= min_interval_ns * pow2(current_attempt_num as nat)
            - min_interval_ns / 2,
{
    let jitter_ns: u128 = if min_interval_ns > 0 {
        random_number() % min_interval_ns
    } else {
        0
    };
    assert(is_jitter(jitter_ns as nat, min_interval_ns as nat));
    proof {
        interval_stays_close(
            min_interval_ns as nat,
            max_interval_ns as nat,
            current_attempt_num as nat,
            jitter_ns as nat,
        );
    }
    retry_interval(min_interval_ns, max_interval_ns, current_attempt_num, jitter_ns)
}

/// What is to be done about a failed attempt.
#[derive(Debug, PartialEq)]
pub enum RetryAction {
    /// The error was kept for the report; wait before the next attempt.
    Wait { message: String, interval_ns: u128 },
    /// No attempt is left; the error is to be printed.
    Print { message: String },
}

/// What is written of a failed attempt.
pub open spec fn retry_message(
    time: Seq<char>,
    attempt: u64,
    retry_number: u64,
    interval_ns: nat,
    error: Seq<char>,
) -> Seq<char> {
    time + ": [ERROR][Attempt "@ + nat_text(attempt as nat) + "/"@ + nat_text(retry_number as nat)
        + "]"@ + (if attempt == retry_number {
        Seq::<char>::empty()
    } else {
        "[Retry in "@ + nat_text(interval_ns / 1_000_000) + " ms]"@
    }) + " "@ + error
}

/// Reports a failed attempt, given the time, the time to wait and the text of the error.
pub fn report_attempt(
    stats: &mut SessionStats,
    time: String,
    attempt: u64,
    retry_number: u64,
    interval_ns: u128,
    error: &str,
) -> (r: RetryAction)
    requires
        old(stats).req_retry_count < u64::MAX,
    ensures
        ({
            let message = retry_message(
                time@,
                attempt,
                retry_number,
                interval_ns as nat,
                error@,
            );
            match r {
                RetryAction::Print { message: m } => attempt == retry_number && m@ == message
                    && final(stats)@ == old(stats)@,
                RetryAction::Wait { message: m, interval_ns: i } => attempt != retry_number && m@
                    == message && i == interval_ns && final(stats)@ == old(stats)@.retried(
                    message,
                ),
            }
        }),
{
    let last = attempt == retry_number;
    let next_attempt = if last {
        String::new()
    } else {
        "[Retry in ".to_owned().concat(u128_text(interval_ns / 1_000_000).as_str()).concat(" ms]")
    };
    let message = time.concat(": [ERROR][Attempt ").concat(u64_text(attempt).as_str()).concat(
        "/",
    ).concat(u64_text(retry_number).as_str()).concat("]").concat(next_attempt.as_str()).concat(
        " ",
    ).concat(error);
    assert(message@ == retry_message(time@, attempt, retry_number, interval_ns as nat, error@));
    if last {
        RetryAction::Print { message }
    } else {
        stats.store_retry_error(message.clone());
        RetryAction::Wait { message, interval_ns }
    }
}

/// The time as it is written, left out where it is out of range.
pub open spec fn time_text(now_millis: i64) -> Seq<char> {
    match utc_text(now_millis, TIME_FORMAT@) {
        Some(text) => text,
        None => Seq::empty(),
    }
}

/// Handles a failed attempt: reports it, and chooses how long to wait before the next.
pub fn handle_retry_error(
    stats: &mut SessionStats,
    min_interval_ns: u128,
    max_interval_ns: u128,
    current_attempt_num: u64,
    retry_number: u64,
    now_millis: i64,
    current_error: &str,
) -> (r: RetryAction)
    requires
        min_interval_ns <= MAX_DURATION_NS,
        max_interval_ns <= MAX_DURATION_NS,
        old(stats).req_retry_count < u64::MAX,
    ensures
        match r {
            RetryAction::Print { message } => {
                &&& current_attempt_num == retry_number
                &&& message@ == retry_message(
                    time_text(now_millis),
                    current_attempt_num,
                    retry_number,
                    0,
                    current_error@,
                )
                &&& final(stats)@ == old(stats)@
            },
            RetryAction::Wait { message, interval_ns } => {
                &&& current_attempt_num != retry_number
                &&& message@ == retry_message(
                    time_text(now_millis),
                    current_attempt_num,
                    retry_number,
                    interval_ns as nat,
                    current_error@,
                )
                &&& final(stats)@ == old(stats)@.retried(message@)
                &&& exists|jitter_ns: nat|
                    #![trigger is_jitter(jitter_ns, min_interval_ns as nat)]
                    is_jitter(jitter_ns, min_interval_ns as nat) && interval_ns == interval(
                        min_interval_ns as nat,
                        max_interval_ns as nat,
                        current_attempt_num as nat,
                        jitter_ns,
                    )
            },
        },
{
    let interval_ns: u128 = get_exponential_retry_interval(
        min_interval_ns,
        max_interval_ns,
        current_attempt_num,
    );
    let time = match format_utc(now_millis, TIME_FORMAT) {
        Some(text) => text,
        None => String::new(),
    };
    assert(time@ =~= time_text(now_millis));
    report_attempt(stats, time, current_attempt_num, retry_number, interval_ns, current_error)
}

/// The time to wait never exceeds the longest time.
pub proof fn interval_is_capped(min_ns: nat, max_ns: nat, attempt: nat, jitter_ns: nat)
    ensures
        interval(min_ns, max_ns, attempt, jitter_ns) <= max_ns,
{
}

/// With the same offset, a later attempt waits no less than an earlier one.
pub proof fn interval_grows(min_ns: nat, max_ns: nat, earlier: nat, later: nat, jitter_ns: nat)
    requires
        earlier <= later,
    ensures
        interval(min_ns, max_ns, earlier, jitter_ns) <= interval(min_ns, max_ns, later, jitter_ns),
{
    let a = if earlier < 63 {
        earlier
    } else {
        63
    };
    let b = if later < 63 {
        later
    } else {
        63
    };
    lemma_doublings_grow(min_ns, a, b);
}

/// The time to wait is never negative, and off the doubled time by half the shortest time at
/// most.
pub proof fn interval_stays_close(min_ns: nat, max_ns: nat, attempt: nat, jitter_ns: nat)
    requires
        is_jitter(jitter_ns, min_ns),
    ensures
        0 <= interval(min_ns, max_ns, attempt, jitter_ns),
        attempt <= 63 ==> interval(min_ns, max_ns, attempt, jitter_ns) <= min_ns * pow2(attempt)
            + (min_ns + 1) / 2,
        attempt <= 63 && min_ns * pow2(attempt) <= max_ns ==> min_ns * pow2(attempt) - min_ns / 2
            <= interval(min_ns, max_ns, attempt, jitter_ns),
{
    let doublings = if attempt < 63 {
        attempt
    } else {
        63
    };
    lemma_pow2_step(doublings);
    assert(min_ns * pow2(doublings) >= min_ns) by (nonlinear_arith)
        requires
            pow2(doublings) > 0,
    ;
}

/// Once the doubled time reaches the longest time, the time to wait is at most half the shortest
/// time below the longest. Attempts beyond the 63rd wait like the 63rd.
pub proof fn large_attempts_stay_capped(min_ns: nat, max_ns: nat, attempt: nat, jitter_ns: nat)
    requires
        is_jitter(jitter_ns, min_ns),
    ensures
        attempt <= 63 && min_ns * pow2(attempt) >= max_ns ==> interval(
            min_ns,
            max_ns,
            attempt,
            jitter_ns,
        ) >= max_ns - min_ns / 2,
        attempt >= 63 ==> interval(min_ns, max_ns, attempt, jitter_ns) == interval(
            min_ns,
            max_ns,
            63,
            jitter_ns,
        ),
{
}

/// The time to wait is the shortest time, doubled with every attempt, plus the offset and less half
/// the shortest time, as long as that is less than the longest time, and the longest time
/// otherwise. With the next attempt the doubled time is added once more.
pub proof fn waiting_doubles_with_every_attempt(
    min_ns: nat,
    max_ns: nat,
    attempt: nat,
    jitter_ns: nat,
)
    requires
        attempt < 63,
    ensures
        ({
            let spread = min_ns * pow2(attempt) + jitter_ns - min_ns / 2;
            let now = interval(min_ns, max_ns, attempt, jitter_ns);
            let next = interval(min_ns, max_ns, attempt + 1, jitter_ns);
            &&& spread < max_ns ==> now == spread
            &&& spread >= max_ns ==> now == max_ns
            &&& spread + min_ns * pow2(attempt) < max_ns ==> next == now + min_ns * pow2(attempt)
        }),
{
    lemma_pow2_step(attempt);
    assert(min_ns * (2 * pow2(attempt)) == min_ns * pow2(attempt) + min_ns * pow2(attempt))
        by (nonlinear_arith);
}

/// The first attempt after a failure waits no more than half the shortest time longer or shorter
/// than the shortest time.
pub proof fn first_retry_waits_about_the_shortest_time(min_ns: nat, max_ns: nat, jitter_ns: nat)
    requires
        0 < min_ns,
        2 * min_ns <= max_ns,
        is_jitter(jitter_ns, min_ns),
    ensures
        min_ns - min_ns / 2 <= interval(min_ns, max_ns, 0, jitter_ns) < 2 * min_ns - min_ns / 2,
{
    lemma2_to64();
    assert(min_ns * pow2(0) == min_ns) by (nonlinear_arith)
        requires
            pow2(0) == 1,
    ;
}

/// What is written of a failed attempt tells the time, the number of the attempt and how many there
/// may be, and ends with the error. Only where another attempt follows does it tell how many
/// milliseconds it waits.
pub proof fn messages_tell_the_attempt(
    time: Seq<char>,
    attempt: u64,
    retry_number: u64,
    interval_ns: nat,
    error: Seq<char>,
)
    ensures
        attempt == retry_number ==> retry_message(time, attempt, retry_number, interval_ns, error)
            == time + ": [ERROR][Attempt "@ + nat_text(attempt as nat) + "/"@ + nat_text(
            retry_number as nat,
        ) + "] "@ + error,
        attempt != retry_number ==> retry_message(time, attempt, retry_number, interval_ns, error)
            == time + ": [ERROR][Attempt "@ + nat_text(attempt as nat) + "/"@ + nat_text(
            retry_number as nat,
        ) + "][Retry in "@ + nat_text(interval_ns / 1_000_000) + " ms] "@ + error,
{
    reveal_strlit("]");
    reveal_strlit(" ");
    reveal_strlit("] ");
    reveal_strlit("[Retry in ");
    reveal_strlit("][Retry in ");
    reveal_strlit(" ms]");
    reveal_strlit(" ms] ");
    let head = time + ": [ERROR][Attempt "@ + nat_text(attempt as nat) + "/"@ + nat_text(
        retry_number as nat,
    );
    assert("]"@ + Seq::<char>::empty() + " "@ =~= "] "@);
    assert("]"@ + "[Retry in "@ =~= "][Retry in "@);
    assert(" ms]"@ + " "@ =~= " ms] "@);
    if attempt == retry_number {
        assert(retry_message(time, attempt, retry_number, interval_ns, error) =~= head + "] "@
            + error);
    } else {
        let wait = nat_text(interval_ns / 1_000_000);
        assert(retry_message(time, attempt, retry_number, interval_ns, error) =~= head
            + "][Retry in "@ + wait + " ms] "@ + error);
    }
}

/// A time that cannot be written is left out, and every other is written in the one format.
pub proof fn times_are_written_in_one_format(now_millis: i64)
    ensures
        match utc_text(now_millis, "%Y-%m-%d %H:%M:%S%.3f"@) {
            Some(text) => time_text(now_millis) == text,
            None => time_text(now_millis) == Seq::<char>::empty(),
        },
{
}

} // verus!
