//! The pace at which a function is executed many times in parallel.
use vstd::prelude::*;

verus! {

/// The number of 64-bit patterns.
pub const PATTERNS: u128 = 0x1_0000_0000_0000_0000;

/// The whole number of periods in a duration, as a duration; all in microseconds.
pub open spec fn whole_periods(duration_us: nat, period_us: nat) -> nat {
    ((duration_us / period_us) * period_us) % (PATTERNS as nat)
}

/// Rounds the duration down to the highest number of whole periods. Both are in nanoseconds,
/// and count in whole microseconds.
pub fn round(duration_ns: u128, period_ns: u128) -> (r: u128)
    requires
        period_ns >= 1000,
    ensures
        r == 1000 * whole_periods(duration_ns as nat / 1000, period_ns as nat / 1000),
        duration_ns < 1000 * 0x1_0000_0000_0000_0000 ==> r <= duration_ns < r + period_ns,
{
    proof {
        if duration_ns < 1000 * PATTERNS {
            rounded_duration_is_whole_periods(duration_ns as nat / 1000, period_ns as nat / 1000);
        }
    }
    let duration_us: u128 = duration_ns / 1000;
    let period_us: u128 = period_ns / 1000;
    let periods: u128 = duration_us / period_us;
    proof {
        vstd::arithmetic::div_mod::lemma_fundamental_div_mod(duration_us as int, period_us as int);
        vstd::arithmetic::mul::lemma_mul_is_commutative(period_us as int, periods as int);
    }
    let whole: u128 = periods * period_us;
    (whole % PATTERNS) * 1000
}

/// A rounded duration is a whole number of periods, not above the duration, and less than a
/// period below it, as long as it does not exceed 64 bits of microseconds.
pub proof fn rounded_duration_is_whole_periods(duration_us: nat, period_us: nat)
    requires
        period_us > 0,
        duration_us < PATTERNS,
    ensures
        whole_periods(duration_us, period_us) % period_us == 0,
        whole_periods(duration_us, period_us) <= duration_us,
        duration_us < whole_periods(duration_us, period_us) + period_us,
{
    let periods = (duration_us / period_us) as int;
    let period = period_us as int;
    vstd::arithmetic::div_mod::lemma_fundamental_div_mod(duration_us as int, period);
    vstd::arithmetic::div_mod::lemma_mod_bound(duration_us as int, period);
    vstd::arithmetic::mul::lemma_mul_is_commutative(period, periods);
    vstd::arithmetic::div_mod::lemma_mod_multiples_basic(periods, period);
    vstd::arithmetic::mul::lemma_mul_nonnegative(periods, period);
    vstd::arithmetic::div_mod::lemma_small_mod(
        (periods * period) as nat,
        PATTERNS as nat,
    );
}

/// A sample is due as soon as more than a period has passed since the one before. Its time is a
/// whole number of periods after the start, counted in whole microseconds: the last such time that
/// has come. So it is later than the time of the sample before, and less than a period ago.
pub proof fn samples_come_at_whole_periods(pacer: Pacer, now_ns: u128)
    requires
        pacer.sampling_period_ns >= 1000,
        pacer.start_time_ns <= pacer.last_sample_time_ns <= now_ns,
        now_ns - pacer.start_time_ns < 1000 * 0x1_0000_0000_0000_0000,
    ensures
        pacer.due_sample(now_ns) is Some <==> now_ns > pacer.last_sample_time_ns
            + pacer.sampling_period_ns,
        pacer.due_sample(now_ns) matches Some(time) ==> {
            &&& pacer.start_time_ns <= time <= now_ns
            &&& now_ns < time + pacer.sampling_period_ns
            &&& pacer.last_sample_time_ns < time
            &&& exists|periods: int|
                time - pacer.start_time_ns == #[trigger] (periods * (1000 * (
                pacer.sampling_period_ns as int / 1000)))
            &&& pacer.sampling_period_ns % 1000 == 0 ==> (time - pacer.start_time_ns) % (
            pacer.sampling_period_ns as int) == 0
        },
{
    let elapsed_us = (now_ns - pacer.start_time_ns) as nat / 1000;
    let period_us = pacer.sampling_period_ns as nat / 1000;
    rounded_duration_is_whole_periods(elapsed_us, period_us);
    let whole = whole_periods(elapsed_us, period_us);
    let periods = whole as int / period_us as int;
    vstd::arithmetic::div_mod::lemma_fundamental_div_mod(whole as int, period_us as int);
    assert(period_us * periods == whole);
    assert(1000 * whole == periods * (1000 * (period_us as int))) by (nonlinear_arith)
        requires
            period_us * periods == whole,
    ;
    if pacer.sampling_period_ns % 1000 == 0 {
        vstd::arithmetic::div_mod::lemma_mod_multiples_basic(
            periods,
            pacer.sampling_period_ns as int,
        );
    }
}

/// Two samples that come one after the other have different times: the sample clock never stands
/// still, and no period is sampled twice.
pub proof fn sample_times_grow(pacer: Pacer, first_ns: u128, second_ns: u128)
    requires
        pacer.sampling_period_ns >= 1000,
        pacer.start_time_ns <= pacer.last_sample_time_ns <= first_ns <= second_ns,
        second_ns - pacer.start_time_ns < 1000 * 0x1_0000_0000_0000_0000,
        pacer.due_sample(first_ns) is Some,
    ensures
        ({
            let first = pacer.due_sample(first_ns)->Some_0;
            let after = Pacer { last_sample_time_ns: first, ..pacer };
            after.due_sample(second_ns) matches Some(second) ==> first < second
        }),
{
    samples_come_at_whole_periods(pacer, first_ns);
    let first = pacer.due_sample(first_ns)->Some_0;
    samples_come_at_whole_periods(Pacer { last_sample_time_ns: first, ..pacer }, second_ns);
}

/// The number of rows that a workload covers: that asked for, or else the number of requests.
pub fn row_count(rows: Option<u64>, count: u64) -> (r: u64)
    ensures
        r == (match rows {
            Some(n) => n,
            None => count,
        }),
{
    match rows {
        Some(n) => n,
        None => count,
    }
}

/// How long an action took, which is no less than a microsecond.
pub fn action_duration(start_ns: u64, end_ns: u64) -> (r: u64)
    ensures
        r == (if end_ns >= start_ns + 1000 {
            end_ns - start_ns
        } else {
            1000
        }),
{
    if end_ns >= start_ns && end_ns - start_ns >= 1000 {
        end_ns - start_ns
    } else {
        1000
    }
}

/// The next execution: its number, how many are under way with it, and the time of the sample
/// that is due before it.
#[derive(Debug, Clone, Copy, PartialEq, Eq, Structural)]
pub struct Slot {
    pub index: u64,
    pub concurrent_count: usize,
    pub sample_time_ns: Option<u128>,
}

/// Hands out the executions one by one. Times are in nanoseconds.
#[derive(Debug, Clone, Copy, PartialEq, Eq, Structural)]
pub struct Pacer {
    pub count: u64,
    pub issued: u64,
    pub parallelism_limit: usize,
    pub sampling_period_ns: u128,
    pub start_time_ns: u128,
    pub last_sample_time_ns: u128,
}

impl Pacer {
    pub open spec fn well_formed(self) -> bool {
        &&& self.issued <= self.count
        &&& self.sampling_period_ns >= 1000
    }

    /// The time of the sample that is due, if one is.
    pub open spec fn due_sample(self, now_ns: u128) -> Option<u128> {
        if now_ns - self.last_sample_time_ns > self.sampling_period_ns {
            Some(
                (self.start_time_ns + 1000 * whole_periods(
                    (now_ns - self.start_time_ns) as nat / 1000,
                    self.sampling_period_ns as nat / 1000,
                )) as u128,
            )
        } else {
            None
        }
    }

    /// The time is a whole number of periods after the start, it has come, the next such time has
    /// not, and it is later than that of the last sample. All of it holds as long as the run takes
    /// no more than 64 bits of microseconds.
    pub open spec fn is_timely(self, now_ns: u128, time: u128) -> bool {
        now_ns - self.start_time_ns < 1000 * 0x1_0000_0000_0000_0000 ==> {
            &&& self.start_time_ns <= time <= now_ns
            &&& now_ns < time + self.sampling_period_ns
            &&& self.last_sample_time_ns < time
            &&& self.sampling_period_ns % 1000 == 0 ==> (time - self.start_time_ns) % (
            self.sampling_period_ns as int) == 0
        }
    }

    /// Before the first execution.
    pub fn new(
        count: u64,
        parallelism_limit: usize,
        sampling_period_ns: u128,
        start_time_ns: u128,
    ) -> (r: Pacer)
        requires
            sampling_period_ns >= 1000,
        ensures
            r.well_formed(),
            r == (Pacer {
                count,
                issued: 0,
                parallelism_limit,
                sampling_period_ns,
                start_time_ns,
                last_sample_time_ns: start_time_ns,
            }),
    {
        Pacer {
            count,
            issued: 0,
            parallelism_limit,
            sampling_period_ns,
            start_time_ns,
            last_sample_time_ns: start_time_ns,
        }
    }

    /// Hands out the next execution, if one is left, given the time and how many more could
    /// be under way.
    pub fn next_slot(&mut self, now_ns: u128, available_permits: usize) -> (r: Option<Slot>)
        requires
            old(self).well_formed(),
            available_permits <= old(self).parallelism_limit,
            old(self).start_time_ns <= old(self).last_sample_time_ns <= now_ns,
            old(self).start_time_ns + 1000 * PATTERNS <= u128::MAX,
        ensures
            final(self).well_formed(),
            final(self).count == old(self).count,
            final(self).parallelism_limit == old(self).parallelism_limit,
            final(self).sampling_period_ns == old(self).sampling_period_ns,
            final(self).start_time_ns == old(self).start_time_ns,
            match r {
                None => old(self).issued == old(self).count && *final(self) == *old(self),
                Some(slot) => {
                    &&& old(self).issued < old(self).count
                    &&& slot.index == old(self).issued
                    &&& slot.concurrent_count == old(self).parallelism_limit - available_permits
                    &&& slot.sample_time_ns == old(self).due_sample(now_ns)
                    &&& (slot.sample_time_ns is Some) == (now_ns > old(self).last_sample_time_ns
                        + old(self).sampling_period_ns)
                    &&& slot.sample_time_ns matches Some(time) ==> old(self).is_timely(now_ns, time)
                    &&& final(self).issued == old(self).issued + 1
                    &&& final(self).last_sample_time_ns == (match slot.sample_time_ns {
                        Some(time) => time,
                        None => old(self).last_sample_time_ns,
                    })
                },
            },
    {
        if self.issued == self.count {
            return None;
        }
        proof {
            if now_ns - self.start_time_ns < 1000 * PATTERNS {
                samples_come_at_whole_periods(*self, now_ns);
            }
        }
        let sample_time_ns: Option<u128> = if now_ns - self.last_sample_time_ns
            > self.sampling_period_ns {
            let elapsed: u128 = round(now_ns - self.start_time_ns, self.sampling_period_ns);
            Some(self.start_time_ns + elapsed)
        } else {
            None
        };
        let slot = Slot {
            index: self.issued,
            concurrent_count: self.parallelism_limit - available_permits,
            sample_time_ns,
        };
        self.issued = self.issued + 1;
        match sample_time_ns {
            Some(time) => {
                self.last_sample_time_ns = time;
            },
            None => {},
        }
        Some(slot)
    }
}

} // verus!
