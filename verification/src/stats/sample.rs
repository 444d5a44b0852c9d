//! Statistics of a sample, that is, of what all workers did in a short time.
use vstd::prelude::*;

use crate::text_set::TextSet;
use super::latency::{append_latencies, with_functions, FunctionStats, LatencyTable};
use super::session::SessionStats;
use super::sums::{lemma_sum_concat, lemma_sum_next, sum_by};

verus! {

/// Beyond this many different errors, no more are kept.
pub const MAX_KEPT_ERRORS: usize = 10;

/// What one worker did in a sample. Times are in nanoseconds, on the same clock for all.
#[derive(Debug, PartialEq)]
pub struct WorkloadStats {
    pub start_time_ns: u64,
    pub end_time_ns: u64,
    pub session_stats: SessionStats,
    pub function_stats: Vec<FunctionStats>,
}

/// Records basic statistics for a sample (a group) of requests.
#[derive(Debug, PartialEq)]
pub struct Sample {
    /// When the sample began, since the start of the run.
    pub time_ns: u64,
    /// How long the workers took, all together.
    pub duration_sum_ns: u128,
    /// How many workers there are.
    pub worker_count: usize,
    pub cycle_count: u64,
    pub cycle_error_count: u64,
    pub request_count: u64,
    pub req_retry_errors: TextSet,
    pub req_retry_count: u64,
    pub req_errors: TextSet,
    pub req_error_count: u64,
    pub row_count: u64,
    pub cycle_latency_ns: Vec<u64>,
    pub cycle_latency_by_fn: LatencyTable,
    pub request_latency_ns: Vec<u64>,
}

/// What a [`Sample`] stands for.
pub struct SampleView {
    pub time_ns: nat,
    pub duration_sum_ns: nat,
    pub worker_count: nat,
    pub cycle_count: nat,
    pub cycle_error_count: nat,
    pub request_count: nat,
    pub req_retry_errors: Set<Seq<char>>,
    pub req_retry_count: nat,
    pub req_errors: Set<Seq<char>>,
    pub req_error_count: nat,
    pub row_count: nat,
    pub cycle_latency_ns: Seq<u64>,
    pub cycle_latency_by_fn: Map<Seq<char>, Seq<u64>>,
    pub request_latency_ns: Seq<u64>,
}

impl Sample {
    pub open spec fn model(self) -> SampleView {
        SampleView {
            time_ns: self.time_ns as nat,
            duration_sum_ns: self.duration_sum_ns as nat,
            worker_count: self.worker_count as nat,
            cycle_count: self.cycle_count as nat,
            cycle_error_count: self.cycle_error_count as nat,
            request_count: self.request_count as nat,
            req_retry_errors: self.req_retry_errors@,
            req_retry_count: self.req_retry_count as nat,
            req_errors: self.req_errors@,
            req_error_count: self.req_error_count as nat,
            row_count: self.row_count as nat,
            cycle_latency_ns: self.cycle_latency_ns@,
            cycle_latency_by_fn: self.cycle_latency_by_fn@,
            request_latency_ns: self.request_latency_ns@,
        }
    }
}

impl View for Sample {
    type V = SampleView;

    open spec fn view(&self) -> SampleView {
        self.model()
    }
}

/// The time from one moment to another, and none if that comes first.
pub open spec fn elapsed(from: u64, to: u64) -> nat {
    if from <= to {
        (to - from) as nat
    } else {
        0
    }
}

/// How often a function was called.
pub open spec fn calls() -> spec_fn(FunctionStats) -> nat {
    |f: FunctionStats| f.call_count as nat
}

/// How often the functions of a worker were called.
pub open spec fn cycles() -> spec_fn(WorkloadStats) -> nat {
    |s: WorkloadStats| sum_by(s.function_stats@, calls())
}

/// How often the calls of a function failed.
pub open spec fn call_errors() -> spec_fn(FunctionStats) -> nat {
    |f: FunctionStats| f.error_count as nat
}

/// How often the calls of the functions of a worker failed.
pub open spec fn function_errors() -> spec_fn(WorkloadStats) -> nat {
    |s: WorkloadStats| sum_by(s.function_stats@, call_errors())
}

/// How many requests a worker made.
pub open spec fn requests() -> spec_fn(WorkloadStats) -> nat {
    |s: WorkloadStats| s.session_stats.req_count as nat
}

/// How many requests of a worker failed.
pub open spec fn request_errors() -> spec_fn(WorkloadStats) -> nat {
    |s: WorkloadStats| s.session_stats.req_error_count as nat
}

/// How many requests a worker tried again.
pub open spec fn retries() -> spec_fn(WorkloadStats) -> nat {
    |s: WorkloadStats| s.session_stats.req_retry_count as nat
}

/// How many rows a worker got.
pub open spec fn rows() -> spec_fn(WorkloadStats) -> nat {
    |s: WorkloadStats| s.session_stats.row_count as nat
}

/// How long a worker took.
pub open spec fn durations() -> spec_fn(WorkloadStats) -> nat {
    |s: WorkloadStats| elapsed(s.start_time_ns, s.end_time_ns)
}

/// The errors that are kept when more come: all of them, unless there are enough.
pub open spec fn kept_errors(kept: Set<Seq<char>>, more: Set<Seq<char>>) -> Set<Seq<char>> {
    if kept.len() < MAX_KEPT_ERRORS {
        kept.union(more)
    } else {
        kept
    }
}

/// The errors that are kept of all workers.
pub open spec fn all_errors(stats: Seq<WorkloadStats>) -> Set<Seq<char>>
    decreases stats.len(),
{
    if stats.len() == 0 {
        Set::empty()
    } else {
        kept_errors(all_errors(stats.drop_last()), stats.last().session_stats.req_errors@)
    }
}

/// The errors of requests that were tried again, of all workers.
pub open spec fn all_retry_errors(stats: Seq<WorkloadStats>) -> Set<Seq<char>>
    decreases stats.len(),
{
    if stats.len() == 0 {
        Set::empty()
    } else {
        all_retry_errors(stats.drop_last()).union(stats.last().session_stats.req_retry_errors@)
    }
}

/// The latencies of the calls of functions.
pub open spec fn call_latencies(functions: Seq<FunctionStats>) -> Seq<u64>
    decreases functions.len(),
{
    if functions.len() == 0 {
        Seq::empty()
    } else {
        call_latencies(functions.drop_last()) + functions.last().call_latency_ns@
    }
}

/// The latencies of the calls of all workers.
pub open spec fn all_call_latencies(stats: Seq<WorkloadStats>) -> Seq<u64>
    decreases stats.len(),
{
    if stats.len() == 0 {
        Seq::empty()
    } else {
        all_call_latencies(stats.drop_last()) + call_latencies(stats.last().function_stats@)
    }
}

/// The latencies of the requests of all workers.
pub open spec fn all_request_latencies(stats: Seq<WorkloadStats>) -> Seq<u64>
    decreases stats.len(),
{
    if stats.len() == 0 {
        Seq::empty()
    } else {
        all_request_latencies(stats.drop_last()) + stats.last().session_stats.resp_times_ns@
    }
}

/// The latencies of the calls of all workers, by function, with those of the table.
pub open spec fn with_workers(table: Map<Seq<char>, Seq<u64>>, stats: Seq<WorkloadStats>) -> Map<
    Seq<char>,
    Seq<u64>,
>
    decreases stats.len(),
{
    if stats.len() == 0 {
        table
    } else {
        with_functions(with_workers(table, stats.drop_last()), stats.last().function_stats@)
    }
}

/// The counters can take what the workers did.
pub open spec fn sums_fit(stats: Seq<WorkloadStats>) -> bool {
    &&& sum_by(stats, cycles()) <= u64::MAX
    &&& sum_by(stats, function_errors()) <= u64::MAX
    &&& sum_by(stats, requests()) <= u64::MAX
    &&& sum_by(stats, request_errors()) <= u64::MAX
    &&& sum_by(stats, retries()) <= u64::MAX
    &&& sum_by(stats, rows()) <= u64::MAX
    &&& sum_by(stats, durations()) <= u128::MAX
}

/// The sample of what the workers did.
pub open spec fn sample_of(base_start_time_ns: u64, stats: Seq<WorkloadStats>) -> SampleView {
    SampleView {
        time_ns: elapsed(base_start_time_ns, stats[0].start_time_ns),
        duration_sum_ns: sum_by(stats, durations()),
        worker_count: stats.len(),
        cycle_count: sum_by(stats, cycles()),
        cycle_error_count: sum_by(stats, function_errors()),
        request_count: sum_by(stats, requests()),
        req_retry_errors: all_retry_errors(stats),
        req_retry_count: sum_by(stats, retries()),
        req_errors: all_errors(stats),
        req_error_count: sum_by(stats, request_errors()),
        row_count: sum_by(stats, rows()),
        cycle_latency_ns: all_call_latencies(stats),
        cycle_latency_by_fn: with_workers(Map::empty(), stats),
        request_latency_ns: all_request_latencies(stats),
    }
}

/// Measures the time from one moment to another.
fn time_between(from: u64, to: u64) -> (r: u64)
    ensures
        r == elapsed(from, to),
{
    if from <= to {
        to - from
    } else {
        0
    }
}

/// Counts the calls of functions.
fn count_calls(functions: &Vec<FunctionStats>) -> (r: u64)
    requires
        sum_by(functions@, calls()) <= u64::MAX,
    ensures
        r == sum_by(functions@, calls()),
{
    let mut count: u64 = 0;
    let mut i: usize = 0;
    assert(functions@.take(0) =~= Seq::empty());
    while i < functions.len()
        invariant
            i <= functions.len(),
            sum_by(functions@, calls()) <= u64::MAX,
            count == sum_by(functions@.take(i as int), calls()),
        decreases functions.len() - i,
    {
        proof {
            lemma_sum_next(functions@, calls(), i as int);
        }
        count = count + functions[i].call_count;
        i += 1;
    }
    assert(functions@.take(functions@.len() as int) =~= functions@);
    count
}

/// Counts the calls of functions that failed.
fn count_call_errors(functions: &Vec<FunctionStats>) -> (r: u64)
    requires
        sum_by(functions@, call_errors()) <= u64::MAX,
    ensures
        r == sum_by(functions@, call_errors()),
{
    let mut count: u64 = 0;
    let mut i: usize = 0;
    assert(functions@.take(0) =~= Seq::empty());
    while i < functions.len()
        invariant
            i <= functions.len(),
            sum_by(functions@, call_errors()) <= u64::MAX,
            count == sum_by(functions@.take(i as int), call_errors()),
        decreases functions.len() - i,
    {
        proof {
            lemma_sum_next(functions@, call_errors(), i as int);
        }
        count = count + functions[i].error_count;
        i += 1;
    }
    assert(functions@.take(functions@.len() as int) =~= functions@);
    count
}

/// Appends the latencies of the calls of functions to others.
pub fn append_call_latencies(all: &mut Vec<u64>, functions: &Vec<FunctionStats>)
    ensures
        final(all)@ == old(all)@ + call_latencies(functions@),
{
    let ghost before = all@;
    let mut i: usize = 0;
    assert(functions@.take(0) =~= Seq::empty());
    assert(before + Seq::<u64>::empty() =~= before);
    while i < functions.len()
        invariant
            i <= functions.len(),
            all@ == before + call_latencies(functions@.take(i as int)),
        decreases functions.len() - i,
    {
        append_latencies(all, &functions[i].call_latency_ns);
        proof {
            let head = functions@.take(i as int);
            assert(functions@.take(i + 1).drop_last() =~= head);
            let more = functions@[i as int].call_latency_ns@;
            assert((before + call_latencies(head)) + more =~= before + (call_latencies(head)
                + more));
        }
        i += 1;
    }
    assert(functions@.take(functions@.len() as int) =~= functions@);
}

impl Sample {
    /// Sums up what the workers did.
    pub fn new(base_start_time_ns: u64, stats: &Vec<WorkloadStats>) -> (r: Sample)
        requires
            stats@.len() > 0,
            sums_fit(stats@),
        ensures
            r@ == sample_of(base_start_time_ns, stats@),
    {
        let mut cycle_count: u64 = 0;
        let mut cycle_error_count: u64 = 0;
        let mut request_count: u64 = 0;
        let mut req_retry_errors = TextSet::new();
        let mut req_retry_count: u64 = 0;
        let mut row_count: u64 = 0;
        let mut errors = TextSet::new();
        let mut req_error_count: u64 = 0;
        let mut duration_sum_ns: u128 = 0;
        let mut request_latency_ns: Vec<u64> = Vec::new();
        let mut cycle_latency_ns: Vec<u64> = Vec::new();
        let mut cycle_latency_by_fn = LatencyTable::new();
        let mut i: usize = 0;
        assert(stats@.take(0) =~= Seq::empty());
        while i < stats.len()
            invariant
                i <= stats.len(),
                sums_fit(stats@),
                cycle_count == sum_by(stats@.take(i as int), cycles()),
                cycle_error_count == sum_by(stats@.take(i as int), function_errors()),
                request_count == sum_by(stats@.take(i as int), requests()),
                req_retry_errors@ == all_retry_errors(stats@.take(i as int)),
                req_retry_count == sum_by(stats@.take(i as int), retries()),
                row_count == sum_by(stats@.take(i as int), rows()),
                errors@ == all_errors(stats@.take(i as int)),
                req_error_count == sum_by(stats@.take(i as int), request_errors()),
                duration_sum_ns == sum_by(stats@.take(i as int), durations()),
                request_latency_ns@ == all_request_latencies(stats@.take(i as int)),
                cycle_latency_ns@ == all_call_latencies(stats@.take(i as int)),
                cycle_latency_by_fn@ == with_workers(Map::empty(), stats@.take(i as int)),
            decreases stats.len() - i,
        {
            proof {
                lemma_sum_next(stats@, cycles(), i as int);
                lemma_sum_next(stats@, function_errors(), i as int);
                lemma_sum_next(stats@, requests(), i as int);
                lemma_sum_next(stats@, retries(), i as int);
                lemma_sum_next(stats@, rows(), i as int);
                lemma_sum_next(stats@, request_errors(), i as int);
                lemma_sum_next(stats@, durations(), i as int);
                assert(stats@.take(i + 1).drop_last() =~= stats@.take(i as int));
            }
            let s = &stats[i];
            let ss = &s.session_stats;
            request_count = request_count + ss.req_count;
            row_count = row_count + ss.row_count;
            if errors.len() < MAX_KEPT_ERRORS {
                errors.extend(&ss.req_errors);
            }
            req_retry_errors.extend(&ss.req_retry_errors);
            req_error_count = req_error_count + ss.req_error_count;
            req_retry_count = req_retry_count + ss.req_retry_count;
            duration_sum_ns = duration_sum_ns + time_between(s.start_time_ns, s.end_time_ns) as u128;
            append_latencies(&mut request_latency_ns, &ss.resp_times_ns);
            cycle_count = cycle_count + count_calls(&s.function_stats);
            cycle_error_count = cycle_error_count + count_call_errors(&s.function_stats);
            append_call_latencies(&mut cycle_latency_ns, &s.function_stats);
            cycle_latency_by_fn.add_functions(&s.function_stats);
            i += 1;
        }
        assert(stats@.take(stats@.len() as int) =~= stats@);
        Sample {
            time_ns: time_between(base_start_time_ns, stats[0].start_time_ns),
            duration_sum_ns,
            worker_count: stats.len(),
            cycle_count,
            cycle_error_count,
            request_count,
            req_retry_errors,
            req_retry_count,
            req_errors: errors,
            req_error_count,
            row_count,
            cycle_latency_ns,
            cycle_latency_by_fn,
            request_latency_ns,
        }
    }
}

/// The counters of a sample of two groups of workers are those of both groups together.
pub proof fn samples_add_up(base_start_time_ns: u64, a: Seq<WorkloadStats>, b: Seq<WorkloadStats>)
    requires
        a.len() > 0,
    ensures
        ({
            let both = sample_of(base_start_time_ns, a + b);
            let one = sample_of(base_start_time_ns, a);
            let other = sample_of(base_start_time_ns, b);
            &&& both.time_ns == one.time_ns
            &&& both.worker_count == one.worker_count + other.worker_count
            &&& both.duration_sum_ns == one.duration_sum_ns + other.duration_sum_ns
            &&& both.cycle_count == one.cycle_count + other.cycle_count
            &&& both.cycle_error_count == one.cycle_error_count + other.cycle_error_count
            &&& both.request_count == one.request_count + other.request_count
            &&& both.req_retry_count == one.req_retry_count + other.req_retry_count
            &&& both.req_error_count == one.req_error_count + other.req_error_count
            &&& both.row_count == one.row_count + other.row_count
            &&& both.req_retry_errors == one.req_retry_errors.union(other.req_retry_errors)
            &&& both.request_latency_ns == one.request_latency_ns + other.request_latency_ns
            &&& both.cycle_latency_ns == one.cycle_latency_ns + other.cycle_latency_ns
        }),
{
    lemma_sum_concat(a, b, durations());
    lemma_sum_concat(a, b, cycles());
    lemma_sum_concat(a, b, function_errors());
    lemma_sum_concat(a, b, requests());
    lemma_sum_concat(a, b, retries());
    lemma_sum_concat(a, b, request_errors());
    lemma_sum_concat(a, b, rows());
    lemma_sequences_concat(a, b);
    assert((a + b)[0] == a[0]);
}

/// The lists and sets of two groups of workers are those of both, one after the other.
proof fn lemma_sequences_concat(a: Seq<WorkloadStats>, b: Seq<WorkloadStats>)
    ensures
        all_retry_errors(a + b) == all_retry_errors(a).union(all_retry_errors(b)),
        all_request_latencies(a + b) == all_request_latencies(a) + all_request_latencies(b),
        all_call_latencies(a + b) == all_call_latencies(a) + all_call_latencies(b),
    decreases b.len(),
{
    if b.len() == 0 {
        assert(a + b =~= a);
        assert(all_retry_errors(a).union(Set::<Seq<char>>::empty()) =~= all_retry_errors(a));
        assert(all_request_latencies(a) + Seq::<u64>::empty() =~= all_request_latencies(a));
        assert(all_call_latencies(a) + Seq::<u64>::empty() =~= all_call_latencies(a));
    } else {
        let head = b.drop_last();
        lemma_sequences_concat(a, head);
        assert((a + b).drop_last() =~= a + head);
        assert((a + b).last() == b.last());
        let s = b.last().session_stats;
        assert(all_retry_errors(a).union(all_retry_errors(head)).union(s.req_retry_errors@)
            =~= all_retry_errors(a).union(all_retry_errors(head).union(s.req_retry_errors@)));
        assert((all_request_latencies(a) + all_request_latencies(head)) + s.resp_times_ns@
            =~= all_request_latencies(a) + (all_request_latencies(head) + s.resp_times_ns@));
        let more = call_latencies(b.last().function_stats@);
        assert((all_call_latencies(a) + all_call_latencies(head)) + more =~= all_call_latencies(a)
            + (all_call_latencies(head) + more));
    }
}

} // verus!
