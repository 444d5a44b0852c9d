//! The statistics of a whole run, collected sample by sample.
use vstd::prelude::*;

use crate::text::texts;
use crate::text_set::TextSet;
use super::latency::{append_latencies, LatencyTable};
use super::sample::{all_call_latencies, all_request_latencies, append_call_latencies};
use super::sample::{call_latencies, cycles, function_errors, kept_errors, request_errors};
use super::sample::{requests, retries, rows};
use super::sample::{sample_of, sums_fit, with_workers, Sample, SampleView, WorkloadStats};
use super::sample::MAX_KEPT_ERRORS;
use super::sums::{lemma_sum_concat, sum_by};

verus! {

/// Holds a mean and its error together. The numbers are the bits of double precision floats.
#[derive(Debug, Clone, Copy, PartialEq, Eq, Structural)]
pub struct Mean {
    pub n: u64,
    pub value_bits: u64,
    pub std_err_bits: Option<u64>,
}

/// The mean and the percentiles of latencies.
#[derive(Debug, PartialEq)]
pub struct LatencyDistribution {
    pub mean: Mean,
    pub percentiles: Vec<Mean>,
}

/// What is measured over the whole run.
#[derive(Debug, PartialEq)]
pub struct Measurements {
    pub cycle_throughput: Mean,
    pub req_throughput: Mean,
    pub row_throughput: Mean,
    pub concurrency: Mean,
    pub request_latency: LatencyDistribution,
}

/// A quotient of two counters.
#[derive(Debug, Clone, Copy, PartialEq, Eq, Structural)]
pub struct Ratio {
    pub numerator: u64,
    pub denominator: u64,
}

/// The quotient of two counters, if it is a number or infinite.
pub open spec fn ratio(numerator: nat, denominator: nat) -> Option<Ratio> {
    if numerator == 0 && denominator == 0 {
        None
    } else {
        Some(Ratio { numerator: numerator as u64, denominator: denominator as u64 })
    }
}

/// Divides two counters, unless both are zero.
pub fn not_nan(numerator: u64, denominator: u64) -> (r: Option<Ratio>)
    ensures
        r == ratio(numerator as nat, denominator as nat),
{
    if numerator == 0 && denominator == 0 {
        None
    } else {
        Some(Ratio { numerator, denominator })
    }
}

/// What a measured value is compared with.
#[derive(Debug, Clone, Copy, PartialEq, Eq, Structural)]
pub enum Level {
    /// A rate, as the bits of a double precision float.
    Rate(u64),
    /// A number of requests.
    Count(usize),
}

/// A hundred times a value, as the bits of a double precision float, over a level.
#[derive(Debug, Clone, Copy, PartialEq, Eq, Structural)]
pub struct Percentage {
    pub value_bits: u64,
    pub level: Level,
}

/// The percentage of a rate limit that the mean of a throughput is, where there is a limit.
pub open spec fn of_rate(throughput: Mean, rate_limit_bits: Option<u64>) -> Option<Percentage> {
    match rate_limit_bits {
        Some(bits) => Some(
            Percentage { value_bits: throughput.value_bits, level: Level::Rate(bits) },
        ),
        None => None,
    }
}

/// The percentage of a concurrency limit that the mean of a concurrency is.
pub open spec fn of_limit(concurrency: Mean, concurrency_limit: usize) -> Percentage {
    Percentage { value_bits: concurrency.value_bits, level: Level::Count(concurrency_limit) }
}

/// Stores the final statistics of the test run.
#[derive(Debug, PartialEq)]
pub struct BenchmarkStats {
    pub cycle_count: u64,
    pub request_count: u64,
    pub requests_per_cycle: Ratio,
    pub request_retry_count: u64,
    pub request_retry_per_request: Option<Ratio>,
    pub errors: Vec<String>,
    pub error_count: u64,
    /// The failed cycles among all, of which a hundred times is the percentage.
    pub errors_ratio: Option<Ratio>,
    pub row_count: u64,
    pub row_count_per_req: Option<Ratio>,
    pub cycle_throughput: Mean,
    pub cycle_throughput_ratio: Option<Percentage>,
    pub req_throughput: Mean,
    pub row_throughput: Mean,
    pub cycle_latency_ns: Vec<u64>,
    pub cycle_latency_by_fn: LatencyTable,
    pub request_latency: Option<LatencyDistribution>,
    pub concurrency: Mean,
    pub concurrency_ratio: Percentage,
    pub log: Vec<Sample>,
}

/// What [`BenchmarkStats`] stand for.
pub struct BenchmarkStatsView {
    pub cycle_count: nat,
    pub request_count: nat,
    pub requests_per_cycle: Ratio,
    pub request_retry_count: nat,
    pub request_retry_per_request: Option<Ratio>,
    pub errors: Set<Seq<char>>,
    pub error_count: nat,
    pub errors_ratio: Option<Ratio>,
    pub row_count: nat,
    pub row_count_per_req: Option<Ratio>,
    pub cycle_throughput: Mean,
    pub cycle_throughput_ratio: Option<Percentage>,
    pub req_throughput: Mean,
    pub row_throughput: Mean,
    pub cycle_latency_ns: Seq<u64>,
    pub cycle_latency_by_fn: Map<Seq<char>, Seq<u64>>,
    pub request_latency: Option<LatencyDistribution>,
    pub concurrency: Mean,
    pub concurrency_ratio: Percentage,
    pub log: Seq<SampleView>,
}

impl View for BenchmarkStats {
    type V = BenchmarkStatsView;

    open spec fn view(&self) -> BenchmarkStatsView {
        BenchmarkStatsView {
            cycle_count: self.cycle_count as nat,
            request_count: self.request_count as nat,
            requests_per_cycle: self.requests_per_cycle,
            request_retry_count: self.request_retry_count as nat,
            request_retry_per_request: self.request_retry_per_request,
            errors: texts(self.errors@).to_set(),
            error_count: self.error_count as nat,
            errors_ratio: self.errors_ratio,
            row_count: self.row_count as nat,
            row_count_per_req: self.row_count_per_req,
            cycle_throughput: self.cycle_throughput,
            cycle_throughput_ratio: self.cycle_throughput_ratio,
            req_throughput: self.req_throughput,
            row_throughput: self.row_throughput,
            cycle_latency_ns: self.cycle_latency_ns@,
            cycle_latency_by_fn: self.cycle_latency_by_fn@,
            request_latency: self.request_latency,
            concurrency: self.concurrency,
            concurrency_ratio: self.concurrency_ratio,
            log: sample_models(self.log@),
        }
    }
}

/// Observes requests and sums up their statistics.
#[derive(Debug, PartialEq)]
pub struct Recorder {
    /// When the run started, in nanoseconds.
    pub start_time_ns: u64,
    pub cycle_count: u64,
    pub request_count: u64,
    pub request_retry_count: u64,
    pub request_error_count: u64,
    pub errors: TextSet,
    pub cycle_error_count: u64,
    pub row_count: u64,
    pub cycle_latency_ns: Vec<u64>,
    pub cycle_latency_by_fn: LatencyTable,
    pub request_latency_ns: Vec<u64>,
    pub log: Vec<Sample>,
    /// The bits of the rate limit, a double precision float.
    pub rate_limit_bits: Option<u64>,
    pub concurrency_limit: usize,
    pub keep_log: bool,
    /// Whether the histograms of each sample are written.
    pub write_histograms: bool,
}

/// What a [`Recorder`] stands for.
pub struct RecorderView {
    pub start_time_ns: u64,
    pub cycle_count: nat,
    pub request_count: nat,
    pub request_retry_count: nat,
    pub request_error_count: nat,
    pub errors: Set<Seq<char>>,
    pub cycle_error_count: nat,
    pub row_count: nat,
    pub cycle_latency_ns: Seq<u64>,
    pub cycle_latency_by_fn: Map<Seq<char>, Seq<u64>>,
    pub request_latency_ns: Seq<u64>,
    pub log: Seq<SampleView>,
    pub rate_limit_bits: Option<u64>,
    pub concurrency_limit: usize,
    pub keep_log: bool,
    pub write_histograms: bool,
}

/// The views of samples.
pub open spec fn sample_models(samples: Seq<Sample>) -> Seq<SampleView> {
    Seq::new(samples.len(), |i: int| samples[i].model())
}

impl View for Recorder {
    type V = RecorderView;

    open spec fn view(&self) -> RecorderView {
        RecorderView {
            start_time_ns: self.start_time_ns,
            cycle_count: self.cycle_count as nat,
            request_count: self.request_count as nat,
            request_retry_count: self.request_retry_count as nat,
            request_error_count: self.request_error_count as nat,
            errors: self.errors@,
            cycle_error_count: self.cycle_error_count as nat,
            row_count: self.row_count as nat,
            cycle_latency_ns: self.cycle_latency_ns@,
            cycle_latency_by_fn: self.cycle_latency_by_fn@,
            request_latency_ns: self.request_latency_ns@,
            log: sample_models(self.log@),
            rate_limit_bits: self.rate_limit_bits,
            concurrency_limit: self.concurrency_limit,
            keep_log: self.keep_log,
            write_histograms: self.write_histograms,
        }
    }
}

impl RecorderView {
    /// Before anything is recorded.
    pub open spec fn started(
        start_time_ns: u64,
        rate_limit_bits: Option<u64>,
        concurrency_limit: usize,
        keep_log: bool,
        write_histograms: bool,
    ) -> RecorderView {
        RecorderView {
            start_time_ns,
            cycle_count: 0,
            request_count: 0,
            request_retry_count: 0,
            request_error_count: 0,
            errors: Set::empty(),
            cycle_error_count: 0,
            row_count: 0,
            cycle_latency_ns: Seq::empty(),
            cycle_latency_by_fn: Map::empty(),
            request_latency_ns: Seq::empty(),
            log: Seq::empty(),
            rate_limit_bits,
            concurrency_limit,
            keep_log,
            write_histograms,
        }
    }

    /// After a sample of what the workers did.
    pub open spec fn recorded(self, stats: Seq<WorkloadStats>) -> RecorderView {
        let sample = sample_of(self.start_time_ns, stats);
        RecorderView {
            cycle_count: self.cycle_count + sample.cycle_count,
            request_count: self.request_count + sample.request_count,
            request_retry_count: self.request_retry_count + sample.req_retry_count,
            request_error_count: self.request_error_count + sample.req_error_count,
            errors: kept_errors(self.errors, sample.req_errors),
            cycle_error_count: self.cycle_error_count + sample.cycle_error_count,
            row_count: self.row_count + sample.row_count,
            cycle_latency_ns: self.cycle_latency_ns + all_call_latencies(stats),
            cycle_latency_by_fn: with_workers(self.cycle_latency_by_fn, stats),
            request_latency_ns: self.request_latency_ns + all_request_latencies(stats),
            log: (if self.keep_log {
                self.log
            } else {
                Seq::empty()
            }).push(sample),
            ..self
        }
    }

    /// The statistics of the whole run, given what was measured over it.
    pub open spec fn finished(self, measured: Measurements) -> BenchmarkStatsView {
        BenchmarkStatsView {
            cycle_count: self.cycle_count,
            request_count: self.request_count,
            requests_per_cycle: Ratio {
                numerator: self.request_count as u64,
                denominator: self.cycle_count as u64,
            },
            request_retry_count: self.request_retry_count,
            request_retry_per_request: ratio(self.request_retry_count, self.request_count),
            errors: self.errors,
            error_count: self.cycle_error_count,
            errors_ratio: ratio(self.cycle_error_count, self.cycle_count),
            row_count: self.row_count,
            row_count_per_req: ratio(self.row_count, self.request_count),
            cycle_throughput: measured.cycle_throughput,
            cycle_throughput_ratio: of_rate(measured.cycle_throughput, self.rate_limit_bits),
            req_throughput: measured.req_throughput,
            row_throughput: measured.row_throughput,
            cycle_latency_ns: self.cycle_latency_ns,
            cycle_latency_by_fn: self.cycle_latency_by_fn,
            request_latency: if self.request_count > 0 {
                Some(measured.request_latency)
            } else {
                None
            },
            concurrency: measured.concurrency,
            concurrency_ratio: of_limit(measured.concurrency, self.concurrency_limit),
            log: if self.keep_log {
                self.log
            } else {
                Seq::empty()
            },
        }
    }

    /// The counters are machine numbers.
    pub open spec fn fits(self) -> bool {
        &&& self.cycle_count <= u64::MAX
        &&& self.request_count <= u64::MAX
        &&& self.request_retry_count <= u64::MAX
        &&& self.request_error_count <= u64::MAX
        &&& self.cycle_error_count <= u64::MAX
        &&& self.row_count <= u64::MAX
    }
}

/// The tag of the histogram of a function.
pub open spec fn histogram_tag(name: Seq<char>) -> Seq<char> {
    "fn--"@ + name
}

/// The name can be part of a tag.
pub open spec fn taggable(name: Seq<char>) -> bool {
    forall|i: int|
        0 <= i < name.len() ==> (#[trigger] name[i]) != ',' && name[i] != '\r' && name[i] != '\n'
            && name[i] != ' '
}

/// Makes the tag of the histogram of a function, unless its name cannot be part of one.
pub fn tag_of(name: &str) -> (r: Option<String>)
    ensures
        match r {
            Some(tag) => taggable(name@) && tag@ == histogram_tag(name@),
            None => !taggable(name@),
        },
{
    let len: usize = name.unicode_len();
    let mut i: usize = 0;
    while i < len
        invariant
            i <= len,
            len == name@.len(),
            forall|k: int|
                0 <= k < i ==> (#[trigger] name@[k]) != ',' && name@[k] != '\r' && name@[k] != '\n'
                    && name@[k] != ' ',
        decreases len - i,
    {
        let c = name.get_char(i);
        if c == ',' || c == '\r' || c == '\n' || c == ' ' {
            return None;
        }
        i += 1;
    }
    Some("fn--".to_owned().concat(name))
}

impl Recorder {
    /// Creates a new recorder. The rate limit and the `concurrency_limit` are used only as the
    /// reference levels for relative throughput and relative parallelism.
    pub fn start(
        start_time_ns: u64,
        rate_limit_bits: Option<u64>,
        concurrency_limit: usize,
        keep_log: bool,
        write_histograms: bool,
    ) -> (r: Recorder)
        requires
            concurrency_limit > 0,
        ensures
            r@ == RecorderView::started(
                start_time_ns,
                rate_limit_bits,
                concurrency_limit,
                keep_log,
                write_histograms,
            ),
    {
        let log: Vec<Sample> = Vec::new();
        assert(sample_models(log@) =~= Seq::empty());
        Recorder {
            start_time_ns,
            cycle_count: 0,
            request_count: 0,
            request_retry_count: 0,
            request_error_count: 0,
            errors: TextSet::new(),
            cycle_error_count: 0,
            row_count: 0,
            cycle_latency_ns: Vec::new(),
            cycle_latency_by_fn: LatencyTable::new(),
            request_latency_ns: Vec::new(),
            log,
            rate_limit_bits,
            concurrency_limit,
            keep_log,
            write_histograms,
        }
    }

    /// Adds the statistics of the completed requests to the already collected statistics.
    /// Called on completion of each sample. The sample comes last in the log. Returns the
    /// latencies of each function in the sample, where their histograms are to be written.
    pub fn record(&mut self, workload_stats: &Vec<WorkloadStats>) -> (r: Option<LatencyTable>)
        requires
            workload_stats@.len() > 0,
            sums_fit(workload_stats@),
            old(self)@.recorded(workload_stats@).fits(),
        ensures
            final(self)@ == old(self)@.recorded(workload_stats@),
            match r {
                Some(table) => old(self).write_histograms && table@ == with_workers(
                    Map::empty(),
                    workload_stats@,
                ),
                None => !old(self).write_histograms,
            },
    {
        let ghost before = self@;
        let mut current = LatencyTable::new();
        let mut i: usize = 0;
        assert(workload_stats@.take(0) =~= Seq::empty());
        assert(before.cycle_latency_ns + Seq::<u64>::empty() =~= before.cycle_latency_ns);
        assert(before.request_latency_ns + Seq::<u64>::empty() =~= before.request_latency_ns);
        while i < workload_stats.len()
            invariant
                i <= workload_stats.len(),
                before == old(self)@,
                self.start_time_ns == old(self).start_time_ns,
                self.cycle_count == old(self).cycle_count,
                self.request_count == old(self).request_count,
                self.request_retry_count == old(self).request_retry_count,
                self.request_error_count == old(self).request_error_count,
                self.errors == old(self).errors,
                self.cycle_error_count == old(self).cycle_error_count,
                self.row_count == old(self).row_count,
                self.log == old(self).log,
                self.rate_limit_bits == old(self).rate_limit_bits,
                self.concurrency_limit == old(self).concurrency_limit,
                self.keep_log == old(self).keep_log,
                self.write_histograms == old(self).write_histograms,
                self.cycle_latency_ns@ == before.cycle_latency_ns + all_call_latencies(
                    workload_stats@.take(i as int),
                ),
                self.request_latency_ns@ == before.request_latency_ns + all_request_latencies(
                    workload_stats@.take(i as int),
                ),
                self.cycle_latency_by_fn@ == with_workers(
                    before.cycle_latency_by_fn,
                    workload_stats@.take(i as int),
                ),
                self.write_histograms ==> current@ == with_workers(
                    Map::empty(),
                    workload_stats@.take(i as int),
                ),
            decreases workload_stats.len() - i,
        {
            let s = &workload_stats[i];
            append_latencies(&mut self.request_latency_ns, &s.session_stats.resp_times_ns);
            append_call_latencies(&mut self.cycle_latency_ns, &s.function_stats);
            self.cycle_latency_by_fn.add_functions(&s.function_stats);
            if self.write_histograms {
                current.add_functions(&s.function_stats);
            }
            proof {
                let head = workload_stats@.take(i as int);
                assert(workload_stats@.take(i + 1).drop_last() =~= head);
                let more = s.session_stats.resp_times_ns@;
                assert((before.request_latency_ns + all_request_latencies(head)) + more
                    =~= before.request_latency_ns + (all_request_latencies(head) + more));
                let calls = call_latencies(s.function_stats@);
                assert((before.cycle_latency_ns + all_call_latencies(head)) + calls
                    =~= before.cycle_latency_ns + (all_call_latencies(head) + calls));
            }
            i += 1;
        }
        assert(workload_stats@.take(workload_stats@.len() as int) =~= workload_stats@);
        let sample = Sample::new(self.start_time_ns, workload_stats);
        self.cycle_count = self.cycle_count + sample.cycle_count;
        self.cycle_error_count = self.cycle_error_count + sample.cycle_error_count;
        self.request_count = self.request_count + sample.request_count;
        self.request_retry_count = self.request_retry_count + sample.req_retry_count;
        self.request_error_count = self.request_error_count + sample.req_error_count;
        self.row_count = self.row_count + sample.row_count;
        if self.errors.len() < MAX_KEPT_ERRORS {
            self.errors.extend(&sample.req_errors);
        }
        let ghost pushed = sample@;
        if !self.keep_log {
            self.log = Vec::new();
            assert(sample_models(self.log@) =~= Seq::empty());
        }
        let ghost log = sample_models(self.log@);
        self.log.push(sample);
        assert(sample_models(self.log@) =~= log.push(pushed));
        if self.write_histograms {
            Some(current)
        } else {
            None
        }
    }

    /// Stops the recording, computes the statistics and returns them as the new object.
    pub fn finish(self, measured: Measurements) -> (r: BenchmarkStats)
        ensures
            r@ == self@.finished(measured),
            texts(r.errors@).no_duplicates(),
    {
        let log = if self.keep_log {
            self.log
        } else {
            let none: Vec<Sample> = Vec::new();
            assert(sample_models(none@) =~= Seq::empty());
            none
        };
        BenchmarkStats {
            cycle_count: self.cycle_count,
            request_count: self.request_count,
            requests_per_cycle: Ratio {
                numerator: self.request_count,
                denominator: self.cycle_count,
            },
            request_retry_count: self.request_retry_count,
            request_retry_per_request: not_nan(self.request_retry_count, self.request_count),
            errors: self.errors.to_vec(),
            error_count: self.cycle_error_count,
            errors_ratio: not_nan(self.cycle_error_count, self.cycle_count),
            row_count: self.row_count,
            row_count_per_req: not_nan(self.row_count, self.request_count),
            cycle_throughput: measured.cycle_throughput,
            cycle_throughput_ratio: match self.rate_limit_bits {
                Some(bits) => Some(
                    Percentage {
                        value_bits: measured.cycle_throughput.value_bits,
                        level: Level::Rate(bits),
                    },
                ),
                None => None,
            },
            req_throughput: measured.req_throughput,
            row_throughput: measured.row_throughput,
            cycle_latency_ns: self.cycle_latency_ns,
            cycle_latency_by_fn: self.cycle_latency_by_fn,
            request_latency: if self.request_count > 0 {
                Some(measured.request_latency)
            } else {
                None
            },
            concurrency: measured.concurrency,
            concurrency_ratio: Percentage {
                value_bits: measured.concurrency.value_bits,
                level: Level::Count(self.concurrency_limit),
            },
            log,
        }
    }
}

/// The state after samples were recorded, one after the other.
pub open spec fn recorded_all(recorder: RecorderView, samples: Seq<Seq<WorkloadStats>>) -> RecorderView
    decreases samples.len(),
{
    if samples.len() == 0 {
        recorder
    } else {
        recorded_all(recorder, samples.drop_last()).recorded(samples.last())
    }
}

/// What the workers did in all samples.
pub open spec fn joined(samples: Seq<Seq<WorkloadStats>>) -> Seq<WorkloadStats>
    decreases samples.len(),
{
    if samples.len() == 0 {
        Seq::empty()
    } else {
        joined(samples.drop_last()) + samples.last()
    }
}

/// The samples of a run, each of its own group of workers.
pub open spec fn samples_of(
    start_time_ns: u64,
    samples: Seq<Seq<WorkloadStats>>,
) -> Seq<SampleView> {
    Seq::new(samples.len(), |i: int| sample_of(start_time_ns, samples[i]))
}

/// The totals of a run are those of all that the workers did, however it was cut into samples.
/// With the log kept it holds the sample of each group in order, and without it that of the last.
pub proof fn totals_are_sums(recorder: RecorderView, samples: Seq<Seq<WorkloadStats>>)
    ensures
        ({
            let after = recorded_all(recorder, samples);
            let all = joined(samples);
            let log = samples_of(recorder.start_time_ns, samples);
            &&& after.cycle_count == recorder.cycle_count + sum_by(all, cycles())
            &&& after.cycle_error_count == recorder.cycle_error_count + sum_by(
                all,
                function_errors(),
            )
            &&& after.request_count == recorder.request_count + sum_by(all, requests())
            &&& after.request_retry_count == recorder.request_retry_count + sum_by(all, retries())
            &&& after.request_error_count == recorder.request_error_count + sum_by(
                all,
                request_errors(),
            )
            &&& after.row_count == recorder.row_count + sum_by(all, rows())
            &&& after.keep_log == recorder.keep_log
            &&& after.start_time_ns == recorder.start_time_ns
            &&& recorder.keep_log ==> after.log == recorder.log + log
            &&& !recorder.keep_log && samples.len() > 0 ==> after.log == seq![log.last()]
        }),
    decreases samples.len(),
{
    let log = samples_of(recorder.start_time_ns, samples);
    if samples.len() > 0 {
        let head = samples.drop_last();
        totals_are_sums(recorder, head);
        lemma_sum_concat(joined(head), samples.last(), cycles());
        lemma_sum_concat(joined(head), samples.last(), function_errors());
        lemma_sum_concat(joined(head), samples.last(), requests());
        lemma_sum_concat(joined(head), samples.last(), retries());
        lemma_sum_concat(joined(head), samples.last(), request_errors());
        lemma_sum_concat(joined(head), samples.last(), rows());
        let before = samples_of(recorder.start_time_ns, head);
        assert(log =~= before.push(log.last()));
        assert((recorder.log + before).push(log.last()) =~= recorder.log + log);
        assert(Seq::<SampleView>::empty().push(log.last()) =~= seq![log.last()]);
    } else {
        assert(recorder.log + log =~= recorder.log);
    }
}

/// The limits are only reference levels: two runs that were started with other limits and then
/// recorded and measured the same are finished with statistics that agree on everything but the
/// two ratios. Those are the percentages of the limits that were measured.
pub proof fn limits_are_reference_levels(
    start_time_ns: u64,
    rate_limit_bits: Option<u64>,
    concurrency_limit: usize,
    other_rate_limit_bits: Option<u64>,
    other_concurrency_limit: usize,
    keep_log: bool,
    write_histograms: bool,
    samples: Seq<Seq<WorkloadStats>>,
    measured: Measurements,
)
    ensures
        ({
            let one = RecorderView::started(
                start_time_ns,
                rate_limit_bits,
                concurrency_limit,
                keep_log,
                write_histograms,
            );
            let other = RecorderView::started(
                start_time_ns,
                other_rate_limit_bits,
                other_concurrency_limit,
                keep_log,
                write_histograms,
            );
            recorded_all(one, samples).finished(measured) == (BenchmarkStatsView {
                cycle_throughput_ratio: of_rate(measured.cycle_throughput, rate_limit_bits),
                concurrency_ratio: of_limit(measured.concurrency, concurrency_limit),
                ..recorded_all(other, samples).finished(measured)
            })
        }),
{
    lemma_limits_are_kept(
        RecorderView::started(
            start_time_ns,
            other_rate_limit_bits,
            other_concurrency_limit,
            keep_log,
            write_histograms,
        ),
        rate_limit_bits,
        concurrency_limit,
        samples,
    );
}

/// Recording goes on the same with other limits.
proof fn lemma_limits_are_kept(
    recorder: RecorderView,
    rate_limit_bits: Option<u64>,
    concurrency_limit: usize,
    samples: Seq<Seq<WorkloadStats>>,
)
    ensures
        recorded_all(
            RecorderView { rate_limit_bits, concurrency_limit, ..recorder },
            samples,
        ) == (RecorderView {
            rate_limit_bits,
            concurrency_limit,
            ..recorded_all(recorder, samples)
        }),
    decreases samples.len(),
{
    if samples.len() > 0 {
        lemma_limits_are_kept(recorder, rate_limit_bits, concurrency_limit, samples.drop_last());
    }
}

/// Stores the statistics of one or two test runs.
/// If the second run is given, enables comparisons between the runs.
pub struct BenchmarkCmp<'a> {
    pub v1: &'a BenchmarkStats,
    pub v2: Option<&'a BenchmarkStats>,
}

/// The means of both runs, if there are two runs and both have one.
pub open spec fn both_means(first: Option<Mean>, second: Option<Mean>) -> Option<(Mean, Mean)> {
    match (first, second) {
        (Some(a), Some(b)) => Some((a, b)),
        _ => None,
    }
}

impl BenchmarkStats {
    /// The mean response time, where there were requests.
    pub open spec fn resp_time(self) -> Option<Mean> {
        match self.request_latency {
            Some(latency) => Some(latency.mean),
            None => None,
        }
    }

    /// A percentile of the response time, where there were requests.
    pub open spec fn resp_time_percentile(self, p: usize) -> Option<Mean> {
        match self.request_latency {
            Some(latency) => Some(latency.percentiles@[p as int]),
            None => None,
        }
    }
}

impl BenchmarkCmp<'_> {
    /// Tells the call throughput means of two benchmark runs.
    /// Returns None if the second benchmark is unset.
    pub fn cmp_cycle_throughput(&self) -> (r: Option<(Mean, Mean)>)
        ensures
            r == (match self.v2 {
                Some(v2) => Some((self.v1.cycle_throughput, v2.cycle_throughput)),
                None => None,
            }),
    {
        match self.v2 {
            Some(v2) => Some((self.v1.cycle_throughput, v2.cycle_throughput)),
            None => None,
        }
    }

    /// Tells the request throughput means of two benchmark runs.
    /// Returns None if the second benchmark is unset.
    pub fn cmp_req_throughput(&self) -> (r: Option<(Mean, Mean)>)
        ensures
            r == (match self.v2 {
                Some(v2) => Some((self.v1.req_throughput, v2.req_throughput)),
                None => None,
            }),
    {
        match self.v2 {
            Some(v2) => Some((self.v1.req_throughput, v2.req_throughput)),
            None => None,
        }
    }

    /// Tells the row throughput means of two benchmark runs.
    /// Returns None if the second benchmark is unset.
    pub fn cmp_row_throughput(&self) -> (r: Option<(Mean, Mean)>)
        ensures
            r == (match self.v2 {
                Some(v2) => Some((self.v1.row_throughput, v2.row_throughput)),
                None => None,
            }),
    {
        match self.v2 {
            Some(v2) => Some((self.v1.row_throughput, v2.row_throughput)),
            None => None,
        }
    }

    /// Tells the mean response times of two benchmark runs.
    /// Returns None if the second benchmark is unset, or one of them made no request.
    pub fn cmp_mean_resp_time(&self) -> (r: Option<(Mean, Mean)>)
        ensures
            r == (match self.v2 {
                Some(v2) => both_means(self.v1.resp_time(), v2.resp_time()),
                None => None,
            }),
    {
        match self.v2 {
            Some(v2) => match (&self.v1.request_latency, &v2.request_latency) {
                (Some(a), Some(b)) => Some((a.mean, b.mean)),
                _ => None,
            },
            None => None,
        }
    }

    /// Tells corresponding response time percentiles of two benchmark runs.
    /// Returns None if the second benchmark is unset, or one of them made no request.
    pub fn cmp_resp_time_percentile(&self, p: usize) -> (r: Option<(Mean, Mean)>)
        requires
            self.v1.request_latency matches Some(latency) ==> p < latency.percentiles@.len(),
            self.v2 matches Some(v2) ==> (v2.request_latency matches Some(latency) ==> p
                < latency.percentiles@.len()),
        ensures
            r == (match self.v2 {
                Some(v2) => both_means(
                    self.v1.resp_time_percentile(p),
                    v2.resp_time_percentile(p),
                ),
                None => None,
            }),
    {
        match self.v2 {
            Some(v2) => match (&self.v1.request_latency, &v2.request_latency) {
                (Some(a), Some(b)) => Some((a.percentiles[p], b.percentiles[p])),
                _ => None,
            },
            None => None,
        }
    }
}

/// The tag of a function is its name behind four characters that mark it, and a name can be part of
/// a tag where it has no comma, no space and no end of a line.
pub proof fn tags_end_with_the_name(name: Seq<char>)
    ensures
        histogram_tag(name).len() == 4 + name.len(),
        histogram_tag(name).take(4) == seq!['f', 'n', '-', '-'],
        histogram_tag(name).skip(4) == name,
        taggable(name) <==> !name.contains(',') && !name.contains(' ') && !name.contains('\r')
            && !name.contains('\n'),
{
    reveal_strlit("fn--");
    assert(histogram_tag(name).take(4) =~= seq!['f', 'n', '-', '-']);
    assert(histogram_tag(name).skip(4) =~= name);
    if !name.contains(',') && !name.contains(' ') && !name.contains('\r') && !name.contains('\n') {
        assert forall|i: int| 0 <= i < name.len() implies (#[trigger] name[i]) != ',' && name[i]
            != '\r' && name[i] != '\n' && name[i] != ' ' by {
            assert(name.contains(name[i]));
        }
    }
}

/// Two runs are compared by the same mean or percentile of both, where both made requests.
pub proof fn runs_are_compared_by_the_same_percentile(
    first: BenchmarkStats,
    second: BenchmarkStats,
    p: usize,
)
    ensures
        both_means(first.resp_time(), second.resp_time()) == (
        if first.request_latency is Some && second.request_latency is Some {
            Some((first.request_latency->Some_0.mean, second.request_latency->Some_0.mean))
        } else {
            None
        }),
        both_means(first.resp_time_percentile(p), second.resp_time_percentile(p)) == (
        if first.request_latency is Some && second.request_latency is Some {
            Some(
                (
                    first.request_latency->Some_0.percentiles@[p as int],
                    second.request_latency->Some_0.percentiles@[p as int],
                ),
            )
        } else {
            None
        }),
{
}

} // verus!
