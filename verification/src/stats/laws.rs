//! What samples and runs tell of what the workers did.
use vstd::prelude::*;

use super::latency::{with_functions, FunctionStats};
use super::recorder::{joined, recorded_all, Measurements, Ratio, RecorderView};
use super::sample::{all_call_latencies, all_errors, all_request_latencies, all_retry_errors};
use super::sample::{call_errors, call_latencies, calls, cycles, durations, function_errors};
use super::sample::{request_errors, requests, retries, rows};
use super::sample::{sample_of, with_workers, WorkloadStats};
use super::sums::{lemma_sum_same, sum_by};

verus! {

/// The response times of all requests of the workers, in order.
pub open spec fn response_times(stats: Seq<WorkloadStats>) -> Seq<u64> {
    stats.map_values(|w: WorkloadStats| w.session_stats.resp_times_ns@).flatten()
}

/// The functions that the workers called, in order.
pub open spec fn functions_of(stats: Seq<WorkloadStats>) -> Seq<FunctionStats> {
    stats.map_values(|w: WorkloadStats| w.function_stats@).flatten()
}

/// The latencies of all calls of functions, in order.
pub open spec fn latencies_of(functions: Seq<FunctionStats>) -> Seq<u64> {
    functions.map_values(|f: FunctionStats| f.call_latency_ns@).flatten()
}

/// The functions of a name.
pub open spec fn functions_named(functions: Seq<FunctionStats>, name: Seq<char>) -> Seq<
    FunctionStats,
> {
    functions.filter(|f: FunctionStats| f.name@ == name)
}

/// The latencies that a table holds under a name, none where it has no such name.
pub open spec fn latencies_under(table: Map<Seq<char>, Seq<u64>>, name: Seq<char>) -> Seq<u64> {
    if table.contains_key(name) {
        table[name]
    } else {
        Seq::empty()
    }
}

/// A sequence of sequences with one more at its end.
proof fn lemma_flatten_last<A>(items: Seq<Seq<A>>)
    requires
        items.len() > 0,
    ensures
        items.flatten() == items.drop_last().flatten() + items.last(),
{
    items.lemma_flatten_and_flatten_alt_are_equivalent();
    items.drop_last().lemma_flatten_and_flatten_alt_are_equivalent();
}

/// The latencies of calls are those of each function, one after the other.
proof fn lemma_call_latencies(functions: Seq<FunctionStats>)
    ensures
        call_latencies(functions) == latencies_of(functions),
    decreases functions.len(),
{
    let f = |f: FunctionStats| f.call_latency_ns@;
    if functions.len() > 0 {
        lemma_call_latencies(functions.drop_last());
        let all = functions.map_values(f);
        lemma_flatten_last(all);
        assert(all.drop_last() =~= functions.drop_last().map_values(f));
    } else {
        assert(functions.map_values(f) =~= Seq::empty());
    }
}

/// The latencies of two lists of functions are those of the first and then those of the second.
proof fn lemma_latencies_concat(a: Seq<FunctionStats>, b: Seq<FunctionStats>)
    ensures
        latencies_of(a + b) == latencies_of(a) + latencies_of(b),
    decreases b.len(),
{
    let f = |f: FunctionStats| f.call_latency_ns@;
    assert((a + b).map_values(f) =~= a.map_values(f) + b.map_values(f));
    vstd::seq_lib::lemma_flatten_concat(a.map_values(f), b.map_values(f));
}

/// The lists of all workers are those of each worker, one after the other.
proof fn lemma_worker_lists(stats: Seq<WorkloadStats>)
    ensures
        all_request_latencies(stats) == response_times(stats),
        all_call_latencies(stats) == latencies_of(functions_of(stats)),
    decreases stats.len(),
{
    let times = |w: WorkloadStats| w.session_stats.resp_times_ns@;
    let functions = |w: WorkloadStats| w.function_stats@;
    if stats.len() > 0 {
        let head = stats.drop_last();
        lemma_worker_lists(head);
        lemma_flatten_last(stats.map_values(times));
        lemma_flatten_last(stats.map_values(functions));
        assert(stats.map_values(times).drop_last() =~= head.map_values(times));
        assert(stats.map_values(functions).drop_last() =~= head.map_values(functions));
        lemma_call_latencies(stats.last().function_stats@);
        lemma_latencies_concat(functions_of(head), stats.last().function_stats@);
    } else {
        assert(stats.map_values(times) =~= Seq::empty());
        assert(stats.map_values(functions) =~= Seq::empty());
        assert(functions_of(stats) =~= Seq::empty());
        lemma_call_latencies(Seq::empty());
    }
}

/// A table of latencies after functions were added holds, under each name, what it held and then
/// the latencies of all functions of that name.
proof fn lemma_table_by_name(
    table: Map<Seq<char>, Seq<u64>>,
    functions: Seq<FunctionStats>,
    name: Seq<char>,
)
    ensures
        latencies_under(with_functions(table, functions), name) == latencies_under(table, name)
            + latencies_of(functions_named(functions, name)),
        with_functions(table, functions).contains_key(name) == (table.contains_key(name)
            || functions_named(functions, name).len() > 0),
    decreases functions.len(),
{
    let named = |f: FunctionStats| f.name@ == name;
    reveal(Seq::filter);
    if functions.len() > 0 {
        let head = functions.drop_last();
        let last = functions.last();
        lemma_table_by_name(table, head, name);
        let before = functions_named(head, name);
        if last.name@ == name {
            assert(functions_named(functions, name) == before.push(last));
            assert(before.push(last) =~= before + seq![last]);
            lemma_latencies_concat(before, seq![last]);
            lemma_call_latencies(seq![last]);
            assert(seq![last].drop_last() =~= Seq::empty());
            assert(call_latencies(seq![last]) =~= last.call_latency_ns@) by {
                assert(call_latencies(Seq::empty()) =~= Seq::empty());
            }
            assert(latencies_under(table, name) + latencies_of(before) + last.call_latency_ns@
                =~= latencies_under(table, name) + (latencies_of(before) + last.call_latency_ns@));
        } else {
            assert(functions_named(functions, name) == before);
        }
    } else {
        assert(functions_named(functions, name) =~= Seq::empty());
        lemma_call_latencies(Seq::empty());
        assert(latencies_under(table, name) + Seq::<u64>::empty() =~= latencies_under(table, name));
    }
}

/// Adding functions in two parts is adding all of them.
proof fn lemma_table_concat(
    table: Map<Seq<char>, Seq<u64>>,
    a: Seq<FunctionStats>,
    b: Seq<FunctionStats>,
)
    ensures
        with_functions(with_functions(table, a), b) == with_functions(table, a + b),
    decreases b.len(),
{
    if b.len() > 0 {
        lemma_table_concat(table, a, b.drop_last());
        assert((a + b).drop_last() =~= a + b.drop_last());
        assert((a + b).last() == b.last());
    } else {
        assert(a + b =~= a);
    }
}

/// Adding the workers is adding all their functions.
proof fn lemma_table_of_workers(table: Map<Seq<char>, Seq<u64>>, stats: Seq<WorkloadStats>)
    ensures
        with_workers(table, stats) == with_functions(table, functions_of(stats)),
    decreases stats.len(),
{
    let functions = |w: WorkloadStats| w.function_stats@;
    if stats.len() > 0 {
        let head = stats.drop_last();
        lemma_table_of_workers(table, head);
        lemma_flatten_last(stats.map_values(functions));
        assert(stats.map_values(functions).drop_last() =~= head.map_values(functions));
        lemma_table_concat(table, functions_of(head), stats.last().function_stats@);
    } else {
        assert(stats.map_values(functions) =~= Seq::empty());
        assert(functions_of(stats) =~= Seq::empty());
    }
}

/// A sample keeps every latency: the response times of all requests, the latencies of all calls,
/// and under each name the latencies of all calls of the functions of that name, all in order.
pub proof fn samples_keep_every_latency(
    base_start_time_ns: u64,
    stats: Seq<WorkloadStats>,
    name: Seq<char>,
)
    ensures
        ({
            let sample = sample_of(base_start_time_ns, stats);
            let of_name = functions_named(functions_of(stats), name);
            &&& sample.request_latency_ns == response_times(stats)
            &&& sample.cycle_latency_ns == latencies_of(functions_of(stats))
            &&& sample.cycle_latency_by_fn.contains_key(name) == (of_name.len() > 0)
            &&& latencies_under(sample.cycle_latency_by_fn, name) == latencies_of(of_name)
        }),
{
    lemma_worker_lists(stats);
    lemma_table_of_workers(Map::empty(), stats);
    lemma_table_by_name(Map::empty(), functions_of(stats), name);
    assert(Seq::<u64>::empty() + latencies_of(functions_named(functions_of(stats), name))
        =~= latencies_of(functions_named(functions_of(stats), name)));
}

/// The counters of a sample are the sums over all workers, and over all functions of each worker.
/// It begins with the first worker, and its duration is the sum of theirs.
pub proof fn samples_count_everything(base_start_time_ns: u64, stats: Seq<WorkloadStats>)
    requires
        stats.len() > 0,
    ensures
        ({
            let sample = sample_of(base_start_time_ns, stats);
            &&& sample.worker_count == stats.len()
            &&& sample.time_ns == (if stats[0].start_time_ns >= base_start_time_ns {
                stats[0].start_time_ns - base_start_time_ns
            } else {
                0
            })
            &&& sample.duration_sum_ns == sum_by(
                stats,
                |w: WorkloadStats|
                    (if w.end_time_ns >= w.start_time_ns {
                        w.end_time_ns - w.start_time_ns
                    } else {
                        0
                    }) as nat,
            )
            &&& sample.cycle_count == sum_by(
                stats,
                |w: WorkloadStats|
                    sum_by(w.function_stats@, |f: FunctionStats| f.call_count as nat),
            )
            &&& sample.cycle_error_count == sum_by(
                stats,
                |w: WorkloadStats|
                    sum_by(w.function_stats@, |f: FunctionStats| f.error_count as nat),
            )
            &&& sample.request_count == sum_by(
                stats,
                |w: WorkloadStats| w.session_stats.req_count as nat,
            )
            &&& sample.req_retry_count == sum_by(
                stats,
                |w: WorkloadStats| w.session_stats.req_retry_count as nat,
            )
            &&& sample.req_error_count == sum_by(
                stats,
                |w: WorkloadStats| w.session_stats.req_error_count as nat,
            )
            &&& sample.row_count == sum_by(
                stats,
                |w: WorkloadStats| w.session_stats.row_count as nat,
            )
        }),
{
    lemma_sums_inline(stats);
}

/// The sums over workers, with what is summed written out.
proof fn lemma_sums_inline(stats: Seq<WorkloadStats>)
    ensures
        sum_by(stats, durations()) == sum_by(
            stats,
            |w: WorkloadStats|
                (if w.end_time_ns >= w.start_time_ns {
                    w.end_time_ns - w.start_time_ns
                } else {
                    0
                }) as nat,
        ),
        sum_by(stats, cycles()) == sum_by(
            stats,
            |w: WorkloadStats| sum_by(w.function_stats@, |f: FunctionStats| f.call_count as nat),
        ),
        sum_by(stats, function_errors()) == sum_by(
            stats,
            |w: WorkloadStats| sum_by(w.function_stats@, |f: FunctionStats| f.error_count as nat),
        ),
        sum_by(stats, requests()) == sum_by(
            stats,
            |w: WorkloadStats| w.session_stats.req_count as nat,
        ),
        sum_by(stats, retries()) == sum_by(
            stats,
            |w: WorkloadStats| w.session_stats.req_retry_count as nat,
        ),
        sum_by(stats, request_errors()) == sum_by(
            stats,
            |w: WorkloadStats| w.session_stats.req_error_count as nat,
        ),
        sum_by(stats, rows()) == sum_by(
            stats,
            |w: WorkloadStats| w.session_stats.row_count as nat,
        ),
{
    let called = |f: FunctionStats| f.call_count as nat;
    let failed = |f: FunctionStats| f.error_count as nat;
    lemma_sum_same(
        stats,
        durations(),
        |w: WorkloadStats|
            (if w.end_time_ns >= w.start_time_ns {
                w.end_time_ns - w.start_time_ns
            } else {
                0
            }) as nat,
    );
    assert(calls() =~= called);
    assert(call_errors() =~= failed);
    lemma_sum_same(
        stats,
        cycles(),
        |w: WorkloadStats| sum_by(w.function_stats@, |f: FunctionStats| f.call_count as nat),
    );
    lemma_sum_same(
        stats,
        function_errors(),
        |w: WorkloadStats| sum_by(w.function_stats@, |f: FunctionStats| f.error_count as nat),
    );
    lemma_sum_same(stats, requests(), |w: WorkloadStats| w.session_stats.req_count as nat);
    lemma_sum_same(stats, retries(), |w: WorkloadStats| w.session_stats.req_retry_count as nat);
    lemma_sum_same(
        stats,
        request_errors(),
        |w: WorkloadStats| w.session_stats.req_error_count as nat,
    );
    lemma_sum_same(stats, rows(), |w: WorkloadStats| w.session_stats.row_count as nat);
}

/// The errors of one more worker are kept along with those before, as long as there are fewer than
/// ten; the first worker's are kept in any case. Of requests that were tried again, every error of
/// every worker is kept.
pub proof fn samples_keep_errors(
    base_start_time_ns: u64,
    stats: Seq<WorkloadStats>,
    worker: WorkloadStats,
    error: Seq<char>,
)
    ensures
        ({
            let before = sample_of(base_start_time_ns, stats);
            let after = sample_of(base_start_time_ns, stats.push(worker));
            &&& after.req_errors == (if stats.len() == 0 {
                worker.session_stats.req_errors@
            } else if before.req_errors.len() < 10 {
                before.req_errors.union(worker.session_stats.req_errors@)
            } else {
                before.req_errors
            })
            &&& before.req_retry_errors.contains(error) == (exists|k: int|
                0 <= k < stats.len() && (#[trigger] stats[k]).session_stats.req_retry_errors@.contains(
                    error,
                ))
        }),
{
    assert(stats.push(worker).drop_last() =~= stats);
    assert(stats.push(worker).last() == worker);
    assert(all_errors(stats.push(worker)) == super::sample::kept_errors(
        all_errors(stats),
        worker.session_stats.req_errors@,
    ));
    if stats.len() == 0 {
        assert(all_errors(stats) == Set::<Seq<char>>::empty());
        assert(Set::<Seq<char>>::empty().len() == 0);
        assert(Set::<Seq<char>>::empty().union(worker.session_stats.req_errors@)
            =~= worker.session_stats.req_errors@);
    }
    lemma_retry_errors(stats, error);
}

/// The errors of requests that were tried again are those of all workers.
proof fn lemma_retry_errors(stats: Seq<WorkloadStats>, error: Seq<char>)
    ensures
        all_retry_errors(stats).contains(error) == (exists|k: int|
            0 <= k < stats.len() && (#[trigger] stats[k]).session_stats.req_retry_errors@.contains(
                error,
            )),
    decreases stats.len(),
{
    if stats.len() > 0 {
        let head = stats.drop_last();
        lemma_retry_errors(head, error);
        assert forall|k: int| 0 <= k < head.len() implies head[k] == stats[k] by {}
        if all_retry_errors(head).contains(error) {
            let k = choose|k: int|
                0 <= k < head.len() && (
                #[trigger] head[k]).session_stats.req_retry_errors@.contains(error);
            assert(stats[k].session_stats.req_retry_errors@.contains(error));
        }
        if stats.last().session_stats.req_retry_errors@.contains(error) {
            assert(stats[stats.len() - 1].session_stats.req_retry_errors@.contains(error));
        }
        if exists|k: int|
            0 <= k < stats.len() && (
            #[trigger] stats[k]).session_stats.req_retry_errors@.contains(error) {
            let k = choose|k: int|
                0 <= k < stats.len() && (
                #[trigger] stats[k]).session_stats.req_retry_errors@.contains(error);
            if k < head.len() {
                assert(head[k].session_stats.req_retry_errors@.contains(error));
            }
        }
    }
}

/// What the workers did in all samples is what they did in each, one after the other.
proof fn lemma_joined(samples: Seq<Seq<WorkloadStats>>)
    ensures
        joined(samples) == samples.flatten(),
    decreases samples.len(),
{
    if samples.len() > 0 {
        lemma_joined(samples.drop_last());
        lemma_flatten_last(samples);
    }
}

/// The latencies of a run are those of all that was recorded: every response time and every
/// latency of a call that was there before, and then those of all samples, in order; and so for
/// the calls of each function. None is dropped and none is counted twice.
pub proof fn runs_keep_every_latency(
    recorder: RecorderView,
    samples: Seq<Seq<WorkloadStats>>,
    name: Seq<char>,
)
    ensures
        ({
            let after = recorded_all(recorder, samples);
            let all = samples.flatten();
            let of_name = functions_named(functions_of(all), name);
            &&& after.request_latency_ns == recorder.request_latency_ns + response_times(all)
            &&& after.request_latency_ns.len() == recorder.request_latency_ns.len() + sum_by(
                all,
                |w: WorkloadStats| w.session_stats.resp_times_ns@.len(),
            )
            &&& after.cycle_latency_ns == recorder.cycle_latency_ns + latencies_of(
                functions_of(all),
            )
            &&& after.cycle_latency_by_fn.contains_key(name) == (
            recorder.cycle_latency_by_fn.contains_key(name) || of_name.len() > 0)
            &&& latencies_under(after.cycle_latency_by_fn, name) == latencies_under(
                recorder.cycle_latency_by_fn,
                name,
            ) + latencies_of(of_name)
        }),
{
    let all = samples.flatten();
    lemma_joined(samples);
    lemma_recorded_latencies(recorder, samples);
    lemma_worker_lists(all);
    lemma_response_count(all);
    lemma_table_of_workers(recorder.cycle_latency_by_fn, all);
    lemma_table_by_name(recorder.cycle_latency_by_fn, functions_of(all), name);
}

/// There are as many response times as the workers have together.
proof fn lemma_response_count(stats: Seq<WorkloadStats>)
    ensures
        response_times(stats).len() == sum_by(
            stats,
            |w: WorkloadStats| w.session_stats.resp_times_ns@.len(),
        ),
    decreases stats.len(),
{
    let times = |w: WorkloadStats| w.session_stats.resp_times_ns@;
    if stats.len() > 0 {
        let head = stats.drop_last();
        lemma_response_count(head);
        lemma_flatten_last(stats.map_values(times));
        assert(stats.map_values(times).drop_last() =~= head.map_values(times));
    } else {
        assert(stats.map_values(times) =~= Seq::empty());
    }
}

/// The latencies of two groups of workers are those of the first and then those of the second.
proof fn lemma_workers_concat(
    table: Map<Seq<char>, Seq<u64>>,
    a: Seq<WorkloadStats>,
    b: Seq<WorkloadStats>,
)
    ensures
        all_request_latencies(a + b) == all_request_latencies(a) + all_request_latencies(b),
        all_call_latencies(a + b) == all_call_latencies(a) + all_call_latencies(b),
        with_workers(with_workers(table, a), b) == with_workers(table, a + b),
    decreases b.len(),
{
    if b.len() > 0 {
        let head = b.drop_last();
        lemma_workers_concat(table, a, head);
        assert((a + b).drop_last() =~= a + head);
        assert((a + b).last() == b.last());
        let times = b.last().session_stats.resp_times_ns@;
        let more = call_latencies(b.last().function_stats@);
        assert((all_request_latencies(a) + all_request_latencies(head)) + times
            =~= all_request_latencies(a) + (all_request_latencies(head) + times));
        assert((all_call_latencies(a) + all_call_latencies(head)) + more =~= all_call_latencies(a)
            + (all_call_latencies(head) + more));
    } else {
        assert(a + b =~= a);
        assert(all_request_latencies(a) + Seq::<u64>::empty() =~= all_request_latencies(a));
        assert(all_call_latencies(a) + Seq::<u64>::empty() =~= all_call_latencies(a));
    }
}

/// The latencies after samples were recorded.
proof fn lemma_recorded_latencies(recorder: RecorderView, samples: Seq<Seq<WorkloadStats>>)
    ensures
        ({
            let after = recorded_all(recorder, samples);
            let all = joined(samples);
            &&& after.request_latency_ns == recorder.request_latency_ns + all_request_latencies(
                all,
            )
            &&& after.cycle_latency_ns == recorder.cycle_latency_ns + all_call_latencies(all)
            &&& after.cycle_latency_by_fn == with_workers(recorder.cycle_latency_by_fn, all)
        }),
    decreases samples.len(),
{
    if samples.len() > 0 {
        let head = samples.drop_last();
        let last = samples.last();
        lemma_recorded_latencies(recorder, head);
        lemma_workers_concat(recorder.cycle_latency_by_fn, joined(head), last);
        assert((recorder.request_latency_ns + all_request_latencies(joined(head)))
            + all_request_latencies(last) =~= recorder.request_latency_ns + (all_request_latencies(
            joined(head),
        ) + all_request_latencies(last)));
        assert((recorder.cycle_latency_ns + all_call_latencies(joined(head)))
            + all_call_latencies(last) =~= recorder.cycle_latency_ns + (all_call_latencies(
            joined(head),
        ) + all_call_latencies(last)));
    } else {
        assert(recorder.request_latency_ns + Seq::<u64>::empty() =~= recorder.request_latency_ns);
        assert(recorder.cycle_latency_ns + Seq::<u64>::empty() =~= recorder.cycle_latency_ns);
    }
}

/// The counters of a run are what was there before and then the sums over all that the workers did
/// in all samples.
pub proof fn runs_count_everything(recorder: RecorderView, samples: Seq<Seq<WorkloadStats>>)
    ensures
        ({
            let after = recorded_all(recorder, samples);
            let all = samples.flatten();
            &&& after.cycle_count == recorder.cycle_count + sum_by(
                all,
                |w: WorkloadStats|
                    sum_by(w.function_stats@, |f: FunctionStats| f.call_count as nat),
            )
            &&& after.cycle_error_count == recorder.cycle_error_count + sum_by(
                all,
                |w: WorkloadStats|
                    sum_by(w.function_stats@, |f: FunctionStats| f.error_count as nat),
            )
            &&& after.request_count == recorder.request_count + sum_by(
                all,
                |w: WorkloadStats| w.session_stats.req_count as nat,
            )
            &&& after.request_retry_count == recorder.request_retry_count + sum_by(
                all,
                |w: WorkloadStats| w.session_stats.req_retry_count as nat,
            )
            &&& after.request_error_count == recorder.request_error_count + sum_by(
                all,
                |w: WorkloadStats| w.session_stats.req_error_count as nat,
            )
            &&& after.row_count == recorder.row_count + sum_by(
                all,
                |w: WorkloadStats| w.session_stats.row_count as nat,
            )
        }),
{
    lemma_joined(samples);
    super::recorder::totals_are_sums(recorder, samples);
    lemma_sums_inline(samples.flatten());
}

/// One more sample goes into the log as it is: after those before where the log is kept, and in
/// their place where it is not. The errors of the sample are kept along with those before, as long
/// as these are fewer than ten. The settings of the run stay as they are.
pub proof fn recording_keeps_samples_and_errors(
    recorder: RecorderView,
    stats: Seq<WorkloadStats>,
)
    ensures
        ({
            let sample = sample_of(recorder.start_time_ns, stats);
            let after = recorder.recorded(stats);
            &&& after.log == (if recorder.keep_log {
                recorder.log.push(sample)
            } else {
                seq![sample]
            })
            &&& after.errors == (if recorder.errors.len() < 10 {
                recorder.errors.union(sample.req_errors)
            } else {
                recorder.errors
            })
            &&& after.start_time_ns == recorder.start_time_ns
            &&& after.rate_limit_bits == recorder.rate_limit_bits
            &&& after.concurrency_limit == recorder.concurrency_limit
            &&& after.keep_log == recorder.keep_log
            &&& after.write_histograms == recorder.write_histograms
        }),
{
    assert(Seq::empty().push(sample_of(recorder.start_time_ns, stats)) =~= seq![
        sample_of(recorder.start_time_ns, stats),
    ]);
}

/// A run starts with nothing counted and nothing kept.
pub proof fn runs_start_empty(
    start_time_ns: u64,
    rate_limit_bits: Option<u64>,
    concurrency_limit: usize,
    keep_log: bool,
    write_histograms: bool,
)
    ensures
        ({
            let run = RecorderView::started(
                start_time_ns,
                rate_limit_bits,
                concurrency_limit,
                keep_log,
                write_histograms,
            );
            &&& run.cycle_count == 0 && run.cycle_error_count == 0
            &&& run.request_count == 0 && run.request_error_count == 0
            &&& run.request_retry_count == 0 && run.row_count == 0
            &&& run.request_latency_ns.len() == 0 && run.cycle_latency_ns.len() == 0
            &&& forall|name: Seq<char>| !run.cycle_latency_by_fn.contains_key(name)
            &&& forall|error: Seq<char>| !run.errors.contains(error)
            &&& run.log.len() == 0
            &&& run.start_time_ns == start_time_ns
            &&& run.rate_limit_bits == rate_limit_bits
            &&& run.concurrency_limit == concurrency_limit
            &&& run.keep_log == keep_log
            &&& run.write_histograms == write_histograms
        }),
{
}

/// The quotient of two counters, and nothing where both are zero.
pub open spec fn is_quotient(r: Option<Ratio>, numerator: nat, denominator: nat) -> bool {
    if numerator == 0 && denominator == 0 {
        r is None
    } else {
        r matches Some(q) && q.numerator == numerator && q.denominator == denominator
    }
}

/// A run is finished with what was recorded and measured: every counter, every latency, every
/// error and, where it is kept, the whole log. There is a latency of requests only where there
/// were requests.
pub proof fn finished_runs_tell_what_was_recorded(run: RecorderView, measured: Measurements)
    requires
        run.fits(),
    ensures
        ({
            let stats = run.finished(measured);
            &&& stats.cycle_count == run.cycle_count
            &&& stats.request_count == run.request_count
            &&& stats.request_retry_count == run.request_retry_count
            &&& stats.error_count == run.cycle_error_count
            &&& stats.row_count == run.row_count
            &&& stats.errors == run.errors
            &&& stats.requests_per_cycle.numerator == run.request_count
            &&& stats.requests_per_cycle.denominator == run.cycle_count
            &&& is_quotient(
                stats.request_retry_per_request,
                run.request_retry_count,
                run.request_count,
            )
            &&& is_quotient(stats.errors_ratio, run.cycle_error_count, run.cycle_count)
            &&& is_quotient(stats.row_count_per_req, run.row_count, run.request_count)
            &&& stats.cycle_throughput == measured.cycle_throughput
            &&& stats.req_throughput == measured.req_throughput
            &&& stats.row_throughput == measured.row_throughput
            &&& stats.concurrency == measured.concurrency
            &&& stats.cycle_latency_ns == run.cycle_latency_ns
            &&& stats.cycle_latency_by_fn == run.cycle_latency_by_fn
            &&& stats.request_latency == (if run.request_count > 0 {
                Some(measured.request_latency)
            } else {
                None
            })
            &&& stats.log == (if run.keep_log {
                run.log
            } else {
                Seq::empty()
            })
            &&& match run.rate_limit_bits {
                Some(bits) => stats.cycle_throughput_ratio matches Some(p) && p.value_bits
                    == measured.cycle_throughput.value_bits && p.level
                    == super::recorder::Level::Rate(bits),
                None => stats.cycle_throughput_ratio is None,
            }
            &&& stats.concurrency_ratio.value_bits == measured.concurrency.value_bits
            &&& stats.concurrency_ratio.level == super::recorder::Level::Count(
                run.concurrency_limit,
            )
        }),
{
}

} // verus!
