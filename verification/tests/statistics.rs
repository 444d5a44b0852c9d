use base64::engine::general_purpose::STANDARD;
use base64::Engine;
use flate2::write::ZlibEncoder;
use flate2::Compression;
use hdrhistogram::serialization::{Deserializer, Serializer, V2DeflateSerializer, V2Serializer};
use hdrhistogram::Histogram;
use latte::stats::histogram::{
    cut_short, find_lowest_number, not_base64, read_header, SerializableHistogram,
    NUMBER_TOO_LARGE,
};
use latte::stats::latency::{append_latencies, FunctionStats, LatencyTable};
use latte::stats::recorder::{
    not_nan, tag_of, BenchmarkCmp, BenchmarkStats, LatencyDistribution, Level, Mean, Measurements,
    Percentage, Ratio, Recorder,
};
use latte::stats::sample::{Sample, WorkloadStats, MAX_KEPT_ERRORS};
use latte::stats::session::{QueueObservation, RequestOutcome, SessionStats};
use latte::text_set::TextSet;
use std::io::Write;

fn function(name: &str, latencies: &[u64], errors: u64) -> FunctionStats {
    FunctionStats {
        name: name.to_string(),
        call_count: latencies.len() as u64,
        error_count: errors,
        call_latency_ns: latencies.to_vec(),
    }
}

/// What a worker did that made requests with so many rows each.
fn worker(start: u64, end: u64, rows: &[u64], functions: Vec<FunctionStats>) -> WorkloadStats {
    let mut session_stats = SessionStats::new();
    for n in rows {
        session_stats.start_request();
        session_stats.complete_request(100 + n, None, RequestOutcome::Rows(*n));
    }
    WorkloadStats {
        start_time_ns: start,
        end_time_ns: end,
        session_stats,
        function_stats: functions,
    }
}

fn failing_worker(errors: &[&str]) -> WorkloadStats {
    let mut w = worker(0, 1, &[], vec![]);
    for e in errors {
        w.session_stats.start_request();
        w.session_stats.complete_request(1, None, RequestOutcome::Failed(e.to_string()));
    }
    w
}

fn mean(value: f64) -> Mean {
    Mean { n: 1, value_bits: value.to_bits(), std_err_bits: None }
}

fn measurements(x: f64) -> Measurements {
    Measurements {
        cycle_throughput: mean(x),
        req_throughput: mean(x + 1.0),
        row_throughput: mean(x + 2.0),
        concurrency: mean(x + 3.0),
        request_latency: LatencyDistribution {
            mean: mean(x + 4.0),
            percentiles: vec![mean(x + 5.0), mean(x + 6.0)],
        },
    }
}

fn run(x: f64, rows: &[u64]) -> BenchmarkStats {
    let mut recorder = Recorder::start(0, None, 1, false, false);
    recorder.record(&vec![worker(0, 1, rows, vec![])]);
    recorder.finish(measurements(x))
}

#[test]
fn requests_are_counted() {
    let mut stats = SessionStats::default();
    assert_eq!(stats.start_request(), None);
    assert_eq!(stats.start_request(), None);
    assert_eq!(stats.queue_length, 2);
    stats.complete_request(7, None, RequestOutcome::Rows(3));
    stats.complete_request(8, Some(5), RequestOutcome::Rows(3));
    assert_eq!(
        stats.start_request(),
        Some(QueueObservation { queue_length: 0, req_count: 2 })
    );
    stats.complete_request(9, Some(1), RequestOutcome::NoRows);
    stats.start_request();
    stats.complete_request_batch(10, None, RequestOutcome::NoRows);
    assert_eq!((stats.req_count, stats.row_count, stats.queue_length), (4, 9, 0));
    assert_eq!(stats.resp_times_ns, vec![7, 8, 9, 10]);
    assert_eq!(stats.req_error_count, 0);
    assert_eq!(stats.duplicate(), stats);
}

#[test]
fn errors_are_counted_and_kept_once() {
    let w = failing_worker(&["a", "b", "a"]);
    assert_eq!(w.session_stats.req_count, 3);
    assert_eq!(w.session_stats.req_error_count, 3);
    assert_eq!(w.session_stats.req_errors.len(), 2);
    assert!(w.session_stats.req_errors.contains(&"b".to_string()));
}

#[test]
fn a_reset_keeps_the_requests_under_way() {
    let mut stats = SessionStats::new();
    stats.start_request();
    stats.start_request();
    stats.complete_request(1, None, RequestOutcome::Failed("e".to_string()));
    stats.store_retry_error("r".to_string());
    stats.reset();
    let mut expected = SessionStats::new();
    expected.queue_length = 1;
    assert_eq!(stats, expected);
    stats.complete_request(1, None, RequestOutcome::Rows(0));
    assert_eq!(stats.queue_length, 0);
}

#[test]
fn sets_of_texts_hold_each_text_once() {
    let mut set = TextSet::new();
    set.insert("b".to_string());
    set.insert("a".to_string());
    set.insert("b".to_string());
    assert_eq!(set.len(), 2);
    let mut other = TextSet::default();
    other.insert("c".to_string());
    other.insert("a".to_string());
    set.extend(&other);
    assert_eq!(set.len(), 3);
    assert!(set.contains(&"c".to_string()));
    assert!(!set.contains(&"d".to_string()));
    let mut texts = set.to_vec();
    texts.sort();
    assert_eq!(texts, vec!["a", "b", "c"]);
    set.clear();
    assert_eq!(set.len(), 0);
}

#[test]
fn latencies_are_kept_by_function() {
    let mut table = LatencyTable::new();
    table.add_functions(&vec![
        function("f", &[1, 2], 0),
        function("g", &[3], 0),
        function("f", &[4], 0),
    ]);
    assert_eq!(table.get(&"f".to_string()), Some(&vec![1, 2, 4]));
    assert_eq!(table.get(&"g".to_string()), Some(&vec![3]));
    assert_eq!(table.get(&"h".to_string()), None);
    let mut entries = table.into_entries();
    entries.sort();
    assert_eq!(entries, vec![("f".to_string(), vec![1, 2, 4]), ("g".to_string(), vec![3])]);
    let mut all = vec![1];
    append_latencies(&mut all, &vec![2, 3]);
    assert_eq!(all, vec![1, 2, 3]);
}

#[test]
fn a_sample_sums_up_its_workers() {
    // Three functions in two workers, with one, none and two errors.
    let sample = Sample::new(
        50,
        &vec![
            worker(150, 250, &[1, 2], vec![function("f", &[10, 20], 1), function("g", &[30], 0)]),
            worker(90, 290, &[4], vec![function("f", &[40], 2)]),
        ],
    );
    assert_eq!(sample.time_ns, 100);
    assert_eq!(sample.duration_sum_ns, 300);
    assert_eq!(sample.worker_count, 2);
    assert_eq!(sample.cycle_count, 4);
    assert_eq!(sample.cycle_error_count, 3);
    assert_eq!(sample.request_count, 3);
    assert_eq!(sample.row_count, 7);
    assert_eq!(sample.cycle_latency_ns, vec![10, 20, 30, 40]);
    assert_eq!(sample.request_latency_ns, vec![101, 102, 104]);
    assert_eq!(sample.cycle_latency_by_fn.get(&"f".to_string()), Some(&vec![10, 20, 40]));
}

#[test]
fn not_all_errors_are_kept() {
    let names: Vec<String> = (0..8).map(|i| format!("e{i}")).collect();
    let refs: Vec<&str> = names.iter().map(|s| s.as_str()).collect();
    let other: Vec<String> = (0..8).map(|i| format!("f{i}")).collect();
    let other_refs: Vec<&str> = other.iter().map(|s| s.as_str()).collect();
    let mut recorder = Recorder::start(0, None, 1, true, false);
    recorder.record(&vec![failing_worker(&refs)]);
    assert_eq!(recorder.errors.len(), 8);
    recorder.record(&vec![failing_worker(&other_refs)]);
    assert_eq!(recorder.errors.len(), 16);
    assert!(recorder.errors.len() >= MAX_KEPT_ERRORS);
    recorder.record(&vec![failing_worker(&["g"])]);
    assert_eq!(recorder.errors.len(), 16);
    assert_eq!(recorder.request_error_count, 17);
}

#[test]
fn totals_do_not_depend_on_the_samples() {
    let a = || worker(0, 10, &[1, 2], vec![function("f", &[1], 0)]);
    let b = || worker(0, 10, &[3], vec![function("g", &[2], 0)]);
    let mut together = Recorder::start(0, None, 4, true, false);
    together.record(&vec![a(), b()]);
    let mut apart = Recorder::start(0, None, 4, true, false);
    apart.record(&vec![a()]);
    apart.record(&vec![b()]);
    assert_eq!(together.cycle_count, apart.cycle_count);
    assert_eq!((together.request_count, apart.request_count), (3, 3));
    assert_eq!((together.row_count, apart.row_count), (6, 6));
    assert_eq!(together.cycle_latency_ns, apart.cycle_latency_ns);
    assert_eq!((together.log.len(), apart.log.len()), (1, 2));
}

#[test]
fn the_log_is_kept_if_asked_for() {
    let mut recorder = Recorder::start(0, None, 1, false, false);
    recorder.record(&vec![worker(0, 1, &[1], vec![])]);
    recorder.record(&vec![worker(5, 6, &[2], vec![])]);
    assert_eq!(recorder.log.len(), 1);
    assert_eq!(recorder.log[0].time_ns, 5);
    assert_eq!(recorder.finish(measurements(0.0)).log.len(), 0);
    let mut recorder = Recorder::start(0, None, 1, true, false);
    recorder.record(&vec![worker(0, 1, &[1], vec![])]);
    recorder.record(&vec![worker(0, 1, &[2], vec![])]);
    assert_eq!(recorder.finish(measurements(0.0)).log.len(), 2);
}

#[test]
fn histograms_of_a_sample_are_handed_out() {
    let mut recorder = Recorder::start(0, None, 1, false, true);
    recorder.record(&vec![worker(0, 1, &[], vec![function("f", &[1], 0)])]);
    let table = recorder.record(&vec![worker(0, 1, &[], vec![function("f", &[2], 0)])]).unwrap();
    assert_eq!(table.get(&"f".to_string()), Some(&vec![2]));
    assert_eq!(recorder.cycle_latency_by_fn.get(&"f".to_string()), Some(&vec![1, 2]));
    let mut recorder = Recorder::start(0, None, 1, false, false);
    assert_eq!(recorder.record(&vec![worker(0, 1, &[], vec![])]), None);
}

#[test]
fn tags_hold_no_separators() {
    assert_eq!(tag_of("run"), Some("fn--run".to_string()));
    assert_eq!(tag_of(""), Some("fn--".to_string()));
    for name in ["a,b", "a b", "a\nb", "\r"] {
        assert_eq!(tag_of(name), None);
    }
}

#[test]
fn a_finished_run_tells_its_statistics() {
    let mut recorder = Recorder::start(0, Some(50.0f64.to_bits()), 8, false, false);
    let mut w = worker(0, 1, &[5, 6], vec![function("f", &[1, 2, 3, 4], 1)]);
    w.session_stats.store_retry_error("r".to_string());
    recorder.record(&vec![w]);
    recorder.record(&vec![failing_worker(&["boom"])]);
    let stats = recorder.finish(measurements(1.0));
    assert_eq!(stats.cycle_count, 4);
    assert_eq!(stats.request_count, 3);
    assert_eq!(stats.requests_per_cycle, Ratio { numerator: 3, denominator: 4 });
    assert_eq!(stats.request_retry_count, 1);
    assert_eq!(stats.request_retry_per_request, Some(Ratio { numerator: 1, denominator: 3 }));
    assert_eq!(stats.errors, vec!["boom".to_string()]);
    assert_eq!(stats.error_count, 1);
    assert_eq!(stats.errors_ratio, Some(Ratio { numerator: 1, denominator: 4 }));
    assert_eq!(stats.row_count, 11);
    assert_eq!(stats.row_count_per_req, Some(Ratio { numerator: 11, denominator: 3 }));
    assert_eq!(stats.cycle_latency_ns, vec![1, 2, 3, 4]);
    assert_eq!(stats.concurrency_ratio.level, Level::Count(8));
    assert_eq!(stats.concurrency_ratio.value_bits, stats.concurrency.value_bits);
    assert_eq!(stats.cycle_throughput, mean(1.0));
    assert_eq!(
        stats.cycle_throughput_ratio,
        Some(Percentage {
            value_bits: 1.0f64.to_bits(),
            level: Level::Rate(50.0f64.to_bits())
        })
    );
    assert_eq!(stats.request_latency, Some(measurements(1.0).request_latency));
}

#[test]
fn a_run_without_requests_has_no_latency() {
    let stats = run(1.0, &[]);
    assert_eq!(stats.request_latency, None);
    assert_eq!(stats.row_count_per_req, None);
    assert_eq!(not_nan(0, 0), None);
    assert_eq!(not_nan(1, 0), Some(Ratio { numerator: 1, denominator: 0 }));
}

#[test]
fn two_runs_are_compared() {
    let (a, b, idle) = (run(1.0, &[1]), run(10.0, &[1]), run(20.0, &[]));
    let cmp = BenchmarkCmp { v1: &a, v2: Some(&b) };
    assert_eq!(cmp.cmp_cycle_throughput(), Some((mean(1.0), mean(10.0))));
    assert_eq!(cmp.cmp_req_throughput(), Some((mean(2.0), mean(11.0))));
    assert_eq!(cmp.cmp_row_throughput(), Some((mean(3.0), mean(12.0))));
    assert_eq!(cmp.cmp_mean_resp_time(), Some((mean(5.0), mean(14.0))));
    assert_eq!(cmp.cmp_resp_time_percentile(1), Some((mean(7.0), mean(16.0))));
    let alone = BenchmarkCmp { v1: &a, v2: None };
    assert_eq!(alone.cmp_cycle_throughput(), None);
    assert_eq!(alone.cmp_req_throughput(), None);
    assert_eq!(alone.cmp_row_throughput(), None);
    assert_eq!(alone.cmp_mean_resp_time(), None);
    assert_eq!(alone.cmp_resp_time_percentile(0), None);
    let with_idle = BenchmarkCmp { v1: &idle, v2: Some(&b) };
    assert_eq!(with_idle.cmp_mean_resp_time(), None);
    assert_eq!(with_idle.cmp_resp_time_percentile(0), None);
}

#[test]
fn stored_histograms_read_back() {
    let mut histogram = Histogram::<u64>::new(3).unwrap();
    for value in [1, 5, 5, 1000, 123_456_789] {
        histogram.record(value).unwrap();
    }
    let text = SerializableHistogram(histogram.clone()).serialize().unwrap();
    assert!(text.len() % 4 == 0);
    assert!(text.chars().all(|c| c.is_ascii_alphanumeric() || "+/=".contains(c)));
    let read = SerializableHistogram::deserialize(&text).unwrap();
    assert_eq!(read.0, histogram);
    let kept = |h: &Histogram<u64>| (h.low(), h.high(), h.sigfig());
    assert_eq!(kept(&read.0), kept(&histogram));
    assert!(histogram.is_auto_resize() && !read.0.is_auto_resize());
    let mut bounded = Histogram::<u64>::new_with_bounds(16, 70_000, 2).unwrap();
    bounded.record(12_345).unwrap();
    let text = SerializableHistogram(bounded.clone()).serialize().unwrap();
    let read = SerializableHistogram::deserialize(&text).unwrap();
    assert_eq!(read.0, bounded);
    assert_eq!(kept(&read.0), (16, 70_000, 2));
    let empty = Histogram::<u64>::new(3).unwrap();
    let text = SerializableHistogram(empty.clone()).serialize().unwrap();
    assert_eq!(SerializableHistogram::deserialize(&text).unwrap().0, empty);
}

#[test]
fn histograms_with_huge_counts_are_not_stored() {
    let mut histogram = Histogram::<u64>::new(3).unwrap();
    histogram.record_n(1, 1 << 62).unwrap();
    assert!(SerializableHistogram(histogram.clone()).serialize().is_some());
    histogram.record_n(1, 1 << 62).unwrap();
    assert!(SerializableHistogram(histogram).serialize().is_none());
}

#[test]
fn what_is_no_histogram_is_refused() {
    match SerializableHistogram::deserialize("!") {
        Err(e) => assert!(e.starts_with("Not a valid base64 value. ")),
        Ok(_) => panic!("a histogram"),
    }
    assert!(SerializableHistogram::deserialize("QUJD").is_err());
    assert_eq!(not_base64("why"), "Not a valid base64 value. why");
}

/// The bytes of a histogram without compression.
fn plain_histogram(histogram: &Histogram<u64>) -> Vec<u8> {
    let mut bytes = Vec::new();
    V2Serializer::new().serialize(histogram, &mut bytes).unwrap();
    bytes
}

/// A histogram whose counts are these bytes.
fn with_payload(payload: &[u8]) -> Vec<u8> {
    let mut bytes = plain_histogram(&Histogram::<u64>::new(3).unwrap());
    bytes.truncate(40);
    bytes[4..8].copy_from_slice(&(payload.len() as u32).to_be_bytes());
    bytes.extend_from_slice(payload);
    bytes
}

fn compressed(plain: &[u8]) -> Vec<u8> {
    let mut encoder = ZlibEncoder::new(Vec::new(), Compression::default());
    encoder.write_all(plain).unwrap();
    let stream = encoder.finish().unwrap();
    let mut bytes = vec![0x1c, 0x84, 0x93, 0x14];
    bytes.extend_from_slice(&(stream.len() as u32).to_be_bytes());
    bytes.extend_from_slice(&stream);
    bytes
}

fn read(bytes: &[u8]) -> Result<Histogram<u64>, String> {
    SerializableHistogram::deserialize(&STANDARD.encode(bytes)).map(|h| h.0)
}

#[test]
fn numbers_out_of_range_are_reported() {
    let lowest = with_payload(&[0xff; 9]);
    assert_eq!(find_lowest_number(&lowest), Some(40));
    assert_eq!(read(&lowest), Err(NUMBER_TOO_LARGE.to_string()));
    assert_eq!(read(&compressed(&lowest)), Err(NUMBER_TOO_LARGE.to_string()));
    // The same number behind another, and nine such bytes that belong to two numbers.
    let behind = with_payload(&[[0u8; 1].as_slice(), &[0xff; 9]].concat());
    assert_eq!(find_lowest_number(&behind), Some(41));
    assert_eq!(cut_short(&behind, 41), with_payload(&[0]));
    let mut astride = vec![0x80];
    astride.extend_from_slice(&[0xff; 15]);
    astride.push(0);
    assert_eq!(find_lowest_number(&with_payload(&astride)), None);
    assert_eq!(find_lowest_number(&with_payload(&[0xff; 8])), None);
    assert_eq!(find_lowest_number(&vec![]), None);
}

#[test]
fn what_is_wrong_first_is_told_first() {
    let plain = with_payload(&[0xff; 9]);
    // A header that cannot be read, and a number behind it that is out of range.
    for (at, byte) in [(8, 1), (14, 1), (15, 9), (23, 0), (32, 0)] {
        let mut bytes = plain.clone();
        bytes[at] = byte;
        assert_eq!(find_lowest_number(&bytes), Some(40));
        for bytes in [bytes.clone(), compressed(&bytes)] {
            let expected: Result<Histogram<u64>, String> =
                Deserializer::new().deserialize(&mut bytes.as_slice()).map_err(|e| e.to_string());
            assert!(expected.is_err());
            assert_eq!(read(&bytes), expected, "{:?}", bytes);
            assert_ne!(read(&bytes), Err(NUMBER_TOO_LARGE.to_string()));
        }
    }
    // A count behind more zeros than there is room for, before the number that is out of range.
    let zeros = [0xff, 0xff, 0xff, 0xff, 0x0f, 0x02];
    let bytes = with_payload(&[zeros.as_slice(), &[0xff; 9]].concat());
    assert_eq!(find_lowest_number(&bytes), Some(46));
    let expected: Result<Histogram<u64>, String> =
        Deserializer::new().deserialize(&mut bytes.as_slice()).map_err(|e| e.to_string());
    assert!(expected.is_err());
    assert_eq!(read(&bytes), expected);
    assert_eq!(read(&compressed(&bytes)), expected);
}

#[test]
fn histograms_are_read_as_the_deserializer_reads_them() {
    let mut histogram = Histogram::<u64>::new(3).unwrap();
    histogram.record_n(7, 1 << 40).unwrap();
    histogram.record_n(123_456, 3).unwrap();
    let plain = plain_histogram(&histogram);
    let mut stored = Vec::new();
    V2DeflateSerializer::new().serialize(&histogram, &mut stored).unwrap();
    let mut foreign = plain.clone();
    foreign[0] = 0;
    let mut other_ratio = plain.clone();
    other_ratio[32] = 0;
    let nested = compressed(&compressed(&plain));
    let mut corrupt = stored.clone();
    corrupt[12] ^= 0xff;
    let mut longer = stored.clone();
    longer.push(1);
    // Both of another kind or with bad parameters, and cut short or damaged.
    let mut noise: Vec<u8> = Vec::new();
    let mut state: u32 = 1;
    for _ in 0..200_000 {
        state = state.wrapping_mul(1_664_525).wrapping_add(1_013_904_223);
        noise.push((state >> 24) as u8 & 0x7f);
    }
    let long = with_payload(&noise);
    let mut long_foreign = long.clone();
    long_foreign[0] = 0;
    let mut bad_digits = long.clone();
    bad_digits[15] = 9;
    let mut spoilt: Vec<Vec<u8>> = Vec::new();
    for bytes in [&long, &long_foreign, &bad_digits] {
        let whole = compressed(bytes);
        spoilt.push(whole[..whole.len() - 1].to_vec());
        spoilt.push(whole[..whole.len() - 6].to_vec());
        spoilt.push(whole[..whole.len() / 2].to_vec());
        spoilt.push(whole[..30].to_vec());
        for at in [8, 20, whole.len() / 2, whole.len() - 1] {
            let mut damaged = whole.clone();
            damaged[at] ^= 0xff;
            spoilt.push(damaged);
        }
        spoilt.push(whole);
    }
    for bytes in &spoilt {
        let expected: Result<Histogram<u64>, String> =
            Deserializer::new().deserialize(&mut bytes.as_slice()).map_err(|e| e.to_string());
        assert_eq!(read(bytes), expected);
    }
    let cases: Vec<Vec<u8>> = vec![
        vec![],
        vec![1, 2, 3],
        plain[..20].to_vec(),
        plain[..41].to_vec(),
        stored[..6].to_vec(),
        stored[..20].to_vec(),
        compressed(&[]),
        compressed(&plain[..3]),
        compressed(&plain[..30]),
        compressed(&plain[..45]),
        compressed(&foreign),
        compressed(&other_ratio),
        with_payload(&[0x80]),
        with_payload(&[0xfe, 0xff, 0xff, 0xff, 0xff, 0xff, 0xff, 0xff, 0xff]),
        plain,
        stored,
        foreign,
        other_ratio,
        nested,
        corrupt,
        longer,
    ];
    for bytes in cases {
        let expected: Result<Histogram<u64>, String> =
            Deserializer::new().deserialize(&mut bytes.as_slice()).map_err(|e| e.to_string());
        assert_eq!(read(&bytes), expected, "{:?}", bytes);
    }
}

#[test]
fn headers_tell_the_size() {
    let plain = plain_histogram(&Histogram::<u64>::new(3).unwrap());
    assert_eq!(read_header(&plain), Some(plain.len() as u64));
    assert_eq!(read_header(&plain[..39].to_vec()), None);
    let mut foreign = plain;
    foreign[3] = 0;
    assert_eq!(read_header(&foreign), None);
}

#[test]
fn the_limits_of_a_run_change_nothing_but_the_ratios() {
    let run = |rate: Option<f64>, limit| {
        let mut recorder = Recorder::start(5, rate.map(f64::to_bits), limit, true, false);
        recorder.record(&vec![worker(7, 9, &[1, 2], vec![function("f", &[3], 1)])]);
        recorder.record(&vec![worker(8, 9, &[4], vec![function("g", &[], 2)])]);
        recorder.finish(measurements(1.0))
    };
    let one = run(None, 1);
    let mut other = run(Some(10.0), 100);
    assert_eq!(one.cycle_throughput_ratio, None);
    assert_eq!(one.concurrency_ratio.level, Level::Count(1));
    assert_eq!(
        other.cycle_throughput_ratio,
        Some(Percentage {
            value_bits: 1.0f64.to_bits(),
            level: Level::Rate(10.0f64.to_bits())
        })
    );
    assert_eq!(other.concurrency_ratio.level, Level::Count(100));
    assert_eq!(other.error_count, 3);
    assert_eq!(other.log.len(), 2);
    other.cycle_throughput_ratio = one.cycle_throughput_ratio;
    other.concurrency_ratio = one.concurrency_ratio;
    assert_eq!(one, other);
}
