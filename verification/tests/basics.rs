use latte::config::{
    align_right, Config, RetryInterval, ValidationStrategy, Workload, DEFAULT_REPORT_PATH,
};
use latte::cql::cql_types::{clamp, to_i16, to_i32, to_i8, to_string, Int16, Int32, Int8};
use latte::cql::wire::{
    be_i64, be_u128, be_u64, i128_be_bytes, i64_be_bytes, read_cql_bytes, read_int, read_n_bytes,
    read_vint,
};
use latte::executor::{action_duration, round, row_count, Pacer, Slot};
use latte::numeral::{is_float, parse_i64};
use latte::terminal::{is, Stream, Terminals};
use latte::text::{i64_text, same_text, u128_text, u64_text};
use latte::text_order::{insert_sorted, is_before};
use latte::value::{get_entry, insert_entry, Float, Value, ValueKind};

#[test]
fn integers_that_fit_are_converted() {
    assert_eq!(to_i8(127), Some(Int8(127)));
    assert_eq!(to_i8(-129), None);
    assert_eq!(to_i16(-32768), Some(Int16(-32768)));
    assert_eq!(to_i16(32768), None);
    assert_eq!(to_i32(2147483647), Some(Int32(2147483647)));
    assert_eq!(to_i32(-2147483649), None);
    assert_eq!(to_string(-15), "-15");
}

#[test]
fn clamped_values_stay_inside() {
    assert_eq!(clamp(5, 0, 10), 5);
    assert_eq!(clamp(-5, 0, 10), 0);
    assert_eq!(clamp(50, 0, 10), 10);
}

#[test]
fn numerals_are_written_and_read() {
    for i in [0, 1, -1, 10, -10, i64::MAX, i64::MIN] {
        assert_eq!(i64_text(i), i.to_string());
        assert_eq!(parse_i64(&i.to_string()), Some(i));
    }
    assert_eq!(u64_text(u64::MAX), u64::MAX.to_string());
    assert_eq!(u128_text(u128::MAX), u128::MAX.to_string());
}

#[test]
fn numerals_are_recognised_like_by_the_standard_library() {
    for text in [
        "", "+", "-", "0", "+0", "-0", "007", "1_0", " 1", "1 ", "9223372036854775807",
        "9223372036854775808", "-9223372036854775808", "-9223372036854775809", "+-1", "0x1", "１",
        "1.", ".1", ".", "1.5", "1e", "1e5", "1E+5", "1e-5", "e5", ".e5", "1.e5", "inf", "-inf",
        "+Infinity", "NaN", "-nan", "infin", "1e5.5", "--1", "1f", "00.00", "+.5", "-5.", "nan1",
        "INF", "iNfInItY", "1e1000", "1e+", "1..2", "1e5e5",
    ] {
        assert_eq!(parse_i64(text), text.parse::<i64>().ok(), "{text:?}");
        assert_eq!(is_float(text), text.parse::<f64>().is_ok(), "{text:?}");
    }
}

#[test]
fn texts_are_compared_and_sorted() {
    assert!(same_text("ab", "ab"));
    assert!(!same_text("ab", "abc"));
    for (a, b) in [("a", "b"), ("a", "ab"), ("", "a"), ("B", "a"), ("z", "ż")] {
        assert!(a < b);
        assert!(is_before(a, b));
        assert!(!is_before(b, a));
    }
    assert!(!is_before("a", "a"));
    let mut items = Vec::new();
    for text in ["m", "z", "a", "m"] {
        insert_sorted(&mut items, text.to_string());
    }
    assert_eq!(items, vec!["a", "m", "z"]);
}

#[test]
fn entries_have_distinct_names() {
    let mut entries = Vec::new();
    insert_entry(&mut entries, "a".to_string(), Value::Integer(1));
    insert_entry(&mut entries, "b".to_string(), Value::Integer(2));
    insert_entry(&mut entries, "a".to_string(), Value::Integer(3));
    assert_eq!(
        entries,
        vec![("a".to_string(), Value::Integer(3)), ("b".to_string(), Value::Integer(2))]
    );
    assert_eq!(get_entry(&entries, &"b".to_string()), Some(1));
    assert_eq!(get_entry(&entries, &"c".to_string()), None);
}

#[test]
fn values_are_copied_deeply() {
    let value = Value::Object(vec![
        ("a".to_string(), Value::Vec(vec![Value::Byte(1), Value::Bytes(vec![2])])),
        ("b".to_string(), Value::Option(Some(Box::new(Value::Float(Float::Rounded(Box::new(
            Float::Double(5),
        ))))))),
        ("c".to_string(), Value::Tuple(vec![Value::Uuid(7), Value::Any("x".to_string())])),
        ("d".to_string(), Value::Struct(vec![("e".to_string(), Value::Other("y".to_string()))])),
    ]);
    assert_eq!(value.duplicate(), value);
    assert_eq!(value.kind(), ValueKind::Object);
    assert_eq!(Value::Option(None).kind(), ValueKind::Option);
}

#[test]
fn numbers_are_read_and_written_in_network_order() {
    assert_eq!(be_u64(&[1, 2, 3]), 0x010203);
    assert_eq!(be_u128(&[255; 16]), u128::MAX);
    assert_eq!(be_i64(&[255, 254]), -2);
    assert_eq!(i64_be_bytes(-2), (-2i64).to_be_bytes().to_vec());
    assert_eq!(i128_be_bytes(i128::MIN), i128::MIN.to_be_bytes().to_vec());
}

#[test]
fn values_are_split_off_their_lengths() {
    assert_eq!(read_int(&[255, 255, 255, 254, 9]), Some((-2, &[9u8][..])));
    assert_eq!(read_int(&[0, 0, 0]), None);
    assert_eq!(read_cql_bytes(&[0, 0, 0, 1, 7, 8]), Some((Some(&[7u8][..]), &[8u8][..])));
    assert_eq!(read_cql_bytes(&[255, 255, 255, 255, 8]), Some((None, &[8u8][..])));
    assert_eq!(read_cql_bytes(&[0, 0, 0, 2, 7]), None);
    assert_eq!(read_n_bytes(&[1, 2, 3], 2), Some((Some(&[1u8, 2][..]), &[3u8][..])));
    assert_eq!(read_n_bytes(&[], 2), Some((None, &[][..])));
    assert_eq!(read_n_bytes(&[1], 2), None);
    assert_eq!(read_vint(&[0x7f, 1]), Some((0x7f, &[1u8][..])));
    assert_eq!(read_vint(&[0x81, 2, 3]), Some((0x102, &[3u8][..])));
    assert_eq!(read_vint(&[0xff, 0, 0, 0, 0, 0, 0, 1, 0]), Some((256, &[][..])));
    assert_eq!(read_vint(&[0xc0, 1]), None);
    assert_eq!(read_vint(&[]), None);
}

fn config() -> Config {
    Config {
        keyspace: "latte".to_string(),
        warmup_count: 1,
        count: 1_000_000,
        rows: None,
        threads: 3,
        connections: 4,
        parallelism: 1024,
        label: None,
        output: None,
        workload: Workload::Read,
        addresses: vec!["localhost".to_string()],
    }
}

#[test]
fn the_settings_are_printed() {
    let mut conf = config();
    conf.label = Some("test".to_string());
    let lines = conf.print("noon", Some("12.5".to_string()), "1.0");
    assert_eq!(
        lines,
        vec![
            "CONFIG ===================================================================================",
            "               Time: noon",
            "              Label: test",
            "           Workload: read",
            "            Threads:         3",
            "  Total connections:        12",
            "         Rate limit:      12.5 req/s",
            "  Concurrency limit:      1024 req",
            "  Warmup iterations:         1 req",
            "Measured iterations:   1000000 req",
            "           Sampling:       1.0 s",
            "",
        ]
    );
    conf.label = None;
    conf.workload = Workload::Write;
    let lines = conf.print("noon", None, "1.0");
    assert_eq!(lines[2], "              Label: ");
    assert_eq!(lines[3], "           Workload: write");
    assert_eq!(lines[6], "         Rate limit:         - req/s");
}

#[test]
fn fields_are_aligned_to_the_right() {
    assert_eq!(align_right("ab", 4), format!("{:>4}", "ab"));
    assert_eq!(align_right("żółw", 5), format!("{:>5}", "żółw"));
    assert_eq!(align_right("long", 2), "long");
}

#[test]
fn the_report_goes_where_it_is_asked_for() {
    let mut conf = config();
    assert_eq!(conf.report_path(), DEFAULT_REPORT_PATH);
    conf.output = Some("out.json".to_string());
    assert_eq!(conf.report_path(), "out.json");
    assert_ne!(ValidationStrategy::Retry, ValidationStrategy::Ignore);
    assert_eq!(RetryInterval { min_ns: 1, max_ns: 2 }.max_ns, 2);
}

#[test]
fn durations_are_rounded_down_to_whole_periods() {
    assert_eq!(round(2_500_000, 1_000_000), 2_000_000);
    assert_eq!(round(999_999, 1_000_000), 0);
    assert_eq!(round(3_000_000, 1_000_000), 3_000_000);
    // Both count in whole microseconds.
    assert_eq!(round(10_999, 3_999), 9_000);
}

#[test]
fn actions_take_at_least_a_microsecond() {
    assert_eq!(action_duration(100, 100), 1000);
    assert_eq!(action_duration(100, 1100), 1000);
    assert_eq!(action_duration(100, 1101), 1001);
    assert_eq!(action_duration(100, 50), 1000);
    assert_eq!(action_duration(0, u64::MAX), u64::MAX);
}

#[test]
fn the_rows_default_to_the_requests() {
    assert_eq!(row_count(Some(7), 5), 7);
    assert_eq!(row_count(None, 5), 5);
}

#[test]
fn executions_are_handed_out_one_by_one() {
    let mut pacer = Pacer::new(3, 8, 1_000_000, 500);
    assert_eq!(
        pacer.next_slot(500, 8),
        Some(Slot { index: 0, concurrent_count: 0, sample_time_ns: None })
    );
    assert_eq!(
        pacer.next_slot(2_600_500, 5),
        Some(Slot { index: 1, concurrent_count: 3, sample_time_ns: Some(2_000_500) })
    );
    assert_eq!(
        pacer.next_slot(2_900_500, 0),
        Some(Slot { index: 2, concurrent_count: 8, sample_time_ns: None })
    );
    assert_eq!(pacer.next_slot(9_000_000, 8), None);
}

#[test]
fn streams_are_told_apart() {
    let terminals = Terminals { stdout: true, stderr: false, stdin: true };
    assert!(is(Stream::Stdout, terminals));
    assert!(!is(Stream::Stderr, terminals));
    assert!(is(Stream::Stdin, terminals));
}
