use latte::attempt::Attempt;
use latte::config::{RetryInterval, ValidationStrategy};
use latte::cql::cass_error::{CassError, CassErrorKind, QueryInfo};
use latte::cql::column::{ColumnSpec, ColumnType, NativeType};
use latte::cql::connect::{connected, preference, tls_context, Preference, TlsConf, TlsStep};
use latte::cql::context::{
    cassandra_version_step, scylla_version_step, BatchEvent, BatchExecution, BatchNext, BatchStep,
    ClusterInfo, Context, FirstRow, Lookup, VersionReply, VersionStep,
};
use latte::cql::cql_value::CqlValue;
use latte::cql::execution::{Execution, Next, Page, PageData, PageEvent, Request, Step};
use latte::cql::statement::{
    is_select_count_query, is_select_query, PreparedStatement, StatementTable,
};
use latte::stats::session::{RequestOutcome, SessionStats};
use latte::value::{Value, ValueKind};

fn retry_interval() -> RetryInterval {
    RetryInterval { min_ns: 1, max_ns: 2 }
}

fn context(has_session: bool) -> Context {
    Context::new(
        has_session,
        5000,
        "dc1".to_string(),
        "r1".to_string(),
        2,
        retry_interval(),
        ValidationStrategy::Retry,
    )
}

fn int_column(name: &str) -> ColumnSpec {
    ColumnSpec { name: name.to_string(), typ: ColumnType::Native(NativeType::Int) }
}

fn statement(cql: &str) -> PreparedStatement {
    PreparedStatement { cql: cql.to_string(), specs: vec![int_column("id")] }
}

fn no_session() -> CassError {
    CassError(CassErrorKind::Error("'session' is not defined".to_string()))
}

fn retries_exceeded() -> CassError {
    CassError::query_retries_exceeded(2)
}

fn page(rows: u64, last: bool) -> Page {
    Page {
        duration_ns: 10,
        rows_num: Some(rows),
        data: Err("no rows".to_string()),
        count: Err("no count".to_string()),
        last,
    }
}

fn nothing() -> Value {
    Value::Vec(vec![])
}

fn execution(request: &Request, cql: &str, strategy: ValidationStrategy) -> Execution {
    match Execution::begin(request, &statement(cql), 2, strategy) {
        Attempt::Done(execution) => execution,
        other => panic!("{:?}", other),
    }
}

fn validated(min: u64, max: u64) -> Request {
    context(true).execute_with_validation("q", min, max, "custom").unwrap()
}

fn started() -> SessionStats {
    let mut stats = SessionStats::new();
    stats.start_request();
    stats
}

#[test]
fn statements_that_return_rows_are_recognised() {
    assert!(is_select_query("SELECT * FROM t"));
    assert!(is_select_query(" \n\tselect x FROM t"));
    assert!(!is_select_query("selection"));
    assert!(!is_select_query("INSERT INTO t SELECT"));
    assert!(!is_select_query(""));
    assert!(is_select_count_query("SELECT COUNT(*) FROM t"));
    assert!(is_select_count_query("  select  count ( id ) from t"));
    assert!(!is_select_count_query("SELECT id, count(*) FROM t"));
    assert!(!is_select_count_query("SELECT counter FROM t"));
}

#[test]
fn statements_are_kept_under_their_keys() {
    let mut table = StatementTable::new();
    assert_eq!(table.get("a"), None);
    table.insert("a", statement("one"));
    table.insert("b", statement("two"));
    table.insert("a", statement("three"));
    assert_eq!(table.get("a"), Some(&statement("three")));
    assert_eq!(table.get("b"), Some(&statement("two")));
    assert_eq!(table.duplicate().get("a"), Some(&statement("three")));
}

#[test]
fn what_needs_a_session_fails_without_one() {
    let mut c = context(false);
    assert_eq!(c.cluster_info(), Err(no_session()));
    assert_eq!(c.get_datacenters(&vec![]), Err(no_session()));
    assert_eq!(c.prepare_page_size(), Err(no_session()));
    assert_eq!(c.prepare("k", "q", Ok(vec![])), Err(no_session()));
    assert_eq!(c.look_up(&c.execute("q")), Err(no_session()));
    assert_eq!(
        c.batch_prepared(&vec!["k".to_string()], &vec![nothing()]),
        Attempt::Failed(CassError(CassErrorKind::PreparedStatementNotFound("k".to_string())))
    );
    assert_eq!(
        c.signal_failure("stop"),
        Err(CassError(CassErrorKind::CustomError("stop".to_string())))
    );
}

#[test]
fn prepared_statements_are_looked_up() {
    let mut c = context(true);
    assert_eq!(c.prepare_page_size(), Ok(5000));
    assert_eq!(
        c.prepare("k", "q", Err("bad".to_string())),
        Err(CassError(CassErrorKind::Prepare("q".to_string(), "bad".to_string())))
    );
    let request = c.execute_prepared("k", Value::Vec(vec![Value::Integer(1)]));
    assert_eq!(
        c.look_up(&request),
        Err(CassError(CassErrorKind::PreparedStatementNotFound("k".to_string())))
    );
    assert_eq!(c.prepare("k", "q", Ok(vec![int_column("id")])), Ok(()));
    assert_eq!(c.look_up(&request), Ok(Lookup::Registered));
    assert_eq!(c.statements.get("k"), Some(&statement("q")));
    assert_eq!(
        c.look_up(&c.execute_with_result("q2")),
        Ok(Lookup::Prepare { cql: "q2".to_string(), page_size: 5000 })
    );
    let mut both = c.execute("q2");
    both.key = Some("k".to_string());
    let message = "Either 'cql' or 'key' is allowed, not both".to_string();
    assert_eq!(c.look_up(&both), Err(CassError(CassErrorKind::Error(message))));
}

#[test]
fn ad_hoc_statements_are_not_prepared() {
    let c = context(true);
    let unprepared = || Ok(Lookup::Unprepared { cql: "q".to_string(), page_size: 5000 });
    assert_eq!(c.look_up(&c.execute("q")), unprepared());
    assert_eq!(c.look_up(&c.execute_with_validation("q", 1, 2, "m").unwrap()), unprepared());
    let mut with_params = c.execute("q");
    with_params.params = Some(nothing());
    assert_eq!(
        c.look_up(&with_params),
        Ok(Lookup::Prepare { cql: "q".to_string(), page_size: 5000 })
    );
}

#[test]
fn a_page_size_keeps_its_last_32_bits() {
    let mut c = context(true);
    c.page_size = 0x1_8000_0001;
    assert_eq!(c.prepare_page_size(), Ok(-2147483647));
}

#[test]
fn a_clone_gets_fresh_statistics() {
    let mut c = context(true);
    c.prepare("k", "q", Ok(vec![int_column("id")])).unwrap();
    c.stats.start_request();
    c.stats.complete_request(5, None, RequestOutcome::Rows(3));
    let copy = c.clone(Value::Integer(1));
    assert_eq!(copy.stats, SessionStats::new());
    assert_eq!(copy.statements, c.statements);
    assert_eq!(copy.data, Value::Integer(1));
    assert_eq!(copy.preferred_datacenter, "dc1");
    assert_eq!(copy.preferred_rack, "r1");
}

#[test]
fn taking_the_statistics_resets_them() {
    let mut c = context(true);
    c.stats.start_request();
    c.stats.start_request();
    c.stats.complete_request(5, None, RequestOutcome::Rows(3));
    let taken = c.take_session_stats();
    assert_eq!((taken.req_count, taken.row_count, taken.queue_length), (1, 3, 1));
    assert_eq!((c.stats.req_count, c.stats.row_count, c.stats.queue_length), (0, 0, 1));
    c.reset();
    assert_eq!(c.stats.queue_length, 1);
}

#[test]
fn datacenters_are_listed_once_and_in_order() {
    let nodes: Vec<Option<String>> =
        vec![Some("west".to_string()), None, Some("east".to_string()), Some("west".to_string())];
    assert_eq!(
        context(true).get_datacenters(&nodes),
        Ok(vec!["east".to_string(), "west".to_string()])
    );
}

#[test]
fn versions_are_told_apart() {
    assert!(context(true).cluster_info().is_ok());
    assert_eq!(
        scylla_version_step(VersionReply::Failed("no table".to_string())),
        VersionStep::AskCassandra
    );
    assert_eq!(
        scylla_version_step(VersionReply::NoRows("none".to_string())),
        VersionStep::Failed(CassError(CassErrorKind::Error("none".to_string())))
    );
    assert_eq!(
        scylla_version_step(VersionReply::Rows(FirstRow::Texts("6.2".into(), "abc".into()))),
        VersionStep::Known(Some(ClusterInfo {
            name: "".to_string(),
            db_version: "ScyllaDB 6.2 with build-id abc".to_string()
        }))
    );
    assert_eq!(
        cassandra_version_step(VersionReply::Rows(FirstRow::Texts("c".into(), "5.0".into()))),
        VersionStep::Known(Some(ClusterInfo {
            name: "c".to_string(),
            db_version: "Cassandra 5.0".to_string()
        }))
    );
    assert_eq!(
        cassandra_version_step(VersionReply::Failed("down".to_string())),
        VersionStep::Unknown(CassError(CassErrorKind::QueryExecution(
            QueryInfo {
                cql: "SELECT cluster_name, release_version FROM system.local".to_string(),
                params: vec![]
            },
            "down".to_string()
        )))
    );
    assert_eq!(
        cassandra_version_step(VersionReply::NoRows("none".to_string())),
        VersionStep::Failed(CassError(CassErrorKind::Error("none".to_string())))
    );
    for row in [FirstRow::OtherTypes, FirstRow::Missing] {
        assert_eq!(cassandra_version_step(VersionReply::Rows(row)), VersionStep::Known(None));
    }
    assert_eq!(
        scylla_version_step(VersionReply::Rows(FirstRow::Missing)),
        VersionStep::Known(None)
    );
}

#[test]
fn an_expectation_has_to_be_possible() {
    let message =
        "Expected 'minimum' (2) of rows number cannot be less than 'maximum' (1)".to_string();
    let c = context(true);
    assert_eq!(
        c.execute_with_validation("q", 2, 1, "m"),
        Err(CassError(CassErrorKind::Error(message.clone())))
    );
    assert_eq!(
        c.execute_prepared_with_validation("k", nothing(), 2, 1, "m"),
        Err(CassError(CassErrorKind::Error(message)))
    );
    let request = c.execute_prepared_with_validation("k", nothing(), 1, 1, "m").unwrap();
    assert_eq!(request.expected_rows, Some((1, 1)));
    assert_eq!(request.custom_err_msg, Some("m".to_string()));
}

#[test]
fn rows_can_be_checked_of_a_select_only() {
    assert_eq!(
        Execution::begin(&validated(1, 1), &statement("DELETE"), 2, ValidationStrategy::Retry),
        Attempt::Failed(CassError(CassErrorKind::QueryResponseValidationNotApplicable(
            QueryInfo { cql: "DELETE".to_string(), params: vec![] }
        )))
    );
    let mut request = validated(1, 1);
    request.with_result = true;
    assert_eq!(
        Execution::begin(&request, &statement("SELECT 1"), 2, ValidationStrategy::Retry),
        Attempt::Failed(CassError(CassErrorKind::Error(
            "Row count validation and rows data processing are not supported together".to_string()
        )))
    );
    let mut c = context(true);
    c.prepare("k", "q", Ok(vec![int_column("id")])).unwrap();
    let request = c.execute_prepared("k", Value::Integer(1));
    assert_eq!(
        c.begin(&request, vec![]),
        Attempt::Failed(CassError(CassErrorKind::InvalidQueryParamsObject(ValueKind::Integer)))
    );
}

#[test]
fn prepared_statements_are_executed() {
    let mut c = context(true);
    c.prepare("k", "SELECT a", Ok(vec![int_column("id")])).unwrap();
    c.prepare("other", "SELECT b", Ok(vec![])).unwrap();
    let request = c.execute_prepared("k", Value::Tuple(vec![Value::Integer(7)]));
    match c.begin(&request, vec![]) {
        Attempt::Done(execution) => {
            assert_eq!(execution.cql, "SELECT a");
            assert_eq!(execution.params, vec![CqlValue::Int(7)]);
        }
        other => panic!("{:?}", other),
    }
    // The last statement under a key counts.
    c.prepare("k", "SELECT c", Ok(vec![])).unwrap();
    assert_eq!(
        c.begin(&request, vec![int_column("id")]),
        Attempt::Failed(CassError(CassErrorKind::InvalidNumberOfQueryParams))
    );
    let request = c.execute_prepared("none", nothing());
    assert_eq!(
        c.begin(&request, vec![]),
        Attempt::Failed(CassError(CassErrorKind::PreparedStatementNotFound("none".to_string())))
    );
    assert_eq!(context(false).begin(&request, vec![]), Attempt::Failed(no_session()));
    let mut both = c.execute("SELECT d");
    match c.begin(&both, vec![]) {
        Attempt::Done(execution) => {
            assert_eq!(execution.cql, "SELECT d");
            assert_eq!(execution.params, vec![]);
        }
        other => panic!("{:?}", other),
    }
    both.key = Some("k".to_string());
    assert_eq!(
        c.begin(&both, vec![]),
        Attempt::Failed(CassError(CassErrorKind::Error(
            "Either 'cql' or 'key' is allowed, not both".to_string()
        )))
    );
}

#[test]
fn whether_rows_are_counted_is_decided_beforehand() {
    let open = |select, count| {
        Execution::open(
            &validated(1, 1),
            &statement("q"),
            2,
            ValidationStrategy::Retry,
            select,
            count,
        )
    };
    assert!(matches!(open(false, true), Attempt::Failed(_)));
    match open(true, true) {
        Attempt::Done(execution) => assert!(execution.is_count),
        other => panic!("{:?}", other),
    }
}

#[test]
fn pages_add_up() {
    let mut stats = started();
    let mut e = execution(&validated(5, 5), "SELECT", ValidationStrategy::FailFast);
    assert_eq!(e.step(&mut stats, PageEvent::Arrived(page(2, false))), Step::NextPage);
    assert_eq!(stats.req_count, 0);
    assert_eq!(e.step(&mut stats, PageEvent::Arrived(page(3, true))), Step::Finished(nothing()));
    assert_eq!((stats.req_count, stats.row_count), (1, 5));
    assert_eq!(stats.resp_times_ns, vec![20]);
    assert_eq!(stats.queue_length, 0);
}

#[test]
fn a_failing_page_is_tried_again_and_given_up() {
    let mut stats = started();
    let mut e = execution(&context(true).execute("q"), "q", ValidationStrategy::Retry);
    let error = || {
        CassError(CassErrorKind::QueryExecution(
            QueryInfo { cql: "q".to_string(), params: vec![] },
            "down".to_string(),
        ))
    };
    let down = || PageEvent::Failed("down".to_string());
    for attempt in 0..2 {
        assert_eq!(
            e.step(&mut stats, down()),
            Step::Report { attempt, error: error(), next: Next::SamePage }
        );
    }
    assert_eq!(
        e.step(&mut stats, down()),
        Step::Report { attempt: 2, error: error(), next: Next::GiveUp(retries_exceeded()) }
    );
    assert_eq!(stats.req_count, 0);
}

#[test]
fn attempts_are_counted_for_each_page() {
    let mut stats = started();
    let mut e = execution(&context(true).execute("q"), "q", ValidationStrategy::Retry);
    e.step(&mut stats, PageEvent::Failed("down".to_string()));
    assert_eq!(e.attempt, 1);
    assert_eq!(e.step(&mut stats, PageEvent::Arrived(page(1, false))), Step::NextPage);
    assert_eq!(e.attempt, 0);
}

#[test]
fn unexpected_rows_are_answered_as_asked() {
    let error = |rows_cnt| {
        CassError(CassErrorKind::QueryResponseValidation {
            query: QueryInfo { cql: "SELECT".to_string(), params: vec![] },
            rows_min: 2,
            rows_max: 3,
            rows_cnt,
            message: "custom".to_string(),
        })
    };
    let mut stats = started();
    let mut e = execution(&validated(2, 3), "SELECT", ValidationStrategy::FailFast);
    assert_eq!(e.step(&mut stats, PageEvent::Arrived(page(1, true))), Step::Failed(error(1)));
    let mut stats = started();
    let mut e = execution(&validated(2, 3), "SELECT", ValidationStrategy::Ignore);
    assert_eq!(
        e.step(&mut stats, PageEvent::Arrived(page(4, true))),
        Step::Report { attempt: 0, error: error(4), next: Next::Finish(nothing()) }
    );
    let mut stats = started();
    let mut e = execution(&validated(2, 3), "SELECT", ValidationStrategy::Retry);
    assert_eq!(
        e.step(&mut stats, PageEvent::Arrived(page(1, true))),
        Step::Report { attempt: 0, error: error(1), next: Next::FirstPage }
    );
    // The rows of the attempt before do not count.
    stats.start_request();
    assert_eq!(e.step(&mut stats, PageEvent::Arrived(page(3, true))), Step::Finished(nothing()));
}

#[test]
fn all_pages_are_counted_again() {
    let mut stats = started();
    let mut e = execution(&validated(1, 2), "SELECT", ValidationStrategy::Retry);
    let arrive = |e: &mut Execution, stats: &mut SessionStats, rows, last| {
        stats.start_request();
        e.step(stats, PageEvent::Arrived(page(rows, last)))
    };
    // Five rows on two pages are too many, and as many as that again are too many again.
    for attempt in 0..3 {
        assert_eq!(arrive(&mut e, &mut stats, 3, false), Step::NextPage);
        match arrive(&mut e, &mut stats, 2, true) {
            Step::Report { attempt: reported, error, next } => {
                assert_eq!(reported, attempt);
                assert!(matches!(
                    error.0,
                    CassErrorKind::QueryResponseValidation { rows_cnt: 5, .. }
                ));
                if attempt < 2 {
                    assert_eq!(next, Next::FirstPage);
                } else {
                    assert_eq!(next, Next::GiveUp(retries_exceeded()));
                }
            }
            other => panic!("{:?}", other),
        }
        assert_eq!(e.rows_num, 0);
    }
    // Where fewer rows come the second time, they are accepted.
    let mut e = execution(&validated(1, 2), "SELECT", ValidationStrategy::Retry);
    assert_eq!(arrive(&mut e, &mut stats, 3, false), Step::NextPage);
    assert!(matches!(
        arrive(&mut e, &mut stats, 2, true),
        Step::Report { next: Next::FirstPage, .. }
    ));
    assert_eq!(arrive(&mut e, &mut stats, 1, false), Step::NextPage);
    assert_eq!(arrive(&mut e, &mut stats, 1, true), Step::Finished(nothing()));
}

#[test]
fn attempts_at_a_page_and_at_its_rows_count_together() {
    let mut stats = started();
    let mut e = execution(&validated(2, 3), "SELECT", ValidationStrategy::Retry);
    e.step(&mut stats, PageEvent::Failed("down".to_string()));
    assert!(matches!(
        e.step(&mut stats, PageEvent::Arrived(page(1, true))),
        Step::Report { attempt: 1, next: Next::FirstPage, .. }
    ));
    assert_eq!((e.attempt, e.pass), (2, 2));
    stats.start_request();
    assert!(matches!(
        e.step(&mut stats, PageEvent::Arrived(page(1, true))),
        Step::Report { attempt: 2, next: Next::GiveUp(_), .. }
    ));
}

#[test]
fn a_count_is_taken_from_its_only_row() {
    let counted = |count: Result<i64, String>, rows| {
        let mut stats = started();
        let mut e =
            execution(&validated(7, 9), "SELECT count(*) FROM t", ValidationStrategy::FailFast);
        let mut page = page(rows, true);
        page.count = count;
        e.step(&mut stats, PageEvent::Arrived(page))
    };
    assert_eq!(counted(Ok(8), 1), Step::Finished(nothing()));
    assert!(matches!(counted(Ok(8), 2), Step::Failed(_)));
    assert!(matches!(counted(Ok(6), 1), Step::Failed(_)));
    assert!(matches!(counted(Ok(-1), 1), Step::Failed(_)));
    assert_eq!(
        counted(Err("no number".to_string()), 1),
        Step::Failed(CassError(CassErrorKind::Error("no number".to_string())))
    );
}

#[test]
fn rows_are_returned_as_objects() {
    let mut stats = started();
    let request = context(true).execute_with_result("SELECT");
    let mut e = execution(&request, "SELECT", ValidationStrategy::Retry);
    let mut first = page(0, false);
    first.data = Ok(PageData {
        columns: vec!["a".to_string(), "b".to_string()],
        rows: vec![Some(vec![Some(CqlValue::Int(1)), None])],
    });
    let mut second = page(0, true);
    second.data = Ok(PageData {
        columns: vec!["a".to_string()],
        rows: vec![
            Some(vec![Some(CqlValue::Int(2)), Some(CqlValue::Boolean(true))]),
            None,
            Some(vec![Some(CqlValue::Int(3))]),
        ],
    });
    assert_eq!(e.step(&mut stats, PageEvent::Arrived(first)), Step::NextPage);
    assert_eq!(
        e.step(&mut stats, PageEvent::Arrived(second)),
        Step::Finished(Value::Vec(vec![
            Value::Object(vec![
                ("a".to_string(), Value::Integer(1)),
                ("b".to_string(), Value::Option(None)),
            ]),
            Value::Object(vec![
                ("a".to_string(), Value::Integer(2)),
                ("unknown".to_string(), Value::Bool(true)),
            ]),
        ]))
    );
    assert_eq!(stats.row_count, 2);
}

#[test]
fn rows_that_cannot_be_read_are_an_error() {
    let mut stats = started();
    let request = context(true).execute_prepared_with_result("k", nothing());
    let mut e = execution(&request, "SELECT", ValidationStrategy::Retry);
    assert_eq!(
        e.step(&mut stats, PageEvent::Arrived(page(1, true))),
        Step::Failed(CassError(CassErrorKind::Error("no rows".to_string())))
    );
    let mut bad = page(0, true);
    bad.data = Ok(PageData {
        columns: vec![],
        rows: vec![Some(vec![Some(CqlValue::Decimal { mantissa: vec![1], scale: 99 })])],
    });
    assert_eq!(e.step(&mut stats, PageEvent::Arrived(bad)), Step::Refused);
}

#[test]
fn batches_bind_every_statement() {
    let mut c = context(true);
    c.prepare("a", "qa", Ok(vec![int_column("x")])).unwrap();
    c.prepare("b", "qb", Ok(vec![int_column("x"), int_column("y")])).unwrap();
    let keys = vec!["a".to_string(), "b".to_string()];
    let ints = |v: &[i64]| Value::Tuple(v.iter().map(|i| Value::Integer(*i)).collect());
    assert_eq!(
        c.batch_prepared(&keys, &vec![ints(&[1]), ints(&[2, 3])]),
        Attempt::Done(BatchExecution {
            values: vec![vec![CqlValue::Int(1)], vec![CqlValue::Int(2), CqlValue::Int(3)]],
            retry_number: 2,
            attempt: 0,
        })
    );
    assert_eq!(
        c.batch_prepared(&keys, &vec![ints(&[1]), ints(&[2])]),
        Attempt::Failed(CassError(CassErrorKind::InvalidNumberOfQueryParams))
    );
    assert_eq!(
        c.batch_prepared(&keys, &vec![ints(&[1])]),
        Attempt::Failed(CassError(CassErrorKind::Error(
            "Number of prepared statements (2) and values (1) must be equal".to_string()
        )))
    );
    assert_eq!(
        c.batch_prepared(&vec![], &vec![]),
        Attempt::Failed(CassError(CassErrorKind::Error("Empty batch".to_string())))
    );
    c.has_session = false;
    assert_eq!(
        c.batch_prepared(&keys, &vec![ints(&[1]), ints(&[2, 3])]),
        Attempt::Failed(no_session())
    );
}

#[test]
fn batches_are_tried_again_and_given_up() {
    let mut stats = started();
    let mut batch = BatchExecution { values: vec![vec![], vec![]], retry_number: 2, attempt: 0 };
    let error =
        || CassError(CassErrorKind::Error("batch execution failed: down".to_string()));
    let down = || BatchEvent::Failed("down".to_string());
    for attempt in 0..2 {
        assert_eq!(
            batch.step(&mut stats, down()),
            BatchStep::Report { attempt, error: error(), next: BatchNext::Again }
        );
    }
    assert_eq!(
        batch.step(&mut stats, down()),
        BatchStep::Report { attempt: 2, error: error(), next: BatchNext::GiveUp(retries_exceeded()) }
    );
    assert_eq!(
        batch.step(&mut stats, BatchEvent::Executed { duration_ns: 4 }),
        BatchStep::Finished
    );
    assert_eq!((stats.req_count, stats.row_count), (1, 2));
}

#[test]
fn errors_tell_how_many_attempts_were_made() {
    assert_eq!(
        retries_exceeded(),
        CassError(CassErrorKind::QueryRetriesExceeded(
            "Max retry attempts (2) reached".to_string()
        ))
    );
}

#[test]
fn a_connection_is_encrypted_if_asked_for() {
    let mut conf = TlsConf {
        ssl: false,
        ssl_ca_cert_file: Some("ca".to_string()),
        ssl_cert_file: None,
        ssl_key_file: Some("key".to_string()),
        ssl_peer_verification: true,
    };
    assert_eq!(tls_context(&conf), None);
    conf.ssl = true;
    assert_eq!(
        tls_context(&conf),
        Some(vec![
            TlsStep::CaFile("ca".to_string()),
            TlsStep::PrivateKeyFile("key".to_string()),
            TlsStep::VerifyPeer,
        ])
    );
    conf.ssl_cert_file = Some("cert".to_string());
    conf.ssl_peer_verification = false;
    assert_eq!(
        tls_context(&conf),
        Some(vec![
            TlsStep::CaFile("ca".to_string()),
            TlsStep::CertificateFile("cert".to_string()),
            TlsStep::PrivateKeyFile("key".to_string()),
        ])
    );
}

#[test]
fn near_nodes_are_preferred() {
    let dc = Some("dc".to_string());
    let rack = Some("rack".to_string());
    assert_eq!(preference(&None, &None), Preference::Nowhere);
    assert_eq!(preference(&dc, &None), Preference::Datacenter("dc".to_string()));
    assert_eq!(
        preference(&dc, &rack),
        Preference::DatacenterAndRack("dc".to_string(), "rack".to_string())
    );
}

#[test]
fn a_session_makes_a_context() {
    let connect = |session| {
        connected(
            session,
            vec!["h1".to_string(), "h2".to_string()],
            &Some("dc".to_string()),
            &None,
            100,
            3,
            retry_interval(),
            ValidationStrategy::Ignore,
        )
    };
    let c = connect(Ok(())).unwrap();
    assert!(c.has_session);
    assert_eq!((c.page_size, c.retry_number), (100, 3));
    assert_eq!((c.preferred_datacenter.as_str(), c.preferred_rack.as_str()), ("dc", ""));
    assert_eq!((c.load_cycle_count, &c.data), (0, &Value::Object(vec![])));
    assert_eq!(
        connect(Err("refused".to_string())),
        Err(CassError(CassErrorKind::FailedToConnect(
            vec!["h1".to_string(), "h2".to_string()],
            "refused".to_string()
        )))
    );
}
