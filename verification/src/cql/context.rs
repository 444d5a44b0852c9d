//! The main object that a workload script uses to interface with the database.
use vstd::prelude::*;

use crate::attempt::{after, and_rest, comes_of_each, lemma_comes_of_first, Attempt};
use crate::attempt::{lemma_after_all, lemma_after_nothing, lemma_after_push};
use crate::config::{RetryInterval, ValidationStrategy};
use crate::stats::session::{RequestOutcome, SessionStats, SessionStatsView};
use crate::text::{nat_text, texts, u128_text, u64_text};
use crate::text_order::{insert_sorted, sorted};
use crate::value::{models, Value, ValueView};
use super::bind::{bind_params, bound_params};
use super::cass_error::{retries_exceeded_text, CassError, CassErrorKind, CassErrorView};
use super::cass_error::QueryInfoView;
use super::column::{spec_models, ColumnSpec, ColumnSpecView};
use super::cql_value::{cql_models, CqlValue, CqlValueView};
use super::execution::{Execution, ExecutionView, Request, RequestView};
use super::execution::{execution_outcome, opened};
use super::statement::{is_select, is_select_count, PreparedStatement, PreparedStatementView};
use super::statement::StatementTable;

verus! {

/// What is asked of a ScyllaDB cluster to learn its version.
pub const SCYLLA_VERSION_QUERY: &'static str = "SELECT version, build_id FROM system.versions";

/// What is asked of any other cluster to learn its version. It exists in ScyllaDB too, where it
/// tells a fixed version.
pub const CASSANDRA_VERSION_QUERY: &'static str =
    "SELECT cluster_name, release_version FROM system.local";

/// The name and the version of a cluster.
#[derive(Debug, PartialEq)]
pub struct ClusterInfo {
    pub name: String,
    pub db_version: String,
}

/// The first row of the answer to a question about the version.
#[derive(Debug, PartialEq)]
pub enum FirstRow {
    /// Its two texts.
    Texts(String, String),
    /// The columns are not two texts.
    OtherTypes,
    /// There is none that can be read.
    Missing,
}

/// The answer to a question about the version.
#[derive(Debug, PartialEq)]
pub enum VersionReply {
    /// The query failed, and why.
    Failed(String),
    /// The answer holds no rows, and why.
    NoRows(String),
    Rows(FirstRow),
}

/// What follows from an answer.
#[derive(Debug, PartialEq)]
pub enum VersionStep {
    /// Ask the other question.
    AskCassandra,
    /// This is what is known.
    Known(Option<ClusterInfo>),
    /// Nothing is known, and why.
    Unknown(CassError),
    /// Fail.
    Failed(CassError),
}

/// How a statement is come by.
#[derive(Debug, PartialEq)]
pub enum Lookup {
    /// It was prepared under the key of the request.
    Registered,
    /// It has to be prepared, with this size of a page.
    Prepare { cql: String, page_size: i32 },
    /// It is sent as it is, without being prepared, with this size of a page.
    Unprepared { cql: String, page_size: i32 },
}

/// What a [`Lookup`] stands for.
pub enum LookupView {
    Registered,
    Prepare { cql: Seq<char>, page_size: i32 },
    Unprepared { cql: Seq<char>, page_size: i32 },
}

impl View for Lookup {
    type V = LookupView;

    open spec fn view(&self) -> LookupView {
        match self {
            Lookup::Registered => LookupView::Registered,
            Lookup::Prepare { cql, page_size } => LookupView::Prepare {
                cql: cql@,
                page_size: *page_size,
            },
            Lookup::Unprepared { cql, page_size } => LookupView::Unprepared {
                cql: cql@,
                page_size: *page_size,
            },
        }
    }
}

/// What came back for a batch.
#[derive(Debug, PartialEq)]
pub enum BatchEvent {
    /// The batch failed, and why.
    Failed(String),
    /// The batch was executed, and how long it took.
    Executed { duration_ns: u64 },
}

/// What comes after the report of a failed attempt at a batch.
#[derive(Debug, PartialEq)]
pub enum BatchNext {
    Again,
    GiveUp(CassError),
}

/// What is to be done next about a batch.
#[derive(Debug, PartialEq)]
pub enum BatchStep {
    Finished,
    /// Report a failed attempt, and go on as told.
    Report { attempt: u64, error: CassError, next: BatchNext },
}

/// The state of the execution of a batch.
#[derive(Debug, PartialEq)]
pub struct BatchExecution {
    /// The parameters of each statement.
    pub values: Vec<Vec<CqlValue>>,
    pub retry_number: u64,
    /// How often the batch was tried before.
    pub attempt: u64,
}

/// The object that a script works with.
#[derive(Debug, PartialEq)]
pub struct Context {
    /// Whether there is a session. Without one, only what needs none can be done.
    pub has_session: bool,
    pub page_size: u64,
    pub statements: StatementTable,
    pub stats: SessionStats,
    pub retry_number: u64,
    pub retry_interval: RetryInterval,
    pub validation_strategy: ValidationStrategy,
    pub load_cycle_count: u64,
    pub preferred_datacenter: String,
    pub preferred_rack: String,
    pub data: Value,
}

/// The error that is reported without a session.
pub open spec fn no_session() -> CassErrorView {
    CassErrorView::Error("'session' is not defined"@)
}

/// The last 32 bits of a number, taken as a signed number.
pub open spec fn as_i32(n: u64) -> i32 {
    let low = n % 0x1_0000_0000;
    (if low < 0x8000_0000 {
        low as int
    } else {
        low - 0x1_0000_0000
    }) as i32
}

/// How the statement of a request is come by, given the registered statements and the size of a
/// page, or why it is not.
pub open spec fn looked_up(
    has_session: bool,
    statements: Map<Seq<char>, PreparedStatementView>,
    page_size: u64,
    request: RequestView,
) -> Result<LookupView, CassErrorView> {
    let page_size = as_i32(page_size);
    if !has_session {
        Err(no_session())
    } else {
        match (request.cql, request.key) {
            (None, Some(key)) => if statements.contains_key(key) {
                Ok(LookupView::Registered)
            } else {
                Err(CassErrorView::PreparedStatementNotFound(key))
            },
            (Some(cql), None) => if request.with_result || request.params is Some {
                Ok(LookupView::Prepare { cql, page_size })
            } else {
                Ok(LookupView::Unprepared { cql, page_size })
            },
            _ => Err(CassErrorView::Error("Either 'cql' or 'key' is allowed, not both"@)),
        }
    }
}

/// An ad-hoc statement without parameters whose rows are not returned is sent without being
/// prepared, whether its rows are checked or not.
pub proof fn ad_hoc_statements_are_not_prepared(
    statements: Map<Seq<char>, PreparedStatementView>,
    page_size: u64,
    cql: Seq<char>,
    expected_rows: Option<(u64, u64)>,
    custom_err_msg: Option<Seq<char>>,
)
    ensures
        looked_up(
            true,
            statements,
            page_size,
            (RequestView {
                cql: Some(cql),
                key: None,
                params: None,
                expected_rows,
                custom_err_msg,
                with_result: false,
            }),
        ) == Ok::<LookupView, CassErrorView>(
            (LookupView::Unprepared { cql, page_size: as_i32(page_size) }),
        ),
{
}

/// The execution of a request with its statement.
pub open spec fn opened_with(
    request: RequestView,
    statement: PreparedStatementView,
    retry_number: u64,
    validation_strategy: ValidationStrategy,
) -> Attempt<ExecutionView, CassErrorView> {
    opened(
        request,
        statement,
        retry_number,
        validation_strategy,
        is_select(statement.cql),
        is_select_count(statement.cql),
    )
}

/// The execution of a request: with the statement registered under its key, or with its own text
/// and the columns that the database told for it.
pub open spec fn begun(
    has_session: bool,
    statements: Map<Seq<char>, PreparedStatementView>,
    page_size: u64,
    request: RequestView,
    ad_hoc: Seq<ColumnSpecView>,
    retry_number: u64,
    validation_strategy: ValidationStrategy,
) -> Attempt<ExecutionView, CassErrorView> {
    match looked_up(has_session, statements, page_size, request) {
        Err(e) => Attempt::Failed(e),
        Ok(LookupView::Registered) => opened_with(
            request,
            statements[request.key->Some_0],
            retry_number,
            validation_strategy,
        ),
        Ok(LookupView::Prepare { cql, .. }) | Ok(LookupView::Unprepared { cql, .. }) => opened_with(
            request,
            PreparedStatementView { cql, specs: ad_hoc },
            retry_number,
            validation_strategy,
        ),
    }
}

/// A request by key is executed with the statement that was prepared last under that key, and its
/// parameters are bound to the columns of that statement.
pub proof fn prepared_statements_are_executed(
    statements: Map<Seq<char>, PreparedStatementView>,
    page_size: u64,
    key: Seq<char>,
    statement: PreparedStatementView,
    request: RequestView,
    ad_hoc: Seq<ColumnSpecView>,
    retry_number: u64,
    validation_strategy: ValidationStrategy,
)
    requires
        request.cql is None,
        request.key == Some(key),
    ensures
        begun(
            true,
            statements.insert(key, statement),
            page_size,
            request,
            ad_hoc,
            retry_number,
            validation_strategy,
        ) == opened_with(request, statement, retry_number, validation_strategy),
{
}

/// The datacenters that nodes belong to.
pub open spec fn datacenter_set(nodes: Seq<Option<String>>) -> Set<Seq<char>>
    decreases nodes.len(),
{
    if nodes.len() == 0 {
        Set::empty()
    } else {
        match nodes.last() {
            Some(datacenter) => datacenter_set(nodes.drop_last()).insert(datacenter@),
            None => datacenter_set(nodes.drop_last()),
        }
    }
}

/// The error for an expectation that cannot be met.
pub open spec fn bad_expectation_text(min: u64, max: u64) -> Seq<char> {
    "Expected 'minimum' ("@ + nat_text(min as nat)
        + ") of rows number cannot be less than 'maximum' ("@ + nat_text(max as nat) + ")"@
}

/// Reports an expectation that cannot be met.
fn check_expectation(min: u64, max: u64) -> (r: Result<(), CassError>)
    ensures
        match r {
            Ok(_) => min <= max,
            Err(e) => min > max && e@ == CassErrorView::Error(bad_expectation_text(min, max)),
        },
{
    if min > max {
        let message = "Expected 'minimum' (".to_owned().concat(u64_text(min).as_str()).concat(
            ") of rows number cannot be less than 'maximum' (",
        ).concat(u64_text(max).as_str()).concat(")");
        Err(CassError::error(message.as_str()))
    } else {
        Ok(())
    }
}

/// What follows from the answer of a ScyllaDB cluster. Where no first row of two texts can be
/// read, nothing is known.
pub fn scylla_version_step(reply: VersionReply) -> (r: VersionStep)
    ensures
        match reply {
            VersionReply::Failed(_) => r is AskCassandra,
            VersionReply::NoRows(e) => r matches VersionStep::Failed(error) && error@
                == CassErrorView::Error(e@),
            VersionReply::Rows(FirstRow::Texts(version, build_id)) => {
                &&& r matches VersionStep::Known(Some(info))
                &&& info.name@ == Seq::<char>::empty()
                &&& info.db_version@ == "ScyllaDB "@ + version@ + " with build-id "@ + build_id@
            },
            VersionReply::Rows(_) => r == VersionStep::Known(None),
        },
{
    match reply {
        VersionReply::Failed(_) => VersionStep::AskCassandra,
        VersionReply::NoRows(e) => VersionStep::Failed(CassError::error(e.as_str())),
        VersionReply::Rows(FirstRow::Texts(version, build_id)) => VersionStep::Known(
            Some(
                ClusterInfo {
                    name: String::new(),
                    db_version: "ScyllaDB ".to_owned().concat(version.as_str()).concat(
                        " with build-id ",
                    ).concat(build_id.as_str()),
                },
            ),
        ),
        VersionReply::Rows(_) => VersionStep::Known(None),
    }
}

/// What follows from the answer of any other cluster. Where no first row of two texts can be
/// read, nothing is known.
pub fn cassandra_version_step(reply: VersionReply) -> (r: VersionStep)
    ensures
        match reply {
            VersionReply::Failed(e) => r matches VersionStep::Unknown(error) && error@
                == CassErrorView::QueryExecution(
                (QueryInfoView { cql: CASSANDRA_VERSION_QUERY@, params: Seq::empty() }),
                e@,
            ),
            VersionReply::NoRows(e) => r matches VersionStep::Failed(error) && error@
                == CassErrorView::Error(e@),
            VersionReply::Rows(FirstRow::Texts(name, version)) => {
                &&& r matches VersionStep::Known(Some(info))
                &&& info.name@ == name@
                &&& info.db_version@ == "Cassandra "@ + version@
            },
            VersionReply::Rows(_) => r == VersionStep::Known(None),
        },
{
    match reply {
        VersionReply::Failed(e) => {
            let none: Vec<CqlValue> = Vec::new();
            assert(cql_models(none@) =~= Seq::empty());
            VersionStep::Unknown(CassError::query_execution_error(CASSANDRA_VERSION_QUERY, &none, e))
        },
        VersionReply::NoRows(e) => VersionStep::Failed(CassError::error(e.as_str())),
        VersionReply::Rows(FirstRow::Texts(name, version)) => VersionStep::Known(
            Some(
                ClusterInfo { name, db_version: "Cassandra ".to_owned().concat(version.as_str()) },
            ),
        ),
        VersionReply::Rows(_) => VersionStep::Known(None),
    }
}

/// The parameters of each statement of a batch, from the `i`-th on.
pub open spec fn batch_params(
    statements: Map<Seq<char>, PreparedStatementView>,
    keys: Seq<Seq<char>>,
    params: Seq<ValueView>,
    i: int,
) -> Attempt<Seq<Seq<CqlValueView>>, CassErrorView>
    decreases keys.len() - i,
{
    if i < 0 || i >= keys.len() {
        Attempt::Done(Seq::empty())
    } else {
        and_rest(
            if statements.contains_key(keys[i]) {
                bound_params(params[i], statements[keys[i]].specs)
            } else {
                Attempt::Failed(CassErrorView::PreparedStatementNotFound(keys[i]))
            },
            batch_params(statements, keys, params, i + 1),
        )
    }
}

/// A batch that is bound holds the parameters of every statement, in the order of the statements.
pub proof fn every_statement_is_bound(
    statements: Map<Seq<char>, PreparedStatementView>,
    keys: Seq<Seq<char>>,
    params: Seq<ValueView>,
    k: int,
)
    requires
        0 <= k < keys.len(),
    ensures
        batch_params(statements, keys, params, 0) matches Attempt::Done(values) ==> {
            &&& values.len() == keys.len()
            &&& statements.contains_key(keys[k])
            &&& bound_params(params[k], statements[keys[k]].specs) == Attempt::<
                Seq<CqlValueView>,
                CassErrorView,
            >::Done(values[k])
        },
{
    lemma_every_statement_is_bound(statements, keys, params, 0, k);
}

/// The same from the `i`-th statement on.
proof fn lemma_every_statement_is_bound(
    statements: Map<Seq<char>, PreparedStatementView>,
    keys: Seq<Seq<char>>,
    params: Seq<ValueView>,
    i: int,
    k: int,
)
    requires
        0 <= i <= k < keys.len(),
    ensures
        batch_params(statements, keys, params, i) matches Attempt::Done(values) ==> {
            &&& values.len() == keys.len() - i
            &&& statements.contains_key(keys[k])
            &&& bound_params(params[k], statements[keys[k]].specs) == Attempt::<
                Seq<CqlValueView>,
                CassErrorView,
            >::Done(values[k - i])
        },
    decreases keys.len() - i,
{
    if i < k {
        lemma_every_statement_is_bound(statements, keys, params, i + 1, k);
    } else if i + 1 < keys.len() {
        lemma_every_statement_is_bound(statements, keys, params, i + 1, i + 1);
    } else {
        assert(batch_params(statements, keys, params, i + 1) == Attempt::<
            Seq<Seq<CqlValueView>>,
            CassErrorView,
        >::Done(Seq::empty()));
    }
}

/// The error for a batch of statements and parameters that are not as many.
pub open spec fn batch_mismatch_text(keys: nat, params: nat) -> Seq<char> {
    "Number of prepared statements ("@ + nat_text(keys) + ") and values ("@ + nat_text(params)
        + ") must be equal"@
}

/// The views of the parameters of each statement.
pub open spec fn batch_models(values: Seq<Vec<CqlValue>>) -> Seq<Seq<CqlValueView>> {
    Seq::new(values.len(), |i: int| cql_models(values[i]@))
}

impl Context {
    pub fn new(
        has_session: bool,
        page_size: u64,
        preferred_datacenter: String,
        preferred_rack: String,
        retry_number: u64,
        retry_interval: RetryInterval,
        validation_strategy: ValidationStrategy,
    ) -> (r: Context)
        ensures
            r.has_session == has_session,
            r.page_size == page_size,
            r.statements@ == Map::<Seq<char>, PreparedStatementView>::empty(),
            r.stats@ == SessionStatsView::fresh(),
            r.retry_number == retry_number,
            r.retry_interval == retry_interval,
            r.validation_strategy == validation_strategy,
            r.load_cycle_count == 0,
            r.preferred_datacenter == preferred_datacenter,
            r.preferred_rack == preferred_rack,
            r.data@ == ValueView::Object(Seq::empty()),
    {
        broadcast use Value::lemma_parts;

        let entries: Vec<(String, Value)> = Vec::new();
        assert(crate::value::entry_models(entries@) =~= Seq::empty());
        Context {
            has_session,
            page_size,
            statements: StatementTable::new(),
            stats: SessionStats::new(),
            retry_number,
            retry_interval,
            validation_strategy,
            load_cycle_count: 0,
            preferred_datacenter,
            preferred_rack,
            data: Value::Object(entries),
        }
    }

    /// Clones the context for use by another thread, which works on the given copy of the user
    /// data. The new clone gets fresh statistics.
    pub fn clone(&self, data: Value) -> (r: Context)
        ensures
            r.stats@ == SessionStatsView::fresh(),
            r.data == data,
            r.has_session == self.has_session,
            r.page_size == self.page_size,
            r.statements@ == self.statements@,
            r.retry_number == self.retry_number,
            r.retry_interval == self.retry_interval,
            r.validation_strategy == self.validation_strategy,
            r.load_cycle_count == self.load_cycle_count,
            r.preferred_datacenter@ == self.preferred_datacenter@,
            r.preferred_rack@ == self.preferred_rack@,
    {
        Context {
            has_session: self.has_session,
            page_size: self.page_size,
            statements: self.statements.duplicate(),
            stats: SessionStats::new(),
            retry_number: self.retry_number,
            retry_interval: self.retry_interval,
            validation_strategy: self.validation_strategy,
            load_cycle_count: self.load_cycle_count,
            preferred_datacenter: self.preferred_datacenter.clone(),
            preferred_rack: self.preferred_rack.clone(),
            data,
        }
    }

    /// Tells the first question about the version of the cluster.
    pub fn cluster_info(&self) -> (r: Result<&'static str, CassError>)
        ensures
            match r {
                Ok(cql) => self.has_session && cql@ == SCYLLA_VERSION_QUERY@,
                Err(e) => !self.has_session && e@ == no_session(),
            },
    {
        if self.has_session {
            Ok(SCYLLA_VERSION_QUERY)
        } else {
            Err(CassError::error("'session' is not defined"))
        }
    }

    /// Lists the datacenters that the nodes belong to, each once and in order.
    pub fn get_datacenters(&self, nodes: &Vec<Option<String>>) -> (r: Result<
        Vec<String>,
        CassError,
    >)
        ensures
            match r {
                Ok(datacenters) => {
                    &&& self.has_session
                    &&& sorted(texts(datacenters@))
                    &&& texts(datacenters@).to_set() == datacenter_set(nodes@)
                },
                Err(e) => !self.has_session && e@ == no_session(),
            },
    {
        if !self.has_session {
            return Err(CassError::error("'session' is not defined"));
        }
        let mut datacenters: Vec<String> = Vec::new();
        let mut i: usize = 0;
        assert(texts(datacenters@).to_set() =~= Set::<Seq<char>>::empty());
        while i < nodes.len()
            invariant
                i <= nodes.len(),
                sorted(texts(datacenters@)),
                texts(datacenters@).to_set() == datacenter_set(nodes@.take(i as int)),
            decreases nodes.len() - i,
        {
            assert(nodes@.take(i + 1).drop_last() =~= nodes@.take(i as int));
            match &nodes[i] {
                Some(datacenter) => {
                    insert_sorted(&mut datacenters, datacenter.clone());
                },
                None => {},
            }
            i += 1;
        }
        assert(nodes@.take(nodes@.len() as int) =~= nodes@);
        Ok(datacenters)
    }

    /// Tells how to prepare a statement: with this size of a page.
    pub fn prepare_page_size(&self) -> (r: Result<i32, CassError>)
        ensures
            match r {
                Ok(page_size) => self.has_session && page_size == as_i32(self.page_size),
                Err(e) => !self.has_session && e@ == no_session(),
            },
    {
        if self.has_session {
            Ok(self.request_page_size())
        } else {
            Err(CassError::error("'session' is not defined"))
        }
    }

    /// The size of a page as the driver takes it.
    fn request_page_size(&self) -> (r: i32)
        ensures
            r == as_i32(self.page_size),
    {
        let low: u64 = self.page_size % 0x1_0000_0000;
        if low < 0x8000_0000 {
            low as i32
        } else {
            (low as i64 - 0x1_0000_0000) as i32
        }
    }

    /// Stores a statement that the database has prepared in an internal statement map for future
    /// use, or reports why it could not be prepared.
    pub fn prepare(
        &mut self,
        key: &str,
        cql: &str,
        prepared: Result<Vec<ColumnSpec>, String>,
    ) -> (r: Result<(), CassError>)
        ensures
            ({
                let before = *old(self);
                let now = *final(self);
                &&& match r {
                    Ok(_) => before.has_session && (match prepared {
                        Ok(specs) => now.statements@ == before.statements@.insert(
                            key@,
                            (PreparedStatementView {
                                cql: cql@,
                                specs: spec_models(specs@),
                            }),
                        ),
                        Err(_) => false,
                    }),
                    Err(e) => now.statements@ == before.statements@ && (if before.has_session {
                        match prepared {
                            Ok(_) => false,
                            Err(reason) => e@ == CassErrorView::Prepare(cql@, reason@),
                        }
                    } else {
                        e@ == no_session()
                    }),
                }
                &&& now.has_session == before.has_session
                &&& now.page_size == before.page_size
                &&& now.stats == before.stats
                &&& now.retry_number == before.retry_number
                &&& now.retry_interval == before.retry_interval
                &&& now.validation_strategy == before.validation_strategy
                &&& now.load_cycle_count == before.load_cycle_count
                &&& now.preferred_datacenter == before.preferred_datacenter
                &&& now.preferred_rack == before.preferred_rack
                &&& now.data == before.data
            }),
    {
        if !self.has_session {
            return Err(CassError::error("'session' is not defined"));
        }
        match prepared {
            Ok(specs) => {
                self.statements.insert(key, PreparedStatement { cql: cql.to_owned(), specs });
                Ok(())
            },
            Err(reason) => Err(CassError::prepare_error(cql, reason)),
        }
    }

    /// Fails with the given message.
    pub fn signal_failure(&self, message: &str) -> (r: Result<(), CassError>)
        ensures
            r matches Err(e) && e@ == CassErrorView::CustomError(message@),
    {
        Err(CassError(CassErrorKind::CustomError(message.to_owned())))
    }

    /// Asks for an ad-hoc CQL statement with no parameters. It is not prepared.
    pub fn execute(&self, cql: &str) -> (r: Request)
        ensures
            r@ == (RequestView {
                cql: Some(cql@),
                key: None,
                params: None,
                expected_rows: None,
                custom_err_msg: None,
                with_result: false,
            }),
    {
        Request {
            cql: Some(cql.to_owned()),
            key: None,
            params: None,
            expected_rows: None,
            custom_err_msg: None,
            with_result: false,
        }
    }

    /// Asks for an ad-hoc CQL statement with no parameters, and for its rows to be checked. It is
    /// not prepared.
    pub fn execute_with_validation(
        &self,
        cql: &str,
        expected_rows_num_min: u64,
        expected_rows_num_max: u64,
        custom_err_msg: &str,
    ) -> (r: Result<Request, CassError>)
        ensures
            match r {
                Ok(request) => {
                    &&& expected_rows_num_min <= expected_rows_num_max
                    &&& request@ == (RequestView {
                        cql: Some(cql@),
                        key: None,
                        params: None,
                        expected_rows: Some((expected_rows_num_min, expected_rows_num_max)),
                        custom_err_msg: Some(custom_err_msg@),
                        with_result: false,
                    })
                },
                Err(e) => {
                    &&& expected_rows_num_min > expected_rows_num_max
                    &&& e@ == CassErrorView::Error(
                        bad_expectation_text(expected_rows_num_min, expected_rows_num_max),
                    )
                },
            },
    {
        match check_expectation(expected_rows_num_min, expected_rows_num_max) {
            Err(e) => Err(e),
            Ok(_) => Ok(
                Request {
                    cql: Some(cql.to_owned()),
                    key: None,
                    params: None,
                    expected_rows: Some((expected_rows_num_min, expected_rows_num_max)),
                    custom_err_msg: Some(custom_err_msg.to_owned()),
                    with_result: false,
                },
            ),
        }
    }

    /// Asks for a statement prepared and registered earlier by a call to `prepare`.
    pub fn execute_prepared(&self, key: &str, params: Value) -> (r: Request)
        ensures
            r@ == (RequestView {
                cql: None,
                key: Some(key@),
                params: Some(params@),
                expected_rows: None,
                custom_err_msg: None,
                with_result: false,
            }),
    {
        Request {
            cql: None,
            key: Some(key.to_owned()),
            params: Some(params),
            expected_rows: None,
            custom_err_msg: None,
            with_result: false,
        }
    }

    /// Asks for a statement prepared and registered earlier by a call to `prepare`, and for its
    /// rows to be checked.
    pub fn execute_prepared_with_validation(
        &self,
        key: &str,
        params: Value,
        expected_rows_num_min: u64,
        expected_rows_num_max: u64,
        custom_err_msg: &str,
    ) -> (r: Result<Request, CassError>)
        ensures
            match r {
                Ok(request) => {
                    &&& expected_rows_num_min <= expected_rows_num_max
                    &&& request@ == (RequestView {
                        cql: None,
                        key: Some(key@),
                        params: Some(params@),
                        expected_rows: Some((expected_rows_num_min, expected_rows_num_max)),
                        custom_err_msg: Some(custom_err_msg@),
                        with_result: false,
                    })
                },
                Err(e) => {
                    &&& expected_rows_num_min > expected_rows_num_max
                    &&& e@ == CassErrorView::Error(
                        bad_expectation_text(expected_rows_num_min, expected_rows_num_max),
                    )
                },
            },
    {
        match check_expectation(expected_rows_num_min, expected_rows_num_max) {
            Err(e) => Err(e),
            Ok(_) => Ok(
                Request {
                    cql: None,
                    key: Some(key.to_owned()),
                    params: Some(params),
                    expected_rows: Some((expected_rows_num_min, expected_rows_num_max)),
                    custom_err_msg: Some(custom_err_msg.to_owned()),
                    with_result: false,
                },
            ),
        }
    }

    /// Asks for an ad-hoc CQL statement and its rows.
    pub fn execute_with_result(&self, cql: &str) -> (r: Request)
        ensures
            r@ == (RequestView {
                cql: Some(cql@),
                key: None,
                params: None,
                expected_rows: None,
                custom_err_msg: None,
                with_result: true,
            }),
    {
        Request {
            cql: Some(cql.to_owned()),
            key: None,
            params: None,
            expected_rows: None,
            custom_err_msg: None,
            with_result: true,
        }
    }

    /// Asks for a statement prepared and registered earlier by a call to `prepare` and its rows.
    pub fn execute_prepared_with_result(&self, key: &str, params: Value) -> (r: Request)
        ensures
            r@ == (RequestView {
                cql: None,
                key: Some(key@),
                params: Some(params@),
                expected_rows: None,
                custom_err_msg: None,
                with_result: true,
            }),
    {
        Request {
            cql: None,
            key: Some(key.to_owned()),
            params: Some(params),
            expected_rows: None,
            custom_err_msg: None,
            with_result: true,
        }
    }

    /// Decides how the statement of a request is come by. An ad-hoc statement is prepared only
    /// where it has parameters or its rows are returned.
    pub fn look_up(&self, request: &Request) -> (r: Result<Lookup, CassError>)
        ensures
            ({
                let expected = looked_up(
                    self.has_session,
                    self.statements@,
                    self.page_size,
                    request@,
                );
                match r {
                    Ok(lookup) => expected == Ok::<LookupView, CassErrorView>(lookup@),
                    Err(e) => expected == Err::<LookupView, CassErrorView>(e@),
                }
            }),
    {
        if !self.has_session {
            return Err(CassError::error("'session' is not defined"));
        }
        match (&request.cql, &request.key) {
            (None, Some(key)) => match self.statements.get(key.as_str()) {
                Some(_) => Ok(Lookup::Registered),
                None => Err(CassError(CassErrorKind::PreparedStatementNotFound(key.clone()))),
            },
            (Some(cql), None) => if request.with_result || request.params.is_some() {
                Ok(Lookup::Prepare { cql: cql.clone(), page_size: self.request_page_size() })
            } else {
                Ok(Lookup::Unprepared { cql: cql.clone(), page_size: self.request_page_size() })
            },
            _ => Err(CassError::error("Either 'cql' or 'key' is allowed, not both")),
        }
    }

    /// Starts the execution of a request. Its statement is the one registered under its key, or
    /// its own text, for which the database told the given columns.
    pub fn begin(&self, request: &Request, ad_hoc: Vec<ColumnSpec>) -> (r: Attempt<
        Execution,
        CassError,
    >)
        ensures
            execution_outcome(r) == begun(
                self.has_session,
                self.statements@,
                self.page_size,
                request@,
                spec_models(ad_hoc@),
                self.retry_number,
                self.validation_strategy,
            ),
    {
        if !self.has_session {
            return Attempt::Failed(CassError::error("'session' is not defined"));
        }
        match (&request.cql, &request.key) {
            (None, Some(key)) => match self.statements.get(key.as_str()) {
                Some(statement) => Execution::begin(
                    request,
                    statement,
                    self.retry_number,
                    self.validation_strategy,
                ),
                None => Attempt::Failed(
                    CassError(CassErrorKind::PreparedStatementNotFound(key.clone())),
                ),
            },
            (Some(cql), None) => Execution::begin(
                request,
                &PreparedStatement { cql: cql.clone(), specs: ad_hoc },
                self.retry_number,
                self.validation_strategy,
            ),
            _ => Attempt::Failed(
                CassError::error("Either 'cql' or 'key' is allowed, not both"),
            ),
        }
    }

    /// Binds the parameters of the statements of a batch; refuses what `bind_params` refuses.
    pub fn batch_prepared(&self, keys: &Vec<String>, params: &Vec<Value>) -> (r: Attempt<
        BatchExecution,
        CassError,
    >)
        ensures
            ({
                let values = batch_params(self.statements@, texts(keys@), models(params@), 0);
                if keys@.len() != params@.len() {
                    r matches Attempt::Failed(e) && e@ == CassErrorView::Error(
                        batch_mismatch_text(keys@.len(), params@.len()),
                    )
                } else if keys@.len() == 0 {
                    r matches Attempt::Failed(e) && e@ == CassErrorView::Error("Empty batch"@)
                } else {
                    match values {
                        Attempt::Failed(error) => r matches Attempt::Failed(e) && e@ == error,
                        Attempt::Refused => r is Refused,
                        Attempt::Done(values) => if self.has_session {
                            r matches Attempt::Done(batch) && batch_models(batch.values@) == values
                                && batch.retry_number == self.retry_number && batch.attempt == 0
                        } else {
                            r matches Attempt::Failed(e) && e@ == no_session()
                        },
                    }
                }
            }),
    {
        if keys.len() != params.len() {
            let message = "Number of prepared statements (".to_owned().concat(
                u128_text(keys.len() as u128).as_str(),
            ).concat(") and values (").concat(u128_text(params.len() as u128).as_str()).concat(
                ") must be equal",
            );
            return Attempt::Failed(CassError::error(message.as_str()));
        }
        if keys.len() == 0 {
            return Attempt::Failed(CassError::error("Empty batch"));
        }
        let ghost table = self.statements@;
        let ghost names = texts(keys@);
        let ghost all = models(params@);
        let mut done: Vec<Vec<CqlValue>> = Vec::new();
        let mut i: usize = 0;
        assert(batch_models(done@) =~= Seq::empty());
        proof {
            lemma_after_nothing(batch_params(table, names, all, 0));
        }
        while i < keys.len()
            invariant
                i <= keys.len(),
                keys@.len() == params@.len(),
                keys@.len() > 0,
                table == self.statements@,
                names == texts(keys@),
                all == models(params@),
                batch_params(table, names, all, 0) == after(
                    batch_models(done@),
                    batch_params(table, names, all, i as int),
                ),
            decreases keys.len() - i,
        {
            let ghost before = batch_models(done@);
            let statement = match self.statements.get(keys[i].as_str()) {
                Some(statement) => statement,
                None => {
                    return Attempt::Failed(
                        CassError(CassErrorKind::PreparedStatementNotFound(keys[i].clone())),
                    );
                },
            };
            match bind_params(&params[i], &statement.specs) {
                Attempt::Done(values) => {
                    let ghost pushed = cql_models(values@);
                    proof {
                        lemma_after_push(before, pushed, batch_params(table, names, all, i + 1));
                    }
                    done.push(values);
                    assert(batch_models(done@) =~= before.push(pushed));
                    i += 1;
                },
                Attempt::Failed(e) => {
                    return Attempt::Failed(e);
                },
                Attempt::Refused => {
                    return Attempt::Refused;
                },
            }
        }
        proof {
            lemma_after_all::<Seq<CqlValueView>, CassErrorView>(batch_models(done@));
        }
        if !self.has_session {
            return Attempt::Failed(CassError::error("'session' is not defined"));
        }
        Attempt::Done(
            BatchExecution { values: done, retry_number: self.retry_number, attempt: 0 },
        )
    }

    /// Returns the current accumulated request stats snapshot and resets the stats.
    pub fn take_session_stats(&mut self) -> (r: SessionStats)
        ensures
            r@ == old(self).stats@,
            final(self).stats@ == old(self).stats@.after_reset(),
            final(self).has_session == old(self).has_session,
            final(self).page_size == old(self).page_size,
            final(self).statements == old(self).statements,
            final(self).retry_number == old(self).retry_number,
            final(self).retry_interval == old(self).retry_interval,
            final(self).validation_strategy == old(self).validation_strategy,
            final(self).load_cycle_count == old(self).load_cycle_count,
            final(self).preferred_datacenter == old(self).preferred_datacenter,
            final(self).preferred_rack == old(self).preferred_rack,
            final(self).data == old(self).data,
    {
        let result = self.stats.duplicate();
        self.stats.reset();
        result
    }

    /// Resets query and request counters.
    pub fn reset(&mut self)
        ensures
            final(self).stats@ == old(self).stats@.after_reset(),
            final(self).has_session == old(self).has_session,
            final(self).page_size == old(self).page_size,
            final(self).statements == old(self).statements,
            final(self).retry_number == old(self).retry_number,
            final(self).retry_interval == old(self).retry_interval,
            final(self).validation_strategy == old(self).validation_strategy,
            final(self).load_cycle_count == old(self).load_cycle_count,
            final(self).preferred_datacenter == old(self).preferred_datacenter,
            final(self).preferred_rack == old(self).preferred_rack,
            final(self).data == old(self).data,
    {
        self.stats.reset();
    }
}

impl BatchExecution {
    /// Takes what came back for the batch, and decides what to do next.
    pub fn step(&mut self, stats: &mut SessionStats, event: BatchEvent) -> (r: BatchStep)
        requires
            old(self).attempt <= old(self).retry_number,
            event matches BatchEvent::Executed { .. } ==> {
                &&& old(stats).queue_length > 0
                &&& old(stats).req_count < u64::MAX
                &&& old(stats).row_count + old(self).values@.len() <= u64::MAX
            },
        ensures
            final(self).values == old(self).values,
            final(self).retry_number == old(self).retry_number,
            match event {
                BatchEvent::Executed { duration_ns } => {
                    &&& r == BatchStep::Finished
                    &&& final(self).attempt == old(self).attempt
                    &&& final(stats)@ == old(stats)@.completed(
                        duration_ns,
                        old(self).values@.len(),
                    )
                },
                BatchEvent::Failed(reason) => {
                    &&& final(stats)@ == old(stats)@
                    &&& r matches BatchStep::Report { attempt, error, next }
                    &&& attempt == old(self).attempt
                    &&& error@ == CassErrorView::Error("batch execution failed: "@ + reason@)
                    &&& if attempt < old(self).retry_number {
                        next == BatchNext::Again && final(self).attempt == attempt + 1
                    } else {
                        &&& next matches BatchNext::GiveUp(e)
                        &&& e@ == CassErrorView::QueryRetriesExceeded(
                            retries_exceeded_text(old(self).retry_number),
                        )
                        &&& final(self).attempt == attempt
                    }
                },
            },
            final(self).attempt <= final(self).retry_number,
    {
        match event {
            BatchEvent::Executed { duration_ns } => {
                stats.complete_request(
                    duration_ns,
                    Some(self.values.len() as u64),
                    RequestOutcome::NoRows,
                );
                BatchStep::Finished
            },
            BatchEvent::Failed(reason) => {
                let message = "batch execution failed: ".to_owned().concat(reason.as_str());
                let error = CassError::error(message.as_str());
                let attempt: u64 = self.attempt;
                let next = if attempt < self.retry_number {
                    self.attempt = attempt + 1;
                    BatchNext::Again
                } else {
                    BatchNext::GiveUp(CassError::query_retries_exceeded(self.retry_number))
                };
                BatchStep::Report { attempt, error, next }
            },
        }
    }
}

/// A datacenter is listed if, and only if, a node belongs to it.
pub proof fn datacenters_are_those_of_the_nodes(nodes: Seq<Option<String>>, name: Seq<char>)
    ensures
        datacenter_set(nodes).contains(name) == (exists|k: int|
            0 <= k < nodes.len() && ((#[trigger] nodes[k]) matches Some(datacenter) && datacenter@
                == name)),
    decreases nodes.len(),
{
    if nodes.len() > 0 {
        let head = nodes.drop_last();
        datacenters_are_those_of_the_nodes(head, name);
        assert forall|k: int| 0 <= k < head.len() implies head[k] == nodes[k] by {}
        if datacenter_set(head).contains(name) {
            let k = choose|k: int|
                0 <= k < head.len() && ((#[trigger] head[k]) matches Some(datacenter)
                    && datacenter@ == name);
            assert(nodes[k] == head[k]);
        }
        if exists|k: int|
            0 <= k < nodes.len() && ((#[trigger] nodes[k]) matches Some(datacenter) && datacenter@
                == name) {
            let k = choose|k: int|
                0 <= k < nodes.len() && ((#[trigger] nodes[k]) matches Some(datacenter)
                    && datacenter@ == name);
            if k < head.len() {
                assert(head[k] == nodes[k]);
            }
        }
        assert(nodes[nodes.len() - 1] == nodes.last());
    }
}

/// The size of a page reaches the driver as it is, as long as it has 31 bits; beyond, its last 32
/// bits are taken as a signed number.
pub proof fn page_sizes_reach_the_driver(n: u64)
    ensures
        n < 0x8000_0000 ==> as_i32(n) == n,
        (n - as_i32(n)) % 0x1_0000_0000 == 0,
{
}

/// A statement is come by in the way that its request asks for. A request by key needs a statement
/// of that key, and every request a session; a request by text with parameters or for its rows has
/// its text prepared, and any other has it sent as it is. A request by both or by neither is told.
pub proof fn statements_are_come_by_as_asked(
    statements: Map<Seq<char>, PreparedStatementView>,
    page_size: u64,
    request: RequestView,
)
    requires
        page_size < 0x8000_0000,
    ensures
        looked_up(false, statements, page_size, request) == Err::<LookupView, CassErrorView>(
            CassErrorView::Error("'session' is not defined"@),
        ),
        ({
            let r = looked_up(true, statements, page_size, request);
            match (request.cql, request.key) {
                (None, Some(key)) => if statements.contains_key(key) {
                    r == Ok::<LookupView, CassErrorView>(LookupView::Registered)
                } else {
                    r == Err::<LookupView, CassErrorView>(
                        CassErrorView::PreparedStatementNotFound(key),
                    )
                },
                (Some(cql), None) => if request.params is None && !request.with_result {
                    r matches Ok(LookupView::Unprepared { cql: c, page_size: p }) && c == cql && p
                        == page_size
                } else {
                    r matches Ok(LookupView::Prepare { cql: c, page_size: p }) && c == cql && p
                        == page_size
                },
                _ => r == Err::<LookupView, CassErrorView>(
                    CassErrorView::Error("Either 'cql' or 'key' is allowed, not both"@),
                ),
            }
        }),
{
}

/// A request by text is executed with that very text, and its parameters are bound to the columns
/// that the database told for it.
pub proof fn ad_hoc_statements_are_executed(
    statements: Map<Seq<char>, PreparedStatementView>,
    page_size: u64,
    cql: Seq<char>,
    request: RequestView,
    ad_hoc: Seq<ColumnSpecView>,
    retry_number: u64,
    validation_strategy: ValidationStrategy,
)
    requires
        request.cql == Some(cql),
        request.key is None,
    ensures
        begun(
            true,
            statements,
            page_size,
            request,
            ad_hoc,
            retry_number,
            validation_strategy,
        ) == opened(
            request,
            (PreparedStatementView { cql, specs: ad_hoc }),
            retry_number,
            validation_strategy,
            is_select(cql),
            is_select_count(cql),
        ),
{
}

/// What each statement of a batch binds: its own parameters, to the columns of the statement of its
/// own key.
pub open spec fn batch_outcomes(
    statements: Map<Seq<char>, PreparedStatementView>,
    keys: Seq<Seq<char>>,
    params: Seq<ValueView>,
) -> Seq<Attempt<Seq<CqlValueView>, CassErrorView>> {
    Seq::new(
        keys.len(),
        |k: int|
            if statements.contains_key(keys[k]) {
                bound_params(params[k], statements[keys[k]].specs)
            } else {
                Attempt::Failed(CassErrorView::PreparedStatementNotFound(keys[k]))
            },
    )
}

/// A batch binds statement by statement, in order. The first statement that is missing or whose
/// parameters cannot be bound decides what is told.
pub proof fn batches_bind_statement_by_statement(
    statements: Map<Seq<char>, PreparedStatementView>,
    keys: Seq<Seq<char>>,
    params: Seq<ValueView>,
)
    ensures
        comes_of_each(
            batch_outcomes(statements, keys, params),
            batch_params(statements, keys, params, 0),
        ),
{
    lemma_batch_outcomes(statements, keys, params, 0);
    let each = batch_outcomes(statements, keys, params);
    assert(each.skip(0) =~= each);
}

/// The same from the `i`-th statement on.
proof fn lemma_batch_outcomes(
    statements: Map<Seq<char>, PreparedStatementView>,
    keys: Seq<Seq<char>>,
    params: Seq<ValueView>,
    i: int,
)
    requires
        0 <= i <= keys.len(),
    ensures
        comes_of_each(
            batch_outcomes(statements, keys, params).skip(i),
            batch_params(statements, keys, params, i),
        ),
    decreases keys.len() - i,
{
    let each = batch_outcomes(statements, keys, params);
    if i < keys.len() {
        lemma_batch_outcomes(statements, keys, params, i + 1);
        lemma_comes_of_first(
            each[i],
            each.skip(i + 1),
            batch_params(statements, keys, params, i + 1),
        );
        assert(seq![each[i]] + each.skip(i + 1) =~= each.skip(i));
    }
}

/// Bounds that exclude each other are both told, the lower one first. So are the numbers of
/// statements and of their values in a batch, where they differ.
pub proof fn bad_numbers_are_told(first: u64, second: u64)
    ensures
        bad_expectation_text(first, second) == "Expected 'minimum' ("@ + nat_text(first as nat)
            + ") of rows number cannot be less than 'maximum' ("@ + nat_text(second as nat) + ")"@,
        batch_mismatch_text(first as nat, second as nat) == "Number of prepared statements ("@
            + nat_text(first as nat) + ") and values ("@ + nat_text(second as nat)
            + ") must be equal"@,
{
}

} // verus!
