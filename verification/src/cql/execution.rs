//! The execution of a statement: page after page, attempt after attempt.
use vstd::prelude::*;

use crate::attempt::{after, and_rest, Attempt};
use crate::attempt::{lemma_after_all, lemma_after_nothing, lemma_after_push};
use crate::config::ValidationStrategy;
use crate::stats::session::{RequestOutcome, SessionStats, SessionStatsView};
use crate::stats::sums::sum_by;
use crate::text::texts;
use crate::value::{entry_models, insert_entry, models, put_entry};
use crate::value::{Value, ValueView};
use super::bind::{bind_params, bound_params};
use super::cass_error::{retries_exceeded_text, CassError, CassErrorView, QueryInfoView};
use super::convert::{convert_value, converted, script_entries, script_outcomes};
use super::cql_value::{cql_models, CqlValue, CqlValueView};
use super::statement::{is_select, is_select_count, is_select_count_query, is_select_query};
use super::statement::{PreparedStatement, PreparedStatementView};

verus! {

/// What a script asks to be executed.
#[derive(Debug, PartialEq)]
pub struct Request {
    /// The text of the statement, where it is not prepared.
    pub cql: Option<String>,
    /// The key of the statement, where it is prepared.
    pub key: Option<String>,
    pub params: Option<Value>,
    /// The smallest and the largest number of rows that is expected.
    pub expected_rows: Option<(u64, u64)>,
    /// What to say where another number of rows is returned.
    pub custom_err_msg: Option<String>,
    /// Whether the rows are returned to the script.
    pub with_result: bool,
}

/// What a [`Request`] stands for.
pub struct RequestView {
    pub cql: Option<Seq<char>>,
    pub key: Option<Seq<char>>,
    pub params: Option<ValueView>,
    pub expected_rows: Option<(u64, u64)>,
    pub custom_err_msg: Option<Seq<char>>,
    pub with_result: bool,
}

impl View for Request {
    type V = RequestView;

    open spec fn view(&self) -> RequestView {
        RequestView {
            cql: super::cass_error::option_text(self.cql),
            key: super::cass_error::option_text(self.key),
            params: match self.params {
                Some(v) => Some(v@),
                None => None,
            },
            expected_rows: self.expected_rows,
            custom_err_msg: super::cass_error::option_text(self.custom_err_msg),
            with_result: self.with_result,
        }
    }
}

/// The rows of a page: the names of the columns, and the values of each row, or nothing for a
/// row that could not be read.
#[derive(Debug, PartialEq)]
pub struct PageData {
    pub columns: Vec<String>,
    pub rows: Vec<Option<Vec<Option<CqlValue>>>>,
}

/// A page that the database has returned.
#[derive(Debug, PartialEq)]
pub struct Page {
    /// How long it took.
    pub duration_ns: u64,
    /// How many rows it holds, where it holds rows at all.
    pub rows_num: Option<u64>,
    /// The rows, or why they cannot be read. They are read only where the script asked for them.
    pub data: Result<PageData, String>,
    /// The number in the first row, or why there is none. It is read only where the number of
    /// rows is checked for a statement that counts them.
    pub count: Result<i64, String>,
    /// No page follows.
    pub last: bool,
}

/// What came back from the database.
#[derive(Debug, PartialEq)]
pub enum PageEvent {
    /// The page could not be had, and why.
    Failed(String),
    Arrived(Page),
}

/// What comes after the report of a failed attempt.
#[derive(Debug, PartialEq)]
pub enum Next {
    /// Ask for the same page again.
    SamePage,
    /// Ask for all pages again, from the first.
    FirstPage,
    /// Fail.
    GiveUp(CassError),
    /// Return a value.
    Finish(Value),
}

/// What is to be done next.
#[derive(Debug, PartialEq)]
pub enum Step {
    /// Ask for the next page.
    NextPage,
    /// Return a value.
    Finished(Value),
    /// Fail.
    Failed(CassError),
    /// The rows hold what the database does not return.
    Refused,
    /// Report a failed attempt, and go on as told.
    Report { attempt: u64, error: CassError, next: Next },
}

/// The state of an execution.
#[derive(Debug, PartialEq)]
pub struct Execution {
    pub cql: String,
    pub params: Vec<CqlValue>,
    pub expected_rows: Option<(u64, u64)>,
    pub custom_err_msg: String,
    pub with_result: bool,
    /// The statement counts rows.
    pub is_count: bool,
    pub retry_number: u64,
    pub validation_strategy: ValidationStrategy,
    /// How often the current page was tried before.
    pub attempt: u64,
    /// The attempt at which the pages were last asked for from the first.
    pub pass: u64,
    /// The rows so far.
    pub rows: Vec<Vec<(String, CqlValue)>>,
    pub rows_num: u64,
    /// How long all pages took so far.
    pub duration_ns: u64,
}

/// What an [`Execution`] stands for.
pub struct ExecutionView {
    pub cql: Seq<char>,
    pub params: Seq<CqlValueView>,
    pub expected_rows: Option<(u64, u64)>,
    pub custom_err_msg: Seq<char>,
    pub with_result: bool,
    pub is_count: bool,
    pub retry_number: nat,
    pub validation_strategy: ValidationStrategy,
    pub attempt: nat,
    pub pass: nat,
    pub rows: Seq<Seq<(Seq<char>, CqlValueView)>>,
    pub rows_num: nat,
    pub duration_ns: nat,
}

/// What a [`Page`] stands for.
pub struct PageView {
    pub duration_ns: u64,
    pub rows_num: Option<u64>,
    pub data: Result<(Seq<Seq<char>>, Seq<Option<Seq<Option<CqlValueView>>>>), Seq<char>>,
    pub count: Result<i64, Seq<char>>,
    pub last: bool,
}

/// What a [`PageEvent`] stands for.
pub enum PageEventView {
    Failed(Seq<char>),
    Arrived(PageView),
}

/// What a [`Next`] stands for.
pub enum NextView {
    SamePage,
    FirstPage,
    GiveUp(CassErrorView),
    Finish(ValueView),
}

/// What a [`Step`] stands for.
pub enum StepView {
    NextPage,
    Finished(ValueView),
    Failed(CassErrorView),
    Refused,
    Report { attempt: nat, error: CassErrorView, next: NextView },
}

/// The views of the columns of a row.
pub open spec fn row_model(row: Seq<(String, CqlValue)>) -> Seq<(Seq<char>, CqlValueView)> {
    Seq::new(row.len(), |i: int| (row[i].0@, row[i].1@))
}

/// The views of rows.
pub open spec fn row_models(rows: Seq<Vec<(String, CqlValue)>>) -> Seq<
    Seq<(Seq<char>, CqlValueView)>,
> {
    Seq::new(rows.len(), |i: int| row_model(rows[i]@))
}

/// The views of the rows of a page.
pub open spec fn page_row_models(rows: Seq<Option<Vec<Option<CqlValue>>>>) -> Seq<
    Option<Seq<Option<CqlValueView>>>,
> {
    Seq::new(
        rows.len(),
        |i: int|
            match rows[i] {
                Some(row) => Some(super::cql_value::cql_option_models(row@)),
                None => None,
            },
    )
}

impl View for Execution {
    type V = ExecutionView;

    open spec fn view(&self) -> ExecutionView {
        ExecutionView {
            cql: self.cql@,
            params: cql_models(self.params@),
            expected_rows: self.expected_rows,
            custom_err_msg: self.custom_err_msg@,
            with_result: self.with_result,
            is_count: self.is_count,
            retry_number: self.retry_number as nat,
            validation_strategy: self.validation_strategy,
            attempt: self.attempt as nat,
            pass: self.pass as nat,
            rows: row_models(self.rows@),
            rows_num: self.rows_num as nat,
            duration_ns: self.duration_ns as nat,
        }
    }
}

impl View for Page {
    type V = PageView;

    open spec fn view(&self) -> PageView {
        PageView {
            duration_ns: self.duration_ns,
            rows_num: self.rows_num,
            data: match self.data {
                Ok(data) => Ok((texts(data.columns@), page_row_models(data.rows@))),
                Err(e) => Err(e@),
            },
            count: match self.count {
                Ok(i) => Ok(i),
                Err(e) => Err(e@),
            },
            last: self.last,
        }
    }
}

impl View for PageEvent {
    type V = PageEventView;

    open spec fn view(&self) -> PageEventView {
        match self {
            PageEvent::Failed(e) => PageEventView::Failed(e@),
            PageEvent::Arrived(page) => PageEventView::Arrived(page@),
        }
    }
}

impl View for Next {
    type V = NextView;

    open spec fn view(&self) -> NextView {
        match self {
            Next::SamePage => NextView::SamePage,
            Next::FirstPage => NextView::FirstPage,
            Next::GiveUp(e) => NextView::GiveUp(e@),
            Next::Finish(v) => NextView::Finish(v@),
        }
    }
}

impl View for Step {
    type V = StepView;

    open spec fn view(&self) -> StepView {
        match self {
            Step::NextPage => StepView::NextPage,
            Step::Finished(v) => StepView::Finished(v@),
            Step::Failed(e) => StepView::Failed(e@),
            Step::Refused => StepView::Refused,
            Step::Report { attempt, error, next } => StepView::Report {
                attempt: *attempt as nat,
                error: error@,
                next: next@,
            },
        }
    }
}

/// The 64-bit pattern of a number, taken as an unsigned number.
pub open spec fn as_u64(i: i64) -> u64 {
    (if i < 0 {
        i + 0x1_0000_0000_0000_0000
    } else {
        i as int
    }) as u64
}

/// A row with the names of its columns. A column without a name is unknown, and null is empty.
pub open spec fn named_row(columns: Seq<Seq<char>>, row: Seq<Option<CqlValueView>>) -> Seq<
    (Seq<char>, CqlValueView),
> {
    Seq::new(
        row.len(),
        |i: int|
            (
                if i < columns.len() {
                    columns[i]
                } else {
                    "unknown"@
                },
                match row[i] {
                    Some(v) => v,
                    None => CqlValueView::Empty,
                },
            ),
    )
}

/// The rows from the `i`-th on, up to the first that could not be read.
pub open spec fn readable_rows(
    columns: Seq<Seq<char>>,
    rows: Seq<Option<Seq<Option<CqlValueView>>>>,
    i: int,
) -> Seq<Seq<(Seq<char>, CqlValueView)>>
    decreases rows.len() - i,
{
    if i < 0 || i >= rows.len() {
        Seq::empty()
    } else {
        match rows[i] {
            Some(row) => seq![named_row(columns, row)] + readable_rows(columns, rows, i + 1),
            None => Seq::empty(),
        }
    }
}

/// The script object of the columns of a row from the `i`-th on, put into the entries of those
/// before.
pub open spec fn row_entries(
    row: Seq<(Seq<char>, CqlValueView)>,
    i: int,
    entries: Seq<(Seq<char>, ValueView)>,
) -> Attempt<Seq<(Seq<char>, ValueView)>, CassErrorView>
    decreases row.len() - i,
{
    if i < 0 || i >= row.len() {
        Attempt::Done(entries)
    } else {
        match converted(row[i].1) {
            Attempt::Done(value) => row_entries(row, i + 1, put_entry(entries, row[i].0, value)),
            Attempt::Failed(e) => Attempt::Failed(e),
            Attempt::Refused => Attempt::Refused,
        }
    }
}

/// The script object of a row.
pub open spec fn row_object(row: Seq<(Seq<char>, CqlValueView)>) -> Attempt<
    ValueView,
    CassErrorView,
> {
    match row_entries(row, 0, Seq::empty()) {
        Attempt::Done(entries) => Attempt::Done(ValueView::Object(entries)),
        Attempt::Failed(e) => Attempt::Failed(e),
        Attempt::Refused => Attempt::Refused,
    }
}

/// The script objects of the rows from the `i`-th on.
pub open spec fn row_objects(rows: Seq<Seq<(Seq<char>, CqlValueView)>>, i: int) -> Attempt<
    Seq<ValueView>,
    CassErrorView,
>
    decreases rows.len() - i,
{
    if i < 0 || i >= rows.len() {
        Attempt::Done(Seq::empty())
    } else {
        and_rest(row_object(rows[i]), row_objects(rows, i + 1))
    }
}

/// The value of a statement whose rows are not returned.
pub open spec fn no_rows() -> ValueView {
    ValueView::Vec(Seq::empty())
}

impl ExecutionView {
    /// The statement and its parameters, as errors tell them.
    pub open spec fn query(self) -> QueryInfoView {
        QueryInfoView { cql: self.cql, params: self.params }
    }

    /// What the attempts so far cannot exceed.
    pub open spec fn well_formed(self) -> bool {
        self.attempt <= self.retry_number && self.pass <= self.retry_number
    }

    /// The error where no attempt is left.
    pub open spec fn exceeded(self) -> NextView {
        NextView::GiveUp(
            CassErrorView::QueryRetriesExceeded(retries_exceeded_text(self.retry_number as u64)),
        )
    }

    /// Ask for the same page again, if an attempt is left.
    pub open spec fn again(self) -> NextView {
        if self.attempt < self.retry_number {
            NextView::SamePage
        } else {
            self.exceeded()
        }
    }

    /// The state after an attempt failed.
    pub open spec fn after_attempt(self) -> ExecutionView {
        if self.attempt < self.retry_number {
            ExecutionView { attempt: self.attempt + 1, ..self }
        } else {
            self
        }
    }

    /// The number of the attempt that ends with the check of the rows: an attempt at the last
    /// page or at all pages, whichever came later.
    pub open spec fn checked_attempt(self) -> nat {
        if self.attempt < self.pass {
            self.pass
        } else {
            self.attempt
        }
    }

    /// Ask for all pages again, if an attempt is left.
    pub open spec fn start_over(self) -> NextView {
        if self.checked_attempt() < self.retry_number {
            NextView::FirstPage
        } else {
            self.exceeded()
        }
    }

    /// The state after the rows were not the expected ones: they are counted anew.
    pub open spec fn after_check(self) -> ExecutionView {
        if self.checked_attempt() < self.retry_number {
            ExecutionView {
                attempt: self.checked_attempt() + 1,
                pass: self.checked_attempt() + 1,
                rows_num: 0,
                ..self
            }
        } else {
            ExecutionView { rows_num: 0, ..self }
        }
    }

    /// The state after a page was added, or the error where its rows cannot be read.
    pub open spec fn with_page(self, page: PageView) -> Result<ExecutionView, Seq<char>> {
        if self.with_result {
            match page.data {
                Ok((columns, rows)) => {
                    let all = self.rows + readable_rows(columns, rows, 0);
                    Ok(
                        ExecutionView {
                            rows: all,
                            rows_num: all.len(),
                            duration_ns: self.duration_ns + page.duration_ns as nat,
                            ..self
                        },
                    )
                },
                Err(e) => Err(e),
            }
        } else {
            Ok(
                ExecutionView {
                    rows_num: self.rows_num + (match page.rows_num {
                        Some(n) => n,
                        None => 0,
                    }) as nat,
                    duration_ns: self.duration_ns + page.duration_ns as nat,
                    ..self
                },
            )
        }
    }

    /// What is counted as the number of rows, or why it cannot be told.
    pub open spec fn counted(self, page: PageView) -> Result<u64, Seq<char>> {
        if self.is_count {
            match page.count {
                Ok(i) => Ok(as_u64(i)),
                Err(e) => Err(e),
            }
        } else {
            Ok(self.rows_num as u64)
        }
    }

    /// The number of rows is the expected one. A statement that counts rows returns just one.
    pub open spec fn valid(self, rows_cnt: u64, min: u64, max: u64) -> bool {
        (self.is_count ==> self.rows_num == 1) && min <= rows_cnt <= max
    }

    /// What to do, and the state after it, once the last page is in.
    pub open spec fn conclude(self, page: PageView) -> (ExecutionView, StepView) {
        if self.with_result {
            (
                self,
                match row_objects(self.rows, 0) {
                    Attempt::Done(rows) => StepView::Finished(ValueView::Vec(rows)),
                    Attempt::Failed(e) => StepView::Failed(e),
                    Attempt::Refused => StepView::Refused,
                },
            )
        } else {
            match self.expected_rows {
                None => (self, StepView::Finished(no_rows())),
                Some((min, max)) => match self.counted(page) {
                    Err(e) => (self, StepView::Failed(CassErrorView::Error(e))),
                    Ok(rows_cnt) => if self.valid(rows_cnt, min, max) {
                        (self, StepView::Finished(no_rows()))
                    } else {
                        let error = CassErrorView::QueryResponseValidation {
                            query: self.query(),
                            rows_min: min,
                            rows_max: max,
                            rows_cnt,
                            message: self.custom_err_msg,
                        };
                        match self.validation_strategy {
                            ValidationStrategy::Retry => (
                                self.after_check(),
                                StepView::Report {
                                    attempt: self.checked_attempt(),
                                    error,
                                    next: self.start_over(),
                                },
                            ),
                            ValidationStrategy::FailFast => (self, StepView::Failed(error)),
                            ValidationStrategy::Ignore => (
                                self,
                                StepView::Report {
                                    attempt: self.attempt,
                                    error,
                                    next: NextView::Finish(no_rows()),
                                },
                            ),
                        }
                    },
                },
            }
        }
    }

    /// What to do, and the state after it, once something came back.
    pub open spec fn advance(self, event: PageEventView) -> (ExecutionView, StepView) {
        match event {
            PageEventView::Failed(reason) => (
                self.after_attempt(),
                StepView::Report {
                    attempt: self.attempt,
                    error: CassErrorView::QueryExecution(self.query(), reason),
                    next: self.again(),
                },
            ),
            PageEventView::Arrived(page) => match self.with_page(page) {
                Err(e) => (self, StepView::Failed(CassErrorView::Error(e))),
                Ok(state) => if page.last {
                    state.conclude(page)
                } else {
                    (ExecutionView { attempt: 0, ..state }, StepView::NextPage)
                },
            },
        }
    }

    /// The statistics after it: the last page completes the request.
    pub open spec fn advance_stats(
        self,
        stats: SessionStatsView,
        event: PageEventView,
    ) -> SessionStatsView {
        match event {
            PageEventView::Failed(_) => stats,
            PageEventView::Arrived(page) => match self.with_page(page) {
                Err(_) => stats,
                Ok(state) => if page.last {
                    stats.completed(state.duration_ns as u64, state.rows_num)
                } else {
                    stats
                },
            },
        }
    }

    /// The counters can take what came back.
    pub open spec fn can_take(self, stats: SessionStatsView, event: PageEventView) -> bool {
        match event {
            PageEventView::Failed(_) => true,
            PageEventView::Arrived(page) => match self.with_page(page) {
                Err(_) => true,
                Ok(state) => {
                    &&& state.duration_ns <= u64::MAX
                    &&& state.rows_num <= u64::MAX
                    &&& page.last ==> {
                        &&& stats.queue_length > 0
                        &&& stats.req_count < u64::MAX
                        &&& stats.row_count + state.rows_num <= u64::MAX
                    }
                },
            },
        }
    }
}

/// What the parameters of a request are bound to.
pub open spec fn request_params(request: RequestView, statement: PreparedStatementView) -> Attempt<
    Seq<CqlValueView>,
    CassErrorView,
> {
    match request.params {
        Some(params) => bound_params(params, statement.specs),
        None => Attempt::Done(Seq::empty()),
    }
}

/// The execution that a request starts, given whether its statement returns rows and whether it
/// counts them.
pub open spec fn opened(
    request: RequestView,
    statement: PreparedStatementView,
    retry_number: u64,
    validation_strategy: ValidationStrategy,
    select: bool,
    count: bool,
) -> Attempt<ExecutionView, CassErrorView> {
    match request_params(request, statement) {
        Attempt::Failed(e) => Attempt::Failed(e),
        Attempt::Refused => Attempt::Refused,
        Attempt::Done(params) => if request.expected_rows is Some && !select {
            Attempt::Failed(
                CassErrorView::QueryResponseValidationNotApplicable(
                    QueryInfoView { cql: statement.cql, params },
                ),
            )
        } else if request.expected_rows is Some && request.with_result {
            Attempt::Failed(
                CassErrorView::Error(
                    "Row count validation and rows data processing are not supported together"@,
                ),
            )
        } else {
            Attempt::Done(
                ExecutionView {
                    cql: statement.cql,
                    params,
                    expected_rows: request.expected_rows,
                    custom_err_msg: match request.custom_err_msg {
                        Some(message) => message,
                        None => Seq::empty(),
                    },
                    with_result: request.with_result,
                    is_count: count,
                    retry_number: retry_number as nat,
                    validation_strategy,
                    attempt: 0,
                    pass: 0,
                    rows: Seq::empty(),
                    rows_num: 0,
                    duration_ns: 0,
                },
            )
        },
    }
}

/// The view of an outcome that is an execution.
pub open spec fn execution_outcome(r: Attempt<Execution, CassError>) -> Attempt<
    ExecutionView,
    CassErrorView,
> {
    match r {
        Attempt::Done(execution) => Attempt::Done(execution@),
        Attempt::Failed(e) => Attempt::Failed(e@),
        Attempt::Refused => Attempt::Refused,
    }
}

/// Names the columns of a row.
fn name_row(columns: &Vec<String>, row: &Vec<Option<CqlValue>>) -> (r: Vec<(String, CqlValue)>)
    ensures
        row_model(r@) == named_row(
            texts(columns@),
            super::cql_value::cql_option_models(row@),
        ),
{
    let mut named: Vec<(String, CqlValue)> = Vec::new();
    let mut i: usize = 0;
    let ghost expected = named_row(texts(columns@), super::cql_value::cql_option_models(row@));
    while i < row.len()
        invariant
            i <= row.len(),
            named.len() == i,
            expected == named_row(texts(columns@), super::cql_value::cql_option_models(row@)),
            forall|k: int|
                0 <= k < i ==> (#[trigger] named[k]).0@ == expected[k].0 && named[k].1@
                    == expected[k].1,
        decreases row.len() - i,
    {
        let name = if i < columns.len() {
            columns[i].clone()
        } else {
            "unknown".to_owned()
        };
        let value = match &row[i] {
            Some(value) => value.duplicate(),
            None => CqlValue::Empty,
        };
        named.push((name, value));
        i += 1;
    }
    assert(row_model(named@) =~= expected);
    named
}

/// Makes the entries of a script object of the columns of a row.
fn convert_row(row: &Vec<(String, CqlValue)>) -> (r: Attempt<Vec<(String, Value)>, CassError>)
    ensures
        script_entries(r) == row_entries(row_model(row@), 0, Seq::empty()),
{
    let mut entries: Vec<(String, Value)> = Vec::new();
    let mut i: usize = 0;
    assert(entry_models(entries@) =~= Seq::empty());
    while i < row.len()
        invariant
            i <= row.len(),
            row_entries(row_model(row@), 0, Seq::empty()) == row_entries(
                row_model(row@),
                i as int,
                entry_models(entries@),
            ),
        decreases row.len() - i,
    {
        match convert_value(&row[i].1) {
            Attempt::Done(value) => {
                insert_entry(&mut entries, row[i].0.clone(), value);
                i += 1;
            },
            Attempt::Failed(e) => {
                return Attempt::Failed(e);
            },
            Attempt::Refused => {
                return Attempt::Refused;
            },
        }
    }
    Attempt::Done(entries)
}

/// Makes script objects of rows.
fn convert_rows(rows: &Vec<Vec<(String, CqlValue)>>) -> (r: Attempt<Vec<Value>, CassError>)
    ensures
        script_outcomes(r) == row_objects(row_models(rows@), 0),
{
    let mut done: Vec<Value> = Vec::new();
    let mut i: usize = 0;
    assert(models(done@) =~= Seq::empty());
    proof {
        lemma_after_nothing(row_objects(row_models(rows@), 0));
    }
    while i < rows.len()
        invariant
            i <= rows.len(),
            row_objects(row_models(rows@), 0) == after(
                models(done@),
                row_objects(row_models(rows@), i as int),
            ),
        decreases rows.len() - i,
    {
        broadcast use Value::lemma_parts;

        let ghost before = models(done@);
        match convert_row(&rows[i]) {
            Attempt::Done(entries) => {
                let ghost pushed = ValueView::Object(entry_models(entries@));
                proof {
                    lemma_after_push(before, pushed, row_objects(row_models(rows@), i + 1));
                }
                done.push(Value::Object(entries));
                assert(models(done@) =~= before.push(pushed));
                i += 1;
            },
            Attempt::Failed(e) => {
                return Attempt::Failed(e);
            },
            Attempt::Refused => {
                return Attempt::Refused;
            },
        }
    }
    proof {
        lemma_after_all::<ValueView, CassErrorView>(models(done@));
    }
    Attempt::Done(done)
}

/// The value of a statement whose rows are not returned.
fn empty_result() -> (r: Value)
    ensures
        r@ == no_rows(),
{
    broadcast use Value::lemma_parts;

    let items: Vec<Value> = Vec::new();
    assert(models(items@) =~= Seq::empty());
    Value::Vec(items)
}

impl Execution {
    /// Starts the execution of a request, given whether its statement returns rows and whether it
    /// counts them.
    pub fn open(
        request: &Request,
        statement: &PreparedStatement,
        retry_number: u64,
        validation_strategy: ValidationStrategy,
        select: bool,
        count: bool,
    ) -> (r: Attempt<Execution, CassError>)
        ensures
            execution_outcome(r) == opened(
                request@,
                statement@,
                retry_number,
                validation_strategy,
                select,
                count,
            ),
    {
        let params = match &request.params {
            Some(params) => match bind_params(params, &statement.specs) {
                Attempt::Done(params) => params,
                Attempt::Failed(e) => {
                    return Attempt::Failed(e);
                },
                Attempt::Refused => {
                    return Attempt::Refused;
                },
            },
            None => {
                let none: Vec<CqlValue> = Vec::new();
                assert(cql_models(none@) =~= Seq::empty());
                none
            },
        };
        if request.expected_rows.is_some() && !select {
            return Attempt::Failed(
                CassError::query_response_validation_not_applicable_error(
                    statement.cql.as_str(),
                    &params,
                ),
            );
        }
        if request.expected_rows.is_some() && request.with_result {
            return Attempt::Failed(
                CassError::error(
                    "Row count validation and rows data processing are not supported together",
                ),
            );
        }
        let custom_err_msg = match &request.custom_err_msg {
            Some(message) => message.clone(),
            None => String::new(),
        };
        let rows: Vec<Vec<(String, CqlValue)>> = Vec::new();
        assert(row_models(rows@) =~= Seq::empty());
        Attempt::Done(
            Execution {
                cql: statement.cql.clone(),
                params,
                expected_rows: request.expected_rows,
                custom_err_msg,
                with_result: request.with_result,
                is_count: count,
                retry_number,
                validation_strategy,
                attempt: 0,
                pass: 0,
                rows,
                rows_num: 0,
                duration_ns: 0,
            },
        )
    }

    /// Starts the execution of a request.
    pub fn begin(
        request: &Request,
        statement: &PreparedStatement,
        retry_number: u64,
        validation_strategy: ValidationStrategy,
    ) -> (r: Attempt<Execution, CassError>)
        ensures
            execution_outcome(r) == opened(
                request@,
                statement@,
                retry_number,
                validation_strategy,
                is_select(statement@.cql),
                is_select_count(statement@.cql),
            ),
    {
        let select = is_select_query(statement.cql.as_str());
        let count = is_select_count_query(statement.cql.as_str());
        Execution::open(request, statement, retry_number, validation_strategy, select, count)
    }

    /// Ask for the same page again, if an attempt is left.
    fn try_again(&mut self) -> (r: Next)
        requires
            old(self)@.well_formed(),
        ensures
            r@ == old(self)@.again(),
            final(self)@ == old(self)@.after_attempt(),
    {
        if self.attempt < self.retry_number {
            self.attempt = self.attempt + 1;
            Next::SamePage
        } else {
            Next::GiveUp(CassError::query_retries_exceeded(self.retry_number))
        }
    }

    /// Ask for all pages again, if an attempt is left.
    fn try_from_start(&mut self) -> (r: Next)
        requires
            old(self)@.well_formed(),
        ensures
            r@ == old(self)@.start_over(),
            final(self)@ == old(self)@.after_check(),
    {
        let attempt: u64 = self.last_attempt();
        self.rows_num = 0;
        if attempt < self.retry_number {
            self.attempt = attempt + 1;
            self.pass = attempt + 1;
            Next::FirstPage
        } else {
            Next::GiveUp(CassError::query_retries_exceeded(self.retry_number))
        }
    }

    /// Tells the number of the attempt that ends with the check of the rows.
    fn last_attempt(&self) -> (r: u64)
        ensures
            r == self@.checked_attempt(),
    {
        if self.attempt < self.pass {
            self.pass
        } else {
            self.attempt
        }
    }

    /// Adds a page; tells why where its rows cannot be read.
    fn add_page(&mut self, page: &Page) -> (r: Option<String>)
        requires
            old(self)@.with_page(page@) matches Ok(state) ==> state.duration_ns <= u64::MAX
                && state.rows_num <= u64::MAX,
        ensures
            match r {
                None => old(self)@.with_page(page@) == Ok::<ExecutionView, Seq<char>>(final(self)@),
                Some(e) => old(self)@.with_page(page@) == Err::<ExecutionView, Seq<char>>(e@)
                    && final(self)@ == old(self)@,
            },
    {
        if self.with_result {
            match &page.data {
                Err(e) => {
                    return Some(e.clone());
                },
                Ok(data) => {
                    let ghost before = row_models(self.rows@);
                    let ghost columns = texts(data.columns@);
                    let ghost rows = page_row_models(data.rows@);
                    let mut i: usize = 0;
                    let mut more = true;
                    assert(before + readable_rows(columns, rows, 0) =~= row_models(self.rows@)
                        + readable_rows(columns, rows, i as int));
                    while more && i < data.rows.len()
                        invariant
                            i <= data.rows.len(),
                            columns == texts(data.columns@),
                            rows == page_row_models(data.rows@),
                            self.cql == old(self).cql,
                            self.params == old(self).params,
                            self.expected_rows == old(self).expected_rows,
                            self.custom_err_msg == old(self).custom_err_msg,
                            self.with_result == old(self).with_result,
                            self.is_count == old(self).is_count,
                            self.retry_number == old(self).retry_number,
                            self.validation_strategy == old(self).validation_strategy,
                            self.attempt == old(self).attempt,
                            self.pass == old(self).pass,
                            self.rows_num == old(self).rows_num,
                            self.duration_ns == old(self).duration_ns,
                            before + readable_rows(columns, rows, 0) == row_models(self.rows@) + (
                            if more {
                                readable_rows(columns, rows, i as int)
                            } else {
                                Seq::empty()
                            }),
                        decreases data.rows.len() - i,
                    {
                        let ghost so_far = row_models(self.rows@);
                        match &data.rows[i] {
                            Some(row) => {
                                let named = name_row(&data.columns, row);
                                let ghost pushed = row_model(named@);
                                self.rows.push(named);
                                assert(row_models(self.rows@) =~= so_far.push(pushed));
                                assert(so_far + (seq![pushed] + readable_rows(columns, rows, i + 1))
                                    =~= so_far.push(pushed) + readable_rows(columns, rows, i + 1));
                            },
                            None => {
                                more = false;
                            },
                        }
                        i += 1;
                    }
                    assert(row_models(self.rows@) + Seq::<Seq<(Seq<char>, CqlValueView)>>::empty()
                        =~= row_models(self.rows@));
                    self.rows_num = self.rows.len() as u64;
                },
            }
        } else {
            let rows_num: u64 = match page.rows_num {
                Some(n) => n,
                None => 0,
            };
            self.rows_num = self.rows_num + rows_num;
        }
        self.duration_ns = self.duration_ns + page.duration_ns;
        None
    }

    /// Decides what to do once the last page is in.
    fn finish(&mut self, page: Page) -> (r: Step)
        requires
            old(self)@.well_formed(),
            old(self)@.rows_num <= u64::MAX,
        ensures
            (final(self)@, r@) == old(self)@.conclude(page@),
    {
        broadcast use Value::lemma_parts;

        if self.with_result {
            return match convert_rows(&self.rows) {
                Attempt::Done(rows) => Step::Finished(Value::Vec(rows)),
                Attempt::Failed(e) => Step::Failed(e),
                Attempt::Refused => Step::Refused,
            };
        }
        let (min, max) = match self.expected_rows {
            None => {
                return Step::Finished(empty_result());
            },
            Some((min, max)) => (min, max),
        };
        let rows_cnt: u64 = if self.is_count {
            match page.count {
                Err(e) => {
                    return Step::Failed(CassError::error(e.as_str()));
                },
                Ok(i) => if i < 0 {
                    (i as i128 + 0x1_0000_0000_0000_0000) as u64
                } else {
                    i as u64
                },
            }
        } else {
            self.rows_num
        };
        if (!self.is_count || self.rows_num == 1) && min <= rows_cnt && rows_cnt <= max {
            return Step::Finished(empty_result());
        }
        let error = CassError::query_validation_error(
            self.cql.as_str(),
            &self.params,
            min,
            max,
            rows_cnt,
            self.custom_err_msg.clone(),
        );
        match self.validation_strategy {
            ValidationStrategy::Retry => {
                let attempt: u64 = self.last_attempt();
                let next = self.try_from_start();
                Step::Report { attempt, error, next }
            },
            ValidationStrategy::FailFast => Step::Failed(error),
            ValidationStrategy::Ignore => Step::Report {
                attempt: self.attempt,
                error,
                next: Next::Finish(empty_result()),
            },
        }
    }

    /// Takes what came back from the database, and decides what to do next.
    pub fn step(&mut self, stats: &mut SessionStats, event: PageEvent) -> (r: Step)
        requires
            old(self)@.well_formed(),
            old(self)@.can_take(old(stats)@, event@),
        ensures
            (final(self)@, r@) == old(self)@.advance(event@),
            final(stats)@ == old(self)@.advance_stats(old(stats)@, event@),
            final(self)@.well_formed(),
    {
        match event {
            PageEvent::Failed(reason) => {
                let error = CassError::query_execution_error(
                    self.cql.as_str(),
                    &self.params,
                    reason,
                );
                let attempt: u64 = self.attempt;
                let next = self.try_again();
                Step::Report { attempt, error, next }
            },
            PageEvent::Arrived(page) => {
                match self.add_page(&page) {
                    Some(e) => {
                        return Step::Failed(CassError::error(e.as_str()));
                    },
                    None => {},
                }
                if page.last {
                    stats.complete_request(
                        self.duration_ns,
                        Some(self.rows_num),
                        RequestOutcome::NoRows,
                    );
                    self.finish(page)
                } else {
                    self.attempt = 0;
                    Step::NextPage
                }
            },
        }
    }
}

/// The state after the current page failed `n` times.
pub open spec fn failed_times(state: ExecutionView, n: nat) -> ExecutionView
    decreases n,
{
    if n == 0 {
        state
    } else {
        failed_times(state, (n - 1) as nat).after_attempt()
    }
}

/// A page that keeps failing is tried as often as may be retried and once more, and then given
/// up: the first failures lead back to the same page, and the one after them to the error that
/// tells so.
pub proof fn failing_page_is_given_up(state: ExecutionView, n: nat, reason: Seq<char>)
    requires
        state.attempt == 0,
        n <= state.retry_number,
        state.retry_number <= u64::MAX,
    ensures
        failed_times(state, n).attempt == n,
        failed_times(state, n).retry_number == state.retry_number,
        failed_times(state, n).query() == state.query(),
        failed_times(state, n).advance(PageEventView::Failed(reason)).1 == (StepView::Report {
            attempt: n,
            error: CassErrorView::QueryExecution(state.query(), reason),
            next: if n < state.retry_number {
                NextView::SamePage
            } else {
                NextView::GiveUp(
                    CassErrorView::QueryRetriesExceeded(
                        retries_exceeded_text(state.retry_number as u64),
                    ),
                )
            },
        }),
        n < state.retry_number ==> failed_times(state, n).advance(PageEventView::Failed(reason)).0
            == failed_times(state, n + 1),
    decreases n,
{
    if n > 0 {
        failing_page_is_given_up(state, (n - 1) as nat, reason);
    }
}

/// No event makes more attempts than may be retried, and every new page has all of them. The
/// pages are asked for from the first no more often than may be retried: every time the number of
/// the pass grows, and nothing else changes it.
pub proof fn attempts_stay_bounded(state: ExecutionView, event: PageEventView)
    requires
        state.well_formed(),
    ensures
        ({
            let (after, step) = state.advance(event);
            &&& after.well_formed()
            &&& after.retry_number == state.retry_number
            &&& step is NextPage ==> after.attempt == 0
            &&& if starts_over(step) {
                state.pass < after.pass
            } else {
                state.pass == after.pass
            }
        }),
{
}

/// The pages are asked for from the first.
pub open spec fn starts_over(step: StepView) -> bool {
    step matches StepView::Report { next: NextView::FirstPage, .. }
}

/// How many rows a page holds.
pub open spec fn page_rows() -> spec_fn(PageView) -> nat {
    |page: PageView|
        (match page.rows_num {
            Some(n) => n,
            None => 0,
        }) as nat
}

/// The state after pages arrived, one after the other.
pub open spec fn arrived_all(state: ExecutionView, pages: Seq<PageView>) -> ExecutionView
    decreases pages.len(),
{
    if pages.len() == 0 {
        state
    } else {
        arrived_all(state, pages.drop_last()).advance(PageEventView::Arrived(pages.last())).0
    }
}

/// The rows that are checked are those of all pages since the first: the last page is judged by
/// the sum over all of them.
pub proof fn checked_rows_are_those_of_all_pages(
    state: ExecutionView,
    pages: Seq<PageView>,
    last: PageView,
)
    requires
        !state.with_result,
        state.rows_num == 0,
        last.last,
        forall|k: int| 0 <= k < pages.len() ==> !(#[trigger] pages[k]).last,
    ensures
        ({
            let before = arrived_all(state, pages);
            let all = before.with_page(last)->Ok_0;
            &&& before.with_page(last) is Ok
            &&& all.rows_num == sum_by(pages.push(last), page_rows())
            &&& before.advance(PageEventView::Arrived(last)) == all.conclude(last)
        }),
{
    lemma_arrived_rows(state, pages);
    assert(pages.push(last).drop_last() =~= pages);
}

/// The rows of pages that are not the last add up.
proof fn lemma_arrived_rows(state: ExecutionView, pages: Seq<PageView>)
    requires
        !state.with_result,
        forall|k: int| 0 <= k < pages.len() ==> !(#[trigger] pages[k]).last,
    ensures
        !arrived_all(state, pages).with_result,
        arrived_all(state, pages).rows_num == state.rows_num + sum_by(pages, page_rows()),
    decreases pages.len(),
{
    if pages.len() > 0 {
        let head = pages.drop_last();
        assert forall|k: int| 0 <= k < head.len() implies !(#[trigger] head[k]).last by {
            assert(head[k] == pages[k]);
        }
        lemma_arrived_rows(state, head);
        assert(!pages[pages.len() - 1].last);
    }
}

/// Where the rows are not the expected ones and attempts are left, all pages are asked for again,
/// and the rows of all of them are counted anew and checked.
pub proof fn retried_rows_are_those_of_all_pages(
    state: ExecutionView,
    page: PageView,
    pages: Seq<PageView>,
    last: PageView,
)
    requires
        starts_over(state.advance(PageEventView::Arrived(page)).1),
        last.last,
        forall|k: int| 0 <= k < pages.len() ==> !(#[trigger] pages[k]).last,
    ensures
        ({
            let restarted = state.advance(PageEventView::Arrived(page)).0;
            let before = arrived_all(restarted, pages);
            let all = before.with_page(last)->Ok_0;
            &&& restarted.rows_num == 0
            &&& before.with_page(last) is Ok
            &&& all.rows_num == sum_by(pages.push(last), page_rows())
            &&& before.advance(PageEventView::Arrived(last)) == all.conclude(last)
        }),
{
    let restarted = state.advance(PageEventView::Arrived(page)).0;
    checked_rows_are_those_of_all_pages(restarted, pages, last);
}

/// A statement whose rows are checked and are the expected ones is answered without an error, and
/// one whose rows are neither checked nor returned is answered whatever they are.
pub proof fn expected_rows_are_accepted(state: ExecutionView, page: PageView)
    requires
        !state.with_result,
        state.expected_rows matches Some((min, max)) ==> (state.counted(page) matches Ok(n)
            && state.valid(n, min, max)),
    ensures
        state.conclude(page) == (state, StepView::Finished(no_rows())),
{
}

/// A statement that returns another number of rows than expected is answered according to the
/// strategy: it fails at once, is reported and passed over, or is reported and tried again from
/// the first page as long as attempts are left.
pub proof fn unexpected_rows_are_answered(
    state: ExecutionView,
    page: PageView,
    min: u64,
    max: u64,
    rows_cnt: u64,
)
    requires
        !state.with_result,
        state.expected_rows == Some((min, max)),
        state.counted(page) == Ok::<u64, Seq<char>>(rows_cnt),
        !state.valid(rows_cnt, min, max),
    ensures
        ({
            let error = CassErrorView::QueryResponseValidation {
                query: state.query(),
                rows_min: min,
                rows_max: max,
                rows_cnt,
                message: state.custom_err_msg,
            };
            state.conclude(page).1 == (match state.validation_strategy {
                ValidationStrategy::FailFast => StepView::Failed(error),
                ValidationStrategy::Ignore => StepView::Report {
                    attempt: state.attempt,
                    error,
                    next: NextView::Finish(no_rows()),
                },
                ValidationStrategy::Retry => StepView::Report {
                    attempt: state.checked_attempt(),
                    error,
                    next: if state.checked_attempt() < state.retry_number {
                        NextView::FirstPage
                    } else {
                        state.exceeded()
                    },
                },
            })
        }),
{
}

/// Rows are checked only for statements that return rows, and are never both checked and
/// returned: a request for either is refused with the error that tells so.
pub proof fn checks_are_refused_where_they_do_not_apply(
    request: RequestView,
    statement: PreparedStatementView,
    retry_number: u64,
    validation_strategy: ValidationStrategy,
    select: bool,
    count: bool,
)
    requires
        request.expected_rows is Some,
        request_params(request, statement) is Done,
    ensures
        ({
            let r = opened(request, statement, retry_number, validation_strategy, select, count);
            let params = request_params(request, statement)->Done_0;
            &&& !select ==> r == Attempt::<ExecutionView, CassErrorView>::Failed(
                CassErrorView::QueryResponseValidationNotApplicable(
                    QueryInfoView { cql: statement.cql, params },
                ),
            )
            &&& select && request.with_result ==> r is Failed
            &&& r matches Attempt::Done(state) ==> !state.with_result && state.well_formed()
                && state.attempt == 0
        }),
{
}

/// The rows of two lists one after the other are those of the first, if all of them can be read,
/// and then those of the second.
proof fn lemma_readable_rows_concat(
    columns: Seq<Seq<char>>,
    first: Seq<Option<Seq<Option<CqlValueView>>>>,
    second: Seq<Option<Seq<Option<CqlValueView>>>>,
    i: int,
)
    requires
        0 <= i <= first.len(),
        forall|k: int| 0 <= k < first.len() ==> (#[trigger] first[k]) is Some,
    ensures
        readable_rows(columns, first + second, i) == readable_rows(columns, first, i)
            + readable_rows(columns, second, 0),
    decreases first.len() - i,
{
    let all = first + second;
    if i < first.len() {
        lemma_readable_rows_concat(columns, first, second, i + 1);
        assert(all[i] == first[i]);
        let row = named_row(columns, first[i]->Some_0);
        assert(seq![row] + (readable_rows(columns, first, i + 1) + readable_rows(
            columns,
            second,
            0,
        )) =~= (seq![row] + readable_rows(columns, first, i + 1)) + readable_rows(
            columns,
            second,
            0,
        ));
    } else {
        lemma_readable_rows_shift(columns, first, second, 0);
        assert(readable_rows(columns, first, i) =~= Seq::empty());
        assert(Seq::<Seq<(Seq<char>, CqlValueView)>>::empty() + readable_rows(columns, second, 0)
            =~= readable_rows(columns, second, 0));
    }
}

/// Reading on behind the first list is reading the second.
proof fn lemma_readable_rows_shift(
    columns: Seq<Seq<char>>,
    first: Seq<Option<Seq<Option<CqlValueView>>>>,
    second: Seq<Option<Seq<Option<CqlValueView>>>>,
    i: int,
)
    requires
        0 <= i <= second.len(),
    ensures
        readable_rows(columns, first + second, first.len() + i) == readable_rows(
            columns,
            second,
            i,
        ),
    decreases second.len() - i,
{
    let all = first + second;
    if i < second.len() {
        lemma_readable_rows_shift(columns, first, second, i + 1);
        assert(all[first.len() + i] == second[i]);
    }
}

/// How the rows are cut into pages does not matter: two pages add the same rows, in the same
/// order, as one page that holds the rows of both, provided all rows of the first can be read.
pub proof fn pages_add_up(
    state: ExecutionView,
    columns: Seq<Seq<char>>,
    first: Seq<Option<Seq<Option<CqlValueView>>>>,
    second: Seq<Option<Seq<Option<CqlValueView>>>>,
    one: PageView,
    two: PageView,
    both: PageView,
)
    requires
        state.with_result,
        forall|k: int| 0 <= k < first.len() ==> (#[trigger] first[k]) is Some,
        one.data == Ok::<_, Seq<char>>((columns, first)),
        two.data == Ok::<_, Seq<char>>((columns, second)),
        both.data == Ok::<_, Seq<char>>((columns, first + second)),
    ensures
        ({
            let pages = state.with_page(one)->Ok_0.with_page(two)->Ok_0;
            let page = state.with_page(both)->Ok_0;
            &&& pages.rows == page.rows
            &&& pages.rows_num == page.rows_num
            &&& pages.rows_num == pages.rows.len()
        }),
{
    lemma_readable_rows_concat(columns, first, second, 0);
    let a = readable_rows(columns, first, 0);
    let b = readable_rows(columns, second, 0);
    assert((state.rows + a) + b =~= state.rows + (a + b));
}

/// The rows that are counted over two pages are those of both.
pub proof fn counted_rows_add_up(state: ExecutionView, one: PageView, two: PageView)
    requires
        !state.with_result,
    ensures
        state.with_page(one)->Ok_0.with_page(two)->Ok_0.rows_num == state.rows_num + (
        match one.rows_num {
            Some(n) => n,
            None => 0,
        }) + (match two.rows_num {
            Some(n) => n,
            None => 0,
        }),
{
}

/// Only the last page completes the request, and then with the time that all pages took and the
/// rows of all of them.
pub proof fn only_the_last_page_completes(
    state: ExecutionView,
    stats: SessionStatsView,
    event: PageEventView,
    added: ExecutionView,
)
    ensures
        !(event is Arrived && event->Arrived_0.last) ==> state.advance_stats(stats, event) == stats,
        event is Arrived && event->Arrived_0.last && state.with_page(event->Arrived_0) == Ok::<
            ExecutionView,
            Seq<char>,
        >(added) ==> state.advance_stats(stats, event) == stats.completed(
            added.duration_ns as u64,
            added.rows_num,
        ),
{
}

} // verus!
