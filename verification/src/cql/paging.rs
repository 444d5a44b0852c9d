//! What the execution of a statement promises of its pages, rows and attempts.
use vstd::prelude::*;

use crate::attempt::{all_done_before, comes_of_each, lemma_comes_of_first, Attempt};
use crate::config::ValidationStrategy;
use crate::stats::session::SessionStatsView;
use crate::stats::sums::{lemma_sum_same, sum_by};
use crate::value::{entries_of_each, is_object_of, lemma_object_of_nothing, lemma_object_step};
use crate::value::{object_of_each, put_entry, results_of, ValueView};
use super::bind::bound_params;
use super::cass_error::{retries_exceeded_text, CassErrorView, QueryInfoView};
use super::convert::converted;
use super::cql_value::CqlValueView;
use super::execution::{arrived_all, opened, page_rows, readable_rows, row_entries, row_object};
use super::execution::{checked_rows_are_those_of_all_pages, row_objects};
use super::execution::{ExecutionView, NextView, PageEventView, PageView, RequestView, StepView};
use super::natives::Converted;
use super::statement::PreparedStatementView;

verus! {

/// A statement without rows to return.
pub open spec fn nothing_returned() -> StepView {
    StepView::Finished(ValueView::Vec(Seq::empty()))
}

/// The larger of the number of attempts at the last page and of the number of those at all pages.
pub open spec fn last_attempt(state: ExecutionView) -> nat {
    if state.attempt >= state.pass {
        state.attempt
    } else {
        state.pass
    }
}

/// What is reported where the number of rows is not one that is expected.
pub open spec fn unexpected(state: ExecutionView, min: u64, max: u64, rows_cnt: u64) -> CassErrorView {
    CassErrorView::QueryResponseValidation {
        query: QueryInfoView { cql: state.cql, params: state.params },
        rows_min: min,
        rows_max: max,
        rows_cnt,
        message: state.custom_err_msg,
    }
}

/// How a number of rows is answered that is not one that is expected: at once, by passing over it,
/// or by asking for all pages again as long as attempts are left.
pub open spec fn answered(state: ExecutionView, step: StepView, error: CassErrorView) -> bool {
    match state.validation_strategy {
        ValidationStrategy::FailFast => step == StepView::Failed(error),
        ValidationStrategy::Ignore => step == (StepView::Report {
            attempt: state.attempt,
            error,
            next: NextView::Finish(ValueView::Vec(Seq::empty())),
        }),
        ValidationStrategy::Retry => step == (StepView::Report {
            attempt: last_attempt(state),
            error,
            next: if last_attempt(state) < state.retry_number {
                NextView::FirstPage
            } else {
                NextView::GiveUp(
                    CassErrorView::QueryRetriesExceeded(
                        retries_exceeded_text(state.retry_number as u64),
                    ),
                )
            },
        }),
    }
}

/// A statement whose rows are checked passes if, and only if, it returned no fewer rows than the
/// smallest and no more than the largest expected number. Any other number is reported, with both
/// bounds and the message of the script.
pub proof fn rows_pass_within_the_bounds_only(
    state: ExecutionView,
    page: PageView,
    min: u64,
    max: u64,
)
    requires
        !state.with_result,
        !state.is_count,
        state.expected_rows == Some((min, max)),
        state.rows_num <= u64::MAX,
    ensures
        state.conclude(page).1 is Finished <==> min <= state.rows_num <= max,
        min <= state.rows_num <= max ==> state.conclude(page).1 == nothing_returned(),
        !(min <= state.rows_num <= max) ==> answered(
            state,
            state.conclude(page).1,
            unexpected(state, min, max, state.rows_num as u64),
        ),
{
}

/// A statement that counts rows passes if, and only if, it returned just one row and the number in
/// it is within the bounds. A negative number counts as one beyond 63 bits. Where there is no
/// number, the statement fails and tells why.
pub proof fn counts_pass_within_the_bounds_only(
    state: ExecutionView,
    page: PageView,
    min: u64,
    max: u64,
)
    requires
        !state.with_result,
        state.is_count,
        state.expected_rows == Some((min, max)),
    ensures
        match page.count {
            Ok(n) => {
                let told = if n >= 0 {
                    n as int
                } else {
                    n + 0x1_0000_0000_0000_0000
                };
                let passes = state.rows_num == 1 && min <= told <= max;
                &&& state.conclude(page).1 is Finished <==> passes
                &&& passes ==> state.conclude(page).1 == nothing_returned()
                &&& !passes ==> answered(
                    state,
                    state.conclude(page).1,
                    unexpected(state, min, max, told as u64),
                )
            },
            Err(e) => state.conclude(page).1 == StepView::Failed(CassErrorView::Error(e)),
        },
{
}

/// A statement whose rows are neither checked nor returned is done with its last page.
pub proof fn unchecked_statements_finish(state: ExecutionView, page: PageView)
    requires
        !state.with_result,
        state.expected_rows is None,
    ensures
        state.conclude(page) == (state, nothing_returned()),
{
}

/// A check starts all pages anew with the next attempt and without rows, where attempts are left.
/// It forgets the rows, too, where none are left, and leaves all else as it is.
pub proof fn checks_start_anew(state: ExecutionView, page: PageView)
    ensures
        ({
            let (after, step) = state.conclude(page);
            if step matches StepView::Report { next: NextView::FirstPage, .. } {
                after == (ExecutionView {
                    attempt: last_attempt(state) + 1,
                    pass: last_attempt(state) + 1,
                    rows_num: 0,
                    ..state
                })
            } else if step matches StepView::Report { next: NextView::GiveUp(_), .. } {
                after == (ExecutionView { rows_num: 0, ..state })
            } else {
                after == state
            }
        }),
{
}

/// The rows of all pages decide together: a statement of any number of pages passes if, and only
/// if, the sum of their rows is within the bounds.
pub proof fn all_pages_are_checked_together(
    state: ExecutionView,
    pages: Seq<PageView>,
    last: PageView,
    min: u64,
    max: u64,
)
    requires
        !state.with_result,
        !state.is_count,
        state.expected_rows == Some((min, max)),
        state.rows_num == 0,
        last.last,
        forall|k: int| 0 <= k < pages.len() ==> !(#[trigger] pages[k]).last,
        sum_by(
            pages.push(last),
            |page: PageView|
                match page.rows_num {
                    Some(n) => n as nat,
                    None => 0,
                },
        ) <= u64::MAX,
    ensures
        ({
            let total = sum_by(
                pages.push(last),
                |page: PageView|
                    match page.rows_num {
                        Some(n) => n as nat,
                        None => 0,
                    },
            );
            let step = arrived_all(state, pages).advance(PageEventView::Arrived(last)).1;
            &&& step is Finished <==> min <= total <= max
            &&& state.validation_strategy == ValidationStrategy::FailFast && !(min <= total <= max)
                ==> step == StepView::Failed(unexpected(state, min, max, total as u64))
        }),
{
    let rows = |page: PageView|
        match page.rows_num {
            Some(n) => n as nat,
            None => 0,
        };
    lemma_sum_same(pages.push(last), page_rows(), rows);
    checked_rows_are_those_of_all_pages(state, pages, last);
    lemma_settings_stay(state, pages);
    let before = arrived_all(state, pages);
    let all = before.with_page(last)->Ok_0;
    rows_pass_within_the_bounds_only(all, last, min, max);
}

/// Pages that are not the last leave the settings of an execution as they are.
proof fn lemma_settings_stay(state: ExecutionView, pages: Seq<PageView>)
    requires
        !state.with_result,
        forall|k: int| 0 <= k < pages.len() ==> !(#[trigger] pages[k]).last,
    ensures
        ({
            let after = arrived_all(state, pages);
            after == (ExecutionView {
                attempt: after.attempt,
                rows_num: after.rows_num,
                duration_ns: after.duration_ns,
                ..state
            })
        }),
    decreases pages.len(),
{
    if pages.len() > 0 {
        let head = pages.drop_last();
        assert forall|k: int| 0 <= k < head.len() implies !(#[trigger] head[k]).last by {
            assert(head[k] == pages[k]);
        }
        lemma_settings_stay(state, head);
        assert(!pages[pages.len() - 1].last);
    }
}

/// A page that is not the last is followed by the next page, which has all attempts again. Its
/// rows and its time are added, and nothing else changes.
pub proof fn pages_follow_one_another(state: ExecutionView, page: PageView)
    requires
        !state.with_result,
        !page.last,
    ensures
        ({
            let (after, step) = state.advance(PageEventView::Arrived(page));
            &&& step == StepView::NextPage
            &&& after == (ExecutionView {
                attempt: 0,
                rows_num: state.rows_num + (match page.rows_num {
                    Some(n) => n as nat,
                    None => 0,
                }),
                duration_ns: state.duration_ns + page.duration_ns as nat,
                ..state
            })
        }),
{
}

/// A page that could not be had is asked for again as often as may be retried, and then given up.
/// Every failure is reported with the statement, the reason and the number of the attempt, and
/// changes nothing but that number.
pub proof fn failed_pages_are_tried_again(state: ExecutionView, reason: Seq<char>)
    ensures
        ({
            let (after, step) = state.advance(PageEventView::Failed(reason));
            let left = state.attempt < state.retry_number;
            &&& step == (StepView::Report {
                attempt: state.attempt,
                error: CassErrorView::QueryExecution(
                    QueryInfoView { cql: state.cql, params: state.params },
                    reason,
                ),
                next: if left {
                    NextView::SamePage
                } else {
                    NextView::GiveUp(
                        CassErrorView::QueryRetriesExceeded(
                            retries_exceeded_text(state.retry_number as u64),
                        ),
                    )
                },
            })
            &&& after == (if left {
                ExecutionView { attempt: state.attempt + 1, ..state }
            } else {
                state
            })
        }),
{
}

/// All rows of a page can be read.
pub open spec fn all_readable(rows: Seq<Option<Seq<Option<CqlValueView>>>>) -> bool {
    forall|k: int| 0 <= k < rows.len() ==> (#[trigger] rows[k]) is Some
}

/// A row holds the cells of a row of a page, each under the name of its column. A cell that is
/// null is empty, and one beyond the columns is unknown.
pub open spec fn names_cells(
    row: Seq<(Seq<char>, CqlValueView)>,
    columns: Seq<Seq<char>>,
    cells: Seq<Option<CqlValueView>>,
) -> bool {
    row.len() == cells.len() && forall|j: int|
        0 <= j < cells.len() ==> (#[trigger] row[j]).0 == (if j < columns.len() {
            columns[j]
        } else {
            "unknown"@
        }) && row[j].1 == (match cells[j] {
            Some(value) => value,
            None => CqlValueView::Empty,
        })
}

/// Where rows are returned, a page adds all its rows after those before, in order, each with its
/// cells under the names of their columns.
pub proof fn pages_add_their_rows(
    state: ExecutionView,
    page: PageView,
    columns: Seq<Seq<char>>,
    rows: Seq<Option<Seq<Option<CqlValueView>>>>,
)
    requires
        state.with_result,
        page.data == Ok::<_, Seq<char>>((columns, rows)),
        all_readable(rows),
    ensures
        ({
            let after = state.advance(PageEventView::Arrived(page)).0;
            &&& after.rows.len() == state.rows.len() + rows.len()
            &&& after.rows_num == after.rows.len()
            &&& after.duration_ns == state.duration_ns + page.duration_ns
            &&& forall|k: int|
                0 <= k < state.rows.len() ==> (#[trigger] after.rows[k]) == state.rows[k]
            &&& forall|k: int|
                0 <= k < rows.len() ==> names_cells(
                    after.rows[state.rows.len() + k],
                    columns,
                    (#[trigger] rows[k])->Some_0,
                )
            &&& !page.last ==> state.advance(PageEventView::Arrived(page)).1 == StepView::NextPage
        }),
{
    lemma_readable_rows(columns, rows, 0);
    let added = readable_rows(columns, rows, 0);
    let all = state.rows + added;
    assert forall|k: int| 0 <= k < rows.len() implies names_cells(
        all[state.rows.len() + k],
        columns,
        (#[trigger] rows[k])->Some_0,
    ) by {
        assert(all[state.rows.len() + k] == added[k]);
    }
}

/// Rows that can all be read are as many as the page has, each with its cells.
proof fn lemma_readable_rows(
    columns: Seq<Seq<char>>,
    rows: Seq<Option<Seq<Option<CqlValueView>>>>,
    i: int,
)
    requires
        0 <= i <= rows.len(),
        all_readable(rows),
    ensures
        readable_rows(columns, rows, i).len() == rows.len() - i,
        forall|k: int|
            i <= k < rows.len() ==> names_cells(
                readable_rows(columns, rows, i)[k - i],
                columns,
                (#[trigger] rows[k])->Some_0,
            ),
    decreases rows.len() - i,
{
    if i < rows.len() {
        lemma_readable_rows(columns, rows, i + 1);
        let rest = readable_rows(columns, rows, i + 1);
        let all = readable_rows(columns, rows, i);
        assert(rows[i] is Some);
        assert forall|k: int| i <= k < rows.len() implies names_cells(
            all[k - i],
            columns,
            (#[trigger] rows[k])->Some_0,
        ) by {
            if k > i {
                assert(all[k - i] == rest[k - (i + 1)]);
            }
        }
    }
}

/// Where rows are returned and cannot be read, the statement fails and tells why.
pub proof fn unreadable_pages_fail(state: ExecutionView, page: PageView, reason: Seq<char>)
    requires
        state.with_result,
        page.data == Err::<(Seq<Seq<char>>, Seq<Option<Seq<Option<CqlValueView>>>>), Seq<char>>(
            reason,
        ),
    ensures
        state.advance(PageEventView::Arrived(page)) == (
            state,
            StepView::Failed(CassErrorView::Error(reason)),
        ),
{
}

/// The names of the columns of a row.
pub open spec fn row_names(row: Seq<(Seq<char>, CqlValueView)>) -> Seq<Seq<char>> {
    Seq::new(row.len(), |j: int| row[j].0)
}

/// What each cell of a row converts to.
pub open spec fn row_values(row: Seq<(Seq<char>, CqlValueView)>) -> Seq<Converted> {
    Seq::new(row.len(), |j: int| converted(row[j].1))
}

/// A row that is returned is an object of its cells: each is converted and stands under the name of
/// its column.
pub proof fn returned_rows_hold_their_cells(row: Seq<(Seq<char>, CqlValueView)>)
    ensures
        object_of_each(row_names(row), row_values(row), row_object(row)),
{
    lemma_object_of_nothing();
    assert(row_names(row).take(0) =~= Seq::empty());
    assert(results_of(row_values(row)).take(0) =~= Seq::empty());
    lemma_row_entries(row, 0, Seq::empty());
}

/// The same from the `i`-th cell on.
proof fn lemma_row_entries(
    row: Seq<(Seq<char>, CqlValueView)>,
    i: int,
    entries: Seq<(Seq<char>, ValueView)>,
)
    requires
        0 <= i <= row.len(),
        all_done_before(row_values(row), i),
        is_object_of(row_names(row).take(i), results_of(row_values(row)).take(i), entries),
    ensures
        entries_of_each(row_names(row), row_values(row), row_entries(row, i, entries)),
    decreases row.len() - i,
{
    let names = row_names(row);
    let each = row_values(row);
    let values = results_of(each);
    if i < row.len() {
        assert(each[i] == converted(row[i].1));
        match each[i] {
            Attempt::Done(value) => {
                lemma_object_step(names, values, i, entries);
                lemma_row_entries(row, i + 1, put_entry(entries, row[i].0, value));
            },
            _ => {},
        }
    } else {
        assert(names.take(i) =~= names);
        assert(values.take(i) =~= values);
    }
}

/// A statement whose rows are returned gives all of them, in order, each as the object of its
/// cells. Where a cell cannot be converted, the statement fails.
pub proof fn all_rows_are_returned(state: ExecutionView, page: PageView)
    requires
        state.with_result,
    ensures
        state.conclude(page).0 == state,
        match state.conclude(page).1 {
            StepView::Finished(value) => {
                &&& value matches ValueView::Vec(items)
                &&& items.len() == state.rows.len()
                &&& forall|k: int|
                    0 <= k < items.len() ==> object_of_each(
                        row_names(state.rows[k]),
                        row_values(state.rows[k]),
                        Converted::Done(#[trigger] items[k]),
                    )
            },
            StepView::Failed(e) => exists|k: int|
                0 <= k < state.rows.len() && object_of_each(
                    row_names(#[trigger] state.rows[k]),
                    row_values(state.rows[k]),
                    Converted::Failed(e),
                ),
            StepView::Refused => exists|k: int|
                0 <= k < state.rows.len() && object_of_each(
                    row_names(#[trigger] state.rows[k]),
                    row_values(state.rows[k]),
                    Converted::Refused,
                ),
            _ => false,
        },
{
    let rows = state.rows;
    lemma_row_objects(rows, 0);
    let each = Seq::new(rows.len(), |k: int| row_object(rows[k]));
    assert(each.skip(0) =~= each);
    match row_objects(rows, 0) {
        Attempt::Done(items) => {
            assert forall|k: int| 0 <= k < items.len() implies object_of_each(
                row_names(rows[k]),
                row_values(rows[k]),
                Converted::Done(#[trigger] items[k]),
            ) by {
                assert(each[k] == Converted::Done(items[k]));
                returned_rows_hold_their_cells(rows[k]);
            }
        },
        Attempt::Failed(e) => {
            let k = choose|k: int|
                0 <= k < each.len() && (#[trigger] each[k]) == Converted::Failed(e)
                    && all_done_before(each, k);
            assert(each[k] == row_object(rows[k]));
            returned_rows_hold_their_cells(rows[k]);
        },
        Attempt::Refused => {
            let k = choose|k: int|
                0 <= k < each.len() && (#[trigger] each[k]) is Refused && all_done_before(each, k);
            assert(each[k] == row_object(rows[k]));
            returned_rows_hold_their_cells(rows[k]);
        },
    }
}

/// The objects of the rows from the `i`-th on.
proof fn lemma_row_objects(rows: Seq<Seq<(Seq<char>, CqlValueView)>>, i: int)
    requires
        0 <= i <= rows.len(),
    ensures
        comes_of_each(
            Seq::new(rows.len(), |k: int| row_object(rows[k])).skip(i),
            row_objects(rows, i),
        ),
    decreases rows.len() - i,
{
    let each = Seq::new(rows.len(), |k: int| row_object(rows[k]));
    if i < rows.len() {
        lemma_row_objects(rows, i + 1);
        lemma_comes_of_first(each[i], each.skip(i + 1), row_objects(rows, i + 1));
        assert(seq![each[i]] + each.skip(i + 1) =~= each.skip(i));
    }
}

/// A request starts with the text of its statement, with its parameters bound to the columns of the
/// statement, and with what it asks for, at the first attempt and without rows. It does not start
/// where its parameters cannot be bound, nor where rows are to be checked that the statement does
/// not return or that are to be returned.
pub proof fn requests_start_as_asked(
    request: RequestView,
    statement: PreparedStatementView,
    retry_number: u64,
    validation_strategy: ValidationStrategy,
    select: bool,
    count: bool,
)
    ensures
        ({
            let start = opened(
                request,
                statement,
                retry_number,
                validation_strategy,
                select,
                count,
            );
            let params = match request.params {
                Some(params) => bound_params(params, statement.specs),
                None => Attempt::Done(Seq::empty()),
            };
            let checked = request.expected_rows is Some;
            match params {
                Attempt::Failed(e) => start == Attempt::<ExecutionView, CassErrorView>::Failed(e),
                Attempt::Refused => start is Refused,
                Attempt::Done(params) => {
                    &&& start is Done <==> !(checked && (!select || request.with_result))
                    &&& checked && !select ==> start == Attempt::<
                        ExecutionView,
                        CassErrorView,
                    >::Failed(
                        CassErrorView::QueryResponseValidationNotApplicable(
                            QueryInfoView { cql: statement.cql, params },
                        ),
                    )
                    &&& checked && select && request.with_result ==> start == Attempt::<
                        ExecutionView,
                        CassErrorView,
                    >::Failed(
                        CassErrorView::Error(
                            "Row count validation and rows data processing are not supported together"@,
                        ),
                    )
                    &&& start matches Attempt::Done(state) ==> {
                        &&& state.cql == statement.cql
                        &&& state.params == params
                        &&& state.expected_rows == request.expected_rows
                        &&& state.custom_err_msg == (match request.custom_err_msg {
                            Some(message) => message,
                            None => Seq::empty(),
                        })
                        &&& state.with_result == request.with_result
                        &&& state.is_count == count
                        &&& state.retry_number == retry_number
                        &&& state.validation_strategy == validation_strategy
                        &&& state.attempt == 0 && state.pass == 0
                        &&& state.rows_num == 0 && state.rows.len() == 0
                        &&& state.duration_ns == 0
                    }
                },
            }
        }),
{
}

/// A request is counted once, with its last page: with the time that all pages took together and
/// the rows of all of them. No other event counts anything.
pub proof fn requests_are_counted_with_their_last_page(
    state: ExecutionView,
    stats: SessionStatsView,
    event: PageEventView,
)
    requires
        !state.with_result,
        stats.queue_length > 0,
    ensures
        ({
            let after = state.advance_stats(stats, event);
            match event {
                PageEventView::Arrived(page) => if page.last {
                    let rows = state.rows_num + (match page.rows_num {
                        Some(n) => n as nat,
                        None => 0,
                    });
                    after == (SessionStatsView {
                        req_count: stats.req_count + 1,
                        queue_length: (stats.queue_length - 1) as nat,
                        row_count: stats.row_count + rows,
                        resp_times_ns: stats.resp_times_ns.push(
                            (state.duration_ns + page.duration_ns) as u64,
                        ),
                        ..stats
                    })
                } else {
                    after == stats
                },
                PageEventView::Failed(_) => after == stats,
            }
        }),
{
}

/// The same where the rows are returned: those that could be read are counted.
pub proof fn returned_rows_are_counted_with_their_last_page(
    state: ExecutionView,
    stats: SessionStatsView,
    page: PageView,
    columns: Seq<Seq<char>>,
    rows: Seq<Option<Seq<Option<CqlValueView>>>>,
)
    requires
        state.with_result,
        stats.queue_length > 0,
        page.data == Ok::<_, Seq<char>>((columns, rows)),
        all_readable(rows),
    ensures
        state.advance_stats(stats, PageEventView::Arrived(page)) == (if page.last {
            SessionStatsView {
                req_count: stats.req_count + 1,
                queue_length: (stats.queue_length - 1) as nat,
                row_count: stats.row_count + state.rows.len() + rows.len(),
                resp_times_ns: stats.resp_times_ns.push(
                    (state.duration_ns + page.duration_ns) as u64,
                ),
                ..stats
            }
        } else {
            stats
        }),
{
    lemma_readable_rows(columns, rows, 0);
}

/// A page whose rows cannot all be read adds those before the first that cannot.
pub proof fn pages_add_their_rows_up_to_the_first_unreadable(
    state: ExecutionView,
    page: PageView,
    columns: Seq<Seq<char>>,
    rows: Seq<Option<Seq<Option<CqlValueView>>>>,
    readable: int,
)
    requires
        state.with_result,
        page.data == Ok::<_, Seq<char>>((columns, rows)),
        0 <= readable < rows.len(),
        all_readable(rows.take(readable)),
        rows[readable] is None,
    ensures
        ({
            let after = state.advance(PageEventView::Arrived(page)).0;
            &&& after.rows.len() == state.rows.len() + readable
            &&& forall|k: int|
                0 <= k < state.rows.len() ==> (#[trigger] after.rows[k]) == state.rows[k]
            &&& forall|k: int|
                0 <= k < readable ==> names_cells(
                    after.rows[state.rows.len() + k],
                    columns,
                    (#[trigger] rows[k])->Some_0,
                )
        }),
{
    let front = rows.take(readable);
    lemma_readable_front(columns, rows, readable, 0);
    lemma_readable_rows(columns, front, 0);
    let added = readable_rows(columns, front, 0);
    let all = state.rows + added;
    assert forall|k: int| 0 <= k < readable implies names_cells(
        all[state.rows.len() + k],
        columns,
        (#[trigger] rows[k])->Some_0,
    ) by {
        assert(front[k] == rows[k]);
        assert(all[state.rows.len() + k] == added[k]);
    }
}

/// Reading stops at the first row that cannot be read.
proof fn lemma_readable_front(
    columns: Seq<Seq<char>>,
    rows: Seq<Option<Seq<Option<CqlValueView>>>>,
    readable: int,
    i: int,
)
    requires
        0 <= i <= readable < rows.len(),
        all_readable(rows.take(readable)),
        rows[readable] is None,
    ensures
        readable_rows(columns, rows, i) == readable_rows(columns, rows.take(readable), i),
    decreases readable - i,
{
    if i < readable {
        lemma_readable_front(columns, rows, readable, i + 1);
        assert(rows.take(readable)[i] == rows[i]);
    }
}

} // verus!
