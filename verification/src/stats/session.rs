//! Statistics of the requests that one session makes.
use vstd::prelude::*;

use crate::config::PRINT_RETRY_ERROR_LIMIT;
use crate::text_set::TextSet;

verus! {

/// How a request ended.
#[derive(Debug, PartialEq)]
pub enum RequestOutcome {
    /// The response holds this many rows.
    Rows(u64),
    /// The response holds no rows at all, such as that to a write.
    NoRows,
    /// The request failed, with the text of the error.
    Failed(String),
}

/// What is observed of the queue when a request starts: how many requests are under way, and how
/// many were completed.
#[derive(Debug, Clone, Copy, PartialEq, Eq, Structural)]
pub struct QueueObservation {
    pub queue_length: u64,
    pub req_count: u64,
}

/// Counters of the requests of a session.
#[derive(Debug, PartialEq)]
pub struct SessionStats {
    pub req_count: u64,
    pub req_errors: TextSet,
    pub req_error_count: u64,
    pub req_retry_errors: TextSet,
    pub req_retry_count: u64,
    pub row_count: u64,
    pub queue_length: u64,
    pub resp_times_ns: Vec<u64>,
}

/// What [`SessionStats`] stand for.
pub struct SessionStatsView {
    pub req_count: nat,
    pub req_errors: Set<Seq<char>>,
    pub req_error_count: nat,
    pub req_retry_errors: Set<Seq<char>>,
    pub req_retry_count: nat,
    pub row_count: nat,
    pub queue_length: nat,
    pub resp_times_ns: Seq<u64>,
}

impl View for SessionStats {
    type V = SessionStatsView;

    open spec fn view(&self) -> SessionStatsView {
        SessionStatsView {
            req_count: self.req_count as nat,
            req_errors: self.req_errors@,
            req_error_count: self.req_error_count as nat,
            req_retry_errors: self.req_retry_errors@,
            req_retry_count: self.req_retry_count as nat,
            row_count: self.row_count as nat,
            queue_length: self.queue_length as nat,
            resp_times_ns: self.resp_times_ns@,
        }
    }
}

impl SessionStatsView {
    /// Nothing counted, and no request under way.
    pub open spec fn fresh() -> SessionStatsView {
        SessionStatsView {
            req_count: 0,
            req_errors: Set::empty(),
            req_error_count: 0,
            req_retry_errors: Set::empty(),
            req_retry_count: 0,
            row_count: 0,
            queue_length: 0,
            resp_times_ns: Seq::empty(),
        }
    }

    /// After a request was started.
    pub open spec fn started(self) -> SessionStatsView {
        SessionStatsView { queue_length: self.queue_length + 1, ..self }
    }

    /// After a request was completed with this many rows.
    pub open spec fn completed(self, duration_ns: u64, rows: nat) -> SessionStatsView {
        SessionStatsView {
            queue_length: (self.queue_length - 1) as nat,
            resp_times_ns: self.resp_times_ns.push(duration_ns),
            req_count: self.req_count + 1,
            row_count: self.row_count + rows,
            ..self
        }
    }

    /// After a request failed.
    pub open spec fn failed(self, duration_ns: u64, error: Seq<char>) -> SessionStatsView {
        SessionStatsView {
            queue_length: (self.queue_length - 1) as nat,
            resp_times_ns: self.resp_times_ns.push(duration_ns),
            req_count: self.req_count + 1,
            req_error_count: self.req_error_count + 1,
            req_errors: self.req_errors.insert(error),
            ..self
        }
    }

    /// After a request ended, where the number of rows is that given, or else that of the
    /// response.
    pub open spec fn ended(
        self,
        duration_ns: u64,
        total_rows: Option<u64>,
        outcome: RequestOutcome,
    ) -> SessionStatsView {
        match outcome {
            RequestOutcome::Failed(e) => self.failed(duration_ns, e@),
            RequestOutcome::Rows(n) => self.completed(
                duration_ns,
                (match total_rows {
                    Some(total) => total,
                    None => n,
                }) as nat,
            ),
            RequestOutcome::NoRows => self.completed(
                duration_ns,
                (match total_rows {
                    Some(total) => total,
                    None => 0,
                }) as nat,
            ),
        }
    }

    /// After a request was tried again: only the first few errors are kept.
    pub open spec fn retried(self, error: Seq<char>) -> SessionStatsView {
        SessionStatsView {
            req_retry_count: self.req_retry_count + 1,
            req_retry_errors: if self.req_retry_count + 1 <= PRINT_RETRY_ERROR_LIMIT {
                self.req_retry_errors.insert(error)
            } else {
                self.req_retry_errors
            },
            ..self
        }
    }

    /// After all accumulators were reset. The requests under way remain so.
    pub open spec fn after_reset(self) -> SessionStatsView {
        SessionStatsView { queue_length: self.queue_length, ..SessionStatsView::fresh() }
    }
}

impl SessionStats {
    pub fn new() -> (r: SessionStats)
        ensures
            r@ == SessionStatsView::fresh(),
    {
        SessionStats {
            req_count: 0,
            req_errors: TextSet::new(),
            req_error_count: 0,
            req_retry_errors: TextSet::new(),
            req_retry_count: 0,
            row_count: 0,
            queue_length: 0,
            resp_times_ns: Vec::new(),
        }
    }

    /// Counts a request as under way, and tells what goes into the mean queue length: nothing
    /// before the first request was completed.
    pub fn start_request(&mut self) -> (r: Option<QueueObservation>)
        requires
            old(self).queue_length < u64::MAX,
        ensures
            final(self)@ == old(self)@.started(),
            r == (if old(self).req_count > 0 {
                Some(
                    QueueObservation {
                        queue_length: old(self).queue_length,
                        req_count: old(self).req_count,
                    },
                )
            } else {
                None
            }),
    {
        let observation = if self.req_count > 0 {
            Some(QueueObservation { queue_length: self.queue_length, req_count: self.req_count })
        } else {
            None
        };
        self.queue_length = self.queue_length + 1;
        observation
    }

    /// Counts a request as completed. A response without rows needs `total_rows`.
    pub fn complete_request(
        &mut self,
        duration_ns: u64,
        total_rows: Option<u64>,
        outcome: RequestOutcome,
    )
        requires
            old(self).queue_length > 0,
            old(self).req_count < u64::MAX,
            outcome is Failed ==> old(self).req_error_count < u64::MAX,
            old(self)@.ended(duration_ns, total_rows, outcome).row_count <= u64::MAX,
            outcome is NoRows ==> total_rows is Some,
        ensures
            final(self)@ == old(self)@.ended(duration_ns, total_rows, outcome),
    {
        self.complete_request_batch(duration_ns, total_rows, outcome)
    }

    /// Counts a batch as completed. A response without rows counts as one with none.
    pub fn complete_request_batch(
        &mut self,
        duration_ns: u64,
        total_rows: Option<u64>,
        outcome: RequestOutcome,
    )
        requires
            old(self).queue_length > 0,
            old(self).req_count < u64::MAX,
            outcome is Failed ==> old(self).req_error_count < u64::MAX,
            old(self)@.ended(duration_ns, total_rows, outcome).row_count <= u64::MAX,
        ensures
            final(self)@ == old(self)@.ended(duration_ns, total_rows, outcome),
    {
        let ghost before = self@;
        self.queue_length = self.queue_length - 1;
        self.resp_times_ns.push(duration_ns);
        self.req_count = self.req_count + 1;
        match outcome {
            RequestOutcome::Failed(e) => {
                self.req_error_count = self.req_error_count + 1;
                self.req_errors.insert(e);
            },
            RequestOutcome::Rows(n) => match total_rows {
                Some(total) => {
                    self.row_count = self.row_count + total;
                },
                None => {
                    self.row_count = self.row_count + n;
                },
            },
            RequestOutcome::NoRows => match total_rows {
                Some(total) => {
                    self.row_count = self.row_count + total;
                },
                None => {},
            },
        }
    }

    /// Counts a request that is tried again, and keeps the error if not too many were kept.
    pub fn store_retry_error(&mut self, error_str: String)
        requires
            old(self).req_retry_count < u64::MAX,
        ensures
            final(self)@ == old(self)@.retried(error_str@),
    {
        self.req_retry_count = self.req_retry_count + 1;
        if self.req_retry_count <= PRINT_RETRY_ERROR_LIMIT {
            self.req_retry_errors.insert(error_str);
        }
    }

    /// Resets all accumulators.
    pub fn reset(&mut self)
        ensures
            final(self)@ == old(self)@.after_reset(),
    {
        self.req_error_count = 0;
        self.row_count = 0;
        self.req_count = 0;
        self.req_retry_count = 0;
        self.req_errors.clear();
        self.req_retry_errors.clear();
        self.resp_times_ns = Vec::new();
        // The current queue_length is *not* reset to zero because there might be pending
        // requests, and completing one of them would underflow.
    }

    /// Makes a copy of the statistics.
    pub fn duplicate(&self) -> (r: SessionStats)
        ensures
            r@ == self@,
    {
        let mut resp_times_ns: Vec<u64> = Vec::new();
        let mut i: usize = 0;
        while i < self.resp_times_ns.len()
            invariant
                i <= self.resp_times_ns.len(),
                resp_times_ns@ == self.resp_times_ns@.take(i as int),
            decreases self.resp_times_ns.len() - i,
        {
            resp_times_ns.push(self.resp_times_ns[i]);
            assert(self.resp_times_ns@.take(i + 1) =~= self.resp_times_ns@.take(i as int).push(
                self.resp_times_ns@[i as int],
            ));
            i += 1;
        }
        assert(self.resp_times_ns@.take(i as int) =~= self.resp_times_ns@);
        SessionStats {
            req_count: self.req_count,
            req_errors: self.req_errors.duplicate(),
            req_error_count: self.req_error_count,
            req_retry_errors: self.req_retry_errors.duplicate(),
            req_retry_count: self.req_retry_count,
            row_count: self.row_count,
            queue_length: self.queue_length,
            resp_times_ns,
        }
    }
}

impl Default for SessionStats {
    fn default() -> (r: SessionStats)
        ensures
            r@ == SessionStatsView::fresh(),
    {
        SessionStats::new()
    }
}

/// Requests that are under way when the accumulators are reset can still be completed: a reset
/// leaves the queue as it is, and a reset between the start and the end of a request leaves it
/// as it was before the start.
pub proof fn reset_keeps_pending_requests(
    stats: SessionStatsView,
    duration_ns: u64,
    total_rows: Option<u64>,
    outcome: RequestOutcome,
)
    ensures
        stats.after_reset().queue_length == stats.queue_length,
        stats.started().after_reset().ended(duration_ns, total_rows, outcome).queue_length
            == stats.queue_length,
{
}

/// Every request that ends is counted once, with its duration, whether it failed or not.
pub proof fn every_request_is_counted(
    stats: SessionStatsView,
    duration_ns: u64,
    total_rows: Option<u64>,
    outcome: RequestOutcome,
)
    ensures
        ({
            let after = stats.started().ended(duration_ns, total_rows, outcome);
            &&& after.req_count == stats.req_count + 1
            &&& after.resp_times_ns == stats.resp_times_ns.push(duration_ns)
            &&& after.queue_length == stats.queue_length
            &&& after.req_error_count == stats.req_error_count + (if outcome is Failed {
                1nat
            } else {
                0nat
            })
        }),
{
}

/// At most so many errors of retried requests are kept as were retried, and never more than the
/// limit.
pub open spec fn retry_errors_bounded(stats: SessionStatsView) -> bool {
    &&& stats.req_retry_errors.finite()
    &&& stats.req_retry_errors.len() <= stats.req_retry_count
    &&& stats.req_retry_errors.len() <= PRINT_RETRY_ERROR_LIMIT
}

/// The bound on the kept errors holds at first and is kept by every operation.
pub proof fn retry_errors_stay_bounded(
    stats: SessionStatsView,
    error: Seq<char>,
    duration_ns: u64,
    total_rows: Option<u64>,
    outcome: RequestOutcome,
)
    ensures
        retry_errors_bounded(SessionStatsView::fresh()),
        retry_errors_bounded(stats) ==> {
            &&& retry_errors_bounded(stats.retried(error))
            &&& retry_errors_bounded(stats.started())
            &&& retry_errors_bounded(stats.ended(duration_ns, total_rows, outcome))
            &&& retry_errors_bounded(stats.after_reset())
        },
{
}

/// A session starts with nothing counted, and so does a session after a reset, but for the requests
/// that are under way.
pub proof fn sessions_start_empty(stats: SessionStatsView)
    ensures
        ({
            let fresh = SessionStatsView::fresh();
            let reset = stats.after_reset();
            &&& fresh.queue_length == 0
            &&& reset.queue_length == stats.queue_length
            &&& fresh.req_count == 0 && reset.req_count == 0
            &&& fresh.req_error_count == 0 && reset.req_error_count == 0
            &&& fresh.req_retry_count == 0 && reset.req_retry_count == 0
            &&& fresh.row_count == 0 && reset.row_count == 0
            &&& fresh.resp_times_ns.len() == 0 && reset.resp_times_ns.len() == 0
            &&& forall|e: Seq<char>| !fresh.req_errors.contains(e) && !reset.req_errors.contains(e)
            &&& forall|e: Seq<char>|
                !fresh.req_retry_errors.contains(e) && !reset.req_retry_errors.contains(e)
        }),
{
}

/// A request that starts is one more under way, and changes nothing else.
pub proof fn starting_counts_as_under_way(stats: SessionStatsView)
    ensures
        stats.started().queue_length == stats.queue_length + 1,
        stats.started() == (SessionStatsView { queue_length: stats.queue_length + 1, ..stats }),
{
}

/// A request that ends counts its rows: those that were counted over all pages, or else those of
/// the response. One that failed counts no rows, and its error is kept. What was tried again stays
/// as it is.
pub proof fn ended_requests_count_their_rows(
    stats: SessionStatsView,
    duration_ns: u64,
    total: u64,
    rows: u64,
    error: String,
)
    ensures
        stats.ended(duration_ns, Some(total), RequestOutcome::Rows(rows)).row_count
            == stats.row_count + total,
        stats.ended(duration_ns, None, RequestOutcome::Rows(rows)).row_count == stats.row_count
            + rows,
        stats.ended(duration_ns, Some(total), RequestOutcome::NoRows).row_count == stats.row_count
            + total,
        stats.ended(duration_ns, None, RequestOutcome::NoRows).row_count == stats.row_count,
        stats.ended(duration_ns, Some(total), RequestOutcome::Failed(error)).row_count
            == stats.row_count,
        stats.ended(duration_ns, Some(total), RequestOutcome::Failed(error)).req_errors
            == stats.req_errors.insert(error@),
        stats.ended(duration_ns, Some(total), RequestOutcome::Rows(rows)).req_errors
            == stats.req_errors,
        stats.ended(duration_ns, Some(total), RequestOutcome::NoRows).req_errors
            == stats.req_errors,
        forall|outcome: RequestOutcome| #[trigger]
            stats.ended(duration_ns, Some(total), outcome).req_retry_count
                == stats.req_retry_count,
        forall|outcome: RequestOutcome| #[trigger]
            stats.ended(duration_ns, Some(total), outcome).req_retry_errors
                == stats.req_retry_errors,
{
}

/// A request that is tried again is counted, and its error is kept if it is one of the first five.
/// Nothing else changes.
pub proof fn first_retry_errors_are_kept(stats: SessionStatsView, error: Seq<char>)
    ensures
        stats.retried(error) == (SessionStatsView {
            req_retry_count: stats.req_retry_count + 1,
            req_retry_errors: if stats.req_retry_count < 5 {
                stats.req_retry_errors.insert(error)
            } else {
                stats.req_retry_errors
            },
            ..stats
        }),
{
}

} // verus!
