//! Execution lifecycle decisions: status names, cancellation and
//! rescheduling, statistics, log streams and execution-token scoping.

use vstd::prelude::*;
use vstd::utf8::{decode_utf8, length_of_first_scalar, valid_first_scalar, valid_utf8};
use crate::auth::{
    api_err, opt_str_view, outcome, token_execution_id, ApiError, AuthenticatedUser, Claims, ErrorKind,
    ErrorView, TokenType,
};
use crate::text::{ascii_lower, eq_ignore_ascii_case, i64_to_string, int_decimal, str_eq, u64_to_string};

verus! {

/// Lifecycle status of an execution.
#[derive(Debug, Clone, Copy, PartialEq, Eq, Structural)]
pub enum ExecutionStatus {
    Requested,
    Scheduling,
    Scheduled,
    Running,
    Completed,
    Failed,
    Canceling,
    Cancelled,
    Timeout,
    Abandoned,
}

/// The lower-case name of a status, as used in URLs, messages and
/// status-change notifications.
pub open spec fn status_name_spec(s: ExecutionStatus) -> Seq<char> {
    match s {
        ExecutionStatus::Requested => "requested"@,
        ExecutionStatus::Scheduling => "scheduling"@,
        ExecutionStatus::Scheduled => "scheduled"@,
        ExecutionStatus::Running => "running"@,
        ExecutionStatus::Completed => "completed"@,
        ExecutionStatus::Failed => "failed"@,
        ExecutionStatus::Canceling => "canceling"@,
        ExecutionStatus::Cancelled => "cancelled"@,
        ExecutionStatus::Timeout => "timeout"@,
        ExecutionStatus::Abandoned => "abandoned"@,
    }
}

/// The lower-case name of a status.
pub fn status_name(s: ExecutionStatus) -> (r: &'static str)
    ensures
        r@ == status_name_spec(s),
{
    match s {
        ExecutionStatus::Requested => "requested",
        ExecutionStatus::Scheduling => "scheduling",
        ExecutionStatus::Scheduled => "scheduled",
        ExecutionStatus::Running => "running",
        ExecutionStatus::Completed => "completed",
        ExecutionStatus::Failed => "failed",
        ExecutionStatus::Canceling => "canceling",
        ExecutionStatus::Cancelled => "cancelled",
        ExecutionStatus::Timeout => "timeout",
        ExecutionStatus::Abandoned => "abandoned",
    }
}

/// Every status, in declaration order.
pub open spec fn all_statuses() -> Seq<ExecutionStatus> {
    seq![
        ExecutionStatus::Requested,
        ExecutionStatus::Scheduling,
        ExecutionStatus::Scheduled,
        ExecutionStatus::Running,
        ExecutionStatus::Completed,
        ExecutionStatus::Failed,
        ExecutionStatus::Canceling,
        ExecutionStatus::Cancelled,
        ExecutionStatus::Timeout,
        ExecutionStatus::Abandoned,
    ]
}

/// Outcome of parsing a status path segment. Letters are compared without
/// regard to case (for these ASCII names this is the same as lower-casing
/// the input first).
pub open spec fn parse_status_outcome(s: Seq<char>) -> Result<ExecutionStatus, ErrorView> {
    if exists|st: ExecutionStatus| ascii_lower(s) == status_name_spec(st) {
        Ok(choose|st: ExecutionStatus| ascii_lower(s) == status_name_spec(st))
    } else {
        Err(api_err(ErrorKind::BadRequest, "Invalid execution status: "@ + s))
    }
}

pub(crate) proof fn lemma_status_names_distinct(a: ExecutionStatus, b: ExecutionStatus)
    requires
        status_name_spec(a) == status_name_spec(b),
    ensures
        a == b,
{
    reveal_strlit("requested");
    reveal_strlit("scheduling");
    reveal_strlit("scheduled");
    reveal_strlit("running");
    reveal_strlit("completed");
    reveal_strlit("failed");
    reveal_strlit("canceling");
    reveal_strlit("cancelled");
    reveal_strlit("timeout");
    reveal_strlit("abandoned");
    if a != b {
        let sa = status_name_spec(a);
        let sb = status_name_spec(b);
        if sa.len() == sb.len() {
            assert(sa[0] != sb[0] || sa[1] != sb[1] || sa[2] != sb[2] || sa[3] != sb[3]
                || sa[6] != sb[6] || sa[7] != sb[7]);
        }
    }
}

/// Parses an execution status path segment (case-insensitively).
pub fn parse_execution_status(s: &str) -> (r: Result<ExecutionStatus, ApiError>)
    ensures
        outcome(r) == parse_status_outcome(s@),
{
    let candidates: [ExecutionStatus; 10] = [
        ExecutionStatus::Requested,
        ExecutionStatus::Scheduling,
        ExecutionStatus::Scheduled,
        ExecutionStatus::Running,
        ExecutionStatus::Completed,
        ExecutionStatus::Failed,
        ExecutionStatus::Canceling,
        ExecutionStatus::Cancelled,
        ExecutionStatus::Timeout,
        ExecutionStatus::Abandoned,
    ];
    let mut i: usize = 0;
    while i < 10
        invariant
            i <= 10,
            candidates@ == all_statuses(),
            forall|j: int| 0 <= j < i ==> ascii_lower(s@) != status_name_spec(#[trigger] all_statuses()[j]),
        decreases 10 - i,
    {
        let st = candidates[i];
        if eq_ignore_ascii_case(s, status_name(st)) {
            proof {
                reveal_strlit("requested");
                reveal_strlit("scheduling");
                reveal_strlit("scheduled");
                reveal_strlit("running");
                reveal_strlit("completed");
                reveal_strlit("failed");
                reveal_strlit("canceling");
                reveal_strlit("cancelled");
                reveal_strlit("timeout");
                reveal_strlit("abandoned");
                assert(ascii_lower(status_name_spec(st)) =~= status_name_spec(st));
                let c = choose|x: ExecutionStatus| ascii_lower(s@) == status_name_spec(x);
                lemma_status_names_distinct(c, st);
            }
            return Ok(st);
        }
        proof {
            reveal_strlit("requested");
            reveal_strlit("scheduling");
            reveal_strlit("scheduled");
            reveal_strlit("running");
            reveal_strlit("completed");
            reveal_strlit("failed");
            reveal_strlit("canceling");
            reveal_strlit("cancelled");
            reveal_strlit("timeout");
            reveal_strlit("abandoned");
            assert(ascii_lower(status_name_spec(st)) =~= status_name_spec(st));
        }
        i = i + 1;
    }
    proof {
        assert forall|st: ExecutionStatus| ascii_lower(s@) != status_name_spec(st) by {
            let k: int = match st {
                ExecutionStatus::Requested => 0,
                ExecutionStatus::Scheduling => 1,
                ExecutionStatus::Scheduled => 2,
                ExecutionStatus::Running => 3,
                ExecutionStatus::Completed => 4,
                ExecutionStatus::Failed => 5,
                ExecutionStatus::Canceling => 6,
                ExecutionStatus::Cancelled => 7,
                ExecutionStatus::Timeout => 8,
                ExecutionStatus::Abandoned => 9,
            };
            assert(all_statuses()[k] == st);
        }
    }
    let mut message = String::from_str("Invalid execution status: ");
    message.append(s);
    Err(ApiError::BadRequest(message))
}

/// Whether an execution in this status has finished for good.
pub open spec fn is_terminal_spec(s: ExecutionStatus) -> bool {
    match s {
        ExecutionStatus::Completed | ExecutionStatus::Failed | ExecutionStatus::Cancelled
        | ExecutionStatus::Timeout | ExecutionStatus::Abandoned => true,
        _ => false,
    }
}

/// Whether a log stream should treat the execution as finished: a status
/// that is terminal, or an execution that could not be loaded.
pub fn log_stream_execution_terminal(status: Option<ExecutionStatus>) -> (b: bool)
    ensures
        b == match status {
            Some(s) => is_terminal_spec(s),
            None => true,
        },
{
    match status {
        Some(s) => match s {
            ExecutionStatus::Completed | ExecutionStatus::Failed | ExecutionStatus::Cancelled
            | ExecutionStatus::Timeout | ExecutionStatus::Abandoned => true,
            _ => false,
        },
        None => true,
    }
}

/// Statuses that have not reached a worker yet.
pub open spec fn is_pre_running(s: ExecutionStatus) -> bool {
    s == ExecutionStatus::Requested || s == ExecutionStatus::Scheduling
        || s == ExecutionStatus::Scheduled
}

/// Statuses from which cancellation may be requested.
pub open spec fn is_cancellable(s: ExecutionStatus) -> bool {
    is_pre_running(s) || s == ExecutionStatus::Running || s == ExecutionStatus::Canceling
}

/// What a cancellation request does with an execution.
#[derive(Debug, Clone, Copy, PartialEq, Eq, Structural)]
pub enum CancelPlan {
    /// Already being cancelled: answer with the current state.
    AlreadyCanceling,
    /// Not on a worker yet: mark it cancelled at once.
    CancelImmediately,
    /// On a worker: mark it canceling and ask the worker to stop.
    RequestWorkerStop,
}

/// Outcome of a cancellation request for execution `id` in status `s`.
pub open spec fn cancel_plan_outcome(id: i64, s: ExecutionStatus) -> Result<CancelPlan, ErrorView> {
    if !is_cancellable(s) {
        Err(api_err(
            ErrorKind::Conflict,
            "Execution "@ + int_decimal(id as int) + " is in status '"@ + status_name_spec(s)
                + "' and cannot be cancelled"@,
        ))
    } else if s == ExecutionStatus::Canceling {
        Ok(CancelPlan::AlreadyCanceling)
    } else if is_pre_running(s) {
        Ok(CancelPlan::CancelImmediately)
    } else {
        Ok(CancelPlan::RequestWorkerStop)
    }
}

/// Decides how to cancel execution `id`, currently in status `status`.
pub fn plan_cancellation(id: i64, status: ExecutionStatus) -> (r: Result<CancelPlan, ApiError>)
    ensures
        outcome(r) == cancel_plan_outcome(id, status),
{
    match status {
        ExecutionStatus::Canceling => Ok(CancelPlan::AlreadyCanceling),
        ExecutionStatus::Requested | ExecutionStatus::Scheduling | ExecutionStatus::Scheduled => {
            Ok(CancelPlan::CancelImmediately)
        },
        ExecutionStatus::Running => Ok(CancelPlan::RequestWorkerStop),
        _ => {
            let mut message = String::from_str("Execution ");
            let id_text = i64_to_string(id);
            message.append(id_text.as_str());
            message.append(" is in status '");
            message.append(status_name(status));
            message.append("' and cannot be cancelled");
            Err(ApiError::Conflict(message))
        },
    }
}

/// Outcome of a reschedule request: only requested executions qualify.
pub open spec fn reschedule_outcome(id: i64, s: ExecutionStatus) -> Result<(), ErrorView> {
    if s == ExecutionStatus::Requested {
        Ok(())
    } else {
        Err(api_err(
            ErrorKind::Conflict,
            "Execution "@ + int_decimal(id as int) + " is in status '"@ + status_name_spec(s)
                + "' and cannot be rescheduled; only requested executions are eligible"@,
        ))
    }
}

/// Checks that execution `id` may have its scheduling request republished.
pub fn check_reschedulable(id: i64, status: ExecutionStatus) -> (r: Result<(), ApiError>)
    ensures
        outcome(r) == reschedule_outcome(id, status),
{
    if status == ExecutionStatus::Requested {
        return Ok(());
    }
    let mut message = String::from_str("Execution ");
    let id_text = i64_to_string(id);
    message.append(id_text.as_str());
    message.append(" is in status '");
    message.append(status_name(status));
    message.append("' and cannot be rescheduled; only requested executions are eligible");
    Err(ApiError::Conflict(message))
}

/// How a workflow's cancellation treats children that are already running.
#[derive(Debug, Clone, Copy, PartialEq, Eq, Structural)]
pub enum CancellationPolicy {
    /// Running children finish on their own (the default).
    AllowFinish,
    /// Running children are asked to stop.
    CancelRunning,
}

/// What cascading cancellation does to one incomplete child execution.
#[derive(Debug, Clone, Copy, PartialEq, Eq, Structural)]
pub struct ChildCancelAction {
    /// Set the child to `Cancelled` at once.
    pub mark_cancelled: bool,
    /// Set the child to `Canceling`.
    pub mark_canceling: bool,
    /// Send a cancel message to the child's worker.
    pub signal_worker: bool,
}

/// The cascade rule for one child in status `s`, with or without a worker.
pub open spec fn child_cancel_spec(
    s: ExecutionStatus,
    has_worker: bool,
    policy: CancellationPolicy,
) -> ChildCancelAction {
    if is_pre_running(s) {
        ChildCancelAction { mark_cancelled: true, mark_canceling: false, signal_worker: false }
    } else if (s == ExecutionStatus::Running || s == ExecutionStatus::Canceling) && policy
        == CancellationPolicy::CancelRunning {
        ChildCancelAction {
            mark_cancelled: false,
            mark_canceling: s != ExecutionStatus::Canceling,
            signal_worker: has_worker,
        }
    } else {
        ChildCancelAction { mark_cancelled: false, mark_canceling: false, signal_worker: false }
    }
}

/// Decides what cascading cancellation does to one child execution.
pub fn child_cancel_action(
    status: ExecutionStatus,
    has_worker: bool,
    policy: CancellationPolicy,
) -> (a: ChildCancelAction)
    ensures
        a == child_cancel_spec(status, has_worker, policy),
{
    match status {
        ExecutionStatus::Requested | ExecutionStatus::Scheduling | ExecutionStatus::Scheduled => {
            ChildCancelAction { mark_cancelled: true, mark_canceling: false, signal_worker: false }
        },
        ExecutionStatus::Running | ExecutionStatus::Canceling => match policy {
            CancellationPolicy::CancelRunning => ChildCancelAction {
                mark_cancelled: false,
                mark_canceling: status != ExecutionStatus::Canceling,
                signal_worker: has_worker,
            },
            CancellationPolicy::AllowFinish => ChildCancelAction {
                mark_cancelled: false,
                mark_canceling: false,
                signal_worker: false,
            },
        },
        _ => ChildCancelAction { mark_cancelled: false, mark_canceling: false, signal_worker: false },
    }
}

/// Whether the workflow record of a cancelled parent still has to be marked
/// cancelled (it is not already completed, failed or cancelled).
pub fn workflow_record_needs_cancel(status: ExecutionStatus) -> (b: bool)
    ensures
        b == !(status == ExecutionStatus::Completed || status == ExecutionStatus::Failed
            || status == ExecutionStatus::Cancelled),
{
    !matches!(status, ExecutionStatus::Completed | ExecutionStatus::Failed | ExecutionStatus::Cancelled)
}

/// Whether a child in this status still counts as in flight when deciding
/// to finalize the cancelled parent.
pub fn child_in_flight(status: ExecutionStatus) -> (b: bool)
    ensures
        b == (is_pre_running(status) || status == ExecutionStatus::Running
            || status == ExecutionStatus::Canceling),
{
    matches!(
        status,
        ExecutionStatus::Running | ExecutionStatus::Canceling | ExecutionStatus::Scheduling
            | ExecutionStatus::Scheduled | ExecutionStatus::Requested
    )
}

/// Execution counts by status, as reported by the statistics endpoint.
#[derive(Debug, Clone, Copy, PartialEq, Eq, Structural)]
pub struct ExecutionStats {
    pub total: i64,
    pub completed: i64,
    pub failed: i64,
    pub running: i64,
    pub pending: i64,
    pub cancelled: i64,
    pub timeout: i64,
    pub abandoned: i64,
}

/// One row of the per-status count query.
#[derive(Debug, PartialEq, Eq)]
pub struct StatusCount {
    pub status: String,
    pub count: i64,
}

/// Mathematical counterpart of [`ExecutionStats`].
pub struct StatsSpec {
    pub total: int,
    pub completed: int,
    pub failed: int,
    pub running: int,
    pub pending: int,
    pub cancelled: int,
    pub timeout: int,
    pub abandoned: int,
}

/// All counts zero.
pub open spec fn zero_stats() -> StatsSpec {
    StatsSpec {
        total: 0,
        completed: 0,
        failed: 0,
        running: 0,
        pending: 0,
        cancelled: 0,
        timeout: 0,
        abandoned: 0,
    }
}

/// Folds one row into the statistics: every row adds to the total; the
/// pre-running statuses add to `pending`, `cancelled`/`canceling` add to
/// `cancelled`, and the other named statuses set their own count.
pub open spec fn stats_step(st: StatsSpec, status: Seq<char>, count: int) -> StatsSpec {
    let st = StatsSpec { total: st.total + count, ..st };
    if status == "completed"@ {
        StatsSpec { completed: count, ..st }
    } else if status == "failed"@ {
        StatsSpec { failed: count, ..st }
    } else if status == "running"@ {
        StatsSpec { running: count, ..st }
    } else if status == "requested"@ || status == "scheduling"@ || status == "scheduled"@ {
        StatsSpec { pending: st.pending + count, ..st }
    } else if status == "cancelled"@ || status == "canceling"@ {
        StatsSpec { cancelled: st.cancelled + count, ..st }
    } else if status == "timeout"@ {
        StatsSpec { timeout: count, ..st }
    } else if status == "abandoned"@ {
        StatsSpec { abandoned: count, ..st }
    } else {
        st
    }
}

/// The statistics of a list of rows, folded in order.
pub open spec fn stats_of(rows: Seq<StatusCount>) -> StatsSpec
    decreases rows.len(),
{
    if rows.len() == 0 {
        zero_stats()
    } else {
        stats_step(stats_of(rows.drop_last()), rows.last().status@, rows.last().count as int)
    }
}

/// Sum of the counts of the rows.
pub open spec fn count_sum(rows: Seq<StatusCount>) -> int
    decreases rows.len(),
{
    if rows.len() == 0 {
        0
    } else {
        count_sum(rows.drop_last()) + rows.last().count
    }
}

/// The view of computed statistics.
pub open spec fn stats_view(s: ExecutionStats) -> StatsSpec {
    StatsSpec {
        total: s.total as int,
        completed: s.completed as int,
        failed: s.failed as int,
        running: s.running as int,
        pending: s.pending as int,
        cancelled: s.cancelled as int,
        timeout: s.timeout as int,
        abandoned: s.abandoned as int,
    }
}

/// Every count is within `[0, total]` and the total is the sum so far.
pub open spec fn stats_bounded(st: StatsSpec, rows: Seq<StatusCount>) -> bool {
    &&& st.total == count_sum(rows)
    &&& 0 <= st.completed <= st.total
    &&& 0 <= st.failed <= st.total
    &&& 0 <= st.running <= st.total
    &&& 0 <= st.pending <= st.total
    &&& 0 <= st.cancelled <= st.total
    &&& 0 <= st.timeout <= st.total
    &&& 0 <= st.abandoned <= st.total
}

proof fn lemma_count_sum_prefix(rows: Seq<StatusCount>, k: int)
    requires
        0 <= k <= rows.len(),
        forall|i: int| 0 <= i < rows.len() ==> #[trigger] rows[i].count >= 0,
    ensures
        0 <= count_sum(rows.take(k)) <= count_sum(rows),
    decreases rows.len() - k,
{
    if k < rows.len() {
        lemma_count_sum_prefix(rows, k + 1);
        assert(rows.take(k + 1).drop_last() =~= rows.take(k));
        assert(rows.take(k + 1).last() == rows[k]);
        assert(rows[k].count >= 0);
        assert(count_sum(rows.take(k + 1)) == count_sum(rows.take(k)) + rows[k].count);
        assert forall|i: int| 0 <= i < rows.take(k).len() implies #[trigger] rows.take(k)[i].count >= 0 by {
            assert(rows.take(k)[i] == rows[i]);
        }
        lemma_count_sum_nonneg(rows.take(k));
    } else {
        assert(rows.take(k) =~= rows);
        lemma_count_sum_nonneg(rows);
    }
}

proof fn lemma_count_sum_nonneg(rows: Seq<StatusCount>)
    requires
        forall|i: int| 0 <= i < rows.len() ==> #[trigger] rows[i].count >= 0,
    ensures
        count_sum(rows) >= 0,
    decreases rows.len(),
{
    if rows.len() > 0 {
        let t = rows.drop_last();
        assert forall|i: int| 0 <= i < t.len() implies #[trigger] t[i].count >= 0 by {
            assert(t[i] == rows[i]);
        }
        lemma_count_sum_nonneg(t);
        assert(rows[rows.len() - 1].count >= 0);
    }
}

/// Tallies per-status execution counts. The counts are row counts, so none
/// is negative, and their sum fits in an `i64`.
pub fn tally_execution_stats(rows: &Vec<StatusCount>) -> (st: ExecutionStats)
    requires
        forall|i: int| 0 <= i < rows@.len() ==> #[trigger] rows@[i].count >= 0,
        count_sum(rows@) <= i64::MAX,
    ensures
        stats_view(st) == stats_of(rows@),
{
    let mut st = ExecutionStats {
        total: 0,
        completed: 0,
        failed: 0,
        running: 0,
        pending: 0,
        cancelled: 0,
        timeout: 0,
        abandoned: 0,
    };
    let mut i: usize = 0;
    assert(rows@.take(0) =~= Seq::<StatusCount>::empty());
    while i < rows.len()
        invariant
            i <= rows.len(),
            forall|k: int| 0 <= k < rows@.len() ==> #[trigger] rows@[k].count >= 0,
            count_sum(rows@) <= i64::MAX,
            stats_view(st) == stats_of(rows@.take(i as int)),
            stats_bounded(stats_view(st), rows@.take(i as int)),
        decreases rows.len() - i,
    {
        let ghost prefix = rows@.take(i + 1);
        proof {
            assert(prefix.drop_last() =~= rows@.take(i as int));
            assert(prefix.last() == rows@[i as int]);
            lemma_count_sum_prefix(rows@, i + 1);
            reveal_strlit("completed");
            reveal_strlit("failed");
            reveal_strlit("running");
            reveal_strlit("requested");
            reveal_strlit("scheduling");
            reveal_strlit("scheduled");
            reveal_strlit("cancelled");
            reveal_strlit("canceling");
            reveal_strlit("timeout");
            reveal_strlit("abandoned");
        }
        let row = &rows[i];
        let cnt = row.count;
        let status = row.status.as_str();
        st.total = st.total + cnt;
        if str_eq(status, "completed") {
            st.completed = cnt;
        } else if str_eq(status, "failed") {
            st.failed = cnt;
        } else if str_eq(status, "running") {
            st.running = cnt;
        } else if str_eq(status, "requested") || str_eq(status, "scheduling") || str_eq(
            status,
            "scheduled",
        ) {
            st.pending = st.pending + cnt;
        } else if str_eq(status, "cancelled") || str_eq(status, "canceling") {
            st.cancelled = st.cancelled + cnt;
        } else if str_eq(status, "timeout") {
            st.timeout = cnt;
        } else if str_eq(status, "abandoned") {
            st.abandoned = cnt;
        }
        i = i + 1;
    }
    assert(rows@.take(rows.len() as int) =~= rows@);
    st
}

/// Which captured output stream of an execution is read.
#[derive(Debug, Clone, Copy, PartialEq, Eq, Structural)]
pub enum ExecutionLogStream {
    Stdout,
    Stderr,
}

/// Outcome of parsing a log stream name (exact, case-sensitive match).
pub open spec fn log_stream_outcome(name: Seq<char>) -> Result<ExecutionLogStream, ErrorView> {
    if name == "stdout"@ {
        Ok(ExecutionLogStream::Stdout)
    } else if name == "stderr"@ {
        Ok(ExecutionLogStream::Stderr)
    } else {
        Err(api_err(
            ErrorKind::BadRequest,
            "Unsupported log stream '"@ + name + "'. Expected 'stdout' or 'stderr'."@,
        ))
    }
}

/// Name of the stream's log file inside an execution's directory.
pub open spec fn log_file_name_spec(s: ExecutionLogStream) -> Seq<char> {
    match s {
        ExecutionLogStream::Stdout => "stdout.log"@,
        ExecutionLogStream::Stderr => "stderr.log"@,
    }
}

/// Reference of the artifact that records the stream of an execution.
pub open spec fn log_artifact_ref_spec(s: ExecutionLogStream, execution_id: i64) -> Seq<char> {
    "execution."@ + int_decimal(execution_id as int) + match s {
        ExecutionLogStream::Stdout => ".stdout"@,
        ExecutionLogStream::Stderr => ".stderr"@,
    }
}

impl ExecutionLogStream {
    /// Parses `stdout` or `stderr`.
    pub fn parse(name: &str) -> (r: Result<Self, ApiError>)
        ensures
            outcome(r) == log_stream_outcome(name@),
    {
        if str_eq(name, "stdout") {
            return Ok(ExecutionLogStream::Stdout);
        }
        if str_eq(name, "stderr") {
            return Ok(ExecutionLogStream::Stderr);
        }
        let mut message = String::from_str("Unsupported log stream '");
        message.append(name);
        message.append("'. Expected 'stdout' or 'stderr'.");
        Err(ApiError::BadRequest(message))
    }

    /// The log file name of the stream.
    pub fn file_name(self) -> (r: &'static str)
        ensures
            r@ == log_file_name_spec(self),
    {
        match self {
            ExecutionLogStream::Stdout => "stdout.log",
            ExecutionLogStream::Stderr => "stderr.log",
        }
    }

    /// The artifact reference of the stream for `execution_id`.
    pub fn artifact_ref(self, execution_id: i64) -> (r: String)
        ensures
            r@ == log_artifact_ref_spec(self, execution_id),
    {
        let mut r = String::from_str("execution.");
        let id_text = i64_to_string(execution_id);
        r.append(id_text.as_str());
        match self {
            ExecutionLogStream::Stdout => r.append(".stdout"),
            ExecutionLogStream::Stderr => r.append(".stderr"),
        }
        r
    }
}

/// Message of an invalid or mis-typed token.
pub open spec fn invalid_token_message() -> Seq<char> {
    "Invalid authentication token"@
}

/// Outcome of checking that an execution token was minted for `execution_id`.
pub open spec fn token_scope_outcome(claims: Claims, execution_id: i64) -> Result<(), ErrorView> {
    if !(claims.scope matches Some(sc) && sc@ == "execution"@) {
        Err(api_err(ErrorKind::Unauthorized, invalid_token_message()))
    } else {
        match token_execution_id(claims) {
            None => Err(api_err(ErrorKind::Unauthorized, invalid_token_message())),
            Some(t) => if t != execution_id {
                Err(api_err(
                    ErrorKind::Forbidden,
                    "Execution token is not valid for execution "@ + int_decimal(execution_id as int),
                ))
            } else {
                Ok(())
            },
        }
    }
}

/// Checks an execution token's scope and the execution it was minted for.
pub fn validate_execution_token_scope(claims: &Claims, execution_id: i64) -> (r: Result<(), ApiError>)
    ensures
        outcome(r) == token_scope_outcome(*claims, execution_id),
{
    let scoped = match &claims.scope {
        Some(sc) => str_eq(sc.as_str(), "execution"),
        None => false,
    };
    if !scoped {
        return Err(ApiError::Unauthorized(String::from_str("Invalid authentication token")));
    }
    let token_execution = match claims.execution_id() {
        Some(t) => t,
        None => {
            return Err(ApiError::Unauthorized(String::from_str("Invalid authentication token")));
        },
    };
    if token_execution != execution_id {
        let mut message = String::from_str("Execution token is not valid for execution ");
        let id_text = i64_to_string(execution_id);
        message.append(id_text.as_str());
        return Err(ApiError::Forbidden(message));
    }
    Ok(())
}

/// Outcome of opening the log stream of `execution_id`: access tokens pass,
/// execution tokens must be scoped to that execution, others are refused.
pub open spec fn log_stream_user_outcome(claims: Claims, execution_id: i64) -> Result<(), ErrorView> {
    match claims.token_type {
        TokenType::Access => Ok(()),
        TokenType::Execution => token_scope_outcome(claims, execution_id),
        _ => Err(api_err(ErrorKind::Unauthorized, invalid_token_message())),
    }
}

/// Checks who may stream the logs of `execution_id`.
pub fn validate_execution_log_stream_user(user: &AuthenticatedUser, execution_id: i64) -> (r: Result<(), ApiError>)
    ensures
        outcome(r) == log_stream_user_outcome(user.claims, execution_id),
{
    match user.claims.token_type {
        TokenType::Access => Ok(()),
        TokenType::Execution => validate_execution_token_scope(&user.claims, execution_id),
        _ => Err(ApiError::Unauthorized(String::from_str("Invalid authentication token"))),
    }
}

/// Outcome of subscribing to execution updates, optionally for one
/// execution: execution tokens must name an execution within their scope.
pub open spec fn updates_stream_user_outcome(claims: Claims, execution_id: Option<i64>) -> Result<(), ErrorView> {
    match claims.token_type {
        TokenType::Access => Ok(()),
        TokenType::Execution => match execution_id {
            None => Err(api_err(
                ErrorKind::Forbidden,
                "Execution tokens require an execution_id filter for update streams"@,
            )),
            Some(id) => token_scope_outcome(claims, id),
        },
        _ => Err(api_err(ErrorKind::Unauthorized, invalid_token_message())),
    }
}

/// Checks who may subscribe to execution updates.
pub fn validate_execution_updates_stream_user(
    user: &AuthenticatedUser,
    execution_id: Option<i64>,
) -> (r: Result<(), ApiError>)
    ensures
        outcome(r) == updates_stream_user_outcome(user.claims, execution_id),
{
    match user.claims.token_type {
        TokenType::Access => Ok(()),
        TokenType::Execution => match execution_id {
            None => Err(ApiError::Forbidden(String::from_str(
                "Execution tokens require an execution_id filter for update streams",
            ))),
            Some(id) => validate_execution_token_scope(&user.claims, id),
        },
        _ => Err(ApiError::Unauthorized(String::from_str("Invalid authentication token"))),
    }
}

/// Kind of a server-sent event on an execution log stream.
#[derive(Debug, Clone, Copy, PartialEq, Eq, Structural)]
pub enum LogEventKind {
    /// `waiting`: the stream is waiting for the file or for more output.
    Waiting,
    /// `done`: the stream ends.
    Done,
    /// `content`: output read during the initial catch-up.
    Content,
    /// `append`: output that appeared while tailing.
    Append,
    /// A comment line (no event name).
    Comment,
}

/// A server-sent event: its kind, optional id (the byte offset reached) and
/// data (or comment text).
#[derive(Debug, PartialEq, Eq)]
pub struct LogEvent {
    pub kind: LogEventKind,
    pub id: Option<String>,
    pub data: String,
}

/// Where the tail of an execution log stream stands.
#[derive(Debug, PartialEq, Eq)]
pub enum LogTailState {
    /// The log file does not exist yet.
    WaitingForFile { full_path: String, execution_id: i64 },
    /// Sending what the file already holds.
    SendInitial { full_path: String, execution_id: i64, offset: u64, pending_utf8: Vec<u8> },
    /// Following new output.
    Tail {
        full_path: String,
        execution_id: i64,
        offset: u64,
        idle_polls: u32,
        pending_utf8: Vec<u8>,
    },
    /// The stream has ended.
    Finished,
}

/// A chunk read from the log file: decoded text, the offset after it and
/// the bytes of an incomplete character held back for the next read.
#[derive(Debug, PartialEq, Eq)]
pub struct LogChunk {
    pub content: String,
    pub new_offset: u64,
    pub pending_utf8: Vec<u8>,
}

/// What the stream observed before taking a step. `file_exists` is read while
/// waiting for the file; `chunk` (read from the state's offset with its
/// pending bytes) while sending or tailing; `execution_terminal` while
/// waiting for a file that does not exist or when a tail read found nothing.
pub struct LogTailProbe {
    pub file_exists: bool,
    pub chunk: Option<LogChunk>,
    pub execution_terminal: bool,
}

/// One step of the stream: the event to send (none once finished), whether
/// to pause one poll interval before sending it, and the next state.
pub struct LogTailStep {
    pub event: Option<LogEvent>,
    pub sleep_first: bool,
    pub next: LogTailState,
}

/// Whether `e` has the given kind, no id, and the given data.
pub open spec fn plain_event(e: LogEvent, kind: LogEventKind, data: Seq<char>) -> bool {
    e.kind == kind && e.id is None && e.data@ == data
}

/// Whether `e` carries output `content` that ends at `offset`.
pub open spec fn output_event(e: LogEvent, kind: LogEventKind, offset: u64, content: Seq<char>) -> bool {
    &&& e.kind == kind
    &&& e.data@ == content
    &&& e.id matches Some(id) && id@ == int_decimal(offset as int)
}

/// The transition rule of the log tail.
pub open spec fn log_tail_step_spec(state: LogTailState, start_offset: u64, probe: LogTailProbe, step: LogTailStep) -> bool {
    match state {
        LogTailState::Finished => step.event is None && step.next == LogTailState::Finished && !step.sleep_first,
        LogTailState::WaitingForFile { full_path, execution_id } => {
            if probe.file_exists {
                &&& step.event matches Some(e) && plain_event(e, LogEventKind::Waiting, "Log file found"@)
                &&& !step.sleep_first
                &&& step.next matches LogTailState::SendInitial { full_path: p, execution_id: i, offset: o, pending_utf8: pu }
                    && p == full_path && i == execution_id && o == start_offset && pu@.len() == 0
            } else if probe.execution_terminal {
                &&& step.event matches Some(e) && plain_event(e, LogEventKind::Done, Seq::empty())
                &&& !step.sleep_first
                &&& step.next == LogTailState::Finished
            } else {
                &&& step.event matches Some(e) && plain_event(e, LogEventKind::Waiting, "Waiting for log output"@)
                &&& step.sleep_first
                &&& step.next == (LogTailState::WaitingForFile { full_path, execution_id })
            }
        },
        LogTailState::SendInitial { full_path, execution_id, offset, pending_utf8 } => {
            match probe.chunk {
                Some(c) => {
                    &&& step.event matches Some(e) && output_event(e, LogEventKind::Content, c.new_offset, c.content@)
                    &&& !step.sleep_first
                    &&& step.next == (LogTailState::SendInitial {
                        full_path,
                        execution_id,
                        offset: c.new_offset,
                        pending_utf8: c.pending_utf8,
                    })
                },
                None => {
                    &&& step.event matches Some(e) && plain_event(e, LogEventKind::Comment, "initial-catchup-complete"@)
                    &&& !step.sleep_first
                    &&& step.next == (LogTailState::Tail {
                        full_path,
                        execution_id,
                        offset,
                        idle_polls: 0,
                        pending_utf8,
                    })
                },
            }
        },
        LogTailState::Tail { full_path, execution_id, offset, idle_polls, pending_utf8 } => {
            match probe.chunk {
                Some(c) => {
                    &&& step.event matches Some(e) && output_event(e, LogEventKind::Append, c.new_offset, c.content@)
                    &&& !step.sleep_first
                    &&& step.next == (LogTailState::Tail {
                        full_path,
                        execution_id,
                        offset: c.new_offset,
                        idle_polls: 0,
                        pending_utf8: c.pending_utf8,
                    })
                },
                None => if probe.execution_terminal && idle_polls >= 2 {
                    &&& step.event matches Some(e) && plain_event(e, LogEventKind::Done, "Execution complete"@)
                    &&& !step.sleep_first
                    &&& step.next == LogTailState::Finished
                } else {
                    &&& step.event matches Some(e) && plain_event(e, LogEventKind::Waiting, "Waiting for log output"@)
                    &&& step.sleep_first
                    &&& step.next == (LogTailState::Tail {
                        full_path,
                        execution_id,
                        offset,
                        idle_polls: (idle_polls + 1) as u32,
                        pending_utf8,
                    })
                },
            }
        },
    }
}

fn plain(kind: LogEventKind, data: &str) -> (e: LogEvent)
    ensures
        plain_event(e, kind, data@),
{
    LogEvent { kind, id: None, data: String::from_str(data) }
}

/// Advances the log tail by one step, given what was observed. A tail that
/// has polled `u32::MAX` times without output is outside the contract.
pub fn advance_log_tail(state: LogTailState, start_offset: u64, probe: LogTailProbe) -> (step: LogTailStep)
    requires
        state matches LogTailState::Tail { idle_polls, .. } ==> idle_polls < u32::MAX,
    ensures
        log_tail_step_spec(state, start_offset, probe, step),
{
    match state {
        LogTailState::Finished => LogTailStep { event: None, sleep_first: false, next: LogTailState::Finished },
        LogTailState::WaitingForFile { full_path, execution_id } => {
            if probe.file_exists {
                LogTailStep {
                    event: Some(plain(LogEventKind::Waiting, "Log file found")),
                    sleep_first: false,
                    next: LogTailState::SendInitial {
                        full_path,
                        execution_id,
                        offset: start_offset,
                        pending_utf8: Vec::new(),
                    },
                }
            } else if probe.execution_terminal {
                let e = LogEvent { kind: LogEventKind::Done, id: None, data: String::new() };
                LogTailStep { event: Some(e), sleep_first: false, next: LogTailState::Finished }
            } else {
                LogTailStep {
                    event: Some(plain(LogEventKind::Waiting, "Waiting for log output")),
                    sleep_first: true,
                    next: LogTailState::WaitingForFile { full_path, execution_id },
                }
            }
        },
        LogTailState::SendInitial { full_path, execution_id, offset, pending_utf8 } => {
            match probe.chunk {
                Some(c) => {
                    let id = u64_text(c.new_offset);
                    LogTailStep {
                        event: Some(LogEvent { kind: LogEventKind::Content, id: Some(id), data: c.content }),
                        sleep_first: false,
                        next: LogTailState::SendInitial {
                            full_path,
                            execution_id,
                            offset: c.new_offset,
                            pending_utf8: c.pending_utf8,
                        },
                    }
                },
                None => LogTailStep {
                    event: Some(plain(LogEventKind::Comment, "initial-catchup-complete")),
                    sleep_first: false,
                    next: LogTailState::Tail { full_path, execution_id, offset, idle_polls: 0, pending_utf8 },
                },
            }
        },
        LogTailState::Tail { full_path, execution_id, offset, idle_polls, pending_utf8 } => {
            match probe.chunk {
                Some(c) => {
                    let id = u64_text(c.new_offset);
                    LogTailStep {
                        event: Some(LogEvent { kind: LogEventKind::Append, id: Some(id), data: c.content }),
                        sleep_first: false,
                        next: LogTailState::Tail {
                            full_path,
                            execution_id,
                            offset: c.new_offset,
                            idle_polls: 0,
                            pending_utf8: c.pending_utf8,
                        },
                    }
                },
                None => {
                    if probe.execution_terminal && idle_polls >= 2 {
                        LogTailStep {
                            event: Some(plain(LogEventKind::Done, "Execution complete")),
                            sleep_first: false,
                            next: LogTailState::Finished,
                        }
                    } else {
                        LogTailStep {
                            event: Some(plain(LogEventKind::Waiting, "Waiting for log output")),
                            sleep_first: true,
                            next: LogTailState::Tail {
                                full_path,
                                execution_id,
                                offset,
                                idle_polls: idle_polls + 1,
                                pending_utf8,
                            },
                        }
                    }
                },
            }
        },
    }
}

fn u64_text(n: u64) -> (s: String)
    ensures
        s@ == int_decimal(n as int),
{
    u64_to_string(n)
}

/// Whether an execution-updates notification is forwarded: it must be about
/// an execution, and when a filter is set and the notification names an
/// execution, that execution must be the filtered one.
pub fn update_passes_filter(entity_type: Option<&str>, entity_id: Option<i64>, filter: Option<i64>) -> (b: bool)
    ensures
        b == (opt_str_view(entity_type) == Some("execution"@) && !(filter is Some && entity_id is Some
            && entity_id->0 != filter->0)),
{
    let is_execution = match entity_type {
        Some(t) => str_eq(t, "execution"),
        None => false,
    };
    if !is_execution {
        return false;
    }
    match (filter, entity_id) {
        (Some(f), Some(id)) => id == f,
        _ => true,
    }
}

/// The execution a new manual execution is attributed to as its parent:
/// the execution an execution token was minted for.
pub fn parent_from_token(claims: &Claims) -> (r: Option<i64>)
    ensures
        r == if claims.token_type == TokenType::Execution { token_execution_id(*claims) } else { None },
{
    if claims.token_type == TokenType::Execution {
        claims.execution_id()
    } else {
        None
    }
}

/// The identity recorded as executor of a manual execution. Execution-token
/// callers inherit the executor of their parent execution (`parent_executor`,
/// as loaded), falling back to the token's own identity.
pub fn executor_identity(
    token_type: TokenType,
    identity: Option<i64>,
    parent: Option<i64>,
    parent_executor: Option<i64>,
) -> (r: Option<i64>)
    ensures
        r == if token_type == TokenType::Execution && parent is Some && parent_executor is Some {
            parent_executor
        } else {
            identity
        },
{
    match token_type {
        TokenType::Execution => match parent {
            Some(_) => match parent_executor {
                Some(e) => Some(e),
                None => identity,
            },
            None => identity,
        },
        _ => identity,
    }
}

/// Whether a manual execution request is checked against the caller's
/// action permissions (access and execution tokens are).
pub fn requires_action_authorization(token_type: TokenType) -> (b: bool)
    ensures
        b == (token_type == TokenType::Access || token_type == TokenType::Execution),
{
    matches!(token_type, TokenType::Access | TokenType::Execution)
}

/// Checks a requested artifact retention limit: when given it must be positive.
pub fn check_artifact_retention_limit(limit: Option<i32>) -> (r: Result<(), ApiError>)
    ensures
        outcome(r) == if limit is Some && limit->0 <= 0 {
            Err(api_err(ErrorKind::BadRequest, "artifact_retention_limit must be greater than zero"@))
        } else {
            Ok(())
        },
{
    match limit {
        Some(l) => if l <= 0 {
            Err(ApiError::BadRequest(String::from_str("artifact_retention_limit must be greater than zero")))
        } else {
            Ok(())
        },
        None => Ok(()),
    }
}

/// Retention limit of a new execution: the request's, else the action's,
/// else five versions.
pub fn effective_retention_limit(requested: Option<i32>, action_default: Option<i32>) -> (r: i32)
    ensures
        r == match requested {
            Some(l) => l,
            None => match action_default {
                Some(l) => l,
                None => 5,
            },
        },
{
    match requested {
        Some(l) => l,
        None => match action_default {
            Some(l) => l,
            None => 5,
        },
    }
}

/// Whether `v` is strictly increasing.
pub open spec fn strictly_increasing(v: Seq<i64>) -> bool {
    forall|i: int, j: int| 0 <= i < j < v.len() ==> v[i] < v[j]
}

/// The distinct values of `ids` in increasing order (`sort_unstable` then
/// `dedup`), as used for ancestor executor identities.
pub fn sorted_unique(ids: &Vec<i64>) -> (r: Vec<i64>)
    ensures
        strictly_increasing(r@),
        forall|x: i64| r@.contains(x) <==> ids@.contains(x),
{
    let mut r: Vec<i64> = Vec::new();
    let mut i: usize = 0;
    while i < ids.len()
        invariant
            i <= ids.len(),
            strictly_increasing(r@),
            forall|x: i64| r@.contains(x) <==> ids@.take(i as int).contains(x),
        decreases ids.len() - i,
    {
        let x = ids[i];
        let mut k: usize = 0;
        while k < r.len() && r[k] < x
            invariant
                k <= r.len(),
                strictly_increasing(r@),
                forall|j: int| 0 <= j < k ==> r@[j] < x,
            decreases r.len() - k,
        {
            k = k + 1;
        }
        let ghost before = r@;
        assert(forall|y: i64| before.contains(y) <==> ids@.take(i as int).contains(y));
        if k < r.len() && r[k] == x {
            proof {
                assert(r@[k as int] == x);
                assert(r@.contains(x));
            }
        } else {
            r.insert(k, x);
            proof {
                assert forall|a: int, b: int| 0 <= a < b < r@.len() implies r@[a] < r@[b] by {
                    if b < k {
                    } else if a < k && b == k {
                    } else if a < k {
                        assert(r@[b] == before[b - 1]);
                    } else if a == k {
                        assert(r@[b] == before[b - 1]);
                        assert(before[k as int] >= x);
                        assert(before[k as int] != x);
                    } else {
                        assert(r@[a] == before[a - 1]);
                        assert(r@[b] == before[b - 1]);
                    }
                }
                assert forall|y: i64| r@.contains(y) <==> (before.contains(y) || y == x) by {
                    if r@.contains(y) {
                        let j = choose|j: int| 0 <= j < r@.len() && r@[j] == y;
                        if j < k {
                            assert(before[j] == y);
                        } else if j > k {
                            assert(before[j - 1] == y);
                        }
                    }
                    if before.contains(y) {
                        let j = choose|j: int| 0 <= j < before.len() && before[j] == y;
                        if j < k {
                            assert(r@[j] == y);
                        } else {
                            assert(r@[j + 1] == y);
                        }
                    }
                    if y == x {
                        assert(r@[k as int] == x);
                    }
                }
            }
        }
        assert(forall|y: i64| r@.contains(y) <==> (before.contains(y) || y == x));
        proof {
            let t = ids@.take(i + 1);
            assert(t =~= ids@.take(i as int).push(x));
            assert forall|y: i64| r@.contains(y) <==> t.contains(y) by {
                assert(r@.contains(y) <==> (before.contains(y) || y == x));
                assert(before.contains(y) <==> ids@.take(i as int).contains(y));
                if t.contains(y) {
                    let j = choose|j: int| 0 <= j < t.len() && t[j] == y;
                    if j < i {
                        assert(ids@.take(i as int)[j] == y);
                    }
                }
                if ids@.take(i as int).contains(y) {
                    let j = choose|j: int| 0 <= j < i && ids@.take(i as int)[j] == y;
                    assert(t[j] == y);
                }
                if y == x {
                    assert(t[i as int] == x);
                }
            }
        }
        i = i + 1;
    }
    assert(ids@.take(ids.len() as int) =~= ids@);
    r
}

/// Whether `rest` is the start of a character's encoding that the input
/// ended before completing: some continuation makes it the beginning of a
/// longer valid scalar encoding.
pub open spec fn starts_unfinished_scalar(rest: Seq<u8>) -> bool {
    rest.len() > 0 && exists|t: Seq<u8>|
        #[trigger] valid_first_scalar(rest + t) && length_of_first_scalar(rest + t) > rest.len()
}

/// What `String::from_utf8_lossy` makes of some bytes.
pub uninterp spec fn utf8_lossy(bytes: Seq<u8>) -> Seq<char>;

/// The length of the longest valid UTF-8 prefix of `bytes`.
pub open spec fn longest_valid_prefix(bytes: Seq<u8>) -> int {
    choose|k: int|
        0 <= k <= bytes.len() && valid_utf8(bytes.take(k)) && forall|j: int|
            k < j <= bytes.len() ==> !valid_utf8(#[trigger] bytes.take(j))
}

/// Calls `std::str::from_utf8`. Its documentation: `Ok` exactly for valid
/// UTF-8; an error carries `valid_up_to`, the largest index whose prefix is
/// valid, and `error_len`, which is `None` exactly when the end of the input
/// was reached unexpectedly: the bytes after `valid_up_to` could be the
/// start of a valid character whose encoding continues past the input.
#[verifier::external_body]
fn utf8_check(bytes: &[u8]) -> (r: Result<(), (usize, bool)>)
    ensures
        r is Ok <==> valid_utf8(bytes@),
        match r {
            Ok(_) => true,
            Err((k, incomplete)) => k <= bytes@.len() && valid_utf8(bytes@.take(k as int)) && (forall|j: int|
                k < j <= bytes@.len() ==> !valid_utf8(#[trigger] bytes@.take(j))) && incomplete
                == starts_unfinished_scalar(bytes@.skip(k as int)),
        },
{
    match std::str::from_utf8(bytes) {
        Ok(_) => Ok(()),
        Err(e) => Err((e.valid_up_to(), e.error_len().is_none())),
    }
}

/// Calls `String::from_utf8_lossy`; the result is named. Its
/// documentation: valid UTF-8 is returned as it is.
#[verifier::external_body]
fn lossy_decode(bytes: &[u8]) -> (r: String)
    ensures
        r@ == utf8_lossy(bytes@),
        valid_utf8(bytes@) ==> r@ == decode_utf8(bytes@),
{
    String::from_utf8_lossy(bytes).into_owned()
}

/// How a chunk of log bytes is decoded: valid UTF-8 entirely; a chunk
/// that ends in the middle of a character keeps that tail pending for the
/// next chunk; anything else is decoded lossily.
pub open spec fn utf8_chunk_spec(bytes: Seq<u8>) -> (Seq<char>, Seq<u8>) {
    if valid_utf8(bytes) {
        (decode_utf8(bytes), Seq::empty())
    } else if starts_unfinished_scalar(bytes.skip(longest_valid_prefix(bytes))) {
        let k = longest_valid_prefix(bytes);
        (decode_utf8(bytes.take(k)), bytes.skip(k))
    } else {
        (utf8_lossy(bytes), Seq::empty())
    }
}

/// Decodes a chunk of log bytes, returning the text and the bytes of an
/// incomplete trailing character.
pub fn decode_utf8_chunk(bytes: Vec<u8>) -> (r: (String, Vec<u8>))
    ensures
        (r.0@, r.1@) == utf8_chunk_spec(bytes@),
{
    let mut bytes = bytes;
    let ghost all = bytes@;
    match utf8_check(bytes.as_slice()) {
        Ok(()) => {
            let text = lossy_decode(bytes.as_slice());
            (text, Vec::new())
        },
        Err((k, incomplete)) => {
            proof {
                let c = longest_valid_prefix(all);
                assert(0 <= k <= all.len() && valid_utf8(all.take(k as int)) && forall|j: int|
                    k < j <= all.len() ==> !valid_utf8(#[trigger] all.take(j)));
                if c < k {
                    assert(!valid_utf8(all.take(k as int)));
                } else if c > k {
                    assert(!valid_utf8(all.take(c)));
                }
            }
            if incomplete {
                let pending = bytes.split_off(k);
                assert(bytes@ =~= all.take(k as int));
                assert(pending@ =~= all.skip(k as int));
                let text = lossy_decode(bytes.as_slice());
                (text, pending)
            } else {
                let text = lossy_decode(bytes.as_slice());
                (text, Vec::new())
            }
        },
    }
}

/// Turns bytes read from a log file at `offset` into the next chunk: no
/// chunk when nothing was read; otherwise the read bytes, after the bytes
/// held back from the previous chunk, are decoded as one chunk and the
/// offset advances past them.
pub fn log_chunk_from_read(offset: u64, pending_utf8: Vec<u8>, read: Vec<u8>) -> (r: Option<LogChunk>)
    requires
        offset + read@.len() <= u64::MAX,
    ensures
        read@.len() == 0 ==> r is None,
        read@.len() > 0 ==> (r matches Some(c) && (c.content@, c.pending_utf8@) == utf8_chunk_spec(
            pending_utf8@ + read@,
        ) && c.new_offset == offset + read@.len()),
{
    if read.len() == 0 {
        return None;
    }
    let n = read.len() as u64;
    let mut bytes = pending_utf8;
    let ghost before = bytes@;
    let mut more = read;
    bytes.append(&mut more);
    assert(bytes@ =~= before + read@);
    let (content, pending) = decode_utf8_chunk(bytes);
    Some(LogChunk { content, new_offset: offset + n, pending_utf8: pending })
}

/// The error for executing a disabled action.
pub open spec fn action_disabled_message(action_ref: Seq<char>) -> Seq<char> {
    "Action '"@ + action_ref + "' is disabled"@
}

/// Only enabled actions may be executed.
pub fn check_action_enabled(action_ref: &str, enabled: bool) -> (r: Result<(), ApiError>)
    ensures
        outcome(r) == if enabled {
            Ok::<(), ErrorView>(())
        } else {
            Err(api_err(ErrorKind::BadRequest, action_disabled_message(action_ref@)))
        },
{
    if !enabled {
        let mut message = String::from_str("Action '");
        message.append(action_ref);
        message.append("' is disabled");
        return Err(ApiError::BadRequest(message));
    }
    Ok(())
}

/// The error when an execution would run with permission sets the caller
/// cannot delegate.
pub open spec fn execution_delegation_message() -> Seq<char> {
    "Cannot execute action with permission sets beyond current access"@
}

/// An execution may run with permission sets only when the caller could
/// delegate them; an empty list needs no check.
pub fn check_execution_permission_delegation(refs_count: usize, can_delegate: bool) -> (r: Result<(), ApiError>)
    ensures
        outcome(r) == if refs_count > 0 && !can_delegate {
            Err(api_err(ErrorKind::Forbidden, execution_delegation_message()))
        } else {
            Ok::<(), ErrorView>(())
        },
{
    if refs_count > 0 && !can_delegate {
        return Err(ApiError::Forbidden(
            String::from_str("Cannot execute action with permission sets beyond current access"),
        ));
    }
    Ok(())
}

/// The error when secret parameters cannot be encrypted.
pub open spec fn secret_key_missing_message() -> Seq<char> {
    "Cannot store secret execution parameters without security.encryption_key"@
}

/// Secret parameters are stored only encrypted, which needs the server's
/// encryption key; without secrets no key is needed.
pub fn secret_parameters_key(has_secrets: bool, encryption_key: Option<&str>) -> (r: Result<Option<&str>, ApiError>)
    ensures
        !has_secrets ==> r matches Ok(None),
        has_secrets ==> match encryption_key {
            Some(k) => r matches Ok(Some(v)) && v@ == k@,
            None => outcome(r) == Err::<Option<&str>, ErrorView>(
                api_err(ErrorKind::InternalServerError, secret_key_missing_message()),
            ),
        },
{
    if !has_secrets {
        return Ok(None);
    }
    match encryption_key {
        Some(k) => Ok(Some(k)),
        None => Err(ApiError::InternalServerError(
            String::from_str("Cannot store secret execution parameters without security.encryption_key"),
        )),
    }
}

/// Query parameters of an execution log stream.
#[derive(Debug, Clone, Copy, PartialEq, Eq, Structural)]
pub struct StreamExecutionLogParams {
    pub offset: Option<u64>,
}

impl StreamExecutionLogParams {
    /// The byte offset the stream starts from: the requested one, or the
    /// beginning of the log.
    pub fn start_offset(&self) -> (o: u64)
        ensures
            o == match self.offset {
                Some(v) => v,
                None => 0,
            },
    {
        match self.offset {
            Some(v) => v,
            None => 0,
        }
    }
}

/// Query parameters of the execution update stream.
#[derive(Debug, Clone, Copy, PartialEq, Eq, Structural)]
pub struct StreamExecutionParams {
    pub execution_id: Option<i64>,
}

} // verus!
