//! Inquiry decisions: status names, who may see and answer an inquiry, and
//! the pagination of inquiry listings.

use vstd::prelude::*;
use crate::auth::{api_err, outcome, ApiError, ErrorKind, ErrorView, TokenType};
use crate::text::{ascii_lower, eq_ignore_ascii_case, i64_to_string, int_decimal};

verus! {

/// Status of an inquiry.
#[derive(Debug, Clone, Copy, PartialEq, Eq, Structural)]
pub enum InquiryStatus {
    Pending,
    Responded,
    Timeout,
    Cancelled,
}

/// The path-segment spelling of each status (`canceled` for `Cancelled`).
pub open spec fn inquiry_status_word(s: InquiryStatus) -> Seq<char> {
    match s {
        InquiryStatus::Pending => "pending"@,
        InquiryStatus::Responded => "responded"@,
        InquiryStatus::Timeout => "timeout"@,
        InquiryStatus::Cancelled => "canceled"@,
    }
}

/// The debug spelling of each status, used in messages.
pub open spec fn inquiry_status_debug(s: InquiryStatus) -> Seq<char> {
    match s {
        InquiryStatus::Pending => "Pending"@,
        InquiryStatus::Responded => "Responded"@,
        InquiryStatus::Timeout => "Timeout"@,
        InquiryStatus::Cancelled => "Cancelled"@,
    }
}

/// Outcome of parsing an inquiry status path segment (ASCII case-insensitive).
pub open spec fn parse_inquiry_status_outcome(s: Seq<char>) -> Result<InquiryStatus, ErrorView> {
    if ascii_lower(s) == "pending"@ {
        Ok(InquiryStatus::Pending)
    } else if ascii_lower(s) == "responded"@ {
        Ok(InquiryStatus::Responded)
    } else if ascii_lower(s) == "timeout"@ {
        Ok(InquiryStatus::Timeout)
    } else if ascii_lower(s) == "canceled"@ {
        Ok(InquiryStatus::Cancelled)
    } else {
        Err(api_err(
            ErrorKind::BadRequest,
            "Invalid inquiry status: '"@ + s
                + "'. Valid values are: pending, responded, timeout, canceled"@,
        ))
    }
}

proof fn lemma_lower_word(w: &str)
    requires
        forall|i: int| 0 <= i < w@.len() ==> 'a' <= #[trigger] w@[i] <= 'z',
    ensures
        ascii_lower(w@) == w@,
{
    assert(ascii_lower(w@) =~= w@);
}

/// Parses an inquiry status path segment.
pub fn parse_inquiry_status(s: &str) -> (r: Result<InquiryStatus, ApiError>)
    ensures
        outcome(r) == parse_inquiry_status_outcome(s@),
{
    proof {
        reveal_strlit("pending");
        reveal_strlit("responded");
        reveal_strlit("timeout");
        reveal_strlit("canceled");
        lemma_lower_word("pending");
        lemma_lower_word("responded");
        lemma_lower_word("timeout");
        lemma_lower_word("canceled");
    }
    if eq_ignore_ascii_case(s, "pending") {
        Ok(InquiryStatus::Pending)
    } else if eq_ignore_ascii_case(s, "responded") {
        Ok(InquiryStatus::Responded)
    } else if eq_ignore_ascii_case(s, "timeout") {
        Ok(InquiryStatus::Timeout)
    } else if eq_ignore_ascii_case(s, "canceled") {
        Ok(InquiryStatus::Cancelled)
    } else {
        let mut message = String::from_str("Invalid inquiry status: '");
        message.append(s);
        message.append("'. Valid values are: pending, responded, timeout, canceled");
        Err(ApiError::BadRequest(message))
    }
}

/// The execution id shown in place of one the caller may not see.
pub const REDACTED_INQUIRY_EXECUTION_ID: i64 = 0;

/// An inquiry as listed.
#[derive(Debug, PartialEq, Eq)]
pub struct InquirySummary {
    pub id: i64,
    pub execution: i64,
    pub prompt: String,
    pub status: InquiryStatus,
    pub assigned_to: Option<i64>,
}

/// An inquiry as returned by the single-item endpoints.
#[derive(Debug, PartialEq, Eq)]
pub struct InquiryResponse {
    pub id: i64,
    pub execution: i64,
    pub prompt: String,
    pub status: InquiryStatus,
    pub assigned_to: Option<i64>,
    pub timeout_at: Option<i64>,
}

/// Hides the linked execution of a listed inquiry unless it is visible.
pub fn redact_inquiry_summary(summary: InquirySummary, execution_visible: bool) -> (r: InquirySummary)
    ensures
        r == (if execution_visible {
            summary
        } else {
            InquirySummary { execution: REDACTED_INQUIRY_EXECUTION_ID, ..summary }
        }),
{
    let mut summary = summary;
    if !execution_visible {
        summary.execution = REDACTED_INQUIRY_EXECUTION_ID;
    }
    summary
}

/// Hides the linked execution of an inquiry unless it is visible.
pub fn redact_inquiry_response(response: InquiryResponse, execution_visible: bool) -> (r: InquiryResponse)
    ensures
        r == (if execution_visible {
            response
        } else {
            InquiryResponse { execution: REDACTED_INQUIRY_EXECUTION_ID, ..response }
        }),
{
    let mut response = response;
    if !execution_visible {
        response.execution = REDACTED_INQUIRY_EXECUTION_ID;
    }
    response
}

/// Whether a caller sees an inquiry and its linked execution.
#[derive(Debug, Clone, Copy, PartialEq, Eq, Structural)]
pub struct InquiryAccessDecision {
    pub content_visible: bool,
    pub execution_visible: bool,
}

/// The access rule: assignees and the executor of the linked execution
/// (participants), and holders of a matching inquiry read grant, see the
/// inquiry; its execution id is shown only when they may also read the
/// linked execution.
pub open spec fn inquiry_access_spec(
    identity_id: i64,
    assigned_to: Option<i64>,
    linked_executor: Option<Option<i64>>,
    scope_reader: bool,
    execution_readable: bool,
) -> InquiryAccessDecision {
    let participant = assigned_to == Some(identity_id) || linked_executor == Some(Some(identity_id));
    let content_visible = participant || scope_reader;
    InquiryAccessDecision {
        content_visible,
        execution_visible: content_visible && linked_executor is Some && execution_readable,
    }
}

/// Decides what a caller may see of an inquiry. `linked_executor` is the
/// executor of the linked execution, or `None` when that execution does not
/// exist; `scope_reader` and `execution_readable` are the RBAC answers for the
/// inquiry and for the linked execution.
pub fn evaluate_inquiry_access(
    identity_id: i64,
    assigned_to: Option<i64>,
    linked_executor: Option<Option<i64>>,
    scope_reader: bool,
    execution_readable: bool,
) -> (d: InquiryAccessDecision)
    ensures
        d == inquiry_access_spec(identity_id, assigned_to, linked_executor, scope_reader, execution_readable),
{
    let assignee = match assigned_to {
        Some(a) => a == identity_id,
        None => false,
    };
    let executor = match linked_executor {
        Some(Some(e)) => e == identity_id,
        _ => false,
    };
    let content_visible = assignee || executor || scope_reader;
    if !content_visible {
        return InquiryAccessDecision { content_visible: false, execution_visible: false };
    }
    let execution_visible = match linked_executor {
        Some(_) => execution_readable,
        None => false,
    };
    InquiryAccessDecision { content_visible: true, execution_visible }
}

/// Outcome of opening inquiry visibility for a caller: only access and
/// execution tokens, with a numeric identity that exists, may use inquiries.
pub open spec fn inquiry_caller_outcome(
    token_type: TokenType,
    identity_id: Option<i64>,
    identity_exists: bool,
) -> Result<i64, ErrorView> {
    if !(token_type == TokenType::Access || token_type == TokenType::Execution) {
        Err(api_err(ErrorKind::Forbidden, "Inquiries are only available to access or execution identities"@))
    } else {
        match identity_id {
            None => Err(api_err(ErrorKind::Unauthorized, "Invalid user identity"@)),
            Some(id) => if identity_exists {
                Ok(id)
            } else {
                Err(api_err(ErrorKind::Unauthorized, "Identity not found"@))
            },
        }
    }
}

/// Checks that a caller may use the inquiry endpoints and returns its
/// identity. `identity_exists` is whether that identity was found.
pub fn check_inquiry_caller(
    token_type: TokenType,
    identity_id: Option<i64>,
    identity_exists: bool,
) -> (r: Result<i64, ApiError>)
    ensures
        outcome(r) == inquiry_caller_outcome(token_type, identity_id, identity_exists),
{
    if !matches!(token_type, TokenType::Access | TokenType::Execution) {
        return Err(ApiError::Forbidden(String::from_str(
            "Inquiries are only available to access or execution identities",
        )));
    }
    match identity_id {
        None => Err(ApiError::Unauthorized(String::from_str("Invalid user identity"))),
        Some(id) => if identity_exists {
            Ok(id)
        } else {
            Err(ApiError::Unauthorized(String::from_str("Identity not found")))
        },
    }
}

/// How far the parent chain of a responding execution is followed.
pub const INQUIRY_ANCESTRY_DEPTH_LIMIT: usize = 100;

/// Whether `creating` is among the first hundred executions of `visited`
/// (the responding execution followed by its ancestors, nearest first).
pub open spec fn ancestry_reaches(visited: Seq<i64>, creating: i64) -> bool {
    exists|k: int| 0 <= k < visited.len() && k < 100 && visited[k] == creating
}

/// Whether the walk up the parent chain reaches the creating execution.
pub fn ancestry_walk_reaches(visited: &Vec<i64>, creating: i64) -> (b: bool)
    ensures
        b == ancestry_reaches(visited@, creating),
{
    let mut k: usize = 0;
    while k < visited.len() && k < INQUIRY_ANCESTRY_DEPTH_LIMIT
        invariant
            k <= visited.len(),
            k <= 100,
            forall|j: int| 0 <= j < k ==> visited@[j] != creating,
        decreases visited.len() - k,
    {
        if visited[k] == creating {
            return true;
        }
        k = k + 1;
    }
    false
}

/// What answering a pending inquiry leads to.
#[derive(Debug, Clone, Copy, PartialEq, Eq, Structural)]
pub enum RespondVerdict {
    /// Record the response.
    Record,
    /// The inquiry has expired: mark it timed out and refuse the answer.
    Expire,
}

/// Outcome of answering inquiry `id`. `token_execution` is the execution an
/// execution token was minted for, `descendant` whether that execution
/// descends from the inquiry's execution `creating`, and `expired` whether
/// the inquiry's deadline has passed.
pub open spec fn respond_outcome(
    id: i64,
    status: InquiryStatus,
    token_execution: Option<i64>,
    creating: i64,
    descendant: bool,
    responded_by: Option<i64>,
    assigned_to: Option<i64>,
    expired: bool,
) -> Result<RespondVerdict, ErrorView> {
    if status != InquiryStatus::Pending {
        Err(api_err(
            ErrorKind::BadRequest,
            "Cannot respond to inquiry with status '"@ + inquiry_status_debug(status)
                + "'. Only pending inquiries can be responded to."@,
        ))
    } else if token_execution == Some(creating) {
        Err(api_err(
            ErrorKind::Forbidden,
            "An execution cannot respond to an inquiry it created (privilege loop)"@,
        ))
    } else if token_execution is Some && descendant {
        Err(api_err(
            ErrorKind::Forbidden,
            "A descendant execution cannot respond to an ancestor's inquiry (privilege loop)"@,
        ))
    } else if responded_by is None {
        Err(api_err(ErrorKind::Forbidden, "Cannot record response: caller has no resolvable identity"@))
    } else if assigned_to is Some && assigned_to != responded_by {
        Err(api_err(
            ErrorKind::Forbidden,
            "Inquiry "@ + int_decimal(id as int) + " is assigned to identity "@
                + int_decimal(assigned_to->0 as int) + " and can only be answered by them"@,
        ))
    } else if expired {
        Ok(RespondVerdict::Expire)
    } else {
        Ok(RespondVerdict::Record)
    }
}

fn status_debug(s: InquiryStatus) -> (r: &'static str)
    ensures
        r@ == inquiry_status_debug(s),
{
    match s {
        InquiryStatus::Pending => "Pending",
        InquiryStatus::Responded => "Responded",
        InquiryStatus::Timeout => "Timeout",
        InquiryStatus::Cancelled => "Cancelled",
    }
}

/// Decides whether an answer to inquiry `id` is recorded.
pub fn decide_inquiry_response(
    id: i64,
    status: InquiryStatus,
    token_execution: Option<i64>,
    creating: i64,
    descendant: bool,
    responded_by: Option<i64>,
    assigned_to: Option<i64>,
    expired: bool,
) -> (r: Result<RespondVerdict, ApiError>)
    ensures
        outcome(r) == respond_outcome(
            id,
            status,
            token_execution,
            creating,
            descendant,
            responded_by,
            assigned_to,
            expired,
        ),
{
    if status != InquiryStatus::Pending {
        let mut message = String::from_str("Cannot respond to inquiry with status '");
        message.append(status_debug(status));
        message.append("'. Only pending inquiries can be responded to.");
        return Err(ApiError::BadRequest(message));
    }
    if let Some(token_exec) = token_execution {
        if token_exec == creating {
            return Err(ApiError::Forbidden(String::from_str(
                "An execution cannot respond to an inquiry it created (privilege loop)",
            )));
        }
        if descendant {
            return Err(ApiError::Forbidden(String::from_str(
                "A descendant execution cannot respond to an ancestor's inquiry (privilege loop)",
            )));
        }
    }
    let responder = match responded_by {
        Some(r) => r,
        None => {
            return Err(ApiError::Forbidden(String::from_str(
                "Cannot record response: caller has no resolvable identity",
            )));
        },
    };
    if let Some(assignee) = assigned_to {
        if assignee != responder {
            let mut message = String::from_str("Inquiry ");
            let id_text = i64_to_string(id);
            message.append(id_text.as_str());
            message.append(" is assigned to identity ");
            let assignee_text = i64_to_string(assignee);
            message.append(assignee_text.as_str());
            message.append(" and can only be answered by them");
            return Err(ApiError::Forbidden(message));
        }
    }
    if expired {
        Ok(RespondVerdict::Expire)
    } else {
        Ok(RespondVerdict::Record)
    }
}

/// The error returned after an expired inquiry has been marked timed out.
pub fn inquiry_expired_error() -> (e: ApiError)
    ensures
        e@ == api_err(ErrorKind::BadRequest, "Inquiry has timed out and can no longer be responded to"@),
{
    ApiError::BadRequest(String::from_str("Inquiry has timed out and can no longer be responded to"))
}

/// Page size and offset of an inquiry listing: the limit defaults to 50 and
/// is clamped to `1..=500`, the offset defaults to 0.
pub struct InquiryPage {
    pub limit: u32,
    pub offset: u32,
    pub page: u32,
}

/// The page arithmetic of the inquiry listing.
pub open spec fn inquiry_page_spec(limit: Option<u32>, offset: Option<u32>) -> (int, int, int) {
    let l: int = match limit {
        Some(v) => if v > 500 { 500 } else if v < 1 { 1 } else { v as int },
        None => 50,
    };
    let o: int = match offset {
        Some(v) => v as int,
        None => 0,
    };
    (l, o, o / l + 1)
}

/// Computes the limit, offset and page number of an inquiry listing (the
/// page number must fit in a `u32`, as the arithmetic in `u32` requires).
pub fn inquiry_page(limit: Option<u32>, offset: Option<u32>) -> (p: InquiryPage)
    requires
        inquiry_page_spec(limit, offset).2 <= u32::MAX,
    ensures
        (p.limit as int, p.offset as int, p.page as int) == inquiry_page_spec(limit, offset),
        1 <= p.limit <= 500,
{
    let raw = match limit {
        Some(v) => v,
        None => 50,
    };
    let l = if raw > 500 { 500 } else if raw < 1 { 1 } else { raw };
    let o = match offset {
        Some(v) => v,
        None => 0,
    };
    InquiryPage { limit: l, offset: o, page: o / l + 1 }
}

/// Splits the rows fetched for one page (at most one more than the page
/// size) into the page and whether a next page exists.
pub fn split_page<T>(rows: Vec<T>, page_size: usize) -> (r: (Vec<T>, bool))
    ensures
        r.1 == (rows@.len() > page_size),
        r.0@ == (if rows@.len() > page_size { rows@.take(page_size as int) } else { rows@ }),
{
    let mut rows = rows;
    let has_next = rows.len() > page_size;
    if has_next {
        rows.truncate(page_size);
    }
    (rows, has_next)
}

} // verus!
