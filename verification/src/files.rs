//! Internal file transfer: which tokens may read or change artifact files,
//! MIME types by extension, and the size limits of pack candidate archives.

use vstd::prelude::*;
use crate::auth::{metadata_text, token_execution_id, AuthenticatedUser, TokenType};
use crate::history::{pack_of_action_ref, pack_ref_of_action_ref};
use crate::text::{find_char, has_prefix, parse_i64, parse_i64_spec, starts_with, str_eq, trim, trim_spec};

verus! {

/// HTTP statuses returned by the internal file endpoints.
#[derive(Debug, Clone, Copy, PartialEq, Eq, Structural)]
pub enum HttpStatus {
    BadRequest,
    Forbidden,
    NotFound,
    PayloadTooLarge,
    InternalServerError,
}

/// An error of the internal file endpoints: status and message.
#[derive(Debug, PartialEq, Eq)]
pub struct FileError {
    pub status: HttpStatus,
    pub message: String,
}

/// The view of a file error result.
pub open spec fn file_outcome<T>(r: Result<T, FileError>) -> Result<T, (HttpStatus, Seq<char>)> {
    match r {
        Ok(v) => Ok(v),
        Err(e) => Err((e.status, e.message@)),
    }
}

fn forbidden(message: &str) -> (e: FileError)
    ensures
        e.status == HttpStatus::Forbidden,
        e.message@ == message@,
{
    FileError { status: HttpStatus::Forbidden, message: String::from_str(message) }
}

/// The error raised when an archive would exceed its byte limit.
#[derive(Debug, Clone, Copy, PartialEq, Eq, Structural)]
pub struct ArchiveLimitExceeded;

/// An in-memory sink for a pack candidate archive that refuses to grow past
/// a fixed number of bytes.
#[derive(Debug)]
pub struct SizeLimitedWriter {
    bytes: Vec<u8>,
    max_bytes: usize,
}

impl SizeLimitedWriter {
    /// The bytes written so far.
    pub closed spec fn contents(&self) -> Seq<u8> {
        self.bytes@
    }

    /// The most bytes the writer accepts in total.
    pub closed spec fn limit(&self) -> nat {
        self.max_bytes as nat
    }

    #[verifier::type_invariant]
    closed spec fn within_limit(&self) -> bool {
        self.bytes@.len() <= self.max_bytes
    }

    /// An empty writer that accepts at most `max_bytes` bytes.
    pub fn new(max_bytes: usize) -> (w: Self)
        ensures
            w.contents() == Seq::<u8>::empty(),
            w.limit() == max_bytes,
    {
        SizeLimitedWriter { bytes: Vec::new(), max_bytes }
    }

    /// Appends `buffer` when it fits in the remaining room; otherwise writes
    /// nothing and fails.
    pub fn write(&mut self, buffer: &[u8]) -> (r: Result<usize, ArchiveLimitExceeded>)
        ensures
            final(self).limit() == old(self).limit(),
            final(self).contents().len() <= final(self).limit(),
            old(self).contents().len() + buffer@.len() <= old(self).limit() ==> {
                &&& r == Ok::<usize, ArchiveLimitExceeded>(buffer@.len() as usize)
                &&& final(self).contents() == old(self).contents() + buffer@
            },
            old(self).contents().len() + buffer@.len() > old(self).limit() ==> {
                &&& r is Err
                &&& final(self).contents() == old(self).contents()
            },
    {
        proof {
            use_type_invariant(&*self);
        }
        if buffer.len() > self.max_bytes - self.bytes.len() {
            return Err(ArchiveLimitExceeded);
        }
        let mut bytes: Vec<u8> = Vec::new();
        std::mem::swap(&mut bytes, &mut self.bytes);
        let ghost start = bytes@;
        let mut i: usize = 0;
        while i < buffer.len()
            invariant
                i <= buffer@.len(),
                bytes@ == start + buffer@.take(i as int),
            decreases buffer@.len() - i,
        {
            bytes.push(buffer[i]);
            assert(bytes@ =~= start + buffer@.take(i + 1));
            i = i + 1;
        }
        assert(buffer@.take(buffer@.len() as int) =~= buffer@);
        self.bytes = bytes;
        Ok(buffer.len())
    }

    /// Nothing is buffered outside `contents`, so flushing always succeeds.
    pub fn flush(&mut self) -> (r: Result<(), ArchiveLimitExceeded>)
        ensures
            r is Ok,
            final(self).contents() == old(self).contents(),
            final(self).limit() == old(self).limit(),
    {
        Ok(())
    }

    /// The bytes written.
    pub fn into_inner(self) -> (b: Vec<u8>)
        ensures
            b@ == self.contents(),
            b@.len() <= self.limit(),
    {
        proof {
            use_type_invariant(&self);
        }
        self.bytes
    }
}

/// The text after the last `.` of a path, or the whole path when it has no
/// `.` (what `path.rsplit('.').next()` yields).
pub open spec fn last_dot_segment(path: Seq<char>) -> Seq<char> {
    if exists|i: int| 0 <= i < path.len() && path[i] == '.' {
        let k = choose|i: int|
            0 <= i < path.len() && path[i] == '.' && forall|j: int| i < j < path.len() ==> path[j] != '.';
        path.subrange(k + 1, path.len() as int)
    } else {
        path
    }
}

/// The MIME type for a file extension.
pub open spec fn mime_for_extension(ext: Seq<char>) -> Seq<char> {
    if ext == "txt"@ || ext == "log"@ {
        "text/plain"@
    } else if ext == "json"@ {
        "application/json"@
    } else if ext == "yaml"@ || ext == "yml"@ {
        "text/yaml"@
    } else if ext == "html"@ || ext == "htm"@ {
        "text/html"@
    } else if ext == "csv"@ {
        "text/csv"@
    } else if ext == "xml"@ {
        "application/xml"@
    } else if ext == "png"@ {
        "image/png"@
    } else if ext == "jpg"@ || ext == "jpeg"@ {
        "image/jpeg"@
    } else if ext == "gif"@ {
        "image/gif"@
    } else if ext == "svg"@ {
        "image/svg+xml"@
    } else if ext == "pdf"@ {
        "application/pdf"@
    } else if ext == "tar"@ {
        "application/x-tar"@
    } else if ext == "gz"@ {
        "application/gzip"@
    } else if ext == "zip"@ {
        "application/zip"@
    } else {
        "application/octet-stream"@
    }
}

fn last_segment(path: &str) -> (seg: &str)
    ensures
        seg@ == last_dot_segment(path@),
{
    let n = path.unicode_len();
    let mut i: usize = n;
    while i > 0 && path.get_char(i - 1) != '.'
        invariant
            i <= n,
            n == path@.len(),
            forall|j: int| i <= j < n ==> path@[j] != '.',
        decreases i,
    {
        i = i - 1;
    }
    if i == 0 {
        assert(!exists|j: int| 0 <= j < path@.len() && path@[j] == '.');
        return path;
    }
    proof {
        let k = (i - 1) as int;
        assert(path@[k] == '.');
        let c = choose|j: int|
            0 <= j < path@.len() && path@[j] == '.' && forall|m: int| j < m < path@.len() ==> path@[m] != '.';
        assert(c == k) by {
            if c < k {
                assert(path@[k] != '.');
            } else if c > k {
                assert(path@[c] != '.');
            }
        }
    }
    path.substring_char(i, n)
}

/// Guesses a MIME type from a file path's extension.
pub fn mime_from_extension(path: &str) -> (m: &'static str)
    ensures
        m@ == mime_for_extension(last_dot_segment(path@)),
{
    let ext = last_segment(path);
    if str_eq(ext, "txt") || str_eq(ext, "log") {
        "text/plain"
    } else if str_eq(ext, "json") {
        "application/json"
    } else if str_eq(ext, "yaml") || str_eq(ext, "yml") {
        "text/yaml"
    } else if str_eq(ext, "html") || str_eq(ext, "htm") {
        "text/html"
    } else if str_eq(ext, "csv") {
        "text/csv"
    } else if str_eq(ext, "xml") {
        "application/xml"
    } else if str_eq(ext, "png") {
        "image/png"
    } else if str_eq(ext, "jpg") || str_eq(ext, "jpeg") {
        "image/jpeg"
    } else if str_eq(ext, "gif") {
        "image/gif"
    } else if str_eq(ext, "svg") {
        "image/svg+xml"
    } else if str_eq(ext, "pdf") {
        "application/pdf"
    } else if str_eq(ext, "tar") {
        "application/x-tar"
    } else if str_eq(ext, "gz") {
        "application/gzip"
    } else if str_eq(ext, "zip") {
        "application/zip"
    } else {
        "application/octet-stream"
    }
}

/// Whether a file request reads or changes content.
#[derive(Debug, Clone, Copy, PartialEq, Eq, Structural)]
pub enum FileOperation {
    Read,
    Mutate,
}

/// The scope under which a token may touch artifact files.
#[derive(Debug, PartialEq, Eq)]
pub enum FileAuthorizationScope {
    /// Workers may touch any artifact file.
    Worker,
    /// Execution tokens read what their artifact read context allows.
    ExecutionRead,
    /// Execution tokens change only files owned by their execution.
    ExecutionMutation(i64),
    /// Sensor tokens touch only files owned by their sensor.
    Sensor(String),
    /// Access tokens act as their user: the operation is allowed when the
    /// user's artifact grants allow it (reading for `Read`, updating for
    /// `Mutate`).
    User(FileOperation),
}

/// The file-transfer scope rule for a token and operation.
pub open spec fn file_scope_spec(
    user: AuthenticatedUser,
    operation: FileOperation,
    r: Result<FileAuthorizationScope, FileError>,
) -> bool {
    match user.claims.token_type {
        TokenType::Worker => r == Ok::<FileAuthorizationScope, FileError>(FileAuthorizationScope::Worker),
        TokenType::Execution => if operation == FileOperation::Read {
            r == Ok::<FileAuthorizationScope, FileError>(FileAuthorizationScope::ExecutionRead)
        } else {
            match token_execution_id(user.claims) {
                Some(id) => r == Ok::<FileAuthorizationScope, FileError>(FileAuthorizationScope::ExecutionMutation(id)),
                None => file_outcome(r) == Err::<FileAuthorizationScope, (HttpStatus, Seq<char>)>(
                    (HttpStatus::Forbidden, "Execution token is missing its execution scope"@),
                ),
            }
        },
        TokenType::Sensor => match metadata_text(user.claims, "sensor_ref"@) {
            Some(t) => if t.len() > 0 {
                r matches Ok(FileAuthorizationScope::Sensor(s)) && s@ == t
            } else {
                file_outcome(r) == Err::<FileAuthorizationScope, (HttpStatus, Seq<char>)>(
                    (HttpStatus::Forbidden, "Sensor token is missing its sensor scope"@),
                )
            },
            None => file_outcome(r) == Err::<FileAuthorizationScope, (HttpStatus, Seq<char>)>(
                (HttpStatus::Forbidden, "Sensor token is missing its sensor scope"@),
            ),
        },
        TokenType::Access => r == Ok::<FileAuthorizationScope, FileError>(FileAuthorizationScope::User(operation)),
        TokenType::Refresh => file_outcome(r) == Err::<FileAuthorizationScope, (HttpStatus, Seq<char>)>(
            (
                HttpStatus::Forbidden,
                "Internal file transfer endpoints require access, execution, sensor, or worker tokens"@,
            ),
        ),
    }
}

/// Decides under which scope a token may perform a file operation: the
/// endpoints accept access, execution, sensor and worker tokens.
pub fn file_authorization_scope(user: &AuthenticatedUser, operation: FileOperation) -> (r: Result<
    FileAuthorizationScope,
    FileError,
>)
    ensures
        file_scope_spec(*user, operation, r),
{
    match user.claims.token_type {
        TokenType::Worker => Ok(FileAuthorizationScope::Worker),
        TokenType::Execution => {
            if operation == FileOperation::Read {
                Ok(FileAuthorizationScope::ExecutionRead)
            } else {
                match user.claims.execution_id() {
                    Some(id) => Ok(FileAuthorizationScope::ExecutionMutation(id)),
                    None => Err(forbidden("Execution token is missing its execution scope")),
                }
            }
        },
        TokenType::Sensor => match user.claims.metadata_str("sensor_ref") {
            Some(t) => if t.unicode_len() > 0 {
                Ok(FileAuthorizationScope::Sensor(String::from_str(t)))
            } else {
                Err(forbidden("Sensor token is missing its sensor scope"))
            },
            None => Err(forbidden("Sensor token is missing its sensor scope")),
        },
        TokenType::Access => Ok(FileAuthorizationScope::User(operation)),
        TokenType::Refresh => Err(forbidden(
            "Internal file transfer endpoints require access, execution, sensor, or worker tokens",
        )),
    }
}

/// The trimmed, non-empty string stored under `key` in the token metadata.
pub open spec fn scoped_value_spec(user: AuthenticatedUser, key: Seq<char>) -> Option<Seq<char>> {
    match metadata_text(user.claims, key) {
        Some(t) => if trim_spec(t).len() > 0 { Some(trim_spec(t)) } else { None },
        None => None,
    }
}

/// Reads a scope value from the token metadata, refusing the token when it
/// is missing or blank.
pub fn scoped_metadata_value(user: &AuthenticatedUser, key: &str, token_name: &str) -> (r: Result<
    String,
    FileError,
>)
    ensures
        match scoped_value_spec(*user, key@) {
            Some(v) => r matches Ok(s) && s@ == v,
            None => file_outcome(r) == Err::<String, (HttpStatus, Seq<char>)>(
                (HttpStatus::Forbidden, token_name@ + " token is missing its "@ + key@ + " scope"@),
            ),
        },
{
    if let Some(t) = user.claims.metadata_str(key) {
        let v = trim(t);
        if v.unicode_len() > 0 {
            return Ok(String::from_str(v));
        }
    }
    let mut message = String::from_str(token_name);
    message.append(" token is missing its ");
    message.append(key);
    message.append(" scope");
    Err(FileError { status: HttpStatus::Forbidden, message })
}

/// The worker a candidate-archive request is scoped to: a worker token whose
/// `worker_id` scope parses as a positive integer.
pub open spec fn candidate_worker_spec(user: AuthenticatedUser) -> Result<i64, (HttpStatus, Seq<char>)> {
    if user.claims.token_type != TokenType::Worker {
        Err((HttpStatus::Forbidden, "Pack install candidate archives require a worker token"@))
    } else {
        match scoped_value_spec(user, "worker_id"@) {
            None => Err((HttpStatus::Forbidden, "Worker token is missing its worker_id scope"@)),
            Some(v) => match parse_i64_spec(v) {
                Some(id) => if id > 0 {
                    Ok(id)
                } else {
                    Err((HttpStatus::Forbidden, "Worker token has an invalid worker_id scope"@))
                },
                None => Err((HttpStatus::Forbidden, "Worker token has an invalid worker_id scope"@)),
            },
        }
    }
}

/// The worker id of a token allowed to download pack install candidates.
pub fn pack_candidate_worker_id(user: &AuthenticatedUser) -> (r: Result<i64, FileError>)
    ensures
        file_outcome(r) == candidate_worker_spec(*user),
{
    if user.claims.token_type != TokenType::Worker {
        return Err(forbidden("Pack install candidate archives require a worker token"));
    }
    let value = match scoped_metadata_value(user, "worker_id", "Worker") {
        Ok(v) => v,
        Err(e) => {
            proof {
                reveal_strlit("Worker");
                reveal_strlit(" token is missing its ");
                reveal_strlit("worker_id");
                reveal_strlit(" scope");
                reveal_strlit("Worker token is missing its worker_id scope");
                assert("Worker"@ + " token is missing its "@ + "worker_id"@ + " scope"@
                    =~= "Worker token is missing its worker_id scope"@);
            }
            return Err(e);
        },
    };
    match parse_i64(value.as_str()) {
        Some(id) => if id > 0 {
            Ok(id)
        } else {
            Err(forbidden("Worker token has an invalid worker_id scope"))
        },
        None => Err(forbidden("Worker token has an invalid worker_id scope")),
    }
}

/// One entry met while walking a pack candidate directory.
#[derive(Debug, Clone, Copy, PartialEq, Eq, Structural)]
pub enum EntryKind {
    Directory,
    /// A regular file of the given length in bytes.
    File(u64),
    Symlink,
    /// Anything else (device, socket, fifo, ...).
    Special,
}

/// Limits on the uncompressed contents of a candidate archive.
#[derive(Debug, Clone, Copy, PartialEq, Eq, Structural)]
pub struct CandidateLimits {
    pub max_entries: u32,
    pub max_entry_bytes: u64,
    pub max_total_bytes: u64,
}

/// `a + b`, saturated at `max`.
pub open spec fn sat_add(a: int, b: int, max: int) -> int {
    if a + b > max { max } else { a + b }
}

/// The walk's outcome on `entries[i..]`, having counted `count` entries and
/// `total` file bytes so far (both counters saturate at their maximum).
pub open spec fn candidate_walk(
    entries: Seq<EntryKind>,
    i: int,
    count: int,
    total: int,
    limits: CandidateLimits,
) -> Result<(), Seq<char>>
    decreases entries.len() - i,
{
    if i < 0 || i >= entries.len() {
        Ok(())
    } else {
        let count2 = sat_add(count, 1, u32::MAX as int);
        if count2 > limits.max_entries {
            Err("pack candidate archive has too many entries"@)
        } else {
            match entries[i] {
                EntryKind::Symlink => Err("pack candidate archive contains a symbolic link"@),
                EntryKind::Directory => candidate_walk(entries, i + 1, count2, total, limits),
                EntryKind::File(len) => if len > limits.max_entry_bytes {
                    Err("pack candidate archive entry exceeds configured size limit"@)
                } else {
                    let total2 = sat_add(total, len as int, u64::MAX as int);
                    if total2 > limits.max_total_bytes {
                        Err("pack candidate archive exceeds configured extracted-size limit"@)
                    } else {
                        candidate_walk(entries, i + 1, count2, total2, limits)
                    }
                },
                EntryKind::Special => Err("pack candidate archive contains a special file"@),
            }
        }
    }
}

/// Checks the entries of a candidate directory, in the order they were
/// walked, against the entry-count and size limits.
pub fn check_candidate_entries(entries: &Vec<EntryKind>, limits: CandidateLimits) -> (r: Result<(), String>)
    ensures
        match r {
            Ok(()) => candidate_walk(entries@, 0, 0, 0, limits) is Ok,
            Err(m) => candidate_walk(entries@, 0, 0, 0, limits) == Err::<(), Seq<char>>(m@),
        },
{
    let mut count: u32 = 0;
    let mut total: u64 = 0;
    let mut i: usize = 0;
    while i < entries.len()
        invariant
            i <= entries.len(),
            candidate_walk(entries@, 0, 0, 0, limits) == candidate_walk(entries@, i as int, count as int, total as int, limits),
        decreases entries.len() - i,
    {
        count = count.saturating_add(1);
        if count > limits.max_entries {
            return Err(String::from_str("pack candidate archive has too many entries"));
        }
        match entries[i] {
            EntryKind::Symlink => {
                return Err(String::from_str("pack candidate archive contains a symbolic link"));
            },
            EntryKind::Directory => {},
            EntryKind::File(len) => {
                if len > limits.max_entry_bytes {
                    return Err(String::from_str(
                        "pack candidate archive entry exceeds configured size limit",
                    ));
                }
                total = total.saturating_add(len);
                if total > limits.max_total_bytes {
                    return Err(String::from_str(
                        "pack candidate archive exceeds configured extracted-size limit",
                    ));
                }
            },
            EntryKind::Special => {
                return Err(String::from_str("pack candidate archive contains a special file"));
            },
        }
        i = i + 1;
    }
    Ok(())
}

/// Largest compressed archive accepted for a candidate: the extracted-size
/// limit plus 1 KiB per entry plus 1 MiB, saturating, capped at `usize::MAX`.
pub open spec fn candidate_archive_limit_spec(max_total_bytes: u64, max_entries: u32) -> int {
    let a = sat_add(max_total_bytes as int, max_entries as int * 1024, u64::MAX as int);
    let b = sat_add(a, 1048576int, u64::MAX as int);
    if b > usize::MAX { usize::MAX as int } else { b }
}

/// The byte limit of the in-memory candidate archive.
pub fn candidate_archive_byte_limit(max_total_bytes: u64, max_entries: u32) -> (n: usize)
    ensures
        n as int == candidate_archive_limit_spec(max_total_bytes, max_entries),
{
    let per_entry = (max_entries as u64) * 1024;
    let a = max_total_bytes.saturating_add(per_entry);
    let b = a.saturating_add(1024 * 1024);
    if b as u128 > usize::MAX as u128 {
        usize::MAX
    } else {
        b as usize
    }
}

/// Message of every refusal that must not reveal whether a candidate exists.
pub open spec fn candidate_not_found_message() -> Seq<char> {
    "Pack install candidate not found"@
}

/// Checks the requested pack install id before any lookup.
pub fn check_pack_install_id(pack_install_id: i64) -> (r: Result<(), FileError>)
    ensures
        file_outcome(r) == if pack_install_id <= 0 {
            Err::<(), (HttpStatus, Seq<char>)>((HttpStatus::BadRequest, "Invalid pack install ID"@))
        } else {
            Ok(())
        },
{
    if pack_install_id <= 0 {
        return Err(FileError { status: HttpStatus::BadRequest, message: String::from_str("Invalid pack install ID") });
    }
    Ok(())
}

/// Whether a pack install record may still serve its candidate to `worker_id`:
/// it is pending or running, started no more than `ttl_secs` before `now`,
/// assigned to that worker, and has a candidate access token.
pub open spec fn candidate_available(
    status: Seq<char>,
    started_at: i64,
    ttl_secs: i64,
    now: i64,
    assigned_worker: Option<i64>,
    worker_id: i64,
    has_token_hash: bool,
) -> bool {
    &&& (status == "pending"@ || status == "running"@)
    &&& !(started_at + ttl_secs < now)
    &&& assigned_worker == Some(worker_id)
    &&& has_token_hash
}

/// Checks that a pack install record may serve its candidate archive; every
/// refusal answers "not found". Times are in seconds.
pub fn check_candidate_install(
    status: &str,
    started_at: i64,
    ttl_secs: i64,
    now: i64,
    assigned_worker: Option<i64>,
    worker_id: i64,
    has_token_hash: bool,
) -> (r: Result<(), FileError>)
    ensures
        file_outcome(r) == if candidate_available(status@, started_at, ttl_secs, now, assigned_worker, worker_id, has_token_hash) {
            Ok::<(), (HttpStatus, Seq<char>)>(())
        } else {
            Err((HttpStatus::NotFound, candidate_not_found_message()))
        },
{
    let active = str_eq(status, "pending") || str_eq(status, "running");
    let expired = (started_at as i128) + (ttl_secs as i128) < (now as i128);
    let assigned = match assigned_worker {
        Some(w) => w == worker_id,
        None => false,
    };
    if active && !expired && assigned && has_token_hash {
        Ok(())
    } else {
        Err(FileError { status: HttpStatus::NotFound, message: String::from_str("Pack install candidate not found") })
    }
}

/// The candidate token presented in the request header, trimmed; a missing
/// or blank header is refused.
pub fn candidate_token_from_header(header: Option<&str>) -> (r: Result<&str, FileError>)
    ensures
        match header {
            Some(h) if trim_spec(h@).len() > 0 => r matches Ok(t) && t@ == trim_spec(h@),
            _ => file_outcome(r) == Err::<&str, (HttpStatus, Seq<char>)>(
                (HttpStatus::Forbidden, "Pack install candidate token is required"@),
            ),
        },
{
    if let Some(h) = header {
        let t = trim(h);
        if t.unicode_len() > 0 {
            return Ok(t);
        }
    }
    Err(forbidden("Pack install candidate token is required"))
}

/// Compares the hash of the presented candidate token with the stored one;
/// a mismatch answers "not found".
pub fn check_candidate_token_hash(presented_hash: &str, expected_hash: &str) -> (r: Result<(), FileError>)
    ensures
        file_outcome(r) == if presented_hash@ == expected_hash@ {
            Ok::<(), (HttpStatus, Seq<char>)>(())
        } else {
            Err((HttpStatus::NotFound, candidate_not_found_message()))
        },
{
    if str_eq(presented_hash, expected_hash) {
        Ok(())
    } else {
        Err(FileError { status: HttpStatus::NotFound, message: String::from_str("Pack install candidate not found") })
    }
}

/// The error for a pack ref that is not one visible path component.
pub open spec fn bad_archive_ref_message() -> Seq<char> {
    "Invalid pack_ref: expected one non-hidden path component"@
}

/// Whether a pack ref is a single visible path component: not empty, no
/// `/`, not starting with `.`.
pub open spec fn single_visible_component(pack_ref: Seq<char>) -> bool {
    pack_ref.len() > 0 && !pack_ref.contains('/') && !has_prefix(pack_ref, "."@)
}

/// A pack archive is addressed by a single visible path component.
pub fn check_pack_archive_ref_shape(pack_ref: &str) -> (r: Result<(), FileError>)
    ensures
        file_outcome(r) == if single_visible_component(pack_ref@) {
            Ok::<(), (HttpStatus, Seq<char>)>(())
        } else {
            Err((HttpStatus::BadRequest, bad_archive_ref_message()))
        },
{
    let slash = find_char(pack_ref, '/');
    proof {
        if pack_ref@.contains('/') {
            let k = choose|k: int| 0 <= k < pack_ref@.len() && pack_ref@[k] == '/';
            assert(slash is Some);
        }
    }
    if pack_ref.unicode_len() == 0 || slash.is_some() || starts_with(pack_ref, ".") {
        return Err(FileError {
            status: HttpStatus::BadRequest,
            message: String::from_str("Invalid pack_ref: expected one non-hidden path component"),
        });
    }
    Ok(())
}

/// Validates the pack ref of an archive request: one visible path
/// component, then the pack-ref validator's outcome (`ref_check`), whose
/// error is reported as `Invalid pack_ref: <error>`.
pub fn validate_pack_archive_ref(pack_ref: &str, ref_check: Result<(), String>) -> (r: Result<(), FileError>)
    ensures
        file_outcome(r) == if !single_visible_component(pack_ref@) {
            Err::<(), (HttpStatus, Seq<char>)>((HttpStatus::BadRequest, bad_archive_ref_message()))
        } else {
            match ref_check {
                Ok(_) => Ok(()),
                Err(e) => Err((HttpStatus::BadRequest, "Invalid pack_ref: "@ + e@)),
            }
        },
{
    check_pack_archive_ref_shape(pack_ref)?;
    match ref_check {
        Ok(_) => Ok(()),
        Err(e) => {
            let mut message = String::from_str("Invalid pack_ref: ");
            message.append(e.as_str());
            Err(FileError { status: HttpStatus::BadRequest, message })
        },
    }
}

/// The pack of a component ref `pack.component`, when the ref is valid
/// (`component_ref_valid`, as the ref validator decides).
pub fn pack_ref_from_component_ref(component_ref: &str, component_ref_valid: bool) -> (r: Option<String>)
    ensures
        match r {
            Some(p) => component_ref_valid && pack_of_action_ref(component_ref@) == Some(p@),
            None => !component_ref_valid || pack_of_action_ref(component_ref@) is None,
        },
{
    if !component_ref_valid {
        return None;
    }
    pack_ref_of_action_ref(component_ref)
}

/// What a pack archive download must be checked against.
#[derive(Debug, PartialEq, Eq)]
pub enum PackArchiveScope {
    /// Workers may download any pack archive.
    Worker,
    /// The pack of this execution's action.
    Execution(i64),
    /// The pack of this sensor.
    Sensor(String),
}

/// The error for a token that may not download a pack archive.
pub open spec fn archive_scope_forbidden_message() -> Seq<char> {
    "Token is not authorized for this pack archive"@
}

/// Mathematical view of a [`PackArchiveScope`].
pub enum PackArchiveScopeView {
    Worker,
    Execution(i64),
    Sensor(Seq<char>),
}

/// The scope rule of pack archive downloads.
pub open spec fn pack_archive_scope_spec(user: AuthenticatedUser) -> Result<PackArchiveScopeView, (HttpStatus, Seq<char>)> {
    match user.claims.token_type {
        TokenType::Worker => match scoped_value_spec(user, "worker_id"@) {
            Some(_) => Ok(PackArchiveScopeView::Worker),
            None => Err((HttpStatus::Forbidden, "Worker"@ + " token is missing its "@ + "worker_id"@ + " scope"@)),
        },
        TokenType::Execution => match token_execution_id(user.claims) {
            Some(id) => Ok(PackArchiveScopeView::Execution(id)),
            None => Err((HttpStatus::Forbidden, "Execution token is missing its execution scope"@)),
        },
        TokenType::Sensor => match scoped_value_spec(user, "sensor_ref"@) {
            Some(v) => Ok(PackArchiveScopeView::Sensor(v)),
            None => Err((HttpStatus::Forbidden, "Sensor"@ + " token is missing its "@ + "sensor_ref"@ + " scope"@)),
        },
        _ => Err((HttpStatus::Forbidden, archive_scope_forbidden_message())),
    }
}

/// The view of a pack archive scope result.
pub open spec fn archive_scope_outcome(r: Result<PackArchiveScope, FileError>) -> Result<
    PackArchiveScopeView,
    (HttpStatus, Seq<char>),
> {
    match r {
        Ok(PackArchiveScope::Worker) => Ok(PackArchiveScopeView::Worker),
        Ok(PackArchiveScope::Execution(id)) => Ok(PackArchiveScopeView::Execution(id)),
        Ok(PackArchiveScope::Sensor(s)) => Ok(PackArchiveScopeView::Sensor(s@)),
        Err(e) => Err((e.status, e.message@)),
    }
}

/// Decides what a pack archive download must be checked against: worker
/// tokens need their worker scope, execution tokens their execution,
/// sensor tokens their sensor; other tokens are refused.
pub fn pack_archive_scope(user: &AuthenticatedUser) -> (r: Result<PackArchiveScope, FileError>)
    ensures
        archive_scope_outcome(r) == pack_archive_scope_spec(*user),
{
    match user.claims.token_type {
        TokenType::Worker => {
            scoped_metadata_value(user, "worker_id", "Worker")?;
            Ok(PackArchiveScope::Worker)
        },
        TokenType::Execution => match user.claims.execution_id() {
            Some(id) => Ok(PackArchiveScope::Execution(id)),
            None => Err(forbidden("Execution token is missing its execution scope")),
        },
        TokenType::Sensor => {
            let sensor_ref = scoped_metadata_value(user, "sensor_ref", "Sensor")?;
            Ok(PackArchiveScope::Sensor(sensor_ref))
        },
        _ => Err(forbidden("Token is not authorized for this pack archive")),
    }
}

/// The answer once the pack owning the token's execution or sensor is
/// known: allowed only when it is the requested pack.
pub fn pack_archive_verdict(owning_pack: Option<&str>, requested_pack: &str) -> (r: Result<(), FileError>)
    ensures
        file_outcome(r) == if opt_pack_view(owning_pack) == Some(requested_pack@) {
            Ok::<(), (HttpStatus, Seq<char>)>(())
        } else {
            Err((HttpStatus::Forbidden, archive_scope_forbidden_message()))
        },
{
    match owning_pack {
        Some(p) => if str_eq(p, requested_pack) {
            Ok(())
        } else {
            Err(forbidden("Token is not authorized for this pack archive"))
        },
        None => Err(forbidden("Token is not authorized for this pack archive")),
    }
}

/// The view of an optional pack ref.
pub open spec fn opt_pack_view(o: Option<&str>) -> Option<Seq<char>> {
    match o {
        Some(s) => Some(s@),
        None => None,
    }
}

/// The error for a file path the token may not touch.
pub open spec fn file_path_forbidden_message() -> Seq<char> {
    "Token is not authorized for this artifact file path"@
}

/// The answer once it is known whether the token's scope covers the file
/// path.
pub fn file_transfer_verdict(allowed: bool) -> (r: Result<(), FileError>)
    ensures
        file_outcome(r) == if allowed {
            Ok::<(), (HttpStatus, Seq<char>)>(())
        } else {
            Err((HttpStatus::Forbidden, file_path_forbidden_message()))
        },
{
    if allowed {
        Ok(())
    } else {
        Err(forbidden("Token is not authorized for this artifact file path"))
    }
}

} // verus!
