//! Authenticated callers: token kinds, the claims a token carries and the
//! error type that the route decisions return.

use vstd::prelude::*;
use crate::text::{copy_strings, parse_i64, parse_i64_spec, str_eq, string_views};

verus! {

/// Kind of bearer token presented by a caller.
#[derive(Debug, Clone, Copy, PartialEq, Eq, Structural)]
pub enum TokenType {
    Access,
    Refresh,
    Execution,
    Sensor,
    Worker,
}

/// A value held in a token's metadata object, reduced to what the route
/// logic reads from it: integers, strings and lists of strings.
#[derive(Debug, PartialEq, Eq)]
pub enum MetadataValue {
    Integer(i64),
    Text(String),
    TextList(Vec<String>),
    Other,
}

/// One key of a token's metadata object.
#[derive(Debug, PartialEq, Eq)]
pub struct MetadataEntry {
    pub key: String,
    pub value: MetadataValue,
}

/// The claims of a validated token.
#[derive(Debug, PartialEq, Eq)]
pub struct Claims {
    pub sub: String,
    pub login: String,
    pub iat: i64,
    pub exp: i64,
    pub token_type: TokenType,
    pub scope: Option<String>,
    pub metadata: Option<Vec<MetadataEntry>>,
}

/// A caller whose token has been validated.
#[derive(Debug, PartialEq, Eq)]
pub struct AuthenticatedUser {
    pub claims: Claims,
}

/// Errors of the API, each with the message shown to the caller.
#[derive(Debug, PartialEq, Eq)]
pub enum ApiError {
    BadRequest(String),
    Unauthorized(String),
    Forbidden(String),
    NotFound(String),
    Conflict(String),
    UnprocessableEntity(String),
    ValidationError(String),
    InternalServerError(String),
}

/// The kind of an [`ApiError`] (the HTTP status class it maps to).
#[derive(Debug, Clone, Copy, PartialEq, Eq, Structural)]
pub enum ErrorKind {
    BadRequest,
    Unauthorized,
    Forbidden,
    NotFound,
    Conflict,
    UnprocessableEntity,
    ValidationError,
    InternalServerError,
}

/// Mathematical view of an [`ApiError`]: its kind and message text.
pub struct ErrorView {
    pub kind: ErrorKind,
    pub message: Seq<char>,
}

impl View for ApiError {
    type V = ErrorView;

    open spec fn view(&self) -> ErrorView {
        match self {
            ApiError::BadRequest(m) => ErrorView { kind: ErrorKind::BadRequest, message: m@ },
            ApiError::Unauthorized(m) => ErrorView { kind: ErrorKind::Unauthorized, message: m@ },
            ApiError::Forbidden(m) => ErrorView { kind: ErrorKind::Forbidden, message: m@ },
            ApiError::NotFound(m) => ErrorView { kind: ErrorKind::NotFound, message: m@ },
            ApiError::Conflict(m) => ErrorView { kind: ErrorKind::Conflict, message: m@ },
            ApiError::UnprocessableEntity(m) => ErrorView {
                kind: ErrorKind::UnprocessableEntity,
                message: m@,
            },
            ApiError::ValidationError(m) => ErrorView {
                kind: ErrorKind::ValidationError,
                message: m@,
            },
            ApiError::InternalServerError(m) => ErrorView {
                kind: ErrorKind::InternalServerError,
                message: m@,
            },
        }
    }
}

/// An error of the given kind with the given message.
pub open spec fn api_err(kind: ErrorKind, message: Seq<char>) -> ErrorView {
    ErrorView { kind, message }
}

/// A result with its error replaced by the error's view.
pub open spec fn outcome<T>(r: Result<T, ApiError>) -> Result<T, ErrorView> {
    match r {
        Ok(v) => Ok(v),
        Err(e) => Err(e@),
    }
}

/// The view of an optional string slice.
pub open spec fn opt_str_view(o: Option<&str>) -> Option<Seq<char>> {
    match o {
        Some(s) => Some(s@),
        None => None,
    }
}

/// The view of an optional string.
pub open spec fn opt_string_view(o: Option<String>) -> Option<Seq<char>> {
    match o {
        Some(s) => Some(s@),
        None => None,
    }
}

/// The value stored under `key` in a metadata object (the first entry
/// with that key).
pub open spec fn lookup_entry(entries: Seq<MetadataEntry>, key: Seq<char>) -> Option<MetadataValue>
    decreases entries.len(),
{
    if entries.len() == 0 {
        None
    } else if entries[0].key@ == key {
        Some(entries[0].value)
    } else {
        lookup_entry(entries.drop_first(), key)
    }
}

/// The value stored under `key` in the claims' metadata, if any.
pub open spec fn metadata_value(claims: Claims, key: Seq<char>) -> Option<MetadataValue> {
    match claims.metadata {
        Some(entries) => lookup_entry(entries@, key),
        None => None,
    }
}

/// The metadata value under `key`, read as an integer.
pub open spec fn metadata_integer(claims: Claims, key: Seq<char>) -> Option<i64> {
    match metadata_value(claims, key) {
        Some(MetadataValue::Integer(i)) => Some(i),
        _ => None,
    }
}

/// The metadata value under `key`, read as a string.
pub open spec fn metadata_text(claims: Claims, key: Seq<char>) -> Option<Seq<char>> {
    match metadata_value(claims, key) {
        Some(MetadataValue::Text(t)) => Some(t@),
        _ => None,
    }
}

/// The execution an execution-scoped token was minted for.
pub open spec fn token_execution_id(claims: Claims) -> Option<i64> {
    metadata_integer(claims, "execution_id"@)
}

/// The trigger types a sensor token is scoped to.
pub open spec fn token_trigger_types(claims: Claims) -> Seq<Seq<char>> {
    match metadata_value(claims, "trigger_types"@) {
        Some(MetadataValue::TextList(v)) => string_views(v@),
        _ => Seq::empty(),
    }
}

/// The identity in the token's subject, when it is a decimal integer.
pub open spec fn token_identity_id(claims: Claims) -> Option<i64> {
    parse_i64_spec(claims.sub@)
}

/// Looks up `key` in a metadata object.
pub fn lookup_metadata<'a>(entries: &'a Vec<MetadataEntry>, key: &str) -> (r: Option<&'a MetadataValue>)
    ensures
        match r {
            Some(v) => lookup_entry(entries@, key@) == Some(*v),
            None => lookup_entry(entries@, key@) is None,
        },
{
    let mut i: usize = 0;
    assert(entries@.skip(0) =~= entries@);
    while i < entries.len()
        invariant
            i <= entries.len(),
            lookup_entry(entries@, key@) == lookup_entry(entries@.skip(i as int), key@),
        decreases entries.len() - i,
    {
        let ghost rest = entries@.skip(i as int);
        assert(rest[0] == entries@[i as int]);
        if str_eq(entries[i].key.as_str(), key) {
            return Some(&entries[i].value);
        }
        assert(rest.drop_first() =~= entries@.skip(i + 1));
        i = i + 1;
    }
    None
}

impl Claims {
    /// Looks up `key` in the token metadata.
    pub fn metadata_get(&self, key: &str) -> (r: Option<&MetadataValue>)
        ensures
            match r {
                Some(v) => metadata_value(*self, key@) == Some(*v),
                None => metadata_value(*self, key@) is None,
            },
    {
        match &self.metadata {
            Some(entries) => lookup_metadata(entries, key),
            None => None,
        }
    }

    /// The execution id recorded in the token metadata.
    pub fn execution_id(&self) -> (r: Option<i64>)
        ensures
            r == token_execution_id(*self),
    {
        match self.metadata_get("execution_id") {
            Some(MetadataValue::Integer(i)) => Some(*i),
            _ => None,
        }
    }

    /// The string stored under `key` in the token metadata.
    pub fn metadata_str(&self, key: &str) -> (r: Option<&str>)
        ensures
            match r {
                Some(t) => metadata_text(*self, key@) == Some(t@),
                None => metadata_text(*self, key@) is None,
            },
    {
        match self.metadata_get(key) {
            Some(MetadataValue::Text(t)) => Some(t.as_str()),
            _ => None,
        }
    }

    /// The identity id carried in the subject claim.
    pub fn identity_id(&self) -> (r: Option<i64>)
        ensures
            r == token_identity_id(*self),
    {
        parse_i64(self.sub.as_str())
    }

    /// The trigger types a sensor token may work with.
    pub fn sensor_trigger_types(&self) -> (r: Vec<String>)
        ensures
            string_views(r@) == token_trigger_types(*self),
    {
        match self.metadata_get("trigger_types") {
            Some(MetadataValue::TextList(v)) => copy_strings(v),
            _ => {
                let r: Vec<String> = Vec::new();
                assert(string_views(r@) =~= Seq::<Seq<char>>::empty());
                r
            },
        }
    }
}

/// The lower-case name of a token type, as recorded in audit events.
pub open spec fn token_type_name(t: TokenType) -> Seq<char> {
    match t {
        TokenType::Access => "access"@,
        TokenType::Refresh => "refresh"@,
        TokenType::Execution => "execution"@,
        TokenType::Sensor => "sensor"@,
        TokenType::Worker => "worker"@,
    }
}

/// The lower-case name of a token type.
pub fn token_type_text(t: TokenType) -> (s: &'static str)
    ensures
        s@ == token_type_name(t),
{
    match t {
        TokenType::Access => "access",
        TokenType::Refresh => "refresh",
        TokenType::Execution => "execution",
        TokenType::Sensor => "sensor",
        TokenType::Worker => "worker",
    }
}

} // verus!
