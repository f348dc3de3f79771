//! Health checks: the detailed report and the readiness answer, given
//! whether the database answered.

use vstd::prelude::*;

verus! {

/// The detailed health report.
#[derive(Debug, PartialEq, Eq)]
pub struct HealthResponse {
    pub status: String,
    pub version: String,
    pub database: String,
}

/// The body answered when the database does not respond.
#[derive(Debug, PartialEq, Eq)]
pub struct HealthFailure {
    pub status: String,
    pub database: String,
    pub error: String,
}

/// The HTTP statuses of the health endpoints.
#[derive(Debug, Clone, Copy, PartialEq, Eq, Structural)]
pub enum HealthStatus {
    Healthy,
    ServiceUnavailable,
}

/// The detailed health report: `ok` with the service version and a
/// connected database, or an error when the database did not answer.
pub fn health_detailed_report(database_reachable: bool, version: &str) -> (r: Result<HealthResponse, HealthFailure>)
    ensures
        match r {
            Ok(h) => database_reachable && h.status@ == "ok"@ && h.version@ == version@ && h.database@
                == "connected"@,
            Err(f) => !database_reachable && f.status@ == "error"@ && f.database@ == "disconnected"@ && f.error@
                == "Database connectivity check failed"@,
        },
{
    if !database_reachable {
        return Err(HealthFailure {
            status: String::from_str("error"),
            database: String::from_str("disconnected"),
            error: String::from_str("Database connectivity check failed"),
        });
    }
    Ok(HealthResponse {
        status: String::from_str("ok"),
        version: version.to_string(),
        database: String::from_str("connected"),
    })
}

/// The status of the basic health check.
pub open spec fn health_status_text() -> Seq<char> {
    "ok"@
}

/// The service is ready when its database answers.
pub fn readiness_status(database_reachable: bool) -> (s: HealthStatus)
    ensures
        s == if database_reachable { HealthStatus::Healthy } else { HealthStatus::ServiceUnavailable },
{
    if database_reachable {
        HealthStatus::Healthy
    } else {
        HealthStatus::ServiceUnavailable
    }
}

} // verus!
