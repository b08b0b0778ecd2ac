use vstd::prelude::*;

use crate::error::AppError;
use crate::text::spec_uint_string;
use crate::text::u64_to_string;

verus! {

/// Body of a response to a log submission.
pub struct LogResponse {
    pub status: String,
    pub message: String,
    pub unique_ips: usize,
}

impl LogResponse {
    pub fn success(message: &str, unique_ips: usize) -> (r: Self)
        ensures
            r.status@ == "success"@,
            r.message@ == message@,
            r.unique_ips == unique_ips,
    {
        LogResponse { status: "success".to_owned(), message: message.to_owned(), unique_ips }
    }

    pub fn error(message: &str, unique_ips: usize) -> (r: Self)
        ensures
            r.status@ == "error"@,
            r.message@ == message@,
            r.unique_ips == unique_ips,
    {
        LogResponse { status: "error".to_owned(), message: message.to_owned(), unique_ips }
    }
}

/// The response body for a processed entry, as the ingestion endpoint
/// renders it: growth and duplicates are both successes, and a typed
/// error becomes an error body carrying its message.
pub fn log_outcome_response(outcome: &Result<bool, AppError>, unique_ips: usize) -> (r:
    LogResponse)
    ensures
        outcome matches Ok(newly_seen) ==> (r.status@ == "success"@ && r.unique_ips == unique_ips
            && r.message@ == (if *newly_seen {
            "New IP logged"@
        } else {
            "IP already seen"@
        })),
        outcome matches Err(e) ==> (r.status@ == "error"@ && r.unique_ips == unique_ips
            && r.message@ == e.spec_message()),
{
    match outcome {
        Ok(true) => LogResponse::success("New IP logged", unique_ips),
        Ok(false) => LogResponse::success("IP already seen", unique_ips),
        Err(e) => {
            let message = e.message();
            LogResponse::error(message.as_str(), unique_ips)
        },
    }
}

/// Body of the statistics endpoint's response.
pub struct StatsResponse {
    pub unique_ip_addresses: usize,
    pub estimated_memory_usage_bytes: usize,
    pub uptime_seconds: u64,
}

/// Body of the health endpoint's response.
pub struct HealthResponse {
    pub status: String,
    pub unique_ip_count: usize,
    pub uptime: String,
    pub version: String,
}

impl HealthResponse {
    pub fn healthy(unique_ip_count: usize, uptime_seconds: u64) -> (r: Self)
        ensures
            r.status@ == "healthy"@,
            r.unique_ip_count == unique_ip_count,
            r.uptime@ == spec_uint_string(uptime_seconds as nat) + "s"@,
            r.version@ == "0.1.0"@,
    {
        let mut uptime = u64_to_string(uptime_seconds);
        uptime.append("s");
        HealthResponse {
            status: "healthy".to_owned(),
            unique_ip_count,
            uptime,
            version: "0.1.0".to_owned(),
        }
    }
}

} // verus!
