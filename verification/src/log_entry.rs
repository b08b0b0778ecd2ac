use vstd::prelude::*;

use crate::ip::parse_ip;
use crate::ip::spec_parse_ip;
use crate::ip::IpAddress;

verus! {

/// Relies on chrono::Utc::now and chrono::DateTime::to_rfc3339 for the
/// creation timestamp; the value depends on the clock, so nothing is
/// stated of it.
#[verifier::external_body]
fn current_timestamp() -> String {
    chrono::Utc::now().to_rfc3339()
}

/// A single ingested record: a creation timestamp, the raw IP text and an
/// optional URL. Transient; only the parsed address is retained.
pub struct LogEntry {
    pub timestamp: String,
    pub ip: String,
    pub url: Option<String>,
}

impl LogEntry {
    /// The URL field is acceptable: absent, or present and non-empty.
    pub open spec fn url_ok(&self) -> bool {
        match self.url {
            Some(u) => u@.len() > 0,
            None => true,
        }
    }

    pub fn new(ip: String, url: Option<String>) -> (e: Self)
        ensures
            e.ip == ip,
            e.url == url,
    {
        LogEntry { timestamp: current_timestamp(), ip, url }
    }

    /// Checks the record: the IP text must be a v4 or v6 literal, and a
    /// present URL must be non-empty.
    pub fn validate(&self) -> (r: Result<(), String>)
        ensures
            r is Ok <==> (spec_parse_ip(self.ip@) is Some && self.url_ok()),
            spec_parse_ip(self.ip@) is None ==> (r matches Err(m) && m@ == "Invalid IP address"@),
            spec_parse_ip(self.ip@) is Some && !self.url_ok() ==> (r matches Err(m) && m@
                == "URL cannot be empty"@),
    {
        if parse_ip(self.ip.as_str()).is_none() {
            return Err("Invalid IP address".to_owned());
        }
        if let Some(url) = &self.url {
            if url.as_str().is_empty() {
                return Err("URL cannot be empty".to_owned());
            }
        }
        Ok(())
    }

    /// Parses the IP text into its address value.
    pub fn parse_ip(&self) -> (r: Result<IpAddress, String>)
        ensures
            match spec_parse_ip(self.ip@) {
                Some(ip) => r == Ok::<IpAddress, String>(ip),
                None => r matches Err(m) && m@ == "Failed to parse IP"@,
            },
    {
        match parse_ip(self.ip.as_str()) {
            Some(ip) => Ok(ip),
            None => Err("Failed to parse IP".to_owned()),
        }
    }
}

} // verus!
