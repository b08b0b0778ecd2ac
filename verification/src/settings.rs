use vstd::prelude::*;
use vstd::string::StrSliceExecFns;

use crate::ip::all_dec_digits;
use crate::ip::dec_string_val;
use crate::ip::is_dec_digit;

verus! {

/// Ports and bind host of the two endpoints.
pub struct ServerConfig {
    pub log_port: u16,
    pub metrics_port: u16,
    pub host: String,
}

/// Scrape-side configuration.
pub struct MetricsConfig {
    pub job_name: String,
    pub scrape_interval_secs: u64,
}

/// Application settings.
pub struct Settings {
    pub server: ServerConfig,
    pub metrics: MetricsConfig,
    pub log_level: String,
}

impl Default for ServerConfig {
    fn default() -> (s: Self)
        ensures
            s.log_port == 5000,
            s.metrics_port == 9102,
            s.host@ == "0.0.0.0"@,
    {
        ServerConfig { log_port: 5000, metrics_port: 9102, host: "0.0.0.0".to_owned() }
    }
}

impl Default for MetricsConfig {
    fn default() -> (s: Self)
        ensures
            s.job_name@ == "ip_counter_service"@,
            s.scrape_interval_secs == 10,
    {
        MetricsConfig { job_name: "ip_counter_service".to_owned(), scrape_interval_secs: 10 }
    }
}

impl Default for Settings {
    fn default() -> (s: Self)
        ensures
            s.server.log_port == 5000,
            s.server.metrics_port == 9102,
            s.server.host@ == "0.0.0.0"@,
            s.metrics.job_name@ == "ip_counter_service"@,
            s.metrics.scrape_interval_secs == 10,
            s.log_level@ == "info"@,
    {
        Settings {
            server: ServerConfig::default(),
            metrics: MetricsConfig::default(),
            log_level: "info".to_owned(),
        }
    }
}

/// A port override: an optional leading `'+'`, then decimal digits,
/// denoting a value that fits a 16-bit port number.
pub open spec fn spec_parse_port(s: Seq<char>) -> Option<u16> {
    let digits = if s.len() > 0 && s[0] == '+' {
        s.drop_first()
    } else {
        s
    };
    if digits.len() >= 1 && all_dec_digits(digits) && dec_string_val(digits) <= 65535 {
        Some(dec_string_val(digits) as u16)
    } else {
        None
    }
}

/// Parses a port number: an optional `'+'`, then decimal digits,
/// rejecting anything else and values above the 16-bit range.
pub fn parse_port(s: &str) -> (r: Option<u16>)
    ensures
        r == spec_parse_port(s@),
{
    let n = s.unicode_len();
    let mut start: usize = 0;
    if n > 0 && s.get_char(0) == '+' {
        start = 1;
    }
    let ghost digits = if s@.len() > 0 && s@[0] == '+' {
        s@.drop_first()
    } else {
        s@
    };
    proof {
        assert(digits =~= s@.subrange(start as int, n as int));
    }
    if start >= n {
        return None;
    }
    let mut val: u32 = 0;
    let mut i: usize = start;
    while i < n
        invariant
            start <= i <= n,
            n == s@.len(),
            digits =~= s@.subrange(start as int, n as int),
            digits == (if s@.len() > 0 && s@[0] == '+' {
                s@.drop_first()
            } else {
                s@
            }),
            forall|k: int| start <= k < i ==> is_dec_digit(#[trigger] s@[k]),
            dec_string_val(s@.subrange(start as int, i as int)) <= 65535 ==> val == dec_string_val(
                s@.subrange(start as int, i as int),
            ),
            dec_string_val(s@.subrange(start as int, i as int)) > 65535 ==> val == 70000,
            val <= 70000,
        decreases n - i,
    {
        let c = s.get_char(i);
        let u = c as u32;
        if u < 48 || u > 57 {
            proof {
                assert(!is_dec_digit(s@[i as int]));
                assert(digits[i - start] == s@[i as int]);
                assert(!all_dec_digits(digits));
            }
            return None;
        }
        proof {
            let sub = s@.subrange(start as int, i as int);
            let sub1 = s@.subrange(start as int, i + 1);
            assert(sub1.drop_last() =~= sub);
            assert(sub1.last() == s@[i as int]);
        }
        let tmp: u32 = val * 10 + (u - 48);
        if tmp <= 65535 {
            val = tmp;
        } else {
            val = 70000;
        }
        i += 1;
    }
    proof {
        assert(s@.subrange(start as int, n as int) =~= digits);
        assert(all_dec_digits(digits)) by {
            assert(forall|k: int|
                0 <= k < digits.len() ==> #[trigger] digits[k] == s@[start + k]);
        }
    }
    if val <= 65535 {
        Some(val as u16)
    } else {
        None
    }
}

impl Settings {
    /// Builds settings from optional textual overrides, as the
    /// environment supplies them: a port override that does not parse
    /// falls back to the default, any absent value keeps its default.
    pub fn with_overrides(
        log_port: Option<String>,
        metrics_port: Option<String>,
        host: Option<String>,
        log_level: Option<String>,
    ) -> (s: Settings)
        ensures
            s.server.log_port == (match log_port {
                Some(p) => match spec_parse_port(p@) {
                    Some(v) => v,
                    None => 5000u16,
                },
                None => 5000u16,
            }),
            s.server.metrics_port == (match metrics_port {
                Some(p) => match spec_parse_port(p@) {
                    Some(v) => v,
                    None => 9102u16,
                },
                None => 9102u16,
            }),
            s.server.host@ == (match host {
                Some(h) => h@,
                None => "0.0.0.0"@,
            }),
            s.log_level@ == (match log_level {
                Some(l) => l@,
                None => "info"@,
            }),
            s.metrics.job_name@ == "ip_counter_service"@,
            s.metrics.scrape_interval_secs == 10,
    {
        let mut settings = Settings::default();
        if let Some(p) = log_port {
            if let Some(v) = parse_port(p.as_str()) {
                settings.server.log_port = v;
            }
        }
        if let Some(p) = metrics_port {
            if let Some(v) = parse_port(p.as_str()) {
                settings.server.metrics_port = v;
            }
        }
        if let Some(h) = host {
            settings.server.host = h;
        }
        if let Some(l) = log_level {
            settings.log_level = l;
        }
        settings
    }

    /// Checks the settings: the two ports must differ and be non-zero.
    pub fn validate(&self) -> (r: Result<(), String>)
        ensures
            r is Ok <==> (self.server.log_port != self.server.metrics_port && self.server.log_port
                != 0 && self.server.metrics_port != 0),
            self.server.log_port == self.server.metrics_port ==> (r matches Err(m) && m@
                == "Log port and metrics port cannot be the same"@),
            self.server.log_port != self.server.metrics_port && (self.server.log_port == 0
                || self.server.metrics_port == 0) ==> (r matches Err(m) && m@
                == "Ports must be non-zero"@),
    {
        if self.server.log_port == self.server.metrics_port {
            return Err("Log port and metrics port cannot be the same".to_owned());
        }
        if self.server.log_port == 0 || self.server.metrics_port == 0 {
            return Err("Ports must be non-zero".to_owned());
        }
        Ok(())
    }
}

} // verus!
