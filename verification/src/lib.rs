use vstd::prelude::*;

mod error;
mod ip;
mod ip_counter;
mod ip_store;
mod log_entry;
mod metrics;
mod metrics_store;
mod responses;
mod settings;
mod text;

pub use error::AppError;
pub use ip::parse_ip;
pub use ip::IpAddress;
pub use ip_counter::IpCounterService;
pub use log_entry::LogEntry;
pub use ip_store::IpStore;
pub use ip_store::IpStoreImpl;
pub use ip_store::MockIpStore;
pub use metrics_store::MetricsStore;
pub use metrics_store::MetricsStoreImpl;
pub use metrics_store::MockMetricsStore;
pub use metrics::PrometheusService;
pub use responses::log_outcome_response;
pub use responses::HealthResponse;
pub use responses::LogResponse;
pub use responses::StatsResponse;
pub use settings::MetricsConfig;
pub use settings::ServerConfig;
pub use settings::Settings;
pub use text::i64_to_string;
pub use text::u64_to_string;

verus! {

/// Default port for the log-ingestion endpoint.
pub const DEFAULT_LOG_PORT: u16 = 5000;

/// Default port for the metrics endpoint.
pub const DEFAULT_METRICS_PORT: u16 = 9102;

} // verus!
