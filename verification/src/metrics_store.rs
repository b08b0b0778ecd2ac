use vstd::prelude::*;

use crate::text::i64_to_string;
use crate::text::spec_int_string;

verus! {

/// Interface of the metrics sink: it caches one integer gauge, the count
/// of unique addresses, and renders it in the text exposition format.
pub trait MetricsStore: Sized {
    /// The last value pushed to the gauge.
    spec fn value(&self) -> i64;

    /// The text this sink renders for a given gauge value.
    spec fn render_of(v: i64) -> Seq<char>;

    /// Sets the gauge.
    fn update_unique_ip_count(&mut self, count: i64)
        ensures
            final(self).value() == count,
    ;

    /// Renders the metrics: exactly the rendering of the current value.
    fn get_metrics(&self) -> (r: Result<String, String>)
        ensures
            r matches Ok(s) && s@ == Self::render_of(self.value()),
    ;

    /// Reads the gauge back.
    fn get_unique_ip_count(&self) -> (count: i64)
        ensures
            count == self.value(),
    ;
}

#[verifier::external_type_specification]
#[verifier::external_body]
pub struct ExPrometheusError(prometheus::Error);

/// The value the sink's integer gauge currently holds.
pub uninterp spec fn metrics_gauge_value(s: MetricsStoreImpl) -> i64;

/// The text the exposition encoder produces for a registry holding the
/// one `unique_ip_addresses` gauge at the given value.
pub uninterp spec fn rendered_gauge(v: i64) -> Seq<char>;

/// Metrics sink backed by a gauge registered in its own registry. The
/// gauge and registry are outside types, so the struct is opaque to the
/// verifier and is specified through `metrics_gauge_value` alone. The
/// sink has a single owner: the gauge is reference-counted inside
/// prometheus, so no operation here hands out a second handle to it.
#[verifier::external_body]
pub struct MetricsStoreImpl {
    unique_ip_gauge: prometheus::IntGauge,
    registry: prometheus::Registry,
}

impl MetricsStoreImpl {
    /// Relies on prometheus::IntGauge::new and prometheus::Registry::
    /// register: a fresh gauge holds zero, and with this fixed valid
    /// metric name, a non-empty help text and a fresh registry, neither
    /// creation nor registration reports an error. The signature keeps
    /// the error for callers that treat the sink as fallible.
    #[verifier::external_body]
    pub fn new() -> (r: Result<Self, prometheus::Error>)
        ensures
            r is Ok,
            r matches Ok(s) ==> s.value() == 0,
    {
        let registry = prometheus::Registry::new();
        let unique_ip_gauge = prometheus::IntGauge::new(
            "unique_ip_addresses",
            "Total number of unique IP addresses seen since service start",
        )?;
        registry.register(Box::new(unique_ip_gauge.clone()))?;
        Ok(MetricsStoreImpl { unique_ip_gauge, registry })
    }

    /// Relies on prometheus::core::GenericGauge::set.
    #[verifier::external_body]
    fn gauge_set(&mut self, count: i64)
        ensures
            metrics_gauge_value(*final(self)) == count,
    {
        self.unique_ip_gauge.set(count);
    }

    /// Relies on prometheus::core::GenericGauge::get.
    #[verifier::external_body]
    fn gauge_get(&self) -> (count: i64)
        ensures
            count == metrics_gauge_value(*self),
    {
        self.unique_ip_gauge.get()
    }

    /// Relies on prometheus::TextEncoder::encode: the exposition text is a
    /// function of the registered gauge's name, help and value alone, and
    /// for this registry's one gauge the encoder succeeds: its family
    /// check passes, the writes go to a vector and cannot fail, and the
    /// output is ASCII, so the UTF-8 conversion succeeds too.
    #[verifier::external_body]
    fn encode_metrics(&self) -> (r: Result<String, String>)
        ensures
            r is Ok,
            r matches Ok(s) ==> s@ == rendered_gauge(metrics_gauge_value(*self)),
    {
        let encoder = prometheus::TextEncoder::new();
        let metric_families = self.registry.gather();
        let mut buffer = Vec::new();
        if let Err(e) = prometheus::Encoder::encode(&encoder, &metric_families, &mut buffer) {
            return Err(format!("Failed to encode metrics: {}", e));
        }
        String::from_utf8(buffer).map_err(|e| format!("Failed to convert metrics to string: {}", e))
    }
}

impl MetricsStore for MetricsStoreImpl {
    closed spec fn value(&self) -> i64 {
        metrics_gauge_value(*self)
    }

    open spec fn render_of(v: i64) -> Seq<char> {
        rendered_gauge(v)
    }

    fn update_unique_ip_count(&mut self, count: i64) {
        self.gauge_set(count);
    }

    fn get_metrics(&self) -> (r: Result<String, String>) {
        self.encode_metrics()
    }

    fn get_unique_ip_count(&self) -> (count: i64) {
        self.gauge_get()
    }
}

/// The exact text the in-memory sink renders for a gauge value.
pub open spec fn mock_metrics_text(v: i64) -> Seq<char> {
    "# HELP unique_ip_addresses Total number of unique IP addresses\n"@
        + "# TYPE unique_ip_addresses gauge\n"@ + "unique_ip_addresses "@ + spec_int_string(
        v as int,
    ) + "\n"@
}

/// In-memory metrics sink: it holds the gauge as a plain integer and
/// renders the exposition text itself.
pub struct MockMetricsStore {
    count: i64,
}

impl MockMetricsStore {
    pub fn new() -> (s: Self)
        ensures
            s.value() == 0,
    {
        MockMetricsStore { count: 0 }
    }
}

impl Default for MockMetricsStore {
    fn default() -> (s: Self)
        ensures
            s.value() == 0,
    {
        Self::new()
    }
}

impl MetricsStore for MockMetricsStore {
    closed spec fn value(&self) -> i64 {
        self.count
    }

    open spec fn render_of(v: i64) -> Seq<char> {
        mock_metrics_text(v)
    }

    fn update_unique_ip_count(&mut self, count: i64) {
        self.count = count;
    }

    fn get_metrics(&self) -> (r: Result<String, String>) {
        let mut s = String::from_str(
            "# HELP unique_ip_addresses Total number of unique IP addresses\n",
        );
        s.append("# TYPE unique_ip_addresses gauge\n");
        s.append("unique_ip_addresses ");
        let digits = i64_to_string(self.count);
        s.append(digits.as_str());
        s.append("\n");
        Ok(s)
    }

    fn get_unique_ip_count(&self) -> (count: i64) {
        self.count
    }
}

} // verus!
