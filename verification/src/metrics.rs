use vstd::prelude::*;

use crate::error::AppError;
use crate::metrics_store::MetricsStore;

verus! {

/// Read side of the metrics sink, as the scrape endpoint consumes it.
pub struct PrometheusService<M: MetricsStore> {
    metrics_store: M,
}

impl<M: MetricsStore> PrometheusService<M> {
    pub fn new(metrics_store: M) -> (s: Self)
        ensures
            s.sink_value() == metrics_store.value(),
    {
        PrometheusService { metrics_store }
    }

    /// The last value pushed to the underlying sink.
    pub closed spec fn sink_value(&self) -> i64 {
        self.metrics_store.value()
    }

    /// The text the underlying sink renders for its current value.
    pub open spec fn sink_render(&self) -> Seq<char> {
        M::render_of(self.sink_value())
    }

    /// Renders the metrics in the exposition format: the sink's exact
    /// rendering of its current value. A sink failure would surface as a
    /// metrics error; the sinks of this crate never fail.
    pub fn get_metrics(&self) -> (r: Result<String, AppError>)
        ensures
            r matches Ok(s) && s@ == self.sink_render(),
            r matches Err(e) ==> e is MetricsError,
    {
        match self.metrics_store.get_metrics() {
            Ok(text) => Ok(text),
            Err(message) => Err(AppError::MetricsError(message)),
        }
    }

    /// The current unique-address count as the sink caches it.
    pub fn get_unique_ip_count(&self) -> (count: i64)
        ensures
            count == self.sink_value(),
    {
        self.metrics_store.get_unique_ip_count()
    }
}

} // verus!
