use vstd::prelude::*;

use crate::error::AppError;
use crate::ip::IpAddress;
use crate::ip_store::IpStore;
use crate::log_entry::LogEntry;
use crate::metrics_store::MetricsStore;

verus! {

#[verifier::external_type_specification]
#[verifier::external_body]
pub struct ExInstant(std::time::Instant);

/// Relies on std::time::Instant::now.
#[verifier::external_body]
fn instant_now() -> std::time::Instant {
    std::time::Instant::now()
}

/// Relies on std::time::Instant::elapsed: whole seconds since the
/// instant was taken; the value depends on the clock, so nothing is
/// stated of it.
#[verifier::external_body]
fn elapsed_seconds(start: &std::time::Instant) -> u64 {
    start.elapsed().as_secs()
}

/// Estimated bytes held per stored address.
pub const BYTES_PER_ADDRESS: usize = 32;

/// The gauge value pushed for a store of the given cardinality.
pub open spec fn gauge_sample(n: nat) -> i64 {
    if n <= i64::MAX as nat {
        n as i64
    } else {
        i64::MAX
    }
}

/// The rough memory estimate for a store of the given cardinality.
pub open spec fn mem_estimate(n: nat) -> nat {
    if 32 * n <= usize::MAX as nat {
        32 * n
    } else {
        usize::MAX as nat
    }
}

/// The counting service: validates entries, drives the deduplication
/// store, and pushes the running total to the metrics sink on growth.
pub struct IpCounterService<S: IpStore, M: MetricsStore> {
    ip_store: S,
    metrics_store: M,
    start_time: std::time::Instant,
}

impl<S: IpStore, M: MetricsStore> IpCounterService<S, M> {
    /// The set of distinct addresses seen since the last clear.
    pub closed spec fn members(&self) -> Set<IpAddress> {
        self.ip_store.members()
    }

    /// The value the metrics sink currently caches.
    pub closed spec fn metrics_value(&self) -> i64 {
        self.metrics_store.value()
    }

    /// The text the metrics sink renders for its current value.
    pub open spec fn metrics_render(&self) -> Seq<char> {
        M::render_of(self.metrics_value())
    }

    /// Well-formedness of the underlying store.
    pub closed spec fn wf(&self) -> bool {
        self.ip_store.inv()
    }

    pub proof fn lemma_members_finite(&self)
        requires
            self.wf(),
        ensures
            self.members().finite(),
    {
        self.ip_store.members_finite();
    }

    pub fn new(ip_store: S, metrics_store: M) -> (s: Self)
        requires
            ip_store.inv(),
        ensures
            s.wf(),
            s.members() == ip_store.members(),
            s.metrics_value() == metrics_store.value(),
    {
        IpCounterService { ip_store, metrics_store, start_time: instant_now() }
    }

    /// Processes one record. An entry whose IP text is not a v4 or v6
    /// literal is rejected without touching the store; so is one with an
    /// empty URL. Otherwise the address is added, the result says whether
    /// this call was the first to add it, and on growth the new total is
    /// pushed to the metrics sink.
    pub fn process_log_entry(&mut self, entry: &LogEntry) -> (r: Result<bool, AppError>)
        requires
            old(self).wf(),
        ensures
            final(self).wf(),
            crate::ip::spec_parse_ip(entry.ip@) is None ==> {
                &&& r matches Err(e) && e is InvalidIpAddress
                &&& final(self).members() == old(self).members()
                &&& final(self).metrics_value() == old(self).metrics_value()
            },
            crate::ip::spec_parse_ip(entry.ip@) is Some && !entry.url_ok() ==> {
                &&& r matches Err(e) && e is BadRequest
                &&& final(self).members() == old(self).members()
                &&& final(self).metrics_value() == old(self).metrics_value()
            },
            crate::ip::spec_parse_ip(entry.ip@) matches Some(ip) ==> entry.url_ok() ==> {
                &&& r == Ok::<bool, AppError>(!old(self).members().contains(ip))
                &&& final(self).members() == old(self).members().insert(ip)
                &&& (!old(self).members().contains(ip) ==> final(self).metrics_value()
                    == gauge_sample(old(self).members().insert(ip).len()))
                &&& (old(self).members().contains(ip) ==> final(self).metrics_value() == old(
                    self,
                ).metrics_value())
            },
    {
        let ip = match entry.parse_ip() {
            Ok(ip) => ip,
            Err(message) => {
                return Err(AppError::InvalidIpAddress(message));
            },
        };
        if let Some(url) = &entry.url {
            if url.as_str().is_empty() {
                return Err(AppError::BadRequest("URL cannot be empty".to_owned()));
            }
        }
        let newly_seen = self.ip_store.add(ip);
        if newly_seen {
            proof {
                self.ip_store.members_finite();
            }
            let count = self.ip_store.count();
            let gauge: i64 = if count as u64 <= i64::MAX as u64 {
                count as i64
            } else {
                i64::MAX
            };
            self.metrics_store.update_unique_ip_count(gauge);
        }
        Ok(newly_seen)
    }

    /// The number of distinct addresses seen.
    pub fn get_unique_count(&self) -> (n: usize)
        requires
            self.wf(),
        ensures
            n == self.members().len(),
    {
        self.ip_store.count()
    }

    /// Whether the address has been seen.
    pub fn contains_ip(&self, ip: &IpAddress) -> (present: bool)
        requires
            self.wf(),
        ensures
            present == self.members().contains(*ip),
    {
        self.ip_store.contains(ip)
    }

    /// Whole seconds since the service was constructed.
    pub fn get_uptime_seconds(&self) -> u64 {
        elapsed_seconds(&self.start_time)
    }

    /// A rough memory estimate: a fixed number of bytes per address.
    pub fn get_estimated_memory_usage(&self) -> (bytes: usize)
        requires
            self.wf(),
        ensures
            bytes == mem_estimate(self.members().len()),
    {
        let count = self.ip_store.count();
        match count.checked_mul(BYTES_PER_ADDRESS) {
            Some(bytes) => bytes,
            None => usize::MAX,
        }
    }

    /// Renders the metrics sink's exposition text: the sink's exact
    /// rendering of the value it currently caches. The scrape endpoint
    /// reads through this, so sink and store stay behind one owner. A
    /// sink failure would surface as a metrics error; the sinks of this
    /// crate never fail.
    pub fn get_metrics(&self) -> (r: Result<String, AppError>)
        ensures
            r matches Ok(s) && s@ == self.metrics_render(),
            r matches Err(e) ==> e is MetricsError,
    {
        match self.metrics_store.get_metrics() {
            Ok(text) => Ok(text),
            Err(message) => Err(AppError::MetricsError(message)),
        }
    }

    /// Empties the store and resets the gauge.
    pub fn clear(&mut self)
        requires
            old(self).wf(),
        ensures
            final(self).wf(),
            final(self).members() == Set::<IpAddress>::empty(),
            final(self).metrics_value() == 0,
    {
        self.ip_store.clear();
        self.metrics_store.update_unique_ip_count(0);
    }
}

/// The store contents after a run of insertions, starting from empty.
pub open spec fn store_after(ips: Seq<IpAddress>) -> Set<IpAddress>
    decreases ips.len(),
{
    if ips.len() == 0 {
        Set::<IpAddress>::empty()
    } else {
        store_after(ips.drop_last()).insert(ips.last())
    }
}

/// How many of a run of insertions, starting from empty, are the first
/// for their address — exactly the calls that report a new address.
pub open spec fn newly_seen_count(ips: Seq<IpAddress>) -> nat
    decreases ips.len(),
{
    if ips.len() == 0 {
        0
    } else {
        newly_seen_count(ips.drop_last()) + (if store_after(ips.drop_last()).contains(
            ips.last(),
        ) {
            0nat
        } else {
            1nat
        })
    }
}

/// Exactly-once accounting: in any run of insertions starting from an
/// empty store, the store ends up holding exactly the distinct addresses
/// of the run, and the number of calls that report a new address equals
/// the number of distinct addresses — however the run is ordered.
pub proof fn lemma_exactly_once_accounting(ips: Seq<IpAddress>)
    ensures
        store_after(ips) == ips.to_set(),
        store_after(ips).finite(),
        newly_seen_count(ips) == ips.to_set().len(),
        newly_seen_count(ips) <= ips.len(),
    decreases ips.len(),
{
    broadcast use vstd::set::axiom_set_insert_len;

    if ips.len() == 0 {
        assert(store_after(ips) =~= ips.to_set());
        assert(ips.to_set().len() == 0) by {
            ips.lemma_cardinality_of_empty_set_is_0();
        }
    } else {
        let dl = ips.drop_last();
        lemma_exactly_once_accounting(dl);
        assert(dl.push(ips.last()) =~= dl + seq![ips.last()]);
        Seq::lemma_to_set_insert_commutes(dl, ips.last());
        assert(ips =~= dl.push(ips.last()));
        assert(ips.to_set() == dl.to_set().insert(ips.last()));
        if store_after(dl).contains(ips.last()) {
            assert(dl.to_set().insert(ips.last()) =~= dl.to_set());
        }
    }
}

/// Idempotent membership: adding an address that is not yet in the store
/// reports it as new; adding it again reports a duplicate, and neither
/// the membership set nor its cardinality changes.
pub proof fn lemma_idempotent_membership(s: Set<IpAddress>, ip: IpAddress)
    requires
        s.finite(),
        !s.contains(ip),
    ensures
        s.insert(ip).contains(ip),
        s.insert(ip).insert(ip) == s.insert(ip),
        s.insert(ip).insert(ip).len() == s.insert(ip).len(),
        s.insert(ip).len() == s.len() + 1,
{
    broadcast use vstd::set::axiom_set_insert_len;

    assert(s.insert(ip).insert(ip) =~= s.insert(ip));
}

/// Disjoint batches: two runs over disjoint address sets, concatenated in
/// any order, report exactly as many new addresses as the two runs do
/// separately — no lost updates and no double counts.
pub proof fn lemma_disjoint_batches(a: Seq<IpAddress>, b: Seq<IpAddress>)
    requires
        a.to_set().disjoint(b.to_set()),
    ensures
        newly_seen_count(a + b) == newly_seen_count(a) + newly_seen_count(b),
        (a + b).to_set().len() == a.to_set().len() + b.to_set().len(),
    decreases b.len(),
{
    broadcast use vstd::seq_lib::lemma_seq_concat_contains_all_elements;

    if b.len() == 0 {
        assert(a + b =~= a);
        assert(b.to_set().len() == 0) by {
            b.lemma_cardinality_of_empty_set_is_0();
        }
        lemma_exactly_once_accounting(a);
    } else {
        let bd = b.drop_last();
        let x = b.last();
        assert(a.to_set().disjoint(bd.to_set())) by {
            assert forall|e: IpAddress| bd.to_set().contains(e) implies b.to_set().contains(e) by {
                assert(bd.contains(e));
                let i = choose|i: int| 0 <= i < bd.len() && bd[i] == e;
                assert(b[i] == e);
            }
        }
        lemma_disjoint_batches(a, bd);
        lemma_exactly_once_accounting(a + bd);
        lemma_exactly_once_accounting(a + b);
        lemma_exactly_once_accounting(a);
        lemma_exactly_once_accounting(b);
        lemma_exactly_once_accounting(bd);
        assert((a + b).drop_last() =~= a + bd);
        assert((a + b).last() == x);
        assert(newly_seen_count(a + b) == newly_seen_count(a + bd) + (if store_after(
            a + bd,
        ).contains(x) {
            0nat
        } else {
            1nat
        }));
        assert(b.to_set().contains(x)) by {
            assert(b.contains(x));
        }
        assert(!a.to_set().contains(x));
        assert(store_after(a + bd).contains(x) <==> store_after(bd).contains(x)) by {
            assert((a + bd).to_set().contains(x) <==> (a + bd).contains(x));
            assert(bd.to_set().contains(x) <==> bd.contains(x));
            assert(a.to_set().contains(x) <==> a.contains(x));
        }
        assert(newly_seen_count(b) == newly_seen_count(bd) + (if store_after(bd).contains(x) {
            0nat
        } else {
            1nat
        }));
    }
}

/// Monotonic growth: an insertion never removes a member and never
/// shrinks the cardinality; only an explicit clear resets the store.
pub proof fn lemma_store_growth(s: Set<IpAddress>, ip: IpAddress)
    requires
        s.finite(),
    ensures
        s.subset_of(s.insert(ip)),
        s.insert(ip).len() >= s.len(),
{
    broadcast use vstd::set::axiom_set_insert_len;

}

/// Memory estimate linearity: while the scaled count fits the machine
/// word, the estimate is exactly the fixed per-address constant times the
/// number of distinct addresses.
pub proof fn lemma_memory_estimate_linear(n: nat)
    requires
        32 * n <= usize::MAX as nat,
    ensures
        mem_estimate(n) == 32 * n,
{
}

} // verus!
