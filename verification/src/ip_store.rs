use vstd::prelude::*;

use crate::ip::IpAddress;

verus! {

/// Interface of the deduplication store: a growing set of IP addresses
/// with an insert-if-absent operation whose result says whether this call
/// performed the insertion.
pub trait IpStore: Sized {
    /// The set of addresses currently held.
    spec fn members(&self) -> Set<IpAddress>;

    /// Well-formedness of the store's representation.
    spec fn inv(&self) -> bool;

    proof fn members_finite(&self)
        requires
            self.inv(),
        ensures
            self.members().finite(),
    ;

    /// Adds an address; the result is true iff the address was newly added.
    fn add(&mut self, ip: IpAddress) -> (newly_added: bool)
        requires
            old(self).inv(),
        ensures
            final(self).inv(),
            final(self).members() == old(self).members().insert(ip),
            newly_added == !old(self).members().contains(ip),
    ;

    /// Membership test.
    fn contains(&self, ip: &IpAddress) -> (present: bool)
        requires
            self.inv(),
        ensures
            present == self.members().contains(*ip),
    ;

    /// Current cardinality.
    fn count(&self) -> (n: usize)
        requires
            self.inv(),
        ensures
            n == self.members().len(),
    ;

    /// Empties the store.
    fn clear(&mut self)
        requires
            old(self).inv(),
        ensures
            final(self).inv(),
            final(self).members() == Set::<IpAddress>::empty(),
    ;

    /// All current members, in no particular order and without duplicates.
    fn get_all(&self) -> (v: Vec<IpAddress>)
        requires
            self.inv(),
        ensures
            v@.no_duplicates(),
            forall|a: IpAddress| self.members().contains(a) <==> v@.contains(a),
    ;
}

#[verifier::external_type_specification]
#[verifier::external_body]
#[verifier::reject_recursive_types(K)]
#[verifier::reject_recursive_types(S)]
pub struct ExDashSet<K, S>(dashmap::DashSet<K, S>);

#[verifier::external_type_specification]
#[verifier::external_body]
#[verifier::reject_recursive_types(H)]
pub struct ExBuildHasherDefault<H>(std::hash::BuildHasherDefault<H>);

#[verifier::external_type_specification]
#[verifier::external_body]
pub struct ExAHasher(ahash::AHasher);

/// The elements a concurrent set currently holds.
pub uninterp spec fn dash_set_elems(
    s: dashmap::DashSet<IpAddress, std::hash::BuildHasherDefault<ahash::AHasher>>,
) -> Set<IpAddress>;

/// Thread-safe store backed by a sharded concurrent set.
pub struct IpStoreImpl {
    ips: dashmap::DashSet<IpAddress, std::hash::BuildHasherDefault<ahash::AHasher>>,
}

impl IpStoreImpl {
    pub fn new() -> (s: Self)
        ensures
            s.inv(),
            s.members() == Set::<IpAddress>::empty(),
    {
        Self::with_capacity(10000)
    }

    /// Relies on dashmap::DashSet::with_capacity_and_hasher: creates an
    /// empty set.
    #[verifier::external_body]
    pub fn with_capacity(capacity: usize) -> (s: Self)
        ensures
            s.inv(),
            s.members() == Set::<IpAddress>::empty(),
    {
        IpStoreImpl {
            ips: dashmap::DashSet::with_capacity_and_hasher(
                capacity,
                std::hash::BuildHasherDefault::<ahash::AHasher>::default(),
            ),
        }
    }

    /// Relies on dashmap::DashSet::insert: inserts the key and returns
    /// true iff it was not already in the set, atomically.
    #[verifier::external_body]
    fn dash_insert(&mut self, ip: IpAddress) -> (newly_added: bool)
        ensures
            dash_set_elems(final(self).ips) == dash_set_elems(old(self).ips).insert(ip),
            newly_added == !dash_set_elems(old(self).ips).contains(ip),
    {
        self.ips.insert(ip)
    }

    /// Relies on dashmap::DashSet::contains.
    #[verifier::external_body]
    fn dash_contains(&self, ip: &IpAddress) -> (present: bool)
        ensures
            present == dash_set_elems(self.ips).contains(*ip),
    {
        self.ips.contains(ip)
    }

    /// Relies on dashmap::DashSet::len: the number of elements held.
    #[verifier::external_body]
    fn dash_len(&self) -> (n: usize)
        ensures
            n == dash_set_elems(self.ips).len(),
    {
        self.ips.len()
    }

    /// Relies on dashmap::DashSet::clear: removes all keys.
    #[verifier::external_body]
    fn dash_clear(&mut self)
        ensures
            dash_set_elems(final(self).ips) == Set::<IpAddress>::empty(),
    {
        self.ips.clear()
    }

    /// Relies on dashmap::DashSet::iter: yields each element exactly once.
    #[verifier::external_body]
    fn dash_collect(&self) -> (v: Vec<IpAddress>)
        ensures
            v@.no_duplicates(),
            forall|a: IpAddress| dash_set_elems(self.ips).contains(a) <==> v@.contains(a),
    {
        self.ips.iter().map(|entry| *entry.key()).collect()
    }
}

impl Default for IpStoreImpl {
    fn default() -> (s: Self)
        ensures
            s.inv(),
            s.members() == Set::<IpAddress>::empty(),
    {
        Self::new()
    }
}

impl IpStore for IpStoreImpl {
    closed spec fn members(&self) -> Set<IpAddress> {
        dash_set_elems(self.ips)
    }

    closed spec fn inv(&self) -> bool {
        dash_set_elems(self.ips).finite()
    }

    proof fn members_finite(&self) {
    }

    fn add(&mut self, ip: IpAddress) -> (newly_added: bool) {
        self.dash_insert(ip)
    }

    fn contains(&self, ip: &IpAddress) -> (present: bool) {
        self.dash_contains(ip)
    }

    fn count(&self) -> (n: usize) {
        self.dash_len()
    }

    fn clear(&mut self) {
        self.dash_clear()
    }

    fn get_all(&self) -> (v: Vec<IpAddress>) {
        self.dash_collect()
    }
}

/// Naive baseline store: a plain vector without duplicates, correct but
/// sequential. Used by tests as a simple reference implementation.
pub struct MockIpStore {
    ips: Vec<IpAddress>,
}

impl MockIpStore {
    pub fn new() -> (s: Self)
        ensures
            s.inv(),
            s.members() == Set::<IpAddress>::empty(),
    {
        let s = MockIpStore { ips: Vec::new() };
        proof {
            assert(s.ips@.to_set() =~= Set::<IpAddress>::empty());
        }
        s
    }
}

impl Default for MockIpStore {
    fn default() -> (s: Self)
        ensures
            s.inv(),
            s.members() == Set::<IpAddress>::empty(),
    {
        Self::new()
    }
}

impl IpStore for MockIpStore {
    closed spec fn members(&self) -> Set<IpAddress> {
        self.ips@.to_set()
    }

    closed spec fn inv(&self) -> bool {
        self.ips@.no_duplicates()
    }

    proof fn members_finite(&self) {
        broadcast use vstd::seq_lib::seq_to_set_is_finite;

    }

    fn add(&mut self, ip: IpAddress) -> (newly_added: bool) {
        let n = self.ips.len();
        let mut i: usize = 0;
        while i < n
            invariant
                i <= n,
                n == self.ips@.len(),
                forall|j: int| 0 <= j < i ==> self.ips@[j] != ip,
                self.ips@ == old(self).ips@,
                self.ips@.no_duplicates(),
            decreases n - i,
        {
            if self.ips[i] == ip {
                proof {
                    assert(self.ips@.contains(ip));
                    assert(self.ips@.to_set().contains(ip));
                    assert(self.ips@.to_set().insert(ip) =~= self.ips@.to_set());
                }
                return false;
            }
            i += 1;
        }
        proof {
            assert(!self.ips@.contains(ip));
            assert(!self.ips@.to_set().contains(ip));
        }
        let ghost prev = self.ips@;
        self.ips.push(ip);
        proof {
            assert(self.ips@ == prev.push(ip));
            assert(prev.push(ip) =~= prev + seq![ip]);
            Seq::lemma_to_set_insert_commutes(prev, ip);
            assert(self.ips@.to_set() == prev.to_set().insert(ip));
            assert forall|p: int, q: int|
                0 <= p < self.ips@.len() && 0 <= q < self.ips@.len() && p != q implies self.ips@[p]
                != self.ips@[q] by {
                if p < prev.len() && q < prev.len() {
                    assert(prev.no_duplicates());
                } else if p == prev.len() {
                    assert(prev.contains(self.ips@[q]) ==> self.ips@[q] != ip) by {
                        if prev.contains(self.ips@[q]) {
                        }
                    }
                    assert(prev.contains(prev[q]));
                } else if q == prev.len() {
                    assert(prev.contains(prev[p]));
                }
            }
        }
        true
    }

    fn contains(&self, ip: &IpAddress) -> (present: bool) {
        let n = self.ips.len();
        let mut i: usize = 0;
        while i < n
            invariant
                i <= n,
                n == self.ips@.len(),
                forall|j: int| 0 <= j < i ==> self.ips@[j] != *ip,
            decreases n - i,
        {
            if self.ips[i] == *ip {
                proof {
                    assert(self.ips@.contains(*ip));
                }
                return true;
            }
            i += 1;
        }
        proof {
            assert(!self.ips@.contains(*ip));
        }
        false
    }

    fn count(&self) -> (n: usize) {
        proof {
            self.ips@.unique_seq_to_set();
        }
        self.ips.len()
    }

    fn clear(&mut self) {
        self.ips.clear();
        proof {
            assert(self.ips@.to_set() =~= Set::<IpAddress>::empty());
        }
    }

    fn get_all(&self) -> (v: Vec<IpAddress>) {
        let n = self.ips.len();
        let mut out: Vec<IpAddress> = Vec::new();
        let mut i: usize = 0;
        while i < n
            invariant
                i <= n,
                n == self.ips@.len(),
                out@ == self.ips@.take(i as int),
            decreases n - i,
        {
            out.push(self.ips[i]);
            proof {
                assert(out@ =~= self.ips@.take(i + 1 as int));
            }
            i += 1;
        }
        proof {
            assert(out@ =~= self.ips@);
        }
        out
    }
}

} // verus!
