//! Resolved addresses, the preference among them, and the cache of resolutions
//! with its time-to-live.
use vstd::prelude::*;

use crate::error::McError;

verus! {

#[verifier::external_type_specification]
#[verifier::external_body]
#[verifier::reject_recursive_types(K)]
#[verifier::reject_recursive_types(V)]
#[verifier::reject_recursive_types(S)]
pub struct ExDashMap<K, V, S>(dashmap::DashMap<K, V, S>);

/// An IP address: version 4 as its 32 bits, version 6 as its 128 bits.
#[derive(Debug, Clone, Copy, PartialEq, Eq, Structural)]
pub enum IpAddress {
    V4(u32),
    V6(u128),
}

/// A resolved socket address.
#[derive(Debug, Clone, Copy, PartialEq, Eq, Structural)]
pub struct ResolvedAddress {
    pub ip: IpAddress,
    pub port: u16,
}

/// A cached resolution and the time it was made, in milliseconds since the epoch.
#[derive(Debug, Clone, Copy, PartialEq, Eq, Structural)]
pub struct CacheEntry {
    pub address: ResolvedAddress,
    pub stamp_ms: u64,
}

/// How long a cached resolution may be used: five minutes.
pub const DNS_CACHE_TTL_MS: u64 = 300_000;

/// Index of the first IPv4 address in `s`.
pub open spec fn first_v4(s: Seq<ResolvedAddress>) -> Option<int>
    decreases s.len(),
{
    if s.len() == 0 {
        None
    } else {
        match first_v4(s.drop_last()) {
            Some(i) => Some(i),
            None => if s.last().ip is V4 {
                Some(s.len() - 1)
            } else {
                None
            },
        }
    }
}

/// The address a host's resolution is taken as: the first IPv4 address if there
/// is one, else the first address.
pub open spec fn preferred_address(s: Seq<ResolvedAddress>) -> Option<ResolvedAddress> {
    match first_v4(s) {
        Some(i) => Some(s[i]),
        None => if s.len() > 0 {
            Some(s[0])
        } else {
            None
        },
    }
}

proof fn lemma_first_v4_prefix(s: Seq<ResolvedAddress>, k: nat)
    requires
        k <= s.len(),
        first_v4(s.take(k as int)) is Some,
    ensures
        first_v4(s) == first_v4(s.take(k as int)),
    decreases s.len() - k,
{
    if k < s.len() {
        assert(s.take((k + 1) as int).drop_last() =~= s.take(k as int));
        lemma_first_v4_prefix(s, k + 1);
    } else {
        assert(s.take(k as int) =~= s);
    }
}

proof fn lemma_first_v4_in_range(s: Seq<ResolvedAddress>)
    ensures
        first_v4(s) matches Some(i) ==> 0 <= i < s.len(),
    decreases s.len(),
{
    if s.len() > 0 {
        lemma_first_v4_in_range(s.drop_last());
    }
}

/// The preferred address among `addrs`.
pub fn choose_address(addrs: &Vec<ResolvedAddress>) -> (r: Option<ResolvedAddress>)
    ensures
        r == preferred_address(addrs@),
{
    let mut i: usize = 0;
    assert(addrs@.take(0) =~= Seq::<ResolvedAddress>::empty());
    while i < addrs.len()
        invariant
            i <= addrs@.len(),
            first_v4(addrs@.take(i as int)) is None,
        decreases addrs.len() - i,
    {
        assert(addrs@.take(i + 1).drop_last() =~= addrs@.take(i as int));
        if let IpAddress::V4(_) = addrs[i].ip {
            assert(first_v4(addrs@.take(i + 1)) == Some(i as int));
            proof {
                lemma_first_v4_prefix(addrs@, (i + 1) as nat);
            }
            return Some(addrs[i]);
        }
        i = i + 1;
    }
    assert(addrs@.take(addrs@.len() as int) =~= addrs@);
    proof {
        lemma_first_v4_in_range(addrs@);
    }
    if addrs.len() > 0 {
        Some(addrs[0])
    } else {
        None
    }
}

/// Whether a resolution made at `stamp_ms` may still be used at `now_ms`. One
/// stamped in the future (the clock went back) may not.
pub open spec fn is_fresh(stamp_ms: u64, now_ms: u64) -> bool {
    stamp_ms <= now_ms && now_ms - stamp_ms < DNS_CACHE_TTL_MS
}

/// The address a cache entry gives at `now_ms`: its own while fresh, none after.
pub open spec fn cached_address(entry: Option<CacheEntry>, now_ms: u64) -> Option<ResolvedAddress> {
    match entry {
        Some(e) => if is_fresh(e.stamp_ms, now_ms) {
            Some(e.address)
        } else {
            None
        },
        None => None,
    }
}

/// The address `entry` gives at `now_ms`.
pub fn fresh_address(entry: Option<CacheEntry>, now_ms: u64) -> (r: Option<ResolvedAddress>)
    ensures
        r == cached_address(entry, now_ms),
{
    match entry {
        Some(e) => if e.stamp_ms <= now_ms && now_ms - e.stamp_ms < DNS_CACHE_TTL_MS {
            Some(e.address)
        } else {
            None
        },
        None => None,
    }
}

/// The outcome of a resolution that produced `addrs`: the preferred one, or a
/// resolution error when there is none.
pub fn resolution_result(addrs: &Vec<ResolvedAddress>) -> (r: Result<ResolvedAddress, McError>)
    ensures
        match preferred_address(addrs@) {
            Some(a) => r matches Ok(x) && x == a,
            None => r matches Err(McError::DnsError(_)),
        },
{
    match choose_address(addrs) {
        Some(a) => Ok(a),
        None => Err(McError::DnsError("No addresses resolved".to_owned())),
    }
}

/// An entry recorded at `stamp_ms` gives its address to every lookup before the
/// time-to-live has passed, so no new resolution is made; from then on it gives
/// none, so the host is resolved afresh. A lookup answers `cached_address` of the
/// entry it finds (`fresh_address`, which `DnsCache::lookup` returns).
pub proof fn lemma_cache_ttl(address: ResolvedAddress, stamp_ms: u64, now_ms: u64)
    requires
        stamp_ms <= now_ms,
    ensures
        now_ms < stamp_ms + DNS_CACHE_TTL_MS ==> cached_address(
            Some(CacheEntry { address, stamp_ms }),
            now_ms,
        ) == Some(address),
        now_ms >= stamp_ms + DNS_CACHE_TTL_MS ==> cached_address(
            Some(CacheEntry { address, stamp_ms }),
            now_ms,
        ) is None,
{
}

/// Relies on `DashMap::new`: an empty map.
#[verifier::external_body]
fn new_entry_map() -> dashmap::DashMap<(String, u16), CacheEntry> {
    dashmap::DashMap::new()
}

/// Relies on `DashMap::get`: a copy of the entry stored under the key, if any.
/// Other threads may change the map at any time, so nothing is stated.
#[verifier::external_body]
fn entry_map_get(m: &dashmap::DashMap<(String, u16), CacheEntry>, key: &(String, u16)) -> Option<CacheEntry> {
    m.get(key).map(|e| *e.value())
}

/// Relies on `DashMap::insert`: stores the entry under the key, replacing any.
#[verifier::external_body]
fn entry_map_insert(m: &dashmap::DashMap<(String, u16), CacheEntry>, key: (String, u16), entry: CacheEntry) {
    m.insert(key, entry);
}

/// Resolutions by `host:port`, shared between concurrent queries. Expired
/// entries are replaced when the host is resolved again, never swept.
pub struct DnsCache {
    entries: dashmap::DashMap<(String, u16), CacheEntry>,
}

impl DnsCache {
    pub fn new() -> Self {
        DnsCache { entries: new_entry_map() }
    }

    /// The cached address of `host:port` if its entry is fresh at `now_ms`.
    /// Whatever entry is found, the answer is `fresh_address` of it.
    pub fn lookup(&self, host: &str, port: u16, now_ms: u64) -> Option<ResolvedAddress> {
        let entry = entry_map_get(&self.entries, &(host.to_owned(), port));
        fresh_address(entry, now_ms)
    }

    /// Takes the preferred address among `addrs`, the result of resolving
    /// `host:port`, and caches it with the time `now_ms`.
    pub fn record(&self, host: &str, port: u16, addrs: &Vec<ResolvedAddress>, now_ms: u64) -> (r: Result<ResolvedAddress, McError>)
        ensures
            match preferred_address(addrs@) {
                Some(a) => r matches Ok(x) && x == a,
                None => r matches Err(McError::DnsError(_)),
            },
    {
        let chosen = resolution_result(addrs);
        if let Ok(a) = chosen {
            entry_map_insert(&self.entries, (host.to_owned(), port), CacheEntry { address: a, stamp_ms: now_ms });
        }
        chosen
    }
}

} // verus!
