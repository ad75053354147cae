use std::time::Duration;

use rust_mc_status::dns::{
    choose_address, fresh_address, resolution_result, CacheEntry, DnsCache, IpAddress,
    ResolvedAddress, DNS_CACHE_TTL_MS,
};
use rust_mc_status::fanout::FanOut;
use rust_mc_status::{McClient, McError, ServerEdition};

#[test]
fn client_defaults_and_builders() {
    let c = McClient::new();
    assert_eq!(c.max_parallel, 10);
    assert_eq!(c.timeout, Duration::from_secs(10));
    let d = McClient::default();
    assert_eq!(d.max_parallel, 10);
    let c = c.with_timeout(Duration::from_millis(1500)).with_max_parallel(3);
    assert_eq!(c.timeout, Duration::from_millis(1500));
    assert_eq!(c.max_parallel, 3);
    let copy = c.clone();
    assert_eq!(copy.max_parallel, 3);
}

#[test]
fn address_with_port() {
    assert_eq!(McClient::parse_address("mc.example.net:25570", 25565).unwrap(), ("mc.example.net", 25570));
    assert_eq!(McClient::parse_address("h:+80", 1).unwrap(), ("h", 80));
    assert_eq!(McClient::parse_address("h:65535", 1).unwrap(), ("h", 65535));
}

#[test]
fn address_default_port() {
    assert_eq!(McClient::parse_address("play.example.org", 25565).unwrap(), ("play.example.org", 25565));
    assert_eq!(McClient::parse_address("pe.example.org", 19132).unwrap(), ("pe.example.org", 19132));
}

#[test]
fn address_invalid_port() {
    for a in ["h:", "h:abc", "h:65536", "h:-1", "h:+", "h:1:2", "h: 80"] {
        assert!(matches!(McClient::parse_address(a, 25565), Err(McError::InvalidPort(_))), "{}", a);
    }
}

#[test]
fn edition_names() {
    assert_eq!(ServerEdition::parse("java").unwrap(), ServerEdition::Java);
    assert_eq!(ServerEdition::parse("JAVA").unwrap(), ServerEdition::Java);
    assert_eq!(ServerEdition::parse("Bedrock").unwrap(), ServerEdition::Bedrock);
    assert_eq!("bedrock".parse::<ServerEdition>().unwrap(), ServerEdition::Bedrock);
    match ServerEdition::parse("pocket") {
        Err(McError::InvalidEdition(t)) => assert_eq!(t, "pocket"),
        other => panic!("unexpected {:?}", other),
    }
    assert_eq!(ServerEdition::from_lowercase("java"), Some(ServerEdition::Java));
    assert_eq!(ServerEdition::from_lowercase("Java"), None);
}

fn v4(a: u32, port: u16) -> ResolvedAddress {
    ResolvedAddress { ip: IpAddress::V4(a), port }
}

fn v6(a: u128, port: u16) -> ResolvedAddress {
    ResolvedAddress { ip: IpAddress::V6(a), port }
}

#[test]
fn address_preference() {
    assert_eq!(choose_address(&vec![v6(1, 1), v4(7, 1), v4(8, 1)]), Some(v4(7, 1)));
    assert_eq!(choose_address(&vec![v6(1, 1), v6(2, 1)]), Some(v6(1, 1)));
    assert_eq!(choose_address(&vec![]), None);
    assert!(matches!(resolution_result(&vec![]), Err(McError::DnsError(_))));
    assert_eq!(resolution_result(&vec![v4(9, 2)]).unwrap(), v4(9, 2));
}

#[test]
fn cache_entry_freshness() {
    let e = Some(CacheEntry { address: v4(1, 25565), stamp_ms: 1_000 });
    assert_eq!(fresh_address(e, 1_000), Some(v4(1, 25565)));
    assert_eq!(fresh_address(e, 1_000 + DNS_CACHE_TTL_MS - 1), Some(v4(1, 25565)));
    assert_eq!(fresh_address(e, 1_000 + DNS_CACHE_TTL_MS), None);
    assert_eq!(fresh_address(e, 999), None);
    assert_eq!(fresh_address(None, 5), None);
}

#[test]
fn cache_hit_then_expiry() {
    let cache = DnsCache::new();
    assert_eq!(cache.lookup("example.org", 25565, 10), None);
    let got = cache.record("example.org", 25565, &vec![v6(5, 25565), v4(3, 25565)], 10).unwrap();
    assert_eq!(got, v4(3, 25565));
    assert_eq!(cache.lookup("example.org", 25565, 20), Some(v4(3, 25565)));
    assert_eq!(cache.lookup("example.org", 25566, 20), None);
    assert_eq!(cache.lookup("example.org", 25565, 10 + DNS_CACHE_TTL_MS), None);
    cache.record("example.org", 25565, &vec![v4(4, 25565)], 10 + DNS_CACHE_TTL_MS).unwrap();
    assert_eq!(cache.lookup("example.org", 25565, 11 + DNS_CACHE_TTL_MS), Some(v4(4, 25565)));
    assert!(matches!(cache.record("none.example", 1, &vec![], 0), Err(McError::DnsError(_))));
}

#[test]
fn fan_out_every_target_once() {
    let mut batch: FanOut<Result<u32, String>> = FanOut::new(5, 2);
    let mut order = Vec::new();
    while !batch.is_done() {
        while let Some(i) = batch.start_next() {
            order.push(i);
        }
        let oldest = order.iter().copied().find(|i| batch.is_running(*i)).unwrap();
        let outcome = if oldest % 2 == 0 { Ok(oldest as u32) } else { Err("unreachable".to_string()) };
        assert!(batch.finish(oldest, outcome));
    }
    let outcomes = batch.into_outcomes();
    assert_eq!(outcomes.len(), 5);
    let mut ids: Vec<usize> = outcomes.iter().map(|o| o.0).collect();
    ids.sort();
    assert_eq!(ids, vec![0, 1, 2, 3, 4]);
    assert_eq!(outcomes.iter().filter(|o| o.1.is_err()).count(), 2);
}

#[test]
fn fan_out_bounded_in_flight() {
    let mut batch: FanOut<()> = FanOut::new(6, 3);
    assert_eq!(batch.start_next(), Some(0));
    assert_eq!(batch.start_next(), Some(1));
    assert_eq!(batch.start_next(), Some(2));
    assert_eq!(batch.start_next(), None);
    assert!(batch.finish(1, ()));
    assert!(!batch.finish(1, ()));
    assert!(!batch.finish(5, ()));
    assert_eq!(batch.start_next(), Some(3));
    assert_eq!(batch.start_next(), None);
    assert!(batch.is_running(0) && batch.is_running(2) && batch.is_running(3));
    assert!(!batch.is_running(1));
}
