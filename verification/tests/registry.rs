use habitat_builder::net::Protocol;
use habitat_builder::registry::{ServerMap, ServerReg};

const JOBS: Protocol = Protocol::Service(4);
const ORIGINS: Protocol = Protocol::Service(3);

fn server(map: &ServerMap, protocol: Protocol, shard: u32) -> Option<(String, u64)> {
    map.get(protocol, shard).map(|reg| (reg.endpoint.clone(), reg.renewed))
}

#[test]
fn an_empty_map_knows_nothing() {
    let map = ServerMap::default();
    assert!(!map.knows(JOBS));
    assert!(map.get(JOBS, 0).is_none());
}

#[test]
fn a_registration_is_found() {
    let mut map = ServerMap::default();
    assert_eq!(map.add(JOBS, "a".to_string(), vec![0, 2, 2], 7), Ok(()));
    assert!(map.knows(JOBS));
    assert!(!map.knows(ORIGINS));
    assert!(!map.knows(Protocol::RouteSrv));
    assert_eq!(server(&map, JOBS, 0), Some(("a".to_string(), 7)));
    assert_eq!(server(&map, JOBS, 1), None);
    assert_eq!(server(&map, JOBS, 2), Some(("a".to_string(), 7)));
    assert_eq!(server(&map, ORIGINS, 0), None);
}

#[test]
fn a_registration_without_shards_makes_the_protocol_known() {
    let mut map = ServerMap::default();
    assert_eq!(map.add(JOBS, "a".to_string(), vec![], 7), Ok(()));
    assert!(map.knows(JOBS));
    assert_eq!(server(&map, JOBS, 0), None);
}

#[test]
fn a_later_registration_takes_the_shard() {
    let mut map = ServerMap::default();
    assert_eq!(map.add(JOBS, "a".to_string(), vec![0, 1], 7), Ok(()));
    assert_eq!(map.add(JOBS, "b".to_string(), vec![1, 2], 8), Ok(()));
    assert_eq!(server(&map, JOBS, 0), Some(("a".to_string(), 7)));
    assert_eq!(server(&map, JOBS, 1), Some(("b".to_string(), 8)));
    assert_eq!(server(&map, JOBS, 2), Some(("b".to_string(), 8)));
}

#[test]
fn a_dropped_server_is_gone_from_that_protocol_alone() {
    let mut map = ServerMap::default();
    let _ = map.add(JOBS, "a".to_string(), vec![0, 1], 7);
    let _ = map.add(JOBS, "b".to_string(), vec![2], 7);
    let _ = map.add(ORIGINS, "a".to_string(), vec![0], 7);
    map.drop(JOBS, "a");
    map.drop(Protocol::Service(99), "a");
    assert!(map.knows(JOBS));
    assert_eq!(server(&map, JOBS, 0), None);
    assert_eq!(server(&map, JOBS, 1), None);
    assert_eq!(server(&map, JOBS, 2), Some(("b".to_string(), 7)));
    assert_eq!(server(&map, ORIGINS, 0), Some(("a".to_string(), 7)));
    assert!(!map.knows(Protocol::Service(99)));
}

#[test]
fn a_pulse_renews_every_claim_of_that_server() {
    let mut map = ServerMap::default();
    let _ = map.add(JOBS, "a".to_string(), vec![0, 1], 7);
    let _ = map.add(JOBS, "b".to_string(), vec![2], 7);
    let _ = map.add(ORIGINS, "a".to_string(), vec![0], 7);
    map.renew("a", 9);
    map.renew("nobody", 10);
    assert_eq!(server(&map, JOBS, 0), Some(("a".to_string(), 9)));
    assert_eq!(server(&map, JOBS, 1), Some(("a".to_string(), 9)));
    assert_eq!(server(&map, JOBS, 2), Some(("b".to_string(), 7)));
    assert_eq!(server(&map, ORIGINS, 0), Some(("a".to_string(), 9)));
}

#[test]
fn protocols_have_keys_of_their_own() {
    assert_eq!(Protocol::RouteSrv.key(), 0);
    assert_eq!(Protocol::Service(0).key(), 1);
    assert_eq!(Protocol::Service(u32::MAX).key(), 4294967296);
}

#[test]
fn a_claim_tells_when_it_was_made() {
    let reg = ServerReg::new("a".to_string(), 5);
    assert_eq!((reg.endpoint.as_str(), reg.renewed), ("a", 5));
}
