use hive::registry::{PeerStatus, Scheduler};
use hive::routing::{direct_host_of, route, worker_address, Route};

fn s(x: &str) -> String {
    String::from(x)
}

#[test]
fn add_peer_creates_active_record() {
    let mut r = Scheduler::new();
    r.add_peer(s("peerA"), s("/ip4/10.0.0.2/tcp/4001"));
    assert_eq!(r.len(), 1);
    let p = r.peer(&s("peerA")).unwrap();
    assert_eq!(p.id, "peerA");
    assert_eq!(p.address, vec![s("/ip4/10.0.0.2/tcp/4001")]);
    assert_eq!(p.status, PeerStatus::Active);
    assert_eq!(p.status.as_str(), "active");
}

#[test]
fn repeated_discovery_appends_without_duplicates() {
    let mut r = Scheduler::new();
    r.add_peer(s("peerA"), s("/ip4/10.0.0.2/tcp/4001"));
    r.add_peer(s("peerA"), s("/ip4/10.0.0.2/tcp/4001"));
    r.add_peer(s("peerA"), s("/ip4/192.168.1.7/tcp/4001"));
    r.add_peer(s("peerA"), s("/ip4/10.0.0.2/tcp/4001"));
    assert_eq!(r.len(), 1);
    let p = r.peer(&s("peerA")).unwrap();
    assert_eq!(p.address, vec![s("/ip4/10.0.0.2/tcp/4001"), s("/ip4/192.168.1.7/tcp/4001")]);
}

#[test]
fn remove_then_lookup_is_absent() {
    let mut r = Scheduler::new();
    r.add_peer(s("peerA"), s("/ip4/10.0.0.2/tcp/4001"));
    r.add_peer(s("peerB"), s("/ip4/10.0.0.3/tcp/4001"));
    r.remove_peer(&s("peerA"));
    assert!(r.peer(&s("peerA")).is_none());
    assert!(r.peer(&s("peerB")).is_some());
    assert_eq!(r.len(), 1);
    r.remove_peer(&s("unknown"));
    assert_eq!(r.len(), 1);
}

#[test]
fn available_peer_is_earliest() {
    let mut r = Scheduler::new();
    assert_eq!(r.get_available_peer(), None);
    r.add_peer(s("peerA"), s("/ip4/10.0.0.2/tcp/4001"));
    r.add_peer(s("peerB"), s("/ip4/10.0.0.3/tcp/4001"));
    assert_eq!(r.get_available_peer(), Some(s("peerA")));
}

#[test]
fn list_peers_is_a_snapshot() {
    let mut r = Scheduler::new();
    r.add_peer(s("peerA"), s("/ip4/10.0.0.2/tcp/4001"));
    let snap = r.list_peers();
    r.add_peer(s("peerA"), s("/ip4/10.0.0.9/tcp/4001"));
    r.add_peer(s("peerB"), s("/ip4/10.0.0.3/tcp/4001"));
    assert_eq!(snap.len(), 1);
    assert_eq!(snap[0].address.len(), 1);
    assert_eq!(r.list_peers().len(), 2);
}

#[test]
fn empty_registry_routes_locally() {
    let r = Scheduler::new();
    assert_eq!(r.first_reachable_peer(), None);
    assert_eq!(route(&r, false), Route::Local);
}

#[test]
fn empty_registry_broadcasts_when_enabled() {
    let r = Scheduler::new();
    assert_eq!(route(&r, true), Route::Broadcast);
}

#[test]
fn loopback_only_peer_is_not_reachable() {
    let mut r = Scheduler::new();
    r.add_peer(s("peerA"), s("/ip4/127.0.0.1/tcp/4001"));
    assert_eq!(r.first_reachable_peer(), None);
    assert_eq!(route(&r, false), Route::Local);
    assert_eq!(route(&r, true), Route::Broadcast);
}

#[test]
fn first_reachable_address_wins() {
    let mut r = Scheduler::new();
    r.add_peer(s("peerA"), s("/ip4/127.0.0.1/tcp/4001"));
    r.add_peer(s("peerA"), s("/ip6/fe80::1/tcp/4001"));
    r.add_peer(s("peerB"), s("/ip4/192.168.1.10/tcp/4001"));
    r.add_peer(s("peerB"), s("/ip4/192.168.1.11/tcp/4001"));
    assert_eq!(r.first_reachable_peer(), Some((s("peerB"), s("192.168.1.10"))));
    assert_eq!(route(&r, false), Route::Direct { worker: s("192.168.1.10:50052") });
}

#[test]
fn direct_host_cases() {
    assert_eq!(direct_host_of(&s("/ip4/10.1.2.3/tcp/9")), Some(s("10.1.2.3")));
    assert_eq!(direct_host_of(&s("/ip4/10.1.2.3")), Some(s("10.1.2.3")));
    assert_eq!(direct_host_of(&s("/ip4/127.0.0.5/tcp/9")), None);
    assert_eq!(direct_host_of(&s("/ip4//tcp/9")), None);
    assert_eq!(direct_host_of(&s("/ip6/::1/tcp/9")), None);
    assert_eq!(direct_host_of(&s("/dns4/x/ip4/10.0.0.1")), None);
    assert_eq!(direct_host_of(&s("")), None);
}

#[test]
fn worker_address_uses_worker_port() {
    assert_eq!(worker_address(&s("10.0.0.4")), "10.0.0.4:50052");
}

#[test]
fn first_peer_where_uses_the_given_predicate() {
    let mut r = Scheduler::new();
    r.add_peer(s("peerA"), s("/ip4/127.0.0.1/tcp/1"));
    r.add_peer(s("peerB"), s("/ip6/fe80::1/tcp/1"));
    r.add_peer(s("peerB"), s("/ip6/fe80::2/tcp/1"));
    r.add_peer(s("peerC"), s("/ip4/10.0.0.3/tcp/1"));
    let ip6 = |a: &String| if a.starts_with("/ip6/") { Some(a.clone()) } else { None };
    assert_eq!(r.first_peer_where(ip6), Some((s("peerB"), s("/ip6/fe80::1/tcp/1"))));
    assert_eq!(r.first_peer_where(|a: &String| direct_host_of(a)), Some((s("peerC"), s("10.0.0.3"))));
    assert_eq!(r.first_peer_where(|_a: &String| None), None);
    assert_eq!(Scheduler::new().first_peer_where(|a: &String| Some(a.clone())), None);
}
