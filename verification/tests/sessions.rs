use cablescout::errors::SessionError;
use cablescout::login::UserData;
use cablescout::net::IpNet;
use cablescout::sessions::SessionManager;

fn ip(a: u32, b: u32, c: u32, d: u32) -> u32 {
    (a << 24) | (b << 16) | (c << 8) | d
}

fn net(a: u32, b: u32, c: u32, d: u32, prefix: u8) -> IpNet {
    IpNet::new(ip(a, b, c, d), prefix).unwrap()
}

fn user() -> UserData {
    UserData { email: "user@example.com".to_string() }
}

const TEN_MINUTES: u64 = 10 * 60 * 1000;

fn create_session_manager() -> SessionManager {
    SessionManager::new(net(192, 168, 1, 0, 24), TEN_MINUTES)
}

fn manager() -> SessionManager {
    create_session_manager()
}

#[test]
fn test_create_session() {
    let mut manager = manager();
    assert_eq!(manager.server_address().unwrap(), ip(192, 168, 1, 1));

    let device_id1: u128 = 1;
    let session1 = manager.create(0, device_id1, "key1".to_owned(), user()).unwrap();
    assert_eq!(session1.client_address, ip(192, 168, 1, 2));

    let device_id2: u128 = 2;
    let session2 = manager.create(0, device_id2, "key2".to_owned(), user()).unwrap();
    assert_eq!(session2.client_address, ip(192, 168, 1, 3));
}

#[test]
fn test_session_reuse() {
    let mut manager = manager();
    assert_eq!(manager.server_address().unwrap(), ip(192, 168, 1, 1));

    let device_id: u128 = 7;
    let session1 = manager.create(0, device_id, "key1".to_owned(), user()).unwrap();
    assert_eq!(session1.client_address, ip(192, 168, 1, 2));

    let session2 = manager.create(0, device_id, "key2".to_owned(), user()).unwrap();
    assert_eq!(session2.client_address, session1.client_address);
    assert_eq!(session2.client_public_key, "key2");
}

#[test]
fn test_session_expiry() {
    let mut manager = manager();
    assert!(manager.get_peer_public_keys().is_empty());

    let public_key1 = "k1";
    manager.create(0, 1, public_key1.to_owned(), user()).unwrap();
    let half = manager.session_duration() / 2;
    manager.sweep(half);
    assert_eq!(manager.get_peer_public_keys(), vec![public_key1.to_owned()]);

    let public_key2 = "k2";
    manager.create(half, 2, public_key2.to_owned(), user()).unwrap();
    let keys = manager.get_peer_public_keys();
    assert_eq!(keys.len(), 2);
    assert!(keys.contains(&public_key1.to_owned()));
    assert!(keys.contains(&public_key2.to_owned()));

    manager.sweep(TEN_MINUTES);
    assert_eq!(manager.get_peer_public_keys(), vec![public_key2.to_owned()]);

    manager.sweep(half + TEN_MINUTES);
    assert!(manager.get_peer_public_keys().is_empty());
}

#[test]
fn pool_exhaustion_on_small_network() {
    // A /30 holds four addresses; the base and the server are reserved,
    // so exactly two leases fit.
    let mut manager = SessionManager::new(net(10, 0, 0, 0, 30), TEN_MINUTES);
    let s1 = manager.create(0, 1, "k1".to_owned(), user()).unwrap();
    assert_eq!(s1.client_address, ip(10, 0, 0, 2));
    let s2 = manager.create(0, 2, "k2".to_owned(), user()).unwrap();
    assert_eq!(s2.client_address, ip(10, 0, 0, 3));
    let err = manager.create(0, 3, "k3".to_owned(), user()).unwrap_err();
    assert_eq!(err, SessionError::AddressPoolExhausted);
    // A re-login of a known device still succeeds: no new address needed.
    let s1b = manager.create(1, 1, "k1b".to_owned(), user()).unwrap();
    assert_eq!(s1b.client_address, ip(10, 0, 0, 2));
}

#[test]
fn swept_address_is_reused_first() {
    let mut manager = manager();
    manager.create(100, 1, "k1".to_owned(), user()).unwrap();
    let s2 = manager.create(0, 2, "k2".to_owned(), user()).unwrap();
    manager.create(100, 3, "k3".to_owned(), user()).unwrap();
    assert_eq!(s2.client_address, ip(192, 168, 1, 3));

    // The second lease expires at TEN_MINUTES and is swept; the others
    // survive a little longer.
    manager.sweep(TEN_MINUTES);
    assert_eq!(manager.num_sessions(), 2);

    // The freed address comes back before any higher, never-used one.
    let s4 = manager.create(TEN_MINUTES, 4, "k4".to_owned(), user()).unwrap();
    assert_eq!(s4.client_address, ip(192, 168, 1, 3));
}

#[test]
fn recreate_keeps_address_and_extends_expiry() {
    let mut manager = manager();
    let s1 = manager.create(0, 1, "k1".to_owned(), user()).unwrap();
    assert_eq!(s1.client_address, ip(192, 168, 1, 2));
    assert_eq!(s1.ends_at, TEN_MINUTES);
    manager.create(0, 2, "k2".to_owned(), user()).unwrap();

    let s1b = manager.create(5000, 1, "k3".to_owned(), user()).unwrap();
    assert_eq!(s1b.client_address, ip(192, 168, 1, 2));
    assert_eq!(s1b.client_public_key, "k3");
    assert!(s1b.ends_at >= s1.ends_at);
    assert_eq!(s1b.ends_at, 5000 + TEN_MINUTES);
    // The other lease is untouched.
    let keys = manager.get_peer_public_keys();
    assert_eq!(keys, vec!["k3".to_owned(), "k2".to_owned()]);
}

#[test]
fn get_peers_reflects_the_table() {
    let mut manager = manager();
    assert!(manager.get_peers().is_empty());
    manager.create(0, 1, "k1".to_owned(), user()).unwrap();
    manager.create(0, 2, "k2".to_owned(), user()).unwrap();

    let peers = manager.get_peers();
    assert_eq!(peers.len(), 2);
    assert_eq!(peers[0].public_key, "k1");
    assert_eq!(peers[0].allowed_ips.len(), 1);
    assert_eq!(peers[0].allowed_ips[0].base, ip(192, 168, 1, 2));
    assert_eq!(peers[0].allowed_ips[0].prefix, 32);
    assert!(peers[0].endpoint.is_none());
    assert!(peers[0].persistent_keepalive.is_none());
    assert_eq!(peers[1].public_key, "k2");
    assert_eq!(peers[1].allowed_ips[0].base, ip(192, 168, 1, 3));

    // Idempotent: a second snapshot with no mutation in between is
    // identical.
    let again = manager.get_peers();
    assert_eq!(again.len(), peers.len());
    for (a, b) in peers.iter().zip(again.iter()) {
        assert_eq!(a.public_key, b.public_key);
        assert_eq!(a.allowed_ips.len(), b.allowed_ips.len());
        assert_eq!(a.allowed_ips[0], b.allowed_ips[0]);
    }
}

#[test]
fn next_expiring_session_is_the_minimum() {
    let mut manager = manager();
    assert_eq!(manager.next_expiring_session(), None);
    manager.create(5000, 1, "k1".to_owned(), user()).unwrap();
    manager.create(0, 2, "k2".to_owned(), user()).unwrap();
    manager.create(9000, 3, "k3".to_owned(), user()).unwrap();
    assert_eq!(manager.next_expiring_session(), Some(TEN_MINUTES));
}

#[test]
fn network_too_small_for_a_server() {
    let manager = SessionManager::new(net(10, 0, 0, 0, 32), TEN_MINUTES);
    assert_eq!(manager.server_address().unwrap_err(), SessionError::NetworkTooSmall);
    let mut manager = SessionManager::new(net(10, 0, 0, 0, 31), TEN_MINUTES);
    // Room for the server, but no usable client address.
    assert_eq!(manager.server_address().unwrap(), ip(10, 0, 0, 1));
    let err = manager.create(0, 1, "k1".to_owned(), user()).unwrap_err();
    assert_eq!(err, SessionError::AddressPoolExhausted);
}

#[test]
fn clock_overflow_is_reported() {
    let mut manager = manager();
    let err = manager.create(u64::MAX - 100, 1, "k1".to_owned(), user()).unwrap_err();
    assert_eq!(err, SessionError::ClockOverflow);
    assert_eq!(manager.num_sessions(), 0);
}

#[test]
fn helper_constructors_agree() {
    // The shape the other scenarios run on: a /24 with a ten-minute
    // session duration.
    let m = create_session_manager();
    assert_eq!(m.session_duration(), TEN_MINUTES);
    assert_eq!(m.server_address().unwrap(), ip(192, 168, 1, 1));
}
