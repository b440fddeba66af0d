use cablescout::errors::SessionError;
use cablescout::login::UserData;
use cablescout::net::IpNet;
use cablescout::wg_config::WgKeyPair;
use cablescout::wireguard::{Wireguard, WireguardSettings};

fn ip(a: u32, b: u32, c: u32, d: u32) -> u32 {
    (a << 24) | (b << 16) | (c << 8) | d
}

fn net(a: u32, b: u32, c: u32, d: u32, prefix: u8) -> IpNet {
    IpNet::new(ip(a, b, c, d), prefix).unwrap()
}

fn user() -> UserData {
    UserData { email: "user@example.com".to_string() }
}

fn key_pair() -> WgKeyPair {
    WgKeyPair { public_key: "SERVER-PUB".to_string(), private_key: "SERVER-PRIV".to_string() }
}

fn engine() -> Wireguard {
    let settings = WireguardSettings {
        session_duration: 600_000,
        wg_port: 51820,
        wg_client_cidr: net(172, 25, 0, 0, 24),
        wg_additional_networks: vec![],
        wg_dns_server: None,
        wg_mtu: None,
        wg_client_keepalive: None,
        wg_server_keepalive: None,
        wg_post_up_script: Some("/etc/up.sh".to_string()),
        wg_post_down_script: None,
    };
    Wireguard::new(settings, key_pair())
}

#[test]
fn start_session_allocates_and_reuses() {
    let mut engine = engine();
    assert_eq!(engine.server_address().unwrap(), ip(172, 25, 0, 1));

    let (interface1, peer1, ends1) = engine
        .start_session(0, "vpn.example.com", 1, "K1".to_string(), user())
        .unwrap();
    assert_eq!(interface1.address.base, ip(172, 25, 0, 2));
    assert_eq!(ends1, 600_000);
    assert_eq!(peer1.public_key, "SERVER-PUB");
    assert_eq!(peer1.endpoint.as_deref(), Some("vpn.example.com:51820"));
    assert_eq!(peer1.allowed_ips, vec![net(172, 25, 0, 0, 24)]);

    let (interface2, _, _) = engine
        .start_session(0, "vpn.example.com", 2, "K2".to_string(), user())
        .unwrap();
    assert_eq!(interface2.address.base, ip(172, 25, 0, 3));

    // The first device logs in again: same address, later expiry.
    let (interface1b, _, ends1b) = engine
        .start_session(1000, "vpn.example.com", 1, "K1B".to_string(), user())
        .unwrap();
    assert_eq!(interface1b.address.base, ip(172, 25, 0, 2));
    assert_eq!(ends1b, 601_000);
}

#[test]
fn server_config_renders_the_lease_set() {
    let mut engine = engine();
    engine.start_session(0, "vpn.example.com", 1, "K1".to_string(), user()).unwrap();
    engine.start_session(0, "vpn.example.com", 2, "K2".to_string(), user()).unwrap();

    let expected = "[Interface]\n\
        PrivateKey=SERVER-PRIV\n\
        Address=172.25.0.1/32\n\
        ListenPort=51820\n\
        PostUp=/etc/up.sh\n\
        \n\
        [Peer]\n\
        PublicKey=K1\n\
        AllowedIps=172.25.0.2/32\n\
        \n\
        [Peer]\n\
        PublicKey=K2\n\
        AllowedIps=172.25.0.3/32\n\
        \n";
    assert_eq!(engine.server_config().unwrap(), expected);

    // Byte-identical on a second rendering of the same leases.
    assert_eq!(engine.server_config().unwrap(), expected);

    // After the sweep removes the leases, only the interface remains.
    engine.sweep(600_000);
    assert_eq!(
        engine.server_config().unwrap(),
        "[Interface]\n\
         PrivateKey=SERVER-PRIV\n\
         Address=172.25.0.1/32\n\
         ListenPort=51820\n\
         PostUp=/etc/up.sh\n\
         \n"
    );
}

#[test]
fn sweep_and_next_expiry_through_the_engine() {
    let mut engine = engine();
    assert_eq!(engine.next_expiring_session(), None);
    engine.start_session(0, "vpn.example.com", 1, "K1".to_string(), user()).unwrap();
    engine.start_session(5000, "vpn.example.com", 2, "K2".to_string(), user()).unwrap();
    assert_eq!(engine.next_expiring_session(), Some(600_000));
    assert_eq!(engine.sweep(600_000), 1);
    assert_eq!(engine.next_expiring_session(), Some(605_000));
}

#[test]
fn too_small_network_has_no_server_address() {
    let settings = WireguardSettings {
        session_duration: 600_000,
        wg_port: 51820,
        wg_client_cidr: net(172, 25, 0, 0, 32),
        wg_additional_networks: vec![],
        wg_dns_server: None,
        wg_mtu: None,
        wg_client_keepalive: None,
        wg_server_keepalive: None,
        wg_post_up_script: None,
        wg_post_down_script: None,
    };
    let engine = Wireguard::new(settings, key_pair());
    assert_eq!(engine.server_address().unwrap_err(), SessionError::NetworkTooSmall);
    assert_eq!(engine.server_config().unwrap_err(), SessionError::NetworkTooSmall);
}
