use cablescout::net::{IpNet, ipv4_to_string, ipnet_to_string, u64_to_dec};
use cablescout::wg_config::{
    FullWireguardInterface, WgKeyPair, WireguardConfig, WireguardInterface,
    WireguardInterfaceScripts, WireguardPeer, client_config,
};
use cablescout::wg_quick::{config_dir, config_file_path};

fn ip(a: u32, b: u32, c: u32, d: u32) -> u32 {
    (a << 24) | (b << 16) | (c << 8) | d
}

fn net(a: u32, b: u32, c: u32, d: u32, prefix: u8) -> IpNet {
    IpNet::new(ip(a, b, c, d), prefix).unwrap()
}

fn key_pair() -> WgKeyPair {
    WgKeyPair { public_key: "PUB".to_string(), private_key: "PRIV".to_string() }
}

#[test]
fn decimal_and_address_text() {
    assert_eq!(u64_to_dec(0), "0");
    assert_eq!(u64_to_dec(51820), "51820");
    assert_eq!(u64_to_dec(18446744073709551615), "18446744073709551615");
    assert_eq!(ipv4_to_string(ip(192, 168, 1, 2)), "192.168.1.2");
    assert_eq!(ipv4_to_string(0), "0.0.0.0");
    assert_eq!(ipv4_to_string(u32::MAX), "255.255.255.255");
    assert_eq!(ipnet_to_string(net(10, 0, 0, 0, 8)), "10.0.0.0/8");
    assert_eq!(ipnet_to_string(net(0, 0, 0, 0, 0)), "0.0.0.0/0");
}

#[test]
fn render_full_configuration() {
    let interface = WireguardInterface {
        address: net(172, 25, 0, 1, 32),
        dns: Some(ip(1, 1, 1, 1)),
        mtu: Some(1380),
        listen_port: Some(51820),
    };
    let scripts = WireguardInterfaceScripts {
        post_up: Some("/etc/up.sh".to_string()),
        post_down: Some("/etc/down.sh".to_string()),
    };
    let full = FullWireguardInterface::new_with_scripts(key_pair(), interface, scripts);
    let peers = vec![
        WireguardPeer {
            public_key: "P1".to_string(),
            allowed_ips: vec![net(172, 25, 0, 2, 32)],
            endpoint: None,
            persistent_keepalive: None,
        },
        WireguardPeer {
            public_key: "P2".to_string(),
            allowed_ips: vec![net(172, 25, 0, 0, 24), net(10, 0, 0, 0, 8)],
            endpoint: Some("vpn.example.com:51820".to_string()),
            persistent_keepalive: Some(25),
        },
    ];
    let config = WireguardConfig::new(full, peers);
    let expected = "[Interface]\n\
        PrivateKey=PRIV\n\
        Address=172.25.0.1/32\n\
        Dns=1.1.1.1\n\
        Mtu=1380\n\
        ListenPort=51820\n\
        PostUp=/etc/up.sh\n\
        PostDown=/etc/down.sh\n\
        \n\
        [Peer]\n\
        PublicKey=P1\n\
        AllowedIps=172.25.0.2/32\n\
        \n\
        [Peer]\n\
        PublicKey=P2\n\
        AllowedIps=172.25.0.0/24 10.0.0.0/8\n\
        Endpoint=vpn.example.com:51820\n\
        PersistentKeepalive=25\n\
        \n";
    assert_eq!(config.render(), expected);
}

#[test]
fn render_minimal_configuration() {
    let interface = WireguardInterface {
        address: net(172, 25, 0, 2, 32),
        dns: None,
        mtu: None,
        listen_port: None,
    };
    let full = FullWireguardInterface::new(&key_pair(), interface);
    let config = WireguardConfig::new(full, vec![]);
    assert_eq!(config.render(), "[Interface]\nPrivateKey=PRIV\nAddress=172.25.0.2/32\n\n");
}

#[test]
fn rendering_is_deterministic() {
    let build = || {
        let interface = WireguardInterface {
            address: net(172, 25, 0, 1, 32),
            dns: None,
            mtu: Some(1380),
            listen_port: Some(51820),
        };
        let full = FullWireguardInterface::new(&key_pair(), interface);
        let peers = vec![WireguardPeer {
            public_key: "P1".to_string(),
            allowed_ips: vec![net(172, 25, 0, 2, 32)],
            endpoint: None,
            persistent_keepalive: None,
        }];
        WireguardConfig::new(full, peers)
    };
    assert_eq!(build().render(), build().render());
}

#[test]
fn client_configuration_has_one_peer() {
    let interface = WireguardInterface {
        address: net(172, 25, 0, 2, 32),
        dns: None,
        mtu: None,
        listen_port: None,
    };
    let peer = WireguardPeer {
        public_key: "SERVER".to_string(),
        allowed_ips: vec![net(172, 25, 0, 0, 24)],
        endpoint: Some("vpn.example.com:51820".to_string()),
        persistent_keepalive: None,
    };
    let config = client_config(&key_pair(), interface, peer);
    assert_eq!(
        config.render(),
        "[Interface]\n\
         PrivateKey=PRIV\n\
         Address=172.25.0.2/32\n\
         \n\
         [Peer]\n\
         PublicKey=SERVER\n\
         AllowedIps=172.25.0.0/24\n\
         Endpoint=vpn.example.com:51820\n\
         \n"
    );
}

#[test]
fn configuration_paths() {
    assert_eq!(config_dir(), "/etc/wireguard");
    assert_eq!(config_file_path("corp"), "/etc/wireguard/corp.conf");
}

#[test]
fn network_normalization() {
    // The host bits of the given address are cleared.
    let n = IpNet::new(ip(192, 168, 1, 77), 24).unwrap();
    assert_eq!(n.base, ip(192, 168, 1, 0));
    assert_eq!(n.prefix, 24);
    assert_eq!(n.capacity_u64(), 256);
    assert_eq!(IpNet::new(ip(10, 0, 0, 0), 33), None);
    let host = IpNet::new(ip(10, 1, 2, 3), 32).unwrap();
    assert_eq!(host.base, ip(10, 1, 2, 3));
    assert_eq!(host.capacity_u64(), 1);
    let all = IpNet::new(ip(1, 2, 3, 4), 0).unwrap();
    assert_eq!(all.base, 0);
    assert_eq!(all.capacity_u64(), 1 << 32);
    assert_eq!(all.nth(5), 5);
}
