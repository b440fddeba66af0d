use cablescout::api::{
    ApiServer, ClientConfig, FinishLoginRequest, StartLoginRequest, client_wg_config,
};
use cablescout::errors::{ApiError, LoginError, SessionError, TokenError};
use cablescout::login::{UserData, check_user_domain};
use cablescout::net::IpNet;
use cablescout::wg_config::WgKeyPair;
use cablescout::wireguard::{Wireguard, WireguardSettings};

fn ip(a: u32, b: u32, c: u32, d: u32) -> u32 {
    (a << 24) | (b << 16) | (c << 8) | d
}

fn net(a: u32, b: u32, c: u32, d: u32, prefix: u8) -> IpNet {
    IpNet::new(ip(a, b, c, d), prefix).unwrap()
}

fn settings() -> WireguardSettings {
    WireguardSettings {
        session_duration: 600_000,
        wg_port: 51820,
        wg_client_cidr: net(172, 25, 0, 0, 24),
        wg_additional_networks: vec![net(10, 0, 0, 0, 8)],
        wg_dns_server: Some(ip(1, 1, 1, 1)),
        wg_mtu: Some(1380),
        wg_client_keepalive: Some(25),
        wg_server_keepalive: None,
        wg_post_up_script: None,
        wg_post_down_script: None,
    }
}

fn server_key_pair() -> WgKeyPair {
    WgKeyPair { public_key: "SERVER-PUB".to_string(), private_key: "SERVER-PRIV".to_string() }
}

fn api_server() -> ApiServer {
    let wireguard = Wireguard::new(settings(), server_key_pair());
    ApiServer::new("client-id-1".to_string(), "example.com".to_string(), 120, wireguard).unwrap()
}

#[test]
fn start_login_token_round_trips() {
    let server = api_server();
    let req = StartLoginRequest { client_public_key: "CLIENT-PUB".to_string(), device_id: None };
    let resp = server.start_login(1000, &req).unwrap();
    assert_eq!(resp.oidc_client_id, "client-id-1");

    let finish = FinishLoginRequest { login_token: resp.login_token, auth_code: "code".to_string() };
    let key = server.finish_login_begin(1060, &finish).unwrap();
    assert_eq!(key, "CLIENT-PUB");
}

#[test]
fn expired_login_token_is_unauthorized() {
    let server = api_server();
    let req = StartLoginRequest { client_public_key: "CLIENT-PUB".to_string(), device_id: None };
    let resp = server.start_login(1000, &req).unwrap();

    let finish = FinishLoginRequest { login_token: resp.login_token, auth_code: "code".to_string() };
    let err = server.finish_login_begin(1120, &finish).unwrap_err();
    assert_eq!(err, ApiError::Token(TokenError::TokenInvalid));
    assert_eq!(err.status_code(), 401);
}

#[test]
fn identity_domain_rule() {
    let server = api_server();
    let user = server.check_identity("alice@example.com").unwrap();
    assert_eq!(user.email, "alice@example.com");

    let err = server.check_identity("alice@other.com").unwrap_err();
    assert_eq!(err, ApiError::Login(LoginError::IdentityRejected));
    assert_eq!(err.status_code(), 401);
    assert!(server.check_identity("no-at-sign").is_err());

    assert!(check_user_domain("bob@example.com", &"example.com".to_string()).is_ok());
    assert!(check_user_domain("bob@example.com", &"example.org".to_string()).is_err());
}

#[test]
fn finish_login_complete_describes_the_tunnel() {
    let mut server = api_server();
    let user = UserData { email: "alice@example.com".to_string() };
    let resp = server
        .finish_login_complete(0, "vpn.example.com", 1, "CLIENT-PUB".to_string(), user)
        .unwrap();
    assert_eq!(resp.session_ends_at, 600_000);
    assert_eq!(resp.interface.address.base, ip(172, 25, 0, 2));
    assert_eq!(resp.interface.address.prefix, 32);
    assert_eq!(resp.interface.dns, Some(ip(1, 1, 1, 1)));
    assert_eq!(resp.interface.mtu, Some(1380));
    assert_eq!(resp.interface.listen_port, None);
    assert_eq!(resp.peer.public_key, "SERVER-PUB");
    assert_eq!(resp.peer.endpoint.as_deref(), Some("vpn.example.com:51820"));
    assert_eq!(resp.peer.allowed_ips, vec![net(172, 25, 0, 0, 24), net(10, 0, 0, 0, 8)]);
    assert_eq!(resp.peer.persistent_keepalive, Some(25));
}

#[test]
fn exhausted_pool_surfaces_as_service_failure() {
    let mut settings = settings();
    settings.wg_client_cidr = net(172, 25, 0, 0, 31);
    let wireguard = Wireguard::new(settings, server_key_pair());
    let mut server =
        ApiServer::new("client-id-1".to_string(), "example.com".to_string(), 120, wireguard)
            .unwrap();
    let user = UserData { email: "alice@example.com".to_string() };
    let err = server
        .finish_login_complete(0, "vpn.example.com", 1, "CLIENT-PUB".to_string(), user)
        .unwrap_err();
    assert_eq!(err, ApiError::Session(SessionError::AddressPoolExhausted));
    assert_eq!(err.status_code(), 503);
}

#[test]
fn client_wg_config_renders_the_flat_form() {
    let key_pair = WgKeyPair { public_key: "PUB".to_string(), private_key: "PRIV".to_string() };
    let client_config = ClientConfig {
        client_address: net(172, 25, 0, 2, 32),
        dns_server: None,
        mtu: None,
        server_public_key: "SERVER-PUB".to_string(),
        server_port: 51820,
        networks: vec![net(172, 25, 0, 0, 24)],
        persistent_keepalive: Some(25),
    };
    let config = client_wg_config("vpn.example.com:51820".to_string(), key_pair, client_config);
    assert_eq!(
        config.render(),
        "[Interface]\n\
         PrivateKey=PRIV\n\
         Address=172.25.0.2/32\n\
         \n\
         [Peer]\n\
         PublicKey=SERVER-PUB\n\
         AllowedIps=172.25.0.0/24\n\
         Endpoint=vpn.example.com:51820\n\
         PersistentKeepalive=25\n\
         \n"
    );
}
