use cablescout::config::{Config, TunnelConfig};
use cablescout::errors::ConfigError;

fn tc(endpoint: &str) -> TunnelConfig {
    TunnelConfig { endpoint: endpoint.to_string() }
}

#[test]
fn find_with_no_tunnels() {
    let config = Config::new();
    assert_eq!(config.find(None).unwrap_err(), ConfigError::NoTunnels);
    assert_eq!(
        config.find(Some("corp".to_string())).unwrap_err(),
        ConfigError::NoSuchTunnel
    );
}

#[test]
fn find_with_one_tunnel() {
    let mut config = Config::new();
    config.add_tunnel("corp", tc("https://vpn.example.com")).unwrap();
    let (name, tunnel) = config.find(None).unwrap();
    assert_eq!(name, "corp");
    assert_eq!(tunnel.endpoint, "https://vpn.example.com");
}

#[test]
fn find_needs_a_name_among_several() {
    let mut config = Config::new();
    config.add_tunnel("corp", tc("https://vpn.example.com")).unwrap();
    config.add_tunnel("lab", tc("https://lab.example.com")).unwrap();
    assert_eq!(config.find(None).unwrap_err(), ConfigError::AmbiguousTunnel);
    let (name, tunnel) = config.find(Some("lab".to_string())).unwrap();
    assert_eq!(name, "lab");
    assert_eq!(tunnel.endpoint, "https://lab.example.com");
    assert_eq!(
        config.find(Some("other".to_string())).unwrap_err(),
        ConfigError::NoSuchTunnel
    );
}

#[test]
fn add_and_remove_tunnels() {
    let mut config = Config::new();
    assert_eq!(config.num_tunnels(), 0);
    config.add_tunnel("corp", tc("https://vpn.example.com")).unwrap();
    assert_eq!(config.num_tunnels(), 1);
    assert_eq!(
        config.add_tunnel("corp", tc("https://other.example.com")).unwrap_err(),
        ConfigError::TunnelExists
    );
    assert_eq!(config.num_tunnels(), 1);
    // The refused add left the original endpoint in place.
    let (_, tunnel) = config.find(Some("corp".to_string())).unwrap();
    assert_eq!(tunnel.endpoint, "https://vpn.example.com");

    assert_eq!(config.remove_tunnel("other").unwrap_err(), ConfigError::NoSuchTunnel);
    config.remove_tunnel("corp").unwrap();
    assert_eq!(config.num_tunnels(), 0);
}

#[test]
fn tunnel_names_and_info_in_order() {
    let mut config = Config::new();
    config.add_tunnel("corp", tc("https://vpn.example.com")).unwrap();
    config.add_tunnel("lab", tc("https://lab.example.com")).unwrap();
    assert_eq!(config.get_tunnel_names(), vec!["corp".to_string(), "lab".to_string()]);
    let infos = config.get_tunnels_info();
    assert_eq!(infos.len(), 2);
    assert_eq!(infos[0].0, "corp");
    assert_eq!(infos[0].1.endpoint, "https://vpn.example.com");
    assert_eq!(infos[1].0, "lab");
    assert_eq!(infos[1].1.endpoint, "https://lab.example.com");
}

#[test]
fn api_urls_resolve_against_the_endpoint() {
    let tunnel = tc("https://vpn.example.com");
    assert_eq!(
        tunnel.start_api_url().unwrap(),
        "https://vpn.example.com/api/v1/login/start"
    );
    assert_eq!(
        tunnel.finish_api_url().unwrap(),
        "https://vpn.example.com/api/v1/login/finish"
    );
    assert_eq!(tunnel.finish_url().unwrap(), "https://vpn.example.com/finish");

    // A path or port on the endpoint does not survive an absolute path.
    let tunnel = tc("https://vpn.example.com:8443/some/page");
    assert_eq!(
        tunnel.start_api_url().unwrap(),
        "https://vpn.example.com:8443/api/v1/login/start"
    );
}

#[test]
fn bad_endpoint_is_reported() {
    let tunnel = tc("not a url");
    assert_eq!(tunnel.start_api_url().unwrap_err(), ConfigError::BadEndpoint);
    assert_eq!(tunnel.finish_api_url().unwrap_err(), ConfigError::BadEndpoint);
    assert_eq!(tunnel.finish_url().unwrap_err(), ConfigError::BadEndpoint);
}
