//! WireGuard configuration values and their rendering.
//!
//! The configuration artifact is a text format with an `[Interface]` stanza
//! followed by one `[Peer]` stanza per peer, each a sequence of `Key=Value`
//! lines.  Rendering is a pure function of the values: the same leases give
//! byte-identical text.

use vstd::prelude::*;
use crate::net::{IpNet, ipnet_text, ipv4_text, dec_digits, ipnet_to_string, ipv4_to_string,
    u64_to_dec};

verus! {

/// A WireGuard key pair, as the external key-generation tool hands it out.
#[derive(Debug)]
pub struct WgKeyPair {
    pub public_key: String,
    pub private_key: String,
}

/// View of a key pair: the two key texts.
pub struct KeyPairView {
    pub public_key: Seq<char>,
    pub private_key: Seq<char>,
}

impl View for WgKeyPair {
    type V = KeyPairView;

    open spec fn view(&self) -> KeyPairView {
        KeyPairView { public_key: self.public_key@, private_key: self.private_key@ }
    }
}

impl Clone for WgKeyPair {
    fn clone(&self) -> (r: Self)
        ensures
            r@ == self@,
    {
        WgKeyPair { public_key: self.public_key.clone(), private_key: self.private_key.clone() }
    }
}

/// The client-facing description of a WireGuard interface.
#[derive(Clone, Copy, PartialEq, Eq, Structural, Debug)]
pub struct WireguardInterface {
    /// The interface's own address, as a single-address network.
    pub address: IpNet,
    /// Optional DNS server handed to clients.
    pub dns: Option<u32>,
    /// Optional interface MTU.
    pub mtu: Option<u16>,
    /// Listen port; set on the server's own interface only.
    pub listen_port: Option<u16>,
}

/// Optional scripts run when the interface goes up or down.
#[derive(Debug)]
pub struct WireguardInterfaceScripts {
    pub post_up: Option<String>,
    pub post_down: Option<String>,
}

/// View of the scripts: their texts.
pub struct ScriptsView {
    pub post_up: Option<Seq<char>>,
    pub post_down: Option<Seq<char>>,
}

impl View for WireguardInterfaceScripts {
    type V = ScriptsView;

    open spec fn view(&self) -> ScriptsView {
        ScriptsView {
            post_up: match self.post_up {
                Some(s) => Some(s@),
                None => None,
            },
            post_down: match self.post_down {
                Some(s) => Some(s@),
                None => None,
            },
        }
    }
}

impl WireguardInterfaceScripts {
    /// No scripts at all.
    pub fn none() -> (r: Self)
        ensures
            r@.post_up is None,
            r@.post_down is None,
    {
        WireguardInterfaceScripts { post_up: None, post_down: None }
    }
}

/// An interface description together with its private key and scripts:
/// everything the `[Interface]` stanza holds.
#[derive(Debug)]
pub struct FullWireguardInterface {
    pub private_key: String,
    pub interface: WireguardInterface,
    pub scripts: WireguardInterfaceScripts,
}

/// View of a full interface.
pub struct FullInterfaceView {
    pub private_key: Seq<char>,
    pub interface: WireguardInterface,
    pub scripts: ScriptsView,
}

impl View for FullWireguardInterface {
    type V = FullInterfaceView;

    open spec fn view(&self) -> FullInterfaceView {
        FullInterfaceView {
            private_key: self.private_key@,
            interface: self.interface,
            scripts: self.scripts@,
        }
    }
}

impl FullWireguardInterface {
    /// An interface without scripts, keyed by the given pair.
    pub fn new(key_pair: &WgKeyPair, interface: WireguardInterface) -> (r: Self)
        ensures
            r@.private_key == key_pair@.private_key,
            r@.interface == interface,
            r@.scripts.post_up is None,
            r@.scripts.post_down is None,
    {
        FullWireguardInterface {
            private_key: key_pair.private_key.clone(),
            interface,
            scripts: WireguardInterfaceScripts::none(),
        }
    }

    /// An interface with scripts, keyed by the given pair.
    pub fn new_with_scripts(
        key_pair: WgKeyPair,
        interface: WireguardInterface,
        scripts: WireguardInterfaceScripts,
    ) -> (r: Self)
        ensures
            r@.private_key == key_pair@.private_key,
            r@.interface == interface,
            r@.scripts == scripts@,
    {
        FullWireguardInterface { private_key: key_pair.private_key, interface, scripts }
    }
}

/// One peer of the interface: the `[Peer]` stanza's values.
#[derive(Debug)]
pub struct WireguardPeer {
    pub public_key: String,
    /// The networks this peer routes, space-separated in the stanza.
    pub allowed_ips: Vec<IpNet>,
    /// Remote endpoint, as `host:port` text; absent for client peers.
    pub endpoint: Option<String>,
    /// Keepalive interval in seconds.
    pub persistent_keepalive: Option<u64>,
}

/// View of a peer.
pub struct PeerView {
    pub public_key: Seq<char>,
    pub allowed_ips: Seq<IpNet>,
    pub endpoint: Option<Seq<char>>,
    pub persistent_keepalive: Option<u64>,
}

impl View for WireguardPeer {
    type V = PeerView;

    open spec fn view(&self) -> PeerView {
        PeerView {
            public_key: self.public_key@,
            allowed_ips: self.allowed_ips@,
            endpoint: match self.endpoint {
                Some(s) => Some(s@),
                None => None,
            },
            persistent_keepalive: self.persistent_keepalive,
        }
    }
}

impl Clone for WireguardPeer {
    fn clone(&self) -> (r: Self)
        ensures
            r@ == self@,
    {
        let endpoint = match &self.endpoint {
            Some(s) => Some(s.clone()),
            None => None,
        };
        let r = WireguardPeer {
            public_key: self.public_key.clone(),
            allowed_ips: self.allowed_ips.clone(),
            endpoint,
            persistent_keepalive: self.persistent_keepalive,
        };
        proof {
            assert(r@.allowed_ips =~= self@.allowed_ips);
        }
        r
    }
}

/// A whole configuration: the interface and its peers.
#[derive(Debug)]
pub struct WireguardConfig {
    pub interface: FullWireguardInterface,
    pub peers: Vec<WireguardPeer>,
}

/// View of a configuration.
pub struct ConfigView {
    pub interface: FullInterfaceView,
    pub peers: Seq<PeerView>,
}

impl View for WireguardConfig {
    type V = ConfigView;

    open spec fn view(&self) -> ConfigView {
        ConfigView {
            interface: self.interface@,
            peers: self.peers@.map_values(|p: WireguardPeer| p@),
        }
    }
}

impl WireguardConfig {
    /// Bundle an interface with its peers.
    pub fn new(interface: FullWireguardInterface, peers: Vec<WireguardPeer>) -> (r: Self)
        ensures
            r@.interface == interface@,
            r@.peers == peers@.map_values(|p: WireguardPeer| p@),
    {
        WireguardConfig { interface, peers }
    }
}

/// A `Key=Value` line.
pub open spec fn kv(key: Seq<char>, value: Seq<char>) -> Seq<char> {
    key + "="@ + value + "\n"@
}

/// A `Key=Value` line for an optional value, empty when absent.
pub open spec fn opt_kv(key: Seq<char>, value: Option<Seq<char>>) -> Seq<char> {
    match value {
        Some(v) => kv(key, v),
        None => Seq::empty(),
    }
}

/// Decimal text of an optional number.
pub open spec fn opt_dec(v: Option<u64>) -> Option<Seq<char>> {
    match v {
        Some(n) => Some(dec_digits(n as nat)),
        None => None,
    }
}

/// Text of the `[Interface]` stanza.
pub open spec fn interface_text(v: FullInterfaceView) -> Seq<char> {
    "[Interface]\n"@ + kv("PrivateKey"@, v.private_key) + kv(
        "Address"@,
        ipnet_text(v.interface.address),
    ) + opt_kv(
        "Dns"@,
        match v.interface.dns {
            Some(a) => Some(ipv4_text(a as int)),
            None => None,
        },
    ) + opt_kv(
        "Mtu"@,
        match v.interface.mtu {
            Some(m) => Some(dec_digits(m as nat)),
            None => None,
        },
    ) + opt_kv(
        "ListenPort"@,
        match v.interface.listen_port {
            Some(p) => Some(dec_digits(p as nat)),
            None => None,
        },
    ) + opt_kv("PostUp"@, v.scripts.post_up) + opt_kv("PostDown"@, v.scripts.post_down) + "\n"@
}

/// The peer's allowed networks, space-separated.
pub open spec fn allowed_ips_text(ips: Seq<IpNet>) -> Seq<char>
    decreases ips.len(),
{
    if ips.len() == 0 {
        Seq::empty()
    } else if ips.len() == 1 {
        ipnet_text(ips[0])
    } else {
        allowed_ips_text(ips.drop_last()) + " "@ + ipnet_text(ips.last())
    }
}

/// Text of one `[Peer]` stanza.
pub open spec fn peer_text(p: PeerView) -> Seq<char> {
    "[Peer]\n"@ + kv("PublicKey"@, p.public_key) + kv("AllowedIps"@, allowed_ips_text(p.allowed_ips))
        + opt_kv("Endpoint"@, p.endpoint) + opt_kv(
        "PersistentKeepalive"@,
        opt_dec(p.persistent_keepalive),
    ) + "\n"@
}

/// Text of all `[Peer]` stanzas in order.
pub open spec fn peers_text(ps: Seq<PeerView>) -> Seq<char>
    decreases ps.len(),
{
    if ps.len() == 0 {
        Seq::empty()
    } else {
        peers_text(ps.drop_last()) + peer_text(ps.last())
    }
}

/// Text of a whole configuration.
pub open spec fn config_text(c: ConfigView) -> Seq<char> {
    interface_text(c.interface) + peers_text(c.peers)
}

/// Append one `Key=Value` line.
fn push_kv(s: &mut String, key: &str, value: &str)
    ensures
        final(s)@ == old(s)@ + kv(key@, value@),
{
    s.append(key);
    s.append("=");
    s.append(value);
    s.append("\n");
    proof {
        assert(s@ =~= old(s)@ + kv(key@, value@));
    }
}

/// Append one `Key=Value` line when the value is present.
fn push_opt_kv(s: &mut String, key: &str, value: &Option<String>)
    ensures
        final(s)@ == old(s)@ + opt_kv(
            key@,
            match value {
                Some(v) => Some(v@),
                None => None,
            },
        ),
{
    match value {
        Some(v) => {
            push_kv(s, key, v.as_str());
        },
        None => {
            proof {
                assert(s@ =~= old(s)@ + Seq::<char>::empty());
            }
        },
    }
}

/// Append one `Key=Value` line for a present number.
fn push_opt_dec(s: &mut String, key: &str, value: Option<u64>)
    ensures
        final(s)@ == old(s)@ + opt_kv(key@, opt_dec(value)),
{
    match value {
        Some(n) => {
            let t = u64_to_dec(n);
            push_kv(s, key, t.as_str());
        },
        None => {
            proof {
                assert(s@ =~= old(s)@ + Seq::<char>::empty());
            }
        },
    }
}

/// Render the peer's allowed networks, space-separated.
fn allowed_ips_string(ips: &Vec<IpNet>) -> (r: String)
    ensures
        r@ == allowed_ips_text(ips@),
{
    let mut s = String::new();
    let mut k: usize = 0;
    proof {
        assert(s@ =~= allowed_ips_text(ips@.take(0)));
    }
    while k < ips.len()
        invariant
            k <= ips@.len(),
            s@ == allowed_ips_text(ips@.take(k as int)),
        decreases ips@.len() - k,
    {
        if k > 0 {
            s.append(" ");
        }
        let t = ipnet_to_string(ips[k]);
        s.append(t.as_str());
        proof {
            assert(ips@.take(k + 1 as int).drop_last() =~= ips@.take(k as int));
            assert(ips@.take(k + 1 as int).last() == ips@[k as int]);
            assert(s@ =~= allowed_ips_text(ips@.take(k + 1 as int)));
        }
        k = k + 1;
    }
    proof {
        assert(ips@.take(ips@.len() as int) =~= ips@);
    }
    s
}

/// Append the `[Interface]` stanza.
#[verifier::rlimit(50)]
fn push_interface(s: &mut String, interface: &FullWireguardInterface)
    ensures
        final(s)@ == old(s)@ + interface_text(interface@),
{
    s.append("[Interface]\n");
    push_kv(s, "PrivateKey", interface.private_key.as_str());
    let addr_text = ipnet_to_string(interface.interface.address);
    push_kv(s, "Address", addr_text.as_str());
    match interface.interface.dns {
        Some(a) => {
            let t = ipv4_to_string(a);
            push_kv(s, "Dns", t.as_str());
        },
        None => {},
    }
    match interface.interface.mtu {
        Some(m) => push_opt_dec(s, "Mtu", Some(m as u64)),
        None => push_opt_dec(s, "Mtu", None),
    }
    match interface.interface.listen_port {
        Some(p) => push_opt_dec(s, "ListenPort", Some(p as u64)),
        None => push_opt_dec(s, "ListenPort", None),
    }
    push_opt_kv(s, "PostUp", &interface.scripts.post_up);
    push_opt_kv(s, "PostDown", &interface.scripts.post_down);
    s.append("\n");
    proof {
        assert(s@ =~= old(s)@ + interface_text(interface@));
    }
}

/// Append one `[Peer]` stanza.
fn push_peer(s: &mut String, peer: &WireguardPeer)
    ensures
        final(s)@ == old(s)@ + peer_text(peer@),
{
    s.append("[Peer]\n");
    push_kv(s, "PublicKey", peer.public_key.as_str());
    let ips = allowed_ips_string(&peer.allowed_ips);
    push_kv(s, "AllowedIps", ips.as_str());
    push_opt_kv(s, "Endpoint", &peer.endpoint);
    push_opt_dec(s, "PersistentKeepalive", peer.persistent_keepalive);
    s.append("\n");
    proof {
        assert(s@ =~= old(s)@ + peer_text(peer@));
    }
}

/// The client-side configuration for a finished login: the interface the
/// gateway described, keyed by the attempt's own pair, with the gateway
/// as the single peer.
pub fn client_config(key_pair: &WgKeyPair, interface: WireguardInterface, peer: WireguardPeer) -> (r:
    WireguardConfig)
    ensures
        r@.interface.private_key == key_pair@.private_key,
        r@.interface.interface == interface,
        r@.interface.scripts.post_up is None,
        r@.interface.scripts.post_down is None,
        r@.peers == seq![peer@],
{
    let ghost pv = peer@;
    let full = FullWireguardInterface::new(key_pair, interface);
    let mut peers: Vec<WireguardPeer> = Vec::new();
    peers.push(peer);
    let r = WireguardConfig::new(full, peers);
    proof {
        assert(r@.peers =~= seq![pv]);
    }
    r
}

impl WireguardConfig {
    /// The configuration rendered as text, exactly `config_text` of the
    /// values: rendering is deterministic.
    pub fn render(&self) -> (r: String)
        ensures
            r@ == config_text(self@),
    {
        let mut s = String::new();
        push_interface(&mut s, &self.interface);
        let mut k: usize = 0;
        proof {
            assert(s@ =~= interface_text(self@.interface) + peers_text(self@.peers.take(0)));
        }
        while k < self.peers.len()
            invariant
                k <= self.peers@.len(),
                s@ == interface_text(self@.interface) + peers_text(self@.peers.take(k as int)),
                self@.peers.len() == self.peers@.len(),
                forall|i: int| 0 <= i < self.peers@.len() ==> self@.peers[i] == self.peers@[i]@,
            decreases self.peers@.len() - k,
        {
            push_peer(&mut s, &self.peers[k]);
            proof {
                assert(self@.peers.take(k + 1 as int).drop_last() =~= self@.peers.take(k as int));
                assert(self@.peers.take(k + 1 as int).last() == self@.peers[k as int]);
                assert(s@ =~= interface_text(self@.interface) + peers_text(
                    self@.peers.take(k + 1 as int),
                ));
            }
            k = k + 1;
        }
        proof {
            assert(self@.peers.take(self.peers@.len() as int) =~= self@.peers);
        }
        s
    }
}

} // verus!
