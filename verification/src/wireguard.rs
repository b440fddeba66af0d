//! The WireGuard sync engine: hands out client sessions through the lease
//! manager and renders the server's running configuration from the
//! current lease set.
//!
//! Rendering is pure: the configuration text is a function of the lease
//! snapshot and the static settings, so the same leases give
//! byte-identical text.  Applying the text — writing the file and calling
//! the activation tool — is outside work that the caller performs on each
//! change notification.

use vstd::prelude::*;
use crate::errors::SessionError;
use crate::login::UserData;
use crate::net::IpNet;
use crate::sessions::{
    SessionManager, SessionView, allocates, has_device, device_index, updated_lease, live_leases,
};
use crate::wg_config::{
    WgKeyPair, KeyPairView, WireguardInterface, WireguardInterfaceScripts, ScriptsView,
    FullWireguardInterface, FullInterfaceView, WireguardPeer, PeerView, WireguardConfig,
    ConfigView, config_text,
};

verus! {

/// Static per-process settings of the gateway's WireGuard side.
pub struct WireguardSettings {
    /// How long a session stays authorized, in milliseconds.
    pub session_duration: u64,
    /// UDP port the WireGuard server listens on.
    pub wg_port: u16,
    /// The client network; the server reserves its first usable address.
    pub wg_client_cidr: IpNet,
    /// Additional networks clients route through the tunnel.
    pub wg_additional_networks: Vec<IpNet>,
    /// Optional DNS server handed to clients.
    pub wg_dns_server: Option<u32>,
    /// Optional MTU for generated configurations.
    pub wg_mtu: Option<u16>,
    /// Keepalive interval handed to clients, in seconds.
    pub wg_client_keepalive: Option<u64>,
    /// Keepalive interval of the server's own peers, in seconds.
    pub wg_server_keepalive: Option<u64>,
    /// Script run after the server interface comes up.
    pub wg_post_up_script: Option<String>,
    /// Script run after the server interface goes down.
    pub wg_post_down_script: Option<String>,
}

/// The endpoint text `host:port` that clients are pointed at.
pub open spec fn endpoint_text(host: Seq<char>, port: u16) -> Seq<char> {
    host + ":"@ + crate::net::dec_digits(port as nat)
}

/// The peer stanza values derived from one lease.
pub open spec fn peer_view_of_lease(s: SessionView) -> PeerView {
    PeerView {
        public_key: s.client_public_key,
        allowed_ips: seq![(IpNet { base: s.client_address, prefix: 32u8 })],
        endpoint: None,
        persistent_keepalive: None,
    }
}

/// The server's whole configuration as values: its own interface at the
/// reserved address, and one peer per lease, in table order.
pub open spec fn server_config_view(
    kp: KeyPairView,
    settings: WireguardSettings,
    server_address: u32,
    leases: Seq<SessionView>,
) -> ConfigView {
    ConfigView {
        interface: FullInterfaceView {
            private_key: kp.private_key,
            interface: WireguardInterface {
                address: IpNet { base: server_address, prefix: 32u8 },
                dns: None,
                mtu: settings.wg_mtu,
                listen_port: Some(settings.wg_port),
            },
            scripts: ScriptsView {
                post_up: match settings.wg_post_up_script {
                    Some(s) => Some(s@),
                    None => None,
                },
                post_down: match settings.wg_post_down_script {
                    Some(s) => Some(s@),
                    None => None,
                },
            },
        },
        peers: leases.map_values(|s: SessionView| peer_view_of_lease(s)),
    }
}

/// The gateway's WireGuard side: settings, the lease manager, and the
/// server's own key pair (regenerated on every process start).
pub struct Wireguard {
    settings: WireguardSettings,
    session_manager: SessionManager,
    key_pair: WgKeyPair,
}

/// Whether moving the lease table from `l0` to `l1` with result
/// `(interface, peer, ends_at)` is a correct session start at `now`: the
/// lease keyed by `device_id` was refreshed in place or created at the
/// lowest free address, and the returned descriptors point the client at
/// its own address and at the server.
pub open spec fn session_started(
    net: IpNet,
    settings: WireguardSettings,
    kp: KeyPairView,
    l0: Seq<SessionView>,
    l1: Seq<SessionView>,
    now: u64,
    hostname: Seq<char>,
    device_id: u128,
    client_public_key: Seq<char>,
    email: Seq<char>,
    interface: WireguardInterface,
    peer: PeerView,
    ends_at: u64,
) -> bool {
    &&& now as int + settings.session_duration <= u64::MAX
    &&& ends_at == now + settings.session_duration
    &&& has_device(l1, device_id)
    &&& ({
        let l = l1[device_index(l1, device_id)];
        &&& l.client_public_key == client_public_key
        &&& l.ends_at == ends_at
        &&& interface.address == (IpNet { base: l.client_address, prefix: 32u8 })
        &&& (has_device(l0, device_id) ==> l1 == l0.update(
            device_index(l0, device_id),
            updated_lease(l0[device_index(l0, device_id)], client_public_key, ends_at),
        ))
        &&& (!has_device(l0, device_id) ==> l1 == l0.push(l) && allocates(
            net,
            l0,
            l.client_address as int,
        ) && l.email == email)
    })
    &&& interface.dns == settings.wg_dns_server
    &&& interface.mtu == settings.wg_mtu
    &&& interface.listen_port is None
    &&& peer.public_key == kp.public_key
    &&& peer.endpoint == Some(endpoint_text(hostname, settings.wg_port))
    &&& peer.allowed_ips == seq![settings.wg_client_cidr] + settings.wg_additional_networks@
    &&& peer.persistent_keepalive == settings.wg_client_keepalive
}

impl Wireguard {
    /// The static settings.
    pub closed spec fn settings(self) -> WireguardSettings {
        self.settings
    }

    /// The lease manager.
    pub closed spec fn manager(self) -> SessionManager {
        self.session_manager
    }

    /// The server's own key pair.
    pub closed spec fn key_pair(self) -> KeyPairView {
        self.key_pair@
    }

    /// The engine's invariant: a well-formed lease manager over the
    /// configured client network and session duration.
    pub open spec fn wf(self) -> bool {
        &&& self.manager().wf()
        &&& self.manager().network() == self.settings().wg_client_cidr
        &&& self.manager().duration() == self.settings().session_duration
    }

    /// An engine over the given settings, keyed by a pair the external
    /// key tool generated.
    pub fn new(settings: WireguardSettings, key_pair: WgKeyPair) -> (r: Wireguard)
        requires
            settings.wg_client_cidr.wf(),
        ensures
            r.wf(),
            r.key_pair() == key_pair@,
            r.settings() == settings,
            r.manager().leases().len() == 0,
    {
        let session_manager = SessionManager::new(settings.wg_client_cidr, settings.session_duration);
        Wireguard { settings, session_manager, key_pair }
    }

    /// The lease manager's current table.
    pub open spec fn leases(self) -> Seq<SessionView> {
        self.manager().leases()
    }

    /// The server's reserved address inside the client network.
    pub fn server_address(&self) -> (r: Result<u32, SessionError>)
        requires
            self.wf(),
        ensures
            match r {
                Ok(a) => self.manager().network().capacity() >= 2 && a == self.manager().network().base
                    + 1,
                Err(e) => e == SessionError::NetworkTooSmall && self.manager().network().capacity()
                    < 2,
            },
    {
        self.session_manager.server_address()
    }

    /// Allocate or refresh a lease for the caller and describe the
    /// resulting tunnel: the client's interface (its address, DNS and
    /// MTU), the server peer (key, endpoint, routed networks, keepalive),
    /// and the session's expiry instant.
    pub fn start_session(
        &mut self,
        now: u64,
        hostname: &str,
        device_id: u128,
        client_public_key: String,
        user_data: UserData,
    ) -> (r: Result<(WireguardInterface, WireguardPeer, u64), SessionError>)
        requires
            old(self).wf(),
        ensures
            final(self).wf(),
            final(self).settings() == old(self).settings(),
            final(self).key_pair() == old(self).key_pair(),
            match r {
                Ok(t) => session_started(
                    old(self).settings().wg_client_cidr,
                    old(self).settings(),
                    old(self).key_pair(),
                    old(self).leases(),
                    final(self).leases(),
                    now,
                    hostname@,
                    device_id,
                    client_public_key@,
                    user_data@,
                    t.0,
                    t.1@,
                    t.2,
                ),
                Err(e) => final(self).leases() == old(self).leases() && match e {
                    SessionError::ClockOverflow => now as int + old(self).settings().session_duration
                        > u64::MAX,
                    SessionError::NetworkTooSmall => !has_device(old(self).leases(), device_id)
                        && old(self).manager().network().capacity() < 2,
                    SessionError::AddressPoolExhausted => !has_device(old(self).leases(), device_id)
                        && old(self).manager().network().capacity() >= 2 && (forall|a: int|
                        !crate::sessions::is_free(
                            old(self).manager().network(),
                            old(self).leases(),
                            a,
                        )),
                },
            },
    {
        let ghost l0 = old(self).leases();
        let session = match self.session_manager.create(now, device_id, client_public_key, user_data) {
            Ok(session) => session,
            Err(e) => {
                return Err(e);
            },
        };
        let ghost l1 = self.leases();

        let interface = WireguardInterface {
            address: crate::net::ip_address_as_ip_network(session.client_address),
            dns: self.settings.wg_dns_server,
            mtu: self.settings.wg_mtu,
            listen_port: None,
        };

        let mut endpoint = hostname.to_owned();
        endpoint.append(":");
        let port_text = crate::net::u64_to_dec(self.settings.wg_port as u64);
        endpoint.append(port_text.as_str());
        proof {
            assert(endpoint@ =~= endpoint_text(hostname@, self.settings().wg_port));
        }

        let mut allowed_ips: Vec<IpNet> = Vec::new();
        allowed_ips.push(self.settings.wg_client_cidr);
        let mut k: usize = 0;
        while k < self.settings.wg_additional_networks.len()
            invariant
                k <= self.settings.wg_additional_networks@.len(),
                allowed_ips@ == seq![self.settings.wg_client_cidr]
                    + self.settings.wg_additional_networks@.take(k as int),
            decreases self.settings.wg_additional_networks@.len() - k,
        {
            allowed_ips.push(self.settings.wg_additional_networks[k]);
            proof {
                assert(allowed_ips@ =~= seq![self.settings.wg_client_cidr]
                    + self.settings.wg_additional_networks@.take(k + 1 as int));
            }
            k = k + 1;
        }
        proof {
            assert(self.settings.wg_additional_networks@.take(
                self.settings.wg_additional_networks@.len() as int,
            ) =~= self.settings.wg_additional_networks@);
        }

        let peer = WireguardPeer {
            public_key: self.key_pair.public_key.clone(),
            allowed_ips,
            endpoint: Some(endpoint),
            persistent_keepalive: self.settings.wg_client_keepalive,
        };

        let ends_at = session.ends_at;
        proof {
            let id_l1 = device_index(l1, device_id);
            if has_device(l0, device_id) {
                let i = device_index(l0, device_id);
                assert(l1[i].device_id == device_id);
                assert(has_device(l1, device_id)) by {
                    assert(l1[i].device_id == device_id);
                }
                assert(id_l1 == i) by {
                    if id_l1 < i {
                        assert(l1[id_l1].device_id != l1[i].device_id);
                    } else if id_l1 > i {
                        assert(l1[i].device_id != l1[id_l1].device_id);
                    }
                }
            } else {
                assert(l1[l0.len() as int].device_id == device_id);
                assert(has_device(l1, device_id));
                assert(id_l1 == l0.len()) by {
                    if id_l1 < l0.len() {
                        assert(l1[id_l1].device_id != l1[l0.len() as int].device_id);
                    }
                }
            }
        }
        Ok((interface, peer, ends_at))
    }

    /// The configured session duration in milliseconds.
    pub fn session_duration(&self) -> (r: u64)
        ensures
            r == self.settings().session_duration,
    {
        self.settings.session_duration
    }

    /// Remove expired leases; see `SessionManager::sweep`.
    pub fn sweep(&mut self, now: u64) -> (removed: usize)
        requires
            old(self).wf(),
        ensures
            final(self).wf(),
            final(self).settings() == old(self).settings(),
            final(self).key_pair() == old(self).key_pair(),
            final(self).leases() == live_leases(old(self).leases(), now),
            removed as int == old(self).leases().len() - final(self).leases().len(),
    {
        self.session_manager.sweep(now)
    }

    /// The earliest lease expiry; see `SessionManager::next_expiring_session`.
    pub fn next_expiring_session(&self) -> (r: Option<u64>)
        ensures
            match r {
                None => self.leases().len() == 0,
                Some(m) => (exists|i: int|
                    0 <= i < self.leases().len() && #[trigger] self.leases()[i].ends_at == m) && (
                forall|i: int| 0 <= i < self.leases().len() ==> m <= #[trigger] self.leases()[i].ends_at),
            },
    {
        let r = self.session_manager.next_expiring_session();
        proof {
            if r is Some {
                let m = r->Some_0;
                let w = choose|i: int|
                    0 <= i < self.session_manager.leases().len()
                        && #[trigger] self.session_manager.leases()[i].ends_at == m;
                assert(self.leases()[w].ends_at == m);
            }
        }
        r
    }

    /// Render the server's own configuration from the current lease set:
    /// the reserved address, listen port, optional MTU and scripts, and
    /// one peer stanza per lease.  Deterministic: the same leases render
    /// byte-identical text.
    pub fn server_config(&self) -> (r: Result<String, SessionError>)
        requires
            self.wf(),
        ensures
            match r {
                Ok(text) => self.manager().network().capacity() >= 2 && text@ == config_text(
                    server_config_view(
                        self.key_pair(),
                        self.settings(),
                        (self.manager().network().base + 1) as u32,
                        self.leases(),
                    ),
                ),
                Err(e) => e == SessionError::NetworkTooSmall && self.manager().network().capacity()
                    < 2,
            },
    {
        let server_address = match self.session_manager.server_address() {
            Ok(a) => a,
            Err(e) => {
                return Err(e);
            },
        };
        let interface = WireguardInterface {
            address: crate::net::ip_address_as_ip_network(server_address),
            dns: None,
            mtu: self.settings.wg_mtu,
            listen_port: Some(self.settings.wg_port),
        };
        let scripts = WireguardInterfaceScripts {
            post_up: match &self.settings.wg_post_up_script {
                Some(s) => Some(s.clone()),
                None => None,
            },
            post_down: match &self.settings.wg_post_down_script {
                Some(s) => Some(s.clone()),
                None => None,
            },
        };
        let full = FullWireguardInterface::new_with_scripts(self.key_pair.clone(), interface, scripts);
        let peers = self.session_manager.get_peers();
        let config = WireguardConfig::new(full, peers);
        let text = config.render();
        proof {
            let expected = server_config_view(
                self.key_pair(),
                self.settings(),
                (self.manager().network().base + 1) as u32,
                self.leases(),
            );
            assert(config@.interface.scripts == expected.interface.scripts);
            assert(config@.interface == expected.interface);
            assert forall|i: int| 0 <= i < config@.peers.len() implies config@.peers[i]
                == expected.peers[i] by {
                assert(crate::sessions::peer_of_lease(config@.peers[i], self.leases()[i]));
                assert(config@.peers[i].allowed_ips =~= expected.peers[i].allowed_ips);
            }
            assert(config@.peers =~= expected.peers);
            assert(config@ == expected);
        }
        Ok(text)
    }
}

} // verus!
