//! The login API's verified core: the two-phase login that the HTTP layer
//! exposes.  The start call mints a login token over the client's public
//! key; the finish call validates the token, has the identity verified by
//! the OIDC collaborator (outside work the caller performs between the
//! two halves), and then opens the session.

use vstd::prelude::*;
use crate::errors::{ApiError, LoginError, SessionError, TokenError};
use crate::login::UserData;
use crate::net::IpNet;
use crate::tokens::{TokenGenerator, signed_token, claims_acceptable};
use crate::wg_config::{WireguardInterface, WireguardPeer};
use crate::wireguard::{Wireguard, session_started};

verus! {

/// The start-login request body: the client's fresh public key, and the
/// stable device identifier where the deployment uses one.
#[derive(Debug)]
pub struct StartLoginRequest {
    pub client_public_key: String,
    pub device_id: Option<u128>,
}

/// The start-login response body: the minted login token, and the OIDC
/// client the browser flow should use.
#[derive(Debug)]
pub struct StartLoginResponse {
    pub login_token: String,
    pub oidc_client_id: String,
}

/// The finish-login request body: the token from the start call and the
/// authorization code the identity provider handed the user.
#[derive(Debug)]
pub struct FinishLoginRequest {
    pub login_token: String,
    pub auth_code: String,
}

/// The finish-login response body: when the session ends, and the
/// interface and peer the client should bring up.
#[derive(Debug)]
pub struct FinishLoginResponse {
    pub session_ends_at: u64,
    pub interface: WireguardInterface,
    pub peer: WireguardPeer,
}

/// The flattened client configuration that the other deployment variant
/// returns in place of the interface/peer pair.
#[derive(Debug)]
pub struct ClientConfig {
    pub client_address: IpNet,
    pub dns_server: Option<u32>,
    pub mtu: Option<u16>,
    pub server_public_key: String,
    pub server_port: u16,
    pub networks: Vec<IpNet>,
    pub persistent_keepalive: Option<u64>,
}

/// The flattened client configuration turned into interface and peer
/// stanzas: the assigned address with the attempt's key on the interface
/// side, and the server's key, endpoint and routed networks as the peer.
pub fn client_wg_config(
    endpoint: String,
    key_pair: crate::wg_config::WgKeyPair,
    client_config: ClientConfig,
) -> (r: crate::wg_config::WireguardConfig)
    ensures
        r@.interface.private_key == key_pair@.private_key,
        r@.interface.interface == (WireguardInterface {
            address: client_config.client_address,
            dns: client_config.dns_server,
            mtu: client_config.mtu,
            listen_port: None,
        }),
        r@.interface.scripts.post_up is None,
        r@.interface.scripts.post_down is None,
        r@.peers.len() == 1,
        r@.peers[0].public_key == client_config.server_public_key@,
        r@.peers[0].allowed_ips == client_config.networks@,
        r@.peers[0].endpoint == Some(endpoint@),
        r@.peers[0].persistent_keepalive == client_config.persistent_keepalive,
{
    let interface = WireguardInterface {
        address: client_config.client_address,
        dns: client_config.dns_server,
        mtu: client_config.mtu,
        listen_port: None,
    };
    let peer = WireguardPeer {
        public_key: client_config.server_public_key,
        allowed_ips: client_config.networks,
        endpoint: Some(endpoint),
        persistent_keepalive: client_config.persistent_keepalive,
    };
    crate::wg_config::client_config(&key_pair, interface, peer)
}

/// The login API server: the token issuer, the WireGuard engine, and the
/// identity rules.
pub struct ApiServer {
    oidc_client_id: String,
    email_domain: String,
    token_generator: TokenGenerator,
    wireguard: Wireguard,
}

impl ApiServer {
    /// The OIDC client identifier handed to browsers.
    pub closed spec fn oidc_client_id(self) -> Seq<char> {
        self.oidc_client_id@
    }

    /// The email domain a verified identity must belong to.
    pub closed spec fn email_domain(self) -> Seq<char> {
        self.email_domain@
    }

    /// The token issuer.
    pub closed spec fn tokens(self) -> TokenGenerator {
        self.token_generator
    }

    /// The WireGuard engine.
    pub closed spec fn wireguard(self) -> Wireguard {
        self.wireguard
    }

    /// The server's invariant.
    pub open spec fn wf(self) -> bool {
        &&& self.tokens().wf()
        &&& self.wireguard().wf()
    }

    /// An API server over the given identity rules and engine, with a
    /// fresh token issuer whose tokens live `login_duration` seconds.
    pub fn new(
        oidc_client_id: String,
        email_domain: String,
        login_duration: i64,
        wireguard: Wireguard,
    ) -> (r: Result<ApiServer, ApiError>)
        requires
            login_duration >= 0,
            wireguard.wf(),
        ensures
            match r {
                Ok(s) => s.wf() && s.oidc_client_id() == oidc_client_id@ && s.email_domain()
                    == email_domain@ && s.tokens().expires_after() == login_duration
                    && s.wireguard() == wireguard,
                Err(e) => e == ApiError::Token(TokenError::SigningFailure),
            },
    {
        match TokenGenerator::new(login_duration) {
            Ok(token_generator) => Ok(
                ApiServer { oidc_client_id, email_domain, token_generator, wireguard },
            ),
            Err(e) => Err(ApiError::Token(e)),
        }
    }

    /// Handle a start-login request at instant `now` (Unix seconds): mint
    /// a token over the client's public key, to be returned on the finish
    /// call as proof that the same attempt is completing.
    pub fn start_login(&self, now: i64, req: &StartLoginRequest) -> (r: Result<
        StartLoginResponse,
        ApiError,
    >)
        requires
            self.wf(),
            now >= 0,
        ensures
            now as int + self.tokens().expires_after() > i64::MAX ==> r matches Err(
                ApiError::Token(TokenError::ClockOverflow),
            ),
            now as int + self.tokens().expires_after() <= i64::MAX ==> (r matches Ok(resp)
                && resp.oidc_client_id@ == self.oidc_client_id() && resp.login_token@
                == signed_token(
                self.tokens().secret(),
                (now + self.tokens().expires_after()) as i64,
                now,
                req.client_public_key@,
            )),
    {
        match self.token_generator.generate_at(now, req.client_public_key.as_str()) {
            Ok(login_token) => Ok(
                StartLoginResponse { login_token, oidc_client_id: self.oidc_client_id.clone() },
            ),
            Err(e) => Err(ApiError::Token(e)),
        }
    }

    /// First half of finish-login, at instant `now`: check the login
    /// token and recover the public key the attempt was started with.
    /// Any token this server minted is accepted inside its validity
    /// window and refused outside it.
    pub fn finish_login_begin(&self, now: i64, req: &FinishLoginRequest) -> (r: Result<
        String,
        ApiError,
    >)
        ensures
            forall|exp: i64, nbf: i64, data: Seq<char>|
                req.login_token@ == signed_token(self.tokens().secret(), exp, nbf, data)
                    ==> match r {
                    Ok(key) => claims_acceptable(exp, nbf, now) && key@ == data,
                    Err(e) => e == ApiError::Token(TokenError::TokenInvalid) && !claims_acceptable(
                        exp,
                        nbf,
                        now,
                    ),
                },
    {
        match self.token_generator.validate_at(now, req.login_token.as_str()) {
            Ok(key) => Ok(key),
            Err(e) => Err(ApiError::Token(e)),
        }
    }

    /// The identity rule: accept the verified email address only when it
    /// parses and belongs to the configured domain.
    pub fn check_identity(&self, email: &str) -> (r: Result<UserData, ApiError>)
        ensures
            match r {
                Ok(u) => crate::login::email_domain_of(email@) == Some(self.email_domain()) && u@
                    == email@,
                Err(e) => e == ApiError::Login(LoginError::IdentityRejected)
                    && crate::login::email_domain_of(email@) != Some(self.email_domain()),
            },
    {
        match crate::login::check_user_domain(email, &self.email_domain) {
            Ok(u) => Ok(u),
            Err(e) => Err(ApiError::Login(e)),
        }
    }

    /// The earliest lease expiry, for the expiry sweep's wait; see
    /// `SessionManager::next_expiring_session`.
    pub fn wireguard_next_expiry(&self) -> (r: Option<u64>)
        ensures
            match r {
                None => self.wireguard().leases().len() == 0,
                Some(m) => (exists|i: int|
                    0 <= i < self.wireguard().leases().len()
                        && #[trigger] self.wireguard().leases()[i].ends_at == m) && (forall|i: int|
                    0 <= i < self.wireguard().leases().len()
                        ==> m <= #[trigger] self.wireguard().leases()[i].ends_at),
            },
    {
        let r = self.wireguard.next_expiring_session();
        proof {
            if r is Some {
                let m = r->Some_0;
                let w = choose|i: int|
                    0 <= i < self.wireguard.leases().len()
                        && #[trigger] self.wireguard.leases()[i].ends_at == m;
                assert(self.wireguard().leases()[w].ends_at == m);
            }
        }
        r
    }

    /// Remove expired leases; see `SessionManager::sweep`.
    pub fn wireguard_sweep(&mut self, now: u64) -> (removed: usize)
        requires
            old(self).wf(),
        ensures
            final(self).wf(),
            final(self).tokens() == old(self).tokens(),
            final(self).oidc_client_id() == old(self).oidc_client_id(),
            final(self).email_domain() == old(self).email_domain(),
            final(self).wireguard().leases() == crate::sessions::live_leases(
                old(self).wireguard().leases(),
                now,
            ),
            removed as int == old(self).wireguard().leases().len()
                - final(self).wireguard().leases().len(),
    {
        self.wireguard.sweep(now)
    }

    /// Render the server's configuration from the live leases; see
    /// `Wireguard::server_config`.
    pub fn wireguard_server_config(&self) -> (r: Result<String, SessionError>)
        requires
            self.wf(),
        ensures
            match r {
                Ok(text) => text@ == crate::wg_config::config_text(
                    crate::wireguard::server_config_view(
                        self.wireguard().key_pair(),
                        self.wireguard().settings(),
                        (self.wireguard().manager().network().base + 1) as u32,
                        self.wireguard().leases(),
                    ),
                ),
                Err(e) => e == SessionError::NetworkTooSmall
                    && self.wireguard().manager().network().capacity() < 2,
            },
    {
        self.wireguard.server_config()
    }

    /// Second half of finish-login, at instant `now_ms`: open or refresh
    /// the caller's session and describe the resulting tunnel.
    pub fn finish_login_complete(
        &mut self,
        now_ms: u64,
        hostname: &str,
        device_id: u128,
        client_public_key: String,
        user_data: UserData,
    ) -> (r: Result<FinishLoginResponse, ApiError>)
        requires
            old(self).wf(),
        ensures
            final(self).wf(),
            final(self).oidc_client_id() == old(self).oidc_client_id(),
            final(self).email_domain() == old(self).email_domain(),
            final(self).tokens() == old(self).tokens(),
            final(self).wireguard().settings() == old(self).wireguard().settings(),
            match r {
                Ok(resp) => session_started(
                    old(self).wireguard().settings().wg_client_cidr,
                    old(self).wireguard().settings(),
                    old(self).wireguard().key_pair(),
                    old(self).wireguard().leases(),
                    final(self).wireguard().leases(),
                    now_ms,
                    hostname@,
                    device_id,
                    client_public_key@,
                    user_data@,
                    resp.interface,
                    resp.peer@,
                    resp.session_ends_at,
                ),
                Err(ApiError::Session(e)) => final(self).wireguard().leases() == old(
                    self,
                ).wireguard().leases() && match e {
                    SessionError::ClockOverflow => now_ms as int + old(
                        self,
                    ).wireguard().settings().session_duration > u64::MAX,
                    SessionError::NetworkTooSmall => !crate::sessions::has_device(
                        old(self).wireguard().leases(),
                        device_id,
                    ) && old(self).wireguard().manager().network().capacity() < 2,
                    SessionError::AddressPoolExhausted => !crate::sessions::has_device(
                        old(self).wireguard().leases(),
                        device_id,
                    ) && old(self).wireguard().manager().network().capacity() >= 2 && (forall|
                        a: int,
                    |
                        !crate::sessions::is_free(
                            old(self).wireguard().manager().network(),
                            old(self).wireguard().leases(),
                            a,
                        )),
                },
                Err(_) => false,
            },
    {
        match self.wireguard.start_session(now_ms, hostname, device_id, client_public_key, user_data) {
            Ok((interface, peer, session_ends_at)) => Ok(
                FinishLoginResponse { session_ends_at, interface, peer },
            ),
            Err(e) => Err(ApiError::Session(e)),
        }
    }
}

} // verus!
