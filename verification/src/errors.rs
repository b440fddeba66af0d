//! Error taxonomy of the gateway's control plane.

use vstd::prelude::*;

verus! {

/// Errors of the session lease manager.
#[derive(Clone, Copy, Debug, PartialEq, Eq, Structural)]
pub enum SessionError {
    /// Every address of the client network is reserved or leased.
    AddressPoolExhausted,
    /// The client network has no usable address beside its base address.
    NetworkTooSmall,
    /// Adding the session duration to the current instant overflows.
    ClockOverflow,
}

impl SessionError {
    /// The error's description.
    pub open spec fn text(self) -> Seq<char> {
        match self {
            SessionError::AddressPoolExhausted => "Out of client addresses"@,
            SessionError::NetworkTooSmall => "Client network is too small"@,
            SessionError::ClockOverflow => "Overflow while calculating session expiry"@,
        }
    }

    /// A short description, for callers that report the error.
    pub fn message(&self) -> (r: &'static str)
        ensures
            r@ == self.text(),
    {
        match self {
            SessionError::AddressPoolExhausted => "Out of client addresses",
            SessionError::NetworkTooSmall => "Client network is too small",
            SessionError::ClockOverflow => "Overflow while calculating session expiry",
        }
    }
}

/// Errors of the login token issuer.
#[derive(Clone, Copy, Debug, PartialEq, Eq, Structural)]
pub enum TokenError {
    /// The token's signature, validity window or payload is not acceptable.
    TokenInvalid,
    /// Adding the token lifetime to the current instant overflows.
    ClockOverflow,
    /// The signing routine itself failed.
    SigningFailure,
}

impl TokenError {
    /// The error's description.
    pub open spec fn text(self) -> Seq<char> {
        match self {
            TokenError::TokenInvalid => "Invalid login token"@,
            TokenError::ClockOverflow => "Overflow while calculating login token expiry"@,
            TokenError::SigningFailure => "Could not sign login token"@,
        }
    }

    /// A short description, for callers that report the error.
    pub fn message(&self) -> (r: &'static str)
        ensures
            r@ == self.text(),
    {
        match self {
            TokenError::TokenInvalid => "Invalid login token",
            TokenError::ClockOverflow => "Overflow while calculating login token expiry",
            TokenError::SigningFailure => "Could not sign login token",
        }
    }
}

/// Errors raised when the verified identity is not acceptable.
#[derive(Clone, Copy, Debug, PartialEq, Eq, Structural)]
pub enum LoginError {
    /// The identity's email address is missing, unparsable, or from the
    /// wrong domain.
    IdentityRejected,
}

impl LoginError {
    /// The error's description.
    pub open spec fn text(self) -> Seq<char> {
        "Wrong email domain"@
    }

    /// A short description, for callers that report the error.
    pub fn message(&self) -> (r: &'static str)
        ensures
            r@ == self.text(),
    {
        "Wrong email domain"
    }
}

/// Errors of the tunnel connection state machine: caller contract
/// violations, reported instead of overwriting in-flight state.
#[derive(Clone, Copy, Debug, PartialEq, Eq, Structural)]
pub enum TunnelError {
    /// A connection attempt is already in flight.
    AlreadyConnecting,
    /// The tunnel is already connected.
    AlreadyConnected,
    /// No connection attempt is in flight.
    NotConnecting,
    /// The tunnel is not connected.
    NotConnected,
}

impl TunnelError {
    /// The error's description.
    pub open spec fn text(self) -> Seq<char> {
        match self {
            TunnelError::AlreadyConnecting => "A tunnel is already connecting"@,
            TunnelError::AlreadyConnected => "Already connected"@,
            TunnelError::NotConnecting => "No tunnel is currently connecting"@,
            TunnelError::NotConnected => "Not connected"@,
        }
    }

    /// A short description, for callers that report the error.
    pub fn message(&self) -> (r: &'static str)
        ensures
            r@ == self.text(),
    {
        match self {
            TunnelError::AlreadyConnecting => "A tunnel is already connecting",
            TunnelError::AlreadyConnected => "Already connected",
            TunnelError::NotConnecting => "No tunnel is currently connecting",
            TunnelError::NotConnected => "Not connected",
        }
    }
}

/// Errors of the tunnel table kept by the command-line client.
#[derive(Clone, Copy, Debug, PartialEq, Eq, Structural)]
pub enum ConfigError {
    /// No tunnel of the given name is configured.
    NoSuchTunnel,
    /// No tunnels are configured at all.
    NoTunnels,
    /// More than one tunnel is configured and none was named.
    AmbiguousTunnel,
    /// A tunnel of the given name already exists.
    TunnelExists,
    /// The configured endpoint is not a well-formed URL.
    BadEndpoint,
}

impl ConfigError {
    /// The error's description.
    pub open spec fn text(self) -> Seq<char> {
        match self {
            ConfigError::NoSuchTunnel => "No such tunnel"@,
            ConfigError::NoTunnels => "No tunnels configured"@,
            ConfigError::AmbiguousTunnel => "Please specify tunnel name"@,
            ConfigError::TunnelExists => "Tunnel already exists"@,
            ConfigError::BadEndpoint => "Invalid tunnel endpoint"@,
        }
    }

    /// A short description, for callers that report the error.
    pub fn message(&self) -> (r: &'static str)
        ensures
            r@ == self.text(),
    {
        match self {
            ConfigError::NoSuchTunnel => "No such tunnel",
            ConfigError::NoTunnels => "No tunnels configured",
            ConfigError::AmbiguousTunnel => "Please specify tunnel name",
            ConfigError::TunnelExists => "Tunnel already exists",
            ConfigError::BadEndpoint => "Invalid tunnel endpoint",
        }
    }
}

/// Errors surfaced to HTTP callers of the login API.
#[derive(Clone, Copy, Debug, PartialEq, Eq, Structural)]
pub enum ApiError {
    /// The lease manager failed.
    Session(SessionError),
    /// The login token was refused or could not be minted.
    Token(TokenError),
    /// The verified identity was not acceptable.
    Login(LoginError),
}

impl ApiError {
    /// The error's description.
    pub open spec fn text(self) -> Seq<char> {
        match self {
            ApiError::Session(e) => e.text(),
            ApiError::Token(e) => e.text(),
            ApiError::Login(e) => e.text(),
        }
    }

    /// HTTP status class of the error: rejected identities and refused
    /// tokens are unauthorized, lease failures are service failures.
    pub fn status_code(&self) -> (r: u16)
        ensures
            r == match self {
                ApiError::Login(_) => 401u16,
                ApiError::Token(_) => 401u16,
                ApiError::Session(_) => 503u16,
            },
    {
        match self {
            ApiError::Login(_) => 401,
            ApiError::Token(_) => 401,
            ApiError::Session(_) => 503,
        }
    }

    /// A short description, for callers that report the error.
    pub fn message(&self) -> (r: &'static str)
        ensures
            r@ == self.text(),
    {
        match self {
            ApiError::Session(e) => e.message(),
            ApiError::Token(e) => e.message(),
            ApiError::Login(e) => e.message(),
        }
    }
}

} // verus!
