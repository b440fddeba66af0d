//! Control plane of a WireGuard-based access gateway: a session lease
//! manager that allocates and reclaims unique client addresses, a signed
//! login-token issuer carrying login state across the two login calls, a
//! renderer reconciling the WireGuard configuration with the live leases,
//! and the client-side connection state machine guarding the two-phase
//! handshake.

pub mod api;
pub mod clock;
pub mod config;
pub mod errors;
pub mod login;
pub mod net;
pub mod sessions;
pub mod tokens;
pub mod tunnel;
pub mod wg_config;
pub mod wg_quick;
pub mod wireguard;
