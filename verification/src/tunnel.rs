//! The tunnel connection state machine: drives the two-phase login
//! handshake, holding the per-attempt state (key pair and login token)
//! between the two calls.
//!
//! The pending state is taken — moved out, never cloned — when the
//! attempt finishes, so finishing twice, or without a prior start, fails
//! fast instead of silently replaying stale state.  Exactly one attempt
//! may be in flight per tunnel slot: starting while one is connecting or
//! connected is rejected.  The outside work between the decisions — key
//! generation, the two HTTP calls, bringing the interface up or down —
//! happens between a `*_begin`/`*_take` call and the matching `*_commit`
//! call, which records its outcome.

use vstd::prelude::*;
use crate::errors::TunnelError;
use crate::wg_config::{WgKeyPair, KeyPairView};

verus! {

/// Connection state of a tunnel slot.  `Error` ends the attempt, but the
/// slot is free again for a new one.
#[derive(Clone, Copy, Debug, PartialEq, Eq, Structural)]
pub enum TunnelStatus {
    Disconnected,
    Connecting,
    Connected,
    Disconnecting,
    Error,
}

/// One tunnel slot: its configuration, connection state, and the pending
/// attempt state held between the two login calls.
pub struct Tunnel {
    name: String,
    endpoint: String,
    status: TunnelStatus,
    key_pair: Option<WgKeyPair>,
    login_token: Option<String>,
    error: Option<String>,
}

/// View of a tunnel slot.
pub struct TunnelView {
    pub name: Seq<char>,
    pub endpoint: Seq<char>,
    pub status: TunnelStatus,
    pub key_pair: Option<KeyPairView>,
    pub login_token: Option<Seq<char>>,
    pub error: Option<Seq<char>>,
}

impl View for Tunnel {
    type V = TunnelView;

    closed spec fn view(&self) -> TunnelView {
        TunnelView {
            name: self.name@,
            endpoint: self.endpoint@,
            status: self.status,
            key_pair: match self.key_pair {
                Some(kp) => Some(kp@),
                None => None,
            },
            login_token: match self.login_token {
                Some(t) => Some(t@),
                None => None,
            },
            error: match self.error {
                Some(e) => Some(e@),
                None => None,
            },
        }
    }
}

impl Tunnel {
    /// A fresh, disconnected tunnel slot for the given remote endpoint.
    pub fn new(name: String, endpoint: String) -> (r: Tunnel)
        ensures
            r@.name == name@,
            r@.endpoint == endpoint@,
            r@.status == TunnelStatus::Disconnected,
            r@.key_pair is None,
            r@.login_token is None,
            r@.error is None,
    {
        Tunnel {
            name,
            endpoint,
            status: TunnelStatus::Disconnected,
            key_pair: None,
            login_token: None,
            error: None,
        }
    }

    /// The tunnel's name.
    pub fn name(&self) -> (r: String)
        ensures
            r@ == self@.name,
    {
        self.name.clone()
    }

    /// The remote endpoint the tunnel logs in against.
    pub fn endpoint(&self) -> (r: &String)
        ensures
            r@ == self@.endpoint,
    {
        &self.endpoint
    }

    /// The tunnel's connection state.
    pub fn status(&self) -> (r: TunnelStatus)
        ensures
            r == self@.status,
    {
        self.status
    }

    /// The last recorded error message, if any.
    pub fn error_message(&self) -> (r: Option<String>)
        ensures
            r matches Some(e) ==> self@.error == Some(e@),
            r is None ==> self@.error is None,
    {
        match &self.error {
            Some(e) => Some(e.clone()),
            None => None,
        }
    }

    /// Begin a connection attempt.  Only a disconnected slot (or one whose
    /// last attempt ended in an error) may start: an attempt in flight is
    /// never overwritten.  On success the slot is connecting, with no
    /// pending state and no recorded error yet.
    pub fn start_connect_begin(&mut self) -> (r: Result<(), TunnelError>)
        ensures
            old(self)@.status == TunnelStatus::Connecting ==> (r matches Err(
                TunnelError::AlreadyConnecting,
            ) && final(self)@ == old(self)@),
            (old(self)@.status == TunnelStatus::Connected || old(self)@.status
                == TunnelStatus::Disconnecting) ==> (r matches Err(TunnelError::AlreadyConnected)
                && final(self)@ == old(self)@),
            (old(self)@.status == TunnelStatus::Disconnected || old(self)@.status
                == TunnelStatus::Error) ==> (r is Ok && final(self)@ == (TunnelView {
                status: TunnelStatus::Connecting,
                key_pair: None,
                login_token: None,
                error: None,
                ..old(self)@
            })),
    {
        match self.status {
            TunnelStatus::Connecting => Err(TunnelError::AlreadyConnecting),
            TunnelStatus::Connected => Err(TunnelError::AlreadyConnected),
            TunnelStatus::Disconnecting => Err(TunnelError::AlreadyConnected),
            _ => {
                self.status = TunnelStatus::Connecting;
                self.key_pair = None;
                self.login_token = None;
                self.error = None;
                Ok(())
            },
        }
    }

    /// Record the outcome of the start-login exchange.  On success the
    /// fresh key pair and login token become the attempt's pending state
    /// and the slot keeps connecting; on failure the attempt ends in
    /// `Error` with the message recorded and no pending state stored.
    pub fn start_connect_commit(&mut self, outcome: Result<(WgKeyPair, String), String>) -> (r:
        Result<(), TunnelError>)
        ensures
            old(self)@.status != TunnelStatus::Connecting ==> (r matches Err(
                TunnelError::NotConnecting,
            ) && final(self)@ == old(self)@),
            old(self)@.status == TunnelStatus::Connecting ==> r is Ok && (match outcome {
                Ok(p) => final(self)@ == (TunnelView {
                    key_pair: Some(p.0@),
                    login_token: Some(p.1@),
                    ..old(self)@
                }),
                Err(msg) => final(self)@ == (TunnelView {
                    status: TunnelStatus::Error,
                    key_pair: None,
                    login_token: None,
                    error: Some(msg@),
                    ..old(self)@
                }),
            }),
    {
        if self.status != TunnelStatus::Connecting {
            return Err(TunnelError::NotConnecting);
        }
        match outcome {
            Ok((key_pair, login_token)) => {
                self.key_pair = Some(key_pair);
                self.login_token = Some(login_token);
            },
            Err(msg) => {
                self.status = TunnelStatus::Error;
                self.key_pair = None;
                self.login_token = None;
                self.error = Some(msg);
            },
        }
        Ok(())
    }

    /// Take the pending attempt state to finish the connection.  Valid
    /// only while connecting with pending state present: calling this
    /// without a prior started attempt, or a second time, fails with
    /// `NotConnecting` and leaves the slot exactly as it was.  On success
    /// the key pair and login token are moved out, so they can never be
    /// replayed.
    pub fn finish_connect_take(&mut self) -> (r: Result<(WgKeyPair, String), TunnelError>)
        ensures
            old(self)@.status != TunnelStatus::Connecting ==> (r matches Err(
                TunnelError::NotConnecting,
            ) && final(self)@ == old(self)@),
            (old(self)@.status == TunnelStatus::Connecting && (old(self)@.key_pair is None || old(
                self,
            )@.login_token is None)) ==> (r matches Err(TunnelError::NotConnecting) && final(self)@
                == old(self)@),
            (old(self)@.status == TunnelStatus::Connecting && old(self)@.key_pair is Some && old(
                self,
            )@.login_token is Some) ==> (r matches Ok(p) && old(self)@.key_pair == Some(p.0@) && old(
                self,
            )@.login_token == Some(p.1@) && final(self)@ == (TunnelView {
                key_pair: None,
                login_token: None,
                ..old(self)@
            })),
    {
        if self.status != TunnelStatus::Connecting {
            return Err(TunnelError::NotConnecting);
        }
        if self.key_pair.is_none() || self.login_token.is_none() {
            return Err(TunnelError::NotConnecting);
        }
        let key_pair = self.key_pair.take().unwrap();
        let login_token = self.login_token.take().unwrap();
        Ok((key_pair, login_token))
    }

    /// Record the outcome of the finish-login exchange and the local
    /// activation: connected on success, `Error` with the message on
    /// failure.
    pub fn finish_connect_commit(&mut self, outcome: Result<(), String>) -> (r: Result<
        (),
        TunnelError,
    >)
        ensures
            old(self)@.status != TunnelStatus::Connecting ==> (r matches Err(
                TunnelError::NotConnecting,
            ) && final(self)@ == old(self)@),
            old(self)@.status == TunnelStatus::Connecting ==> r is Ok && (match outcome {
                Ok(u) => final(self)@ == (TunnelView {
                    status: TunnelStatus::Connected,
                    ..old(self)@
                }),
                Err(msg) => final(self)@ == (TunnelView {
                    status: TunnelStatus::Error,
                    error: Some(msg@),
                    ..old(self)@
                }),
            }),
    {
        if self.status != TunnelStatus::Connecting {
            return Err(TunnelError::NotConnecting);
        }
        match outcome {
            Ok(()) => {
                self.status = TunnelStatus::Connected;
            },
            Err(msg) => {
                self.status = TunnelStatus::Error;
                self.error = Some(msg);
            },
        }
        Ok(())
    }

    /// Begin disconnecting.  Tolerated from any state, so repeated
    /// disconnects are idempotent.
    pub fn disconnect_begin(&mut self)
        ensures
            final(self)@ == (TunnelView { status: TunnelStatus::Disconnecting, ..old(self)@ }),
    {
        self.status = TunnelStatus::Disconnecting;
    }

    /// Record the outcome of the external deactivation: disconnected on
    /// success, `Error` with the message on failure.
    pub fn disconnect_commit(&mut self, outcome: Result<(), String>)
        ensures
            outcome is Ok ==> final(self)@ == (TunnelView {
                status: TunnelStatus::Disconnected,
                ..old(self)@
            }),
            outcome matches Err(msg) ==> final(self)@ == (TunnelView {
                status: TunnelStatus::Error,
                error: Some(msg@),
                ..old(self)@
            }),
    {
        match outcome {
            Ok(()) => {
                self.status = TunnelStatus::Disconnected;
            },
            Err(msg) => {
                self.status = TunnelStatus::Error;
                self.error = Some(msg);
            },
        }
    }
}

} // verus!
