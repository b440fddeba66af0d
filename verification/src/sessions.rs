//! The session lease manager: allocates and reclaims unique client
//! addresses, tracks lease expiry, and snapshots the live peer set.
//!
//! The first address of the client network (its base) is never handed out,
//! and the address after it is reserved for the server.  A new lease gets
//! the lowest address that is neither reserved nor held by a live lease, so
//! addresses freed by the expiry sweep are reused before higher, never-used
//! ones.

use vstd::prelude::*;
use vstd::seq_lib::*;
use vstd::multiset::Multiset;
use crate::errors::SessionError;
use crate::login::UserData;
use crate::net::IpNet;
use crate::wg_config::{WireguardPeer, PeerView};

verus! {

/// One client's current network grant.
#[derive(Debug)]
pub struct Session {
    /// Stable key the lease is indexed by; re-login under the same key
    /// reuses the address.
    pub device_id: u128,
    /// The client's current WireGuard public key, replaced on re-login.
    pub client_public_key: String,
    /// The client's address, unique among live leases.
    pub client_address: u32,
    /// Absolute expiry instant, in milliseconds.
    pub ends_at: u64,
    /// The verified identity behind the lease.
    pub user_data: UserData,
}

/// View of a session: its fields over mathematical types.
pub struct SessionView {
    pub device_id: u128,
    pub client_public_key: Seq<char>,
    pub client_address: u32,
    pub ends_at: u64,
    pub email: Seq<char>,
}

impl View for Session {
    type V = SessionView;

    open spec fn view(&self) -> SessionView {
        SessionView {
            device_id: self.device_id,
            client_public_key: self.client_public_key@,
            client_address: self.client_address,
            ends_at: self.ends_at,
            email: self.user_data@,
        }
    }
}

impl Clone for Session {
    fn clone(&self) -> (r: Self)
        ensures
            r@ == self@,
    {
        Session {
            device_id: self.device_id,
            client_public_key: self.client_public_key.clone(),
            client_address: self.client_address,
            ends_at: self.ends_at,
            user_data: self.user_data.clone(),
        }
    }
}

/// Views of a session table, in table order.
pub open spec fn lease_views(s: Seq<Session>) -> Seq<SessionView> {
    s.map_values(|x: Session| x@)
}

/// Whether some lease in `s` holds address `a`.
pub open spec fn addr_in_use(s: Seq<SessionView>, a: int) -> bool {
    exists|i: int| 0 <= i < s.len() && s[i].client_address == a
}

/// Whether `a` is one of the two reserved addresses: the network's base
/// address or the server's address right after it.
pub open spec fn is_reserved(net: IpNet, a: int) -> bool {
    a == net.base || a == net.base + 1
}

/// Whether `a` can be handed to a new lease: inside the network, not
/// reserved, and not held by any lease in `s`.
pub open spec fn is_free(net: IpNet, s: Seq<SessionView>, a: int) -> bool {
    net.contains_value(a) && !is_reserved(net, a) && !addr_in_use(s, a)
}

/// Whether `a` is the lowest free address: free, with nothing free below
/// it.
pub open spec fn allocates(net: IpNet, s: Seq<SessionView>, a: int) -> bool {
    is_free(net, s, a) && (forall|b: int| net.base <= b < a ==> !is_free(net, s, b))
}

/// Whether some lease in `s` is keyed by `id`.
pub open spec fn has_device(s: Seq<SessionView>, id: u128) -> bool {
    exists|i: int| 0 <= i < s.len() && s[i].device_id == id
}

/// The index of the lease keyed by `id`.
pub open spec fn device_index(s: Seq<SessionView>, id: u128) -> int {
    choose|i: int| 0 <= i < s.len() && s[i].device_id == id
}

/// A lease's address is inside the network and not reserved.
pub open spec fn lease_ok(net: IpNet, s: SessionView) -> bool {
    net.contains_value(s.client_address as int) && !is_reserved(net, s.client_address as int)
}

/// A lease updated in place on re-login: new key and expiry, all else as
/// it was.
pub open spec fn updated_lease(s: SessionView, key: Seq<char>, ends_at: u64) -> SessionView {
    SessionView { client_public_key: key, ends_at: ends_at, ..s }
}

/// The leases still live at `now`: those whose expiry has not passed.
pub open spec fn live_leases(s: Seq<SessionView>, now: u64) -> Seq<SessionView> {
    s.filter(|x: SessionView| x.ends_at > now)
}

/// Allocates and reclaims client addresses and tracks lease expiry.
pub struct SessionManager {
    client_network: IpNet,
    session_duration: u64,
    sessions: Vec<Session>,
}

impl SessionManager {
    /// The configured client network.
    pub closed spec fn network(self) -> IpNet {
        self.client_network
    }

    /// The configured lease lifetime, in milliseconds.
    pub closed spec fn duration(self) -> u64 {
        self.session_duration
    }

    /// The lease table, in insertion order.
    pub closed spec fn leases(self) -> Seq<SessionView> {
        lease_views(self.sessions@)
    }

    /// The manager's invariant: a well-formed network, every lease at a
    /// usable address, and identity keys and addresses all distinct.
    pub open spec fn wf(self) -> bool {
        &&& self.network().wf()
        &&& forall|i: int|
            0 <= i < self.leases().len() ==> lease_ok(self.network(), #[trigger] self.leases()[i])
        &&& forall|i: int, j: int|
            0 <= i < j < self.leases().len() ==> self.leases()[i].device_id
                != self.leases()[j].device_id && self.leases()[i].client_address
                != self.leases()[j].client_address
    }

    /// A manager over the given client network with the given lease
    /// lifetime; no leases yet.
    pub fn new(client_network: IpNet, session_duration: u64) -> (r: SessionManager)
        requires
            client_network.wf(),
        ensures
            r.wf(),
            r.network() == client_network,
            r.duration() == session_duration,
            r.leases().len() == 0,
    {
        let r = SessionManager { client_network, session_duration, sessions: Vec::new() };
        proof {
            assert(r.leases() =~= Seq::<SessionView>::empty());
        }
        r
    }

    /// The configured lease lifetime.
    pub fn session_duration(&self) -> (r: u64)
        ensures
            r == self.duration(),
    {
        self.session_duration
    }

    /// The first usable address of the client network, reserved for the
    /// server; the base address itself is excluded.  Fails when the
    /// network has no room for it.
    pub fn server_address(&self) -> (r: Result<u32, SessionError>)
        requires
            self.network().wf(),
        ensures
            match r {
                Ok(a) => self.network().capacity() >= 2 && a == self.network().base + 1,
                Err(e) => e == SessionError::NetworkTooSmall && self.network().capacity() < 2,
            },
    {
        let cap = self.client_network.capacity_u64();
        if cap >= 2 {
            Ok(self.client_network.nth(1))
        } else {
            Err(SessionError::NetworkTooSmall)
        }
    }

    /// How many leases the table holds.
    pub fn num_sessions(&self) -> (r: usize)
        ensures
            r == self.leases().len(),
    {
        self.sessions.len()
    }
}

/// Whether `p` is the peer stanza derived from lease `s`: the lease's
/// current key, routing exactly the lease's single address.
pub open spec fn peer_of_lease(p: PeerView, s: SessionView) -> bool {
    &&& p.public_key == s.client_public_key
    &&& p.allowed_ips =~= seq![(IpNet { base: s.client_address, prefix: 32u8 })]
    &&& p.endpoint is None
    &&& p.persistent_keepalive is None
}

impl SessionManager {
    /// Allocate or refresh a lease, under exclusive access to the table.
    ///
    /// The expiry is `now` plus the session duration (`ClockOverflow` when
    /// that does not fit).  A lease already keyed by `device_id` keeps its
    /// address and only has its key and expiry replaced.  Otherwise the
    /// lowest free address is granted: `NetworkTooSmall` when the network
    /// cannot even hold the server, `AddressPoolExhausted` when no address
    /// is left.
    pub fn create(
        &mut self,
        now: u64,
        device_id: u128,
        client_public_key: String,
        user_data: UserData,
    ) -> (r: Result<Session, SessionError>)
        requires
            old(self).wf(),
        ensures
            final(self).wf(),
            final(self).network() == old(self).network(),
            final(self).duration() == old(self).duration(),
            now as int + old(self).duration() > u64::MAX ==> (r matches Err(
                SessionError::ClockOverflow,
            ) && final(self).leases() == old(self).leases()),
            (now as int + old(self).duration() <= u64::MAX && has_device(
                old(self).leases(),
                device_id,
            )) ==> ({
                let i = device_index(old(self).leases(), device_id);
                let upd = updated_lease(
                    old(self).leases()[i],
                    client_public_key@,
                    (now + old(self).duration()) as u64,
                );
                (r matches Ok(s) && s@ == upd) && final(self).leases() == old(
                    self,
                ).leases().update(i, upd)
            }),
            (now as int + old(self).duration() <= u64::MAX && !has_device(
                old(self).leases(),
                device_id,
            )) ==> match r {
                Ok(s) => {
                    &&& allocates(old(self).network(), old(self).leases(), s@.client_address as int)
                    &&& s@.device_id == device_id
                    &&& s@.client_public_key == client_public_key@
                    &&& s@.ends_at == now + old(self).duration()
                    &&& s@.email == user_data@
                    &&& final(self).leases() == old(self).leases().push(s@)
                },
                Err(e) => final(self).leases() == old(self).leases() && match e {
                    SessionError::NetworkTooSmall => old(self).network().capacity() < 2,
                    SessionError::AddressPoolExhausted => old(self).network().capacity() >= 2
                        && (forall|a: int| !is_free(old(self).network(), old(self).leases(), a)),
                    SessionError::ClockOverflow => false,
                },
            },
    {
        let ghost s0 = old(self).leases();
        let dur = self.session_duration;
        if now > u64::MAX - dur {
            return Err(SessionError::ClockOverflow);
        }
        let ends_at = now + dur;
        match find_device(&self.sessions, device_id) {
            Some(i) => {
                let mut updated = self.sessions[i].clone();
                updated.client_public_key = client_public_key;
                updated.ends_at = ends_at;
                let result = updated.clone();
                let ghost upd = updated@;
                self.sessions.set(i, updated);
                proof {
                    assert(has_device(s0, device_id)) by {
                        assert(s0[i as int].device_id == device_id);
                    }
                    let di = device_index(s0, device_id);
                    assert(0 <= di < s0.len() && s0[di].device_id == device_id);
                    assert(di == i) by {
                        if di < i {
                            assert(s0[di].device_id != s0[i as int].device_id);
                        } else if di > i {
                            assert(s0[i as int].device_id != s0[di].device_id);
                        }
                    }
                    assert(upd == updated_lease(s0[i as int], upd.client_public_key, ends_at));
                    assert(self.leases() =~= s0.update(i as int, upd));
                    assert forall|a: int, b: int|
                        0 <= a < b < self.leases().len() implies self.leases()[a].device_id
                        != self.leases()[b].device_id && self.leases()[a].client_address
                        != self.leases()[b].client_address by {
                        assert(s0[a].device_id != s0[b].device_id);
                        assert(s0[a].client_address != s0[b].client_address);
                    }
                    assert forall|a: int|
                        0 <= a < self.leases().len() implies lease_ok(
                        self.network(),
                        #[trigger] self.leases()[a],
                    ) by {
                        assert(lease_ok(self.network(), s0[a]));
                    }
                }
                Ok(result)
            },
            None => {
                let cap = self.client_network.capacity_u64();
                if cap < 2 {
                    return Err(SessionError::NetworkTooSmall);
                }
                match lowest_free_address(self.client_network, &self.sessions) {
                    Ok(addr) => {
                        let session = Session {
                            device_id,
                            client_public_key,
                            client_address: addr,
                            ends_at,
                            user_data,
                        };
                        let result = session.clone();
                        let ghost sv = session@;
                        self.sessions.push(session);
                        proof {
                            assert(self.leases() =~= s0.push(sv));
                            assert(is_free(self.network(), s0, sv.client_address as int));
                            assert forall|a: int, b: int|
                                0 <= a < b < self.leases().len() implies self.leases()[a].device_id
                                != self.leases()[b].device_id && self.leases()[a].client_address
                                != self.leases()[b].client_address by {
                                if b < s0.len() {
                                    assert(s0[a].device_id != s0[b].device_id);
                                    assert(s0[a].client_address != s0[b].client_address);
                                } else {
                                    assert(s0[a].device_id != device_id);
                                    assert(!addr_in_use(s0, sv.client_address as int));
                                    assert(s0[a].client_address != sv.client_address);
                                }
                            }
                            assert forall|a: int|
                                0 <= a < self.leases().len() implies lease_ok(
                                self.network(),
                                #[trigger] self.leases()[a],
                            ) by {
                                if a < s0.len() {
                                    assert(lease_ok(self.network(), s0[a]));
                                }
                            }
                        }
                        Ok(result)
                    },
                    Err(e) => {
                        proof {
                            assert(self.leases() =~= s0);
                        }
                        Err(e)
                    },
                }
            },
        }
    }

    /// Remove every lease whose expiry has passed; the live leases keep
    /// their order.  Returns how many leases were removed.
    pub fn sweep(&mut self, now: u64) -> (removed: usize)
        requires
            old(self).wf(),
        ensures
            final(self).wf(),
            final(self).network() == old(self).network(),
            final(self).duration() == old(self).duration(),
            final(self).leases() == live_leases(old(self).leases(), now),
            removed as int == old(self).leases().len() - final(self).leases().len(),
    {
        let ghost s0 = old(self).leases();
        let mut kept: Vec<Session> = Vec::new();
        let mut k: usize = 0;
        let n = self.sessions.len();
        proof {
            assert(lease_views(kept@) =~= Seq::<SessionView>::empty());
            reveal(Seq::filter);
            assert(lease_views(kept@) =~= live_leases(s0.take(0), now));
        }
        while k < n
            invariant
                k <= n == s0.len(),
                self.client_network == old(self).client_network,
                self.session_duration == old(self).session_duration,
                self.sessions@ == old(self).sessions@,
                s0 == lease_views(self.sessions@),
                old(self).wf(),
                lease_views(kept@) == live_leases(s0.take(k as int), now),
                kept@.len() <= k,
            decreases n - k,
        {
            let ghost kept0 = lease_views(kept@);
            let s = &self.sessions[k];
            if s.ends_at > now {
                kept.push(s.clone());
            }
            proof {
                reveal(Seq::filter);
                assert(s0.take(k + 1 as int).drop_last() =~= s0.take(k as int));
                assert(s0.take(k + 1 as int).last() == s0[k as int]);
                if s@.ends_at > now {
                    assert(lease_views(kept@) =~= kept0.push(s0[k as int]));
                    assert(lease_views(kept@) =~= live_leases(s0.take(k + 1 as int), now));
                } else {
                    assert(lease_views(kept@) =~= live_leases(s0.take(k + 1 as int), now));
                }
            }
            k = k + 1;
        }
        let removed = n - kept.len();
        self.sessions = kept;
        proof {
            assert(s0.take(n as int) =~= s0);
            let l = self.leases();
            assert(l == live_leases(s0, now));
            lemma_filter_members(s0, now);
            assert forall|a: int, b: int|
                0 <= a < b < l.len() implies l[a].device_id != l[b].device_id
                && l[a].client_address != l[b].client_address by {
                if l[a] == l[b] {
                    lemma_filter_index_monotone(s0, now, a, b);
                    let (ma, mb) = choose|ma: int, mb: int|
                        0 <= ma < mb < s0.len() && s0[ma] == l[a] && s0[mb] == l[b];
                    assert(s0[ma].device_id != s0[mb].device_id);
                    assert(false);
                }
                let ma = choose|m: int| 0 <= m < s0.len() && s0[m] == l[a];
                let mb = choose|m: int| 0 <= m < s0.len() && s0[m] == l[b];
                assert(ma != mb);
                if ma < mb {
                    assert(s0[ma].device_id != s0[mb].device_id);
                    assert(s0[ma].client_address != s0[mb].client_address);
                } else {
                    assert(s0[mb].device_id != s0[ma].device_id);
                    assert(s0[mb].client_address != s0[ma].client_address);
                }
            }
            assert forall|a: int|
                0 <= a < l.len() implies lease_ok(self.network(), #[trigger] l[a]) by {
                let ma = choose|m: int| 0 <= m < s0.len() && s0[m] == l[a];
                assert(lease_ok(self.network(), s0[ma]));
            }
        }
        removed
    }

    /// Snapshot of the table as peer stanzas, one per lease in table
    /// order.  A pure read: repeated calls with no intervening mutation
    /// return identical results.
    pub fn get_peers(&self) -> (r: Vec<WireguardPeer>)
        requires
            self.wf(),
        ensures
            r@.len() == self.leases().len(),
            forall|i: int|
                0 <= i < r@.len() ==> peer_of_lease(#[trigger] r@[i]@, self.leases()[i]),
    {
        let mut peers: Vec<WireguardPeer> = Vec::new();
        let mut k: usize = 0;
        while k < self.sessions.len()
            invariant
                k <= self.sessions@.len(),
                peers@.len() == k,
                forall|i: int|
                    0 <= i < k ==> peer_of_lease(
                        #[trigger] peers@[i]@,
                        lease_views(self.sessions@)[i],
                    ),
            decreases self.sessions@.len() - k,
        {
            let s = &self.sessions[k];
            let net = crate::net::ip_address_as_ip_network(s.client_address);
            let mut allowed: Vec<IpNet> = Vec::new();
            allowed.push(net);
            let peer = WireguardPeer {
                public_key: s.client_public_key.clone(),
                allowed_ips: allowed,
                endpoint: None,
                persistent_keepalive: None,
            };
            proof {
                assert(peer@.allowed_ips =~= seq![(IpNet { base: s@.client_address, prefix: 32u8 })]);
            }
            peers.push(peer);
            k = k + 1;
        }
        peers
    }

    /// The public keys of all leases, in table order.
    pub fn get_peer_public_keys(&self) -> (r: Vec<String>)
        requires
            self.wf(),
        ensures
            r@.len() == self.leases().len(),
            forall|i: int| 0 <= i < r@.len() ==> #[trigger] r@[i]@ == self.leases()[i].client_public_key,
    {
        let mut keys: Vec<String> = Vec::new();
        let mut k: usize = 0;
        while k < self.sessions.len()
            invariant
                k <= self.sessions@.len(),
                keys@.len() == k,
                forall|i: int|
                    0 <= i < k ==> #[trigger] keys@[i]@ == lease_views(
                        self.sessions@,
                    )[i].client_public_key,
            decreases self.sessions@.len() - k,
        {
            keys.push(self.sessions[k].client_public_key.clone());
            k = k + 1;
        }
        keys
    }

    /// The earliest expiry among the leases, or nothing when the table is
    /// empty: the instant the expiry sweep should wake at.
    pub fn next_expiring_session(&self) -> (r: Option<u64>)
        ensures
            match r {
                None => self.leases().len() == 0,
                Some(m) => (exists|i: int|
                    0 <= i < self.leases().len() && #[trigger] self.leases()[i].ends_at == m)
                    && (forall|i: int|
                    0 <= i < self.leases().len() ==> m <= #[trigger] self.leases()[i].ends_at),
            },
    {
        if self.sessions.len() == 0 {
            return None;
        }
        let mut m = self.sessions[0].ends_at;
        proof {
            assert(lease_views(self.sessions@)[0].ends_at == m);
        }
        let mut k: usize = 1;
        while k < self.sessions.len()
            invariant
                1 <= k <= self.sessions@.len(),
                exists|i: int|
                    0 <= i < k && #[trigger] lease_views(self.sessions@)[i].ends_at == m,
                forall|i: int|
                    0 <= i < k ==> m <= #[trigger] lease_views(self.sessions@)[i].ends_at,
            decreases self.sessions@.len() - k,
        {
            if self.sessions[k].ends_at < m {
                m = self.sessions[k].ends_at;
                proof {
                    assert(lease_views(self.sessions@)[k as int].ends_at == m);
                }
            }
            k = k + 1;
        }
        proof {
            let w = choose|i: int|
                0 <= i < k && #[trigger] lease_views(self.sessions@)[i].ends_at == m;
            assert(self.leases()[w].ends_at == m);
        }
        Some(m)
    }
}

/// Positions survive filtering in order: two distinct positions of the
/// filtered sequence come from distinct positions of the original.
proof fn lemma_filter_index_monotone(s: Seq<SessionView>, now: u64, a: int, b: int)
    requires
        0 <= a < b < live_leases(s, now).len(),
    ensures
        live_leases(s, now)[a] == live_leases(s, now)[b] ==> exists|ma: int, mb: int|
            0 <= ma < mb < s.len() && s[ma] == live_leases(s, now)[a] && s[mb] == live_leases(
                s,
                now,
            )[b],
    decreases s.len(),
{
    reveal(Seq::filter);
    broadcast use group_filter_ensures;

    let f = live_leases(s, now);
    if s.len() > 0 {
        let d = s.drop_last();
        let fd = live_leases(d, now);
        if s.last().ends_at > now && b == f.len() - 1 {
            // `b` is the last element, coming from the last of `s`.
            assert(f == fd.push(s.last()));
            assert(f[b] == s[s.len() - 1]);
            lemma_filter_members(d, now);
            let ma = choose|m: int| 0 <= m < d.len() && d[m] == fd[a];
            assert(s[ma] == f[a]);
        } else {
            // Both positions lie in the filtered prefix.
            if s.last().ends_at > now {
                assert(f == fd.push(s.last()));
            } else {
                assert(f == fd);
            }
            assert(f[a] == fd[a] && f[b] == fd[b]);
            lemma_filter_index_monotone(d, now, a, b);
            if fd[a] == fd[b] {
                let (ma, mb) = choose|ma: int, mb: int|
                    0 <= ma < mb < d.len() && d[ma] == fd[a] && d[mb] == fd[b];
                assert(s[ma] == f[a] && s[mb] == f[b]);
            }
        }
    }
}

/// Every lease of the swept table appears in the original table: the
/// sweep invents nothing.
pub proof fn lemma_filter_members(s: Seq<SessionView>, now: u64)
    ensures
        forall|i: int|
            0 <= i < live_leases(s, now).len() ==> exists|m: int|
                0 <= m < s.len() && s[m] == #[trigger] live_leases(s, now)[i],
    decreases s.len(),
{
    reveal(Seq::filter);
    let f = live_leases(s, now);
    if s.len() > 0 {
        let d = s.drop_last();
        lemma_filter_members(d, now);
        let fd = live_leases(d, now);
        assert forall|i: int|
            0 <= i < f.len() implies exists|m: int| 0 <= m < s.len() && s[m] == #[trigger] f[i] by {
            if s.last().ends_at > now && i == f.len() - 1 {
                assert(s[s.len() - 1] == f[i]);
            } else {
                assert(f[i] == fd[i]);
                let m = choose|m: int| 0 <= m < d.len() && d[m] == fd[i];
                assert(s[m] == f[i]);
            }
        }
    }
}

/// The index of the lease keyed by `device_id`, if any.
fn find_device(sessions: &Vec<Session>, device_id: u128) -> (r: Option<usize>)
    ensures
        match r {
            Some(i) => i < sessions@.len() && lease_views(sessions@)[i as int].device_id
                == device_id,
            None => forall|k: int|
                0 <= k < sessions@.len() ==> lease_views(sessions@)[k].device_id != device_id,
        },
{
    let mut i: usize = 0;
    while i < sessions.len()
        invariant
            i <= sessions@.len(),
            forall|k: int| 0 <= k < i ==> lease_views(sessions@)[k].device_id != device_id,
        decreases sessions@.len() - i,
    {
        if sessions[i].device_id == device_id {
            return Some(i);
        }
        i = i + 1;
    }
    None
}

/// Sort a vector of addresses in ascending order.
fn sort_addresses(v: &mut Vec<u32>)
    ensures
        final(v)@.len() == old(v)@.len(),
        forall|i: int, j: int| 0 <= i < j < final(v)@.len() ==> final(v)@[i] <= final(v)@[j],
        final(v)@.to_multiset() == old(v)@.to_multiset(),
{
    let ghost orig = v@;
    let mut out: Vec<u32> = Vec::new();
    proof {
        broadcast use group_to_multiset_ensures;

        assert(out@.to_multiset().add(v@.to_multiset()) =~= orig.to_multiset());
    }
    while v.len() > 0
        invariant
            out@.to_multiset().add(v@.to_multiset()) == orig.to_multiset(),
            out@.len() + v@.len() == orig.len(),
            forall|i: int, j: int| 0 <= i < j < out@.len() ==> out@[i] <= out@[j],
            forall|i: int, k: int|
                0 <= i < out@.len() && 0 <= k < v@.len() ==> out@[i] <= v@[k],
        decreases v@.len(),
    {
        let mut mi: usize = 0;
        let mut k: usize = 1;
        while k < v.len()
            invariant
                v@.len() > 0,
                mi < v@.len(),
                k <= v@.len(),
                forall|t: int| 0 <= t < k ==> v@[mi as int] <= v@[t],
            decreases v@.len() - k,
        {
            if v[k] < v[mi] {
                mi = k;
            }
            k = k + 1;
        }
        let ghost v_before = v@;
        let x = v.remove(mi);
        out.push(x);
        proof {
            broadcast use group_to_multiset_ensures;

            assert(v_before.remove(mi as int).to_multiset() =~= v_before.to_multiset().remove(x));
            assert(out@.to_multiset().add(v@.to_multiset()) =~= orig.to_multiset());
            assert forall|i: int, kk: int|
                0 <= i < out@.len() && 0 <= kk < v@.len() implies out@[i] <= v@[kk] by {
                if kk < mi {
                    assert(v@[kk] == v_before[kk]);
                } else {
                    assert(v@[kk] == v_before[kk + 1]);
                }
            }
        }
    }
    proof {
        broadcast use group_to_multiset_ensures;
        broadcast use vstd::multiset::group_multiset_axioms;

        vstd::multiset::lemma_multiset_empty_len(v@.to_multiset());
        assert(v@.to_multiset() =~= Multiset::<u32>::empty());
        assert(out@.to_multiset() =~= orig.to_multiset());
    }
    *v = out;
}

/// The length of the dense run `base, base + 1, ...` at the front of a
/// strictly increasing address list.
fn first_gap(used: &Vec<u32>, base: u32) -> (j: usize)
    requires
        forall|i: int, k: int| 0 <= i < k < used@.len() ==> used@[i] < used@[k],
        forall|i: int| 0 <= i < used@.len() ==> base <= #[trigger] used@[i],
    ensures
        j <= used@.len(),
        forall|m: int| 0 <= m < j ==> used@[m] == base + m,
        j < used@.len() ==> used@[j as int] > base + j,
{
    let mut j: usize = 0;
    while j < used.len() && (used[j] as u128) == (base as u128) + (j as u128)
        invariant
            j <= used@.len(),
            forall|m: int| 0 <= m < j ==> used@[m] == base + m,
            forall|i: int, k: int| 0 <= i < k < used@.len() ==> used@[i] < used@[k],
            forall|i: int| 0 <= i < used@.len() ==> base <= #[trigger] used@[i],
        decreases used@.len() - j,
    {
        j = j + 1;
    }
    proof {
        if j < used@.len() {
            if j > 0 {
                assert(used@[j - 1] == base + j - 1);
                assert(used@[j - 1] < used@[j as int]);
            }
            assert(used@[j as int] >= base + j);
            assert(used@[j as int] != base + j);
        }
    }
    j
}

/// The lowest free address of the network: reserved addresses and every
/// lease's address are laid out in ascending order and the address
/// sequence of the network is scanned against them in a single merged
/// pass, so gaps left by removed leases are found first.  Fails when the
/// whole network is reserved or in use.
fn lowest_free_address(net: IpNet, sessions: &Vec<Session>) -> (r: Result<u32, SessionError>)
    requires
        net.wf(),
        net.capacity() >= 2,
        forall|i: int|
            0 <= i < lease_views(sessions@).len() ==> lease_ok(
                net,
                #[trigger] lease_views(sessions@)[i],
            ),
        forall|i: int, j: int|
            0 <= i < j < lease_views(sessions@).len() ==> lease_views(sessions@)[i].client_address
                != lease_views(sessions@)[j].client_address,
    ensures
        match r {
            Ok(a) => allocates(net, lease_views(sessions@), a as int),
            Err(e) => e == SessionError::AddressPoolExhausted && (forall|a: int|
                !is_free(net, lease_views(sessions@), a)),
        },
{
    let ghost views = lease_views(sessions@);
    let base = net.base;
    let cap = net.capacity_u64();
    proof {
        crate::net::lemma_base_plus_capacity(net);
    }
    let server: u32 = ((base as u64) + 1) as u32;

    // Every reserved or leased address, then sorted.
    let mut used: Vec<u32> = Vec::new();
    used.push(base);
    used.push(server);
    let mut k: usize = 0;
    while k < sessions.len()
        invariant
            k <= sessions@.len(),
            used@.len() == k + 2,
            used@[0] == base,
            used@[1] == server,
            server == base + 1,
            forall|m: int| 0 <= m < k ==> used@[m + 2] == views[m].client_address,
            views == lease_views(sessions@),
        decreases sessions@.len() - k,
    {
        used.push(sessions[k].client_address);
        k = k + 1;
    }

    let ghost unsorted = used@;

    // Before sorting: membership and distinctness.
    proof {
        hint_membership(unsorted, views, base);
        assert(unsorted.no_duplicates()) by {
            assert forall|i: int, j: int|
                0 <= i < j < unsorted.len() implies unsorted[i] != unsorted[j] by {
                if i >= 2 && j >= 2 {
                    assert(unsorted[i] == views[i - 2].client_address);
                    assert(unsorted[j] == views[j - 2].client_address);
                } else if i < 2 && j >= 2 {
                    assert(unsorted[j] == views[j - 2].client_address);
                    assert(lease_ok(net, views[j - 2]));
                }
            }
        }
    }

    sort_addresses(&mut used);

    proof {
        broadcast use group_to_multiset_ensures;

        unsorted.lemma_multiset_has_no_duplicates();
        used@.lemma_multiset_has_no_duplicates_conv();
        assert(used@.no_duplicates());
        // Same members as before the sort.
        assert forall|a: u32| #[trigger] used@.contains(a) == unsorted.contains(a) by {
            assert(used@.contains(a) <==> used@.to_multiset().count(a) > 0);
            assert(unsorted.contains(a) <==> unsorted.to_multiset().count(a) > 0);
        }
        // Strictly increasing.
        assert forall|i: int, j: int| 0 <= i < j < used@.len() implies used@[i] < used@[j] by {
            assert(used@[i] <= used@[j]);
            reveal(Seq::no_duplicates);
        }
        // All entries at or above the base, and inside the network.
        assert forall|i: int|
            0 <= i < used@.len() implies base <= #[trigger] used@[i] && net.contains_value(
            used@[i] as int,
        ) by {
            assert(used@.contains(used@[i]));
            assert(unsorted.contains(used@[i]));
            if used@[i] as int != base as int && used@[i] as int != base + 1 {
                assert(addr_in_use(views, used@[i] as int));
                let m = choose|m: int|
                    0 <= m < views.len() && views[m].client_address == used@[i] as int;
                assert(lease_ok(net, views[m]));
            }
        }
    }

    let j = first_gap(&used, base);

    if (j as u64) < cap {
        proof {
            assert(base as int + j as int <= u32::MAX as int);
        }
        let a: u32 = ((base as u64) + (j as u64)) as u32;
        proof {
            assert(a as int == base as int + j as int);
            // `a` is not among the used addresses.
            assert forall|m: int| 0 <= m < used@.len() implies used@[m] != a by {
                if m < j {
                    assert(used@[m] as int == base + m);
                } else if m > j {
                    assert(used@[j as int] < used@[m]);
                }
            }
            assert(!used@.contains(a)) by {
                if used@.contains(a) {
                    let m = choose|m: int| 0 <= m < used@.len() && used@[m] == a;
                    assert(used@[m] != a);
                }
            }
            assert(!unsorted.contains(a));
            assert(!addr_in_use(views, a as int)) by {
                if addr_in_use(views, a as int) {
                    let m = choose|m: int|
                        0 <= m < views.len() && views[m].client_address == a as int;
                    assert(unsorted[m + 2] == views[m].client_address);
                    assert(unsorted.contains(a));
                }
            }
            assert(is_free(net, views, a as int));
            // Nothing below `a` is free.
            assert forall|b: int| net.base <= b < a as int implies !is_free(net, views, b) by {
                let m = b - base;
                assert(0 <= m < j);
                assert(used@[m] as int == base + m);
                assert(used@[m] == b as u32);
                assert(used@.contains(b as u32));
                assert(unsorted.contains(b as u32));
            }
            assert(allocates(net, views, a as int));
        }
        Ok(a)
    } else {
        proof {
            // The dense run covers the whole network: every address is
            // reserved or in use.
            assert forall|b: int| !is_free(net, views, b) by {
                if net.contains_value(b) {
                    let m = b - base;
                    assert(0 <= m < net.capacity());
                    assert(m < j);
                    assert(used@[m] as int == base + m);
                    assert(used@[m] == b as u32);
                    assert(used@.contains(b as u32));
                    assert(unsorted.contains(b as u32));
                }
            }
        }
        Err(SessionError::AddressPoolExhausted)
    }
}

/// The swept table holds exactly the non-expired leases, in table order:
/// everything in it is a lease of the original table whose expiry has not
/// passed, and every such lease is in it.  Together with `get_peers`'s
/// contract, the peer snapshot after a sweep at `now` reflects exactly
/// the set of leases live at `now`; and as a pure read of the table, a
/// repeated snapshot with no intervening mutation is identical.
pub proof fn lemma_live_leases_exact(s: Seq<SessionView>, now: u64)
    ensures
        forall|i: int|
            0 <= i < live_leases(s, now).len() ==> #[trigger] live_leases(s, now)[i].ends_at > now,
        forall|m: int|
            0 <= m < s.len() && #[trigger] s[m].ends_at > now ==> live_leases(s, now).contains(
                s[m],
            ),
{
    broadcast use group_filter_ensures;

    assert forall|m: int|
        0 <= m < s.len() && #[trigger] s[m].ends_at > now implies live_leases(s, now).contains(
        s[m],
    ) by {
        s.lemma_filter_contains(|x: SessionView| x.ends_at > now, m);
    }
}

/// A network of capacity `c` holds at most `c - 2` leases beside its two
/// reserved addresses: a table of exactly `c - 2` distinct leases leaves
/// no address free, and a smaller table always leaves one.  Together with
/// `create`'s contract: the `c - 2`nd creation under distinct identity
/// keys still succeeds, and the next fails with `AddressPoolExhausted`.
pub proof fn lemma_pool_capacity(net: IpNet, s: Seq<SessionView>)
    requires
        net.wf(),
        net.capacity() >= 2,
        forall|i: int| 0 <= i < s.len() ==> lease_ok(net, #[trigger] s[i]),
        forall|i: int, j: int|
            0 <= i < j < s.len() ==> s[i].client_address != s[j].client_address,
    ensures
        s.len() <= net.capacity() - 2,
        s.len() == net.capacity() - 2 ==> (forall|a: int| !is_free(net, s, a)),
        s.len() < net.capacity() - 2 ==> (exists|a: int| is_free(net, s, a)),
{
    broadcast use vstd::set::group_set_axioms;
    broadcast use seq_to_set_is_finite;

    let base = net.base as int;
    let cap = net.capacity();
    let pool = vstd::set_lib::set_int_range(base, base + cap);
    let used_seq: Seq<int> = Seq::new(
        s.len() + 2,
        |i: int|
            if i == 0 {
                base
            } else if i == 1 {
                base + 1
            } else {
                s[i - 2].client_address as int
            },
    );
    let used = used_seq.to_set();
    vstd::set_lib::lemma_int_range(base, base + cap);
    assert(used_seq.no_duplicates()) by {
        assert forall|i: int, j: int|
            0 <= i < j < used_seq.len() implies used_seq[i] != used_seq[j] by {
            if i >= 2 && j >= 2 {
                assert(s[i - 2].client_address != s[j - 2].client_address);
            } else if i < 2 && j >= 2 {
                assert(lease_ok(net, s[j - 2]));
            }
        }
    }
    used_seq.unique_seq_to_set();
    assert(used.len() == s.len() + 2);
    assert(used.subset_of(pool)) by {
        assert forall|a: int| used.contains(a) implies pool.contains(a) by {
            let i = choose|i: int| 0 <= i < used_seq.len() && used_seq[i] == a;
            if i >= 2 {
                assert(lease_ok(net, s[i - 2]));
            }
        }
    }
    vstd::set_lib::lemma_len_subset(used, pool);
    assert(s.len() + 2 <= cap);

    // An address is free exactly when it lies in the pool and outside the
    // used set.
    assert forall|a: int| #[trigger] is_free(net, s, a) <==> (pool.contains(a) && !used.contains(
        a,
    )) by {
        if used.contains(a) {
            let i = choose|i: int| 0 <= i < used_seq.len() && used_seq[i] == a;
            if i >= 2 {
                assert(s[i - 2].client_address == a);
                assert(addr_in_use(s, a));
            }
        }
        if addr_in_use(s, a) {
            let m = choose|m: int| 0 <= m < s.len() && s[m].client_address == a;
            assert(used_seq[m + 2] == a);
            assert(used.contains(a));
        }
        if a == base {
            assert(used_seq[0] == a);
            assert(used.contains(a));
        }
        if a == base + 1 {
            assert(used_seq[1] == a);
            assert(used.contains(a));
        }
    }

    if s.len() == cap - 2 {
        vstd::set_lib::lemma_subset_equality(used, pool);
        assert forall|a: int| !is_free(net, s, a) by {
            if pool.contains(a) {
                assert(used.contains(a));
            }
        }
    }
    if s.len() < cap - 2 {
        assert(used.len() < pool.len());
        if forall|a: int| !is_free(net, s, a) {
            assert forall|a: int| pool.contains(a) implies used.contains(a) by {
                assert(!is_free(net, s, a));
            }
            vstd::set_lib::lemma_len_subset(pool, used);
            assert(false);
        }
    }
}

/// Refreshing a lease never moves it: the address and identity key are
/// kept, and when the refresh happens no earlier than the instant the
/// lease was minted at, the expiry never moves backwards.
pub proof fn lemma_recreate_extends(l: SessionView, key: Seq<char>, now: u64, dur: u64)
    requires
        l.ends_at <= now as int + dur,
        now as int + dur <= u64::MAX,
    ensures
        updated_lease(l, key, (now + dur) as u64).client_address == l.client_address,
        updated_lease(l, key, (now + dur) as u64).device_id == l.device_id,
        updated_lease(l, key, (now + dur) as u64).ends_at >= l.ends_at,
{
}

/// Once the sweep has removed an expired lease, no allocation passes over
/// its address: the freed address is reused before any higher address is
/// chosen.
pub proof fn lemma_swept_address_reused(
    net: IpNet,
    s: Seq<SessionView>,
    now: u64,
    i: int,
    a: int,
)
    requires
        net.wf(),
        forall|k: int| 0 <= k < s.len() ==> lease_ok(net, #[trigger] s[k]),
        forall|k: int, j: int|
            0 <= k < j < s.len() ==> s[k].client_address != s[j].client_address,
        0 <= i < s.len(),
        s[i].ends_at <= now,
        s[i].client_address == a,
    ensures
        is_free(net, live_leases(s, now), a),
        forall|b: int| allocates(net, live_leases(s, now), b) ==> b <= a,
{
    broadcast use group_filter_ensures;

    let live = live_leases(s, now);
    lemma_filter_members(s, now);
    assert(!addr_in_use(live, a)) by {
        if addr_in_use(live, a) {
            let k = choose|k: int| 0 <= k < live.len() && live[k].client_address == a;
            let m = choose|m: int| 0 <= m < s.len() && s[m] == live[k];
            assert(m == i) by {
                if m < i {
                    assert(s[m].client_address != s[i].client_address);
                } else if m > i {
                    assert(s[i].client_address != s[m].client_address);
                }
            }
            assert(live[k].ends_at > now);
        }
    }
    assert(lease_ok(net, s[i]));
    assert(is_free(net, live, a));
    assert forall|b: int| allocates(net, live, b) implies b <= a by {
        if b > a {
            assert(net.base <= a < b);
            assert(!is_free(net, live, a));
        }
    }
}

/// Members of the reserved-or-leased list are exactly the two reserved
/// addresses and the leases' addresses.
proof fn hint_membership(used: Seq<u32>, views: Seq<SessionView>, base: u32)
    requires
        used.len() == views.len() + 2,
        used[0] == base,
        base as int + 1 <= u32::MAX as int,
        used[1] as int == base as int + 1,
        forall|m: int| 0 <= m < views.len() ==> used[m + 2] == views[m].client_address,
    ensures
        forall|a: u32|
            #[trigger] used.contains(a) <==> (a == base || a as int == base as int + 1
                || addr_in_use(views, a as int)),
{
    assert forall|a: u32|
        (a == base || a as int == base as int + 1 || addr_in_use(views, a as int))
        implies used.contains(a) by {
        if a == base {
            assert(used[0] == a);
        } else if a as int == base as int + 1 {
            assert(used[1] == a);
        } else {
            let m = choose|m: int| 0 <= m < views.len() && views[m].client_address == a as int;
            assert(used[m + 2] == a);
        }
    }
    assert forall|a: u32| used.contains(a) implies (a == base || a as int == base as int + 1
        || addr_in_use(views, a as int)) by {
        let m = choose|m: int| 0 <= m < used.len() && used[m] == a;
        if m >= 2 {
            assert(used[m] == views[m - 2].client_address);
        }
    }
}

} // verus!
