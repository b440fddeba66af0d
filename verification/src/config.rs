//! The tunnel table kept by the command-line client: named tunnels, each
//! pointing at a remote gateway endpoint, with the selection rules the
//! commands use.

use vstd::prelude::*;
use crate::errors::ConfigError;

verus! {

/// One configured tunnel: the remote gateway endpoint it logs in against.
#[derive(Debug)]
pub struct TunnelConfig {
    pub endpoint: String,
}

impl View for TunnelConfig {
    type V = Seq<char>;

    open spec fn view(&self) -> Seq<char> {
        self.endpoint@
    }
}

impl Clone for TunnelConfig {
    fn clone(&self) -> (r: Self)
        ensures
            r@ == self@,
    {
        TunnelConfig { endpoint: self.endpoint.clone() }
    }
}

/// What a URL path resolves to against a base URL text, as the URL
/// library computes it.  Relies on url::Url::parse and Url::join:
/// resolution is a function of the two texts alone.
pub uninterp spec fn joined_url(base: Seq<char>, path: Seq<char>) -> Option<Seq<char>>;

/// Relies on url::Url::parse and Url::join: parses the base and resolves
/// the path against it.
#[verifier::external_body]
fn url_join(base: &str, path: &str) -> (r: Option<String>)
    ensures
        r matches Some(u) ==> joined_url(base@, path@) == Some(u@),
        r is None ==> joined_url(base@, path@) is None,
{
    url::Url::parse(base).ok().and_then(|b| b.join(path).ok()).map(String::from)
}

impl TunnelConfig {
    /// The endpoint's start-login API URL.
    pub fn start_api_url(&self) -> (r: Result<String, ConfigError>)
        ensures
            match r {
                Ok(u) => joined_url(self@, "/api/v1/login/start"@) == Some(u@),
                Err(e) => e == ConfigError::BadEndpoint && joined_url(
                    self@,
                    "/api/v1/login/start"@,
                ) is None,
            },
    {
        match url_join(self.endpoint.as_str(), "/api/v1/login/start") {
            Some(u) => Ok(u),
            None => Err(ConfigError::BadEndpoint),
        }
    }

    /// The endpoint's finish-login API URL.
    pub fn finish_api_url(&self) -> (r: Result<String, ConfigError>)
        ensures
            match r {
                Ok(u) => joined_url(self@, "/api/v1/login/finish"@) == Some(u@),
                Err(e) => e == ConfigError::BadEndpoint && joined_url(
                    self@,
                    "/api/v1/login/finish"@,
                ) is None,
            },
    {
        match url_join(self.endpoint.as_str(), "/api/v1/login/finish") {
            Some(u) => Ok(u),
            None => Err(ConfigError::BadEndpoint),
        }
    }

    /// The endpoint's page that finishes the browser flow.
    pub fn finish_url(&self) -> (r: Result<String, ConfigError>)
        ensures
            match r {
                Ok(u) => joined_url(self@, "/finish"@) == Some(u@),
                Err(e) => e == ConfigError::BadEndpoint && joined_url(self@, "/finish"@) is None,
            },
    {
        match url_join(self.endpoint.as_str(), "/finish") {
            Some(u) => Ok(u),
            None => Err(ConfigError::BadEndpoint),
        }
    }
}

/// A tunnel's description as handed to status callers.
#[derive(Debug)]
pub struct TunnelInfo {
    pub endpoint: String,
}

/// The tunnel table: tunnels by name, in insertion order, names unique.
pub struct Config {
    tunnels: Vec<(String, TunnelConfig)>,
}

impl Config {
    /// The table as (name, endpoint) pairs.
    pub closed spec fn tunnels(self) -> Seq<(Seq<char>, Seq<char>)> {
        self.tunnels@.map_values(|p: (String, TunnelConfig)| (p.0@, p.1@))
    }

    /// The table's invariant: names are unique.
    pub open spec fn wf(self) -> bool {
        forall|i: int, j: int|
            0 <= i < j < self.tunnels().len() ==> self.tunnels()[i].0 != self.tunnels()[j].0
    }

    /// An empty table.
    pub fn new() -> (r: Config)
        ensures
            r.wf(),
            r.tunnels().len() == 0,
    {
        let r = Config { tunnels: Vec::new() };
        proof {
            assert(r.tunnels() =~= Seq::<(Seq<char>, Seq<char>)>::empty());
        }
        r
    }

    /// How many tunnels are configured.
    pub fn num_tunnels(&self) -> (r: usize)
        ensures
            r == self.tunnels().len(),
    {
        self.tunnels.len()
    }

    /// Select a tunnel: by its name when one is given (`NoSuchTunnel`
    /// otherwise); with no name, the only configured tunnel (`NoTunnels`
    /// when none is, `AmbiguousTunnel` when several are).
    pub fn find(&self, name: Option<String>) -> (r: Result<(String, TunnelConfig), ConfigError>)
        ensures
            match name {
                Some(n) => match r {
                    Ok(p) => p.0@ == n@ && (exists|i: int|
                        0 <= i < self.tunnels().len() && #[trigger] self.tunnels()[i] == (
                            p.0@,
                            p.1@,
                        )),
                    Err(e) => e == ConfigError::NoSuchTunnel && (forall|i: int|
                        0 <= i < self.tunnels().len() ==> #[trigger] self.tunnels()[i].0 != n@),
                },
                None => match r {
                    Ok(p) => self.tunnels().len() == 1 && self.tunnels()[0] == (p.0@, p.1@),
                    Err(e) => (e == ConfigError::NoTunnels && self.tunnels().len() == 0) || (e
                        == ConfigError::AmbiguousTunnel && self.tunnels().len() > 1),
                },
            },
    {
        if name.is_some() {
            let n = name.unwrap();
            match index_of(&self.tunnels, &n) {
                Some(i) => {
                    let p = (self.tunnels[i].0.clone(), self.tunnels[i].1.clone());
                    proof {
                        assert(p.0@ == self.tunnels@[i as int].0@);
                        assert(p.1@ == self.tunnels@[i as int].1@);
                        assert(self.tunnels()[i as int] == (p.0@, p.1@));
                    }
                    Ok(p)
                },
                None => Err(ConfigError::NoSuchTunnel),
            }
        } else {
            if self.tunnels.len() == 0 {
                Err(ConfigError::NoTunnels)
            } else if self.tunnels.len() == 1 {
                let p = (self.tunnels[0].0.clone(), self.tunnels[0].1.clone());
                proof {
                    assert(self.tunnels()[0] == (p.0@, p.1@));
                }
                Ok(p)
            } else {
                Err(ConfigError::AmbiguousTunnel)
            }
        }
    }

    /// The configured tunnel names, in table order.
    pub fn get_tunnel_names(&self) -> (r: Vec<String>)
        ensures
            r@.len() == self.tunnels().len(),
            forall|i: int| 0 <= i < r@.len() ==> #[trigger] r@[i]@ == self.tunnels()[i].0,
    {
        let mut names: Vec<String> = Vec::new();
        let mut i: usize = 0;
        while i < self.tunnels.len()
            invariant
                i <= self.tunnels@.len(),
                names@.len() == i,
                forall|k: int| 0 <= k < i ==> #[trigger] names@[k]@ == self.tunnels()[k].0,
            decreases self.tunnels@.len() - i,
        {
            names.push(self.tunnels[i].0.clone());
            i = i + 1;
        }
        names
    }

    /// The configured tunnels with their endpoints, in table order.
    pub fn get_tunnels_info(&self) -> (r: Vec<(String, TunnelInfo)>)
        ensures
            r@.len() == self.tunnels().len(),
            forall|i: int|
                0 <= i < r@.len() ==> (#[trigger] r@[i].0@, r@[i].1.endpoint@) == self.tunnels()[i],
    {
        let mut infos: Vec<(String, TunnelInfo)> = Vec::new();
        let mut i: usize = 0;
        while i < self.tunnels.len()
            invariant
                i <= self.tunnels@.len(),
                infos@.len() == i,
                forall|k: int|
                    0 <= k < i ==> (#[trigger] infos@[k].0@, infos@[k].1.endpoint@)
                        == self.tunnels()[k],
            decreases self.tunnels@.len() - i,
        {
            let name = self.tunnels[i].0.clone();
            let info = TunnelInfo { endpoint: self.tunnels[i].1.endpoint.clone() };
            infos.push((name, info));
            i = i + 1;
        }
        infos
    }

    /// Add a tunnel under a fresh name; a name already in use is refused
    /// and the table is left unchanged.
    pub fn add_tunnel(&mut self, name: &str, tunnel_config: TunnelConfig) -> (r: Result<
        (),
        ConfigError,
    >)
        requires
            old(self).wf(),
        ensures
            final(self).wf(),
            match r {
                Ok(u) => (forall|i: int|
                    0 <= i < old(self).tunnels().len() ==> #[trigger] old(self).tunnels()[i].0
                        != name@) && final(self).tunnels() == old(self).tunnels().push(
                    (name@, tunnel_config@),
                ),
                Err(e) => e == ConfigError::TunnelExists && (exists|i: int|
                    0 <= i < old(self).tunnels().len() && #[trigger] old(self).tunnels()[i].0
                        == name@) && final(self).tunnels() == old(self).tunnels(),
            },
    {
        let name_owned = name.to_owned();
        match index_of(&self.tunnels, &name_owned) {
            Some(i) => {
                proof {
                    assert(self.tunnels()[i as int].0 == name@);
                }
                Err(ConfigError::TunnelExists)
            },
            None => {
                let ghost t0 = self.tunnels();
                self.tunnels.push((name_owned, tunnel_config));
                proof {
                    assert(self.tunnels() =~= t0.push((name@, tunnel_config@)));
                }
                Ok(())
            },
        }
    }

    /// Remove the tunnel of the given name; an unknown name is refused
    /// and the table is left unchanged.
    pub fn remove_tunnel(&mut self, name: &str) -> (r: Result<(), ConfigError>)
        requires
            old(self).wf(),
        ensures
            final(self).wf(),
            match r {
                Ok(u) => exists|i: int|
                    0 <= i < old(self).tunnels().len() && #[trigger] old(self).tunnels()[i].0
                        == name@ && final(self).tunnels() == old(self).tunnels().remove(i),
                Err(e) => e == ConfigError::NoSuchTunnel && (forall|i: int|
                    0 <= i < old(self).tunnels().len() ==> #[trigger] old(self).tunnels()[i].0
                        != name@) && final(self).tunnels() == old(self).tunnels(),
            },
    {
        let ghost t0 = self.tunnels();
        let name_owned = name.to_owned();
        match index_of(&self.tunnels, &name_owned) {
            Some(i) => {
                proof {
                    assert(t0[i as int].0 == name@);
                }
                self.tunnels.remove(i);
                proof {
                    assert(self.tunnels() =~= t0.remove(i as int));
                    assert forall|a: int, b: int|
                        0 <= a < b < self.tunnels().len() implies self.tunnels()[a].0
                        != self.tunnels()[b].0 by {
                        if a < i && b < i {
                            assert(t0[a].0 != t0[b].0);
                        } else if a < i {
                            assert(t0[a].0 != t0[b + 1].0);
                        } else {
                            assert(t0[a + 1].0 != t0[b + 1].0);
                        }
                    }
                }
                Ok(())
            },
            None => Err(ConfigError::NoSuchTunnel),
        }
    }
}

/// The position of the tunnel with the given name, if any.
fn index_of(tunnels: &Vec<(String, TunnelConfig)>, name: &String) -> (r: Option<usize>)
    ensures
        match r {
            Some(i) => i < tunnels@.len() && tunnels@[i as int].0@ == name@,
            None => forall|k: int| 0 <= k < tunnels@.len() ==> #[trigger] tunnels@[k].0@ != name@,
        },
{
    let mut i: usize = 0;
    while i < tunnels.len()
        invariant
            i <= tunnels@.len(),
            forall|k: int| 0 <= k < i ==> #[trigger] tunnels@[k].0@ != name@,
        decreases tunnels@.len() - i,
    {
        if tunnels[i].0 == *name {
            return Some(i);
        }
        i = i + 1;
    }
    None
}

} // verus!
