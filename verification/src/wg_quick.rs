//! Where the WireGuard activation tool expects its configuration files.
//! Writing the file and invoking the tool are outside work; the paths the
//! caller hands it are computed here.

use vstd::prelude::*;

verus! {

/// Directory where tunnel configuration files are written.
pub fn config_dir() -> (r: String)
    ensures
        r@ == "/etc/wireguard"@,
{
    let s = "/etc/wireguard";
    s.to_owned()
}

/// The path of a tunnel's configuration file: the configuration
/// directory, the tunnel's name, and the `.conf` suffix.
pub fn config_file_path(name: &str) -> (r: String)
    ensures
        r@ == "/etc/wireguard"@ + "/"@ + name@ + ".conf"@,
{
    let mut path = config_dir();
    path.append("/");
    path.append(name);
    path.append(".conf");
    path
}

} // verus!
