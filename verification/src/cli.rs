//! The command-line client's decisions: which configuration file to read,
//! the configuration it writes when there is none, and the privilege check.

use vstd::prelude::*;
use crate::config::{
    AuthConfig, AuthMethod, ClusteringConfig, Config, ConnectionLimitsConfig, LoggingConfig,
    NetworkConfig, ServerConfig,
};
use crate::error::{Result, VpnError};
use crate::scan::starts_with;
use crate::unicode::str_eq;

verus! {

/// The configuration file named by the command line: the argument after
/// `--config`, else the first argument unless it is an option, else
/// `config.toml`.
pub open spec fn config_path_spec(args: Seq<Seq<char>>) -> Seq<char> {
    if args.len() > 2 && args[1] == "--config"@ {
        args[2]
    } else if args.len() > 1 && !starts_with(args[1], "--"@) {
        args[1]
    } else {
        "config.toml"@
    }
}

/// The configuration file named by the command line `args` (the program's
/// name first).
pub fn config_path(args: &Vec<String>) -> (r: String)
    ensures
        r@ == config_path_spec(args@.map_values(|a: String| a@)),
{
    let ghost av = args@.map_values(|a: String| a@);
    if args.len() > 2 && str_eq(args[1].as_str(), "--config") {
        assert(av[1] == args@[1]@ && av[2] == args@[2]@);
        return args[2].clone();
    }
    if args.len() > 1 {
        assert(av[1] == args@[1]@);
        let cs = crate::scan::chars_of(args[1].as_str());
        if !crate::scan::chars_start_with(cs.as_slice(), "--") {
            return args[1].clone();
        }
    }
    "config.toml".to_owned()
}

/// The message of a refusal to run without root privileges.
pub open spec fn privileges_message() -> Seq<char> {
    "This program requires root privileges to create TUN/TAP interfaces. Please run with sudo."@
}

/// Creating TUN/TAP interfaces needs root: the user id must be 0.
pub fn check_privileges(uid: u32) -> (r: Result<()>)
    ensures
        uid == 0 ==> r is Ok,
        uid != 0 ==> (r matches Err(VpnError::Configuration(m)) && m@ == privileges_message()),
{
    if uid != 0 {
        return Err(
            VpnError::Configuration(
                "This program requires root privileges to create TUN/TAP interfaces. Please run with sudo.".to_owned(),
            ),
        );
    }
    Ok(())
}

/// The configuration written when none exists: server `vpn.example.com`
/// on port 443, hub `DEFAULT`, password authentication as
/// `vpnuser`/`vpnpass`, every other section at its default.
pub fn create_default_config() -> (r: Config)
    ensures
        r.server.address@ == "vpn.example.com"@,
        r.server.hostname matches Some(h) && h@ == "vpn.example.com"@,
        r.server.port == 443,
        r.server.hub@ == "DEFAULT"@,
        r.server.use_ssl,
        r.server.verify_certificate,
        r.server.timeout == 30,
        r.server.keepalive_interval == 60,
        r.connection_limits.is_default(),
        r.auth.method == AuthMethod::Password,
        r.auth.username matches Some(u) && u@ == "vpnuser"@,
        r.auth.password matches Some(p) && p@ == "vpnpass"@,
        r.auth.client_cert is None && r.auth.client_key is None && r.auth.ca_cert is None,
        r.network.is_default(),
        r.logging.is_default(),
        r.clustering.is_default(),
{
    Config {
        server: ServerConfig {
            address: "vpn.example.com".to_owned(),
            hostname: Some("vpn.example.com".to_owned()),
            port: 443,
            hub: "DEFAULT".to_owned(),
            use_ssl: true,
            verify_certificate: true,
            timeout: 30,
            keepalive_interval: 60,
        },
        connection_limits: ConnectionLimitsConfig::default(),
        auth: AuthConfig {
            method: AuthMethod::Password,
            username: Some("vpnuser".to_owned()),
            password: Some("vpnpass".to_owned()),
            client_cert: None,
            client_key: None,
            ca_cert: None,
        },
        network: NetworkConfig::default(),
        logging: LoggingConfig::default(),
        clustering: ClusteringConfig::default(),
    }
}

} // verus!
