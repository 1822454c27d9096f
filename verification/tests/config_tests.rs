use rvpnse::config::{AuthMethod, Config, LoadBalancingStrategy};
use rvpnse::config::{default_backoff_factor, default_cluster_nodes, default_user_agent};
use rvpnse::error::VpnError;
use rvpnse::cli::{check_privileges, config_path, create_default_config};

#[test]
fn test_config_validation() {
    let mut config = Config::default_test();

    assert!(config.validate().is_ok());

    config.server.address = String::new();
    assert!(config.validate().is_err());

    config.server.address = "127.0.0.1".to_string();
    config.server.port = 0;
    assert!(config.validate().is_err());
}

#[test]
fn test_config_defaults() {
    let config = Config::default_test();
    assert_eq!(config.server.address, "127.0.0.1");
    assert_eq!(config.server.hostname, Some("localhost".to_string()));
    assert_eq!(config.server.port, 443);
    assert!(!config.server.verify_certificate);
    assert_eq!(config.auth.method, AuthMethod::Password);
    assert_eq!(config.auth.username, Some("test".to_string()));
}

fn message(r: rvpnse::error::Result<()>) -> String {
    match r {
        Err(VpnError::Config(m)) => m,
        _ => panic!("expected a configuration error"),
    }
}

#[test]
fn validation_messages_in_order() {
    let mut c = Config::default_test();
    c.server.hub = String::new();
    assert_eq!(message(c.validate()), "Hub name cannot be empty");

    let mut c = Config::default_test();
    c.auth.password = None;
    assert_eq!(message(c.validate()), "Username and password required for password authentication");

    let mut c = Config::default_test();
    c.auth.method = AuthMethod::Certificate;
    assert_eq!(message(c.validate()), "Client certificate and key required for certificate authentication");

    let mut c = Config::default_test();
    c.auth.method = AuthMethod::Anonymous;
    c.auth.username = None;
    assert!(c.validate().is_ok());

    let mut c = Config::default_test();
    c.network.bind_address = Some("nowhere".to_string());
    assert_eq!(message(c.validate()), "Invalid bind address: nowhere");
    for good in ["192.168.1.100", "::", "::1", "fe80::1:2", "1:2:3:4:5:6:7:8", "::ffff:10.0.0.1", "1:2:3:4:5:6:7::", "ABCD::ef"] {
        c.network.bind_address = Some(good.to_string());
        assert!(c.validate().is_ok(), "{good}");
    }
    for bad in ["", "01.2.3.4", "1.2.3", "1:2:3:4:5:6:7", "1::2::3", "12345::", ":1::", "1:2:3:4:5:6:7:8::", "1.2.3.4::", "1:2:3:4:5:6::1.2.3.4", "::g", "[::1]"] {
        c.network.bind_address = Some(bad.to_string());
        assert!(c.validate().is_err(), "{bad}");
    }

    let mut c = Config::default_test();
    c.connection_limits.max_connections = 0;
    assert!(c.validate().is_ok());

    let mut c = Config::default_test();
    c.connection_limits.max_connections = 1001;
    assert_eq!(message(c.validate()), "Maximum connections cannot exceed 1000");

    let mut c = Config::default_test();
    c.connection_limits.pool_size = 11;
    assert_eq!(message(c.validate()), "Pool size cannot exceed maximum connections");

    let mut c = Config::default_test();
    c.clustering.enabled = true;
    c.clustering.cluster_nodes = vec![];
    assert_eq!(message(c.validate()), "Cluster nodes list cannot be empty when clustering is enabled");

    let mut c = Config::default_test();
    c.clustering.enabled = true;
    c.clustering.cluster_nodes = vec!["a:1".to_string(), "nohost".to_string()];
    assert_eq!(message(c.validate()), "Invalid cluster node address: nohost. Expected format: hostname:port");
}

#[test]
fn default_values() {
    assert_eq!(default_backoff_factor(), 2.0f64.to_bits());
    assert_eq!(default_user_agent(), "rVPNSE/0.1.0");
    assert_eq!(default_cluster_nodes(), vec!["127.0.0.1:443".to_string()]);
    let c = Config::default_test();
    assert_eq!(c.clustering.load_balancing_strategy, LoadBalancingStrategy::RoundRobin);
    assert_eq!(c.connection_limits.max_connections, 10);
    assert_eq!(c.logging.level, "info");
}

#[test]
fn command_line_choices() {
    let args = |v: &[&str]| v.iter().map(|s| s.to_string()).collect::<Vec<String>>();
    assert_eq!(config_path(&args(&["prog"])), "config.toml");
    assert_eq!(config_path(&args(&["prog", "my.toml"])), "my.toml");
    assert_eq!(config_path(&args(&["prog", "--config", "other.toml"])), "other.toml");
    assert_eq!(config_path(&args(&["prog", "--verbose"])), "config.toml");
    assert!(check_privileges(0).is_ok());
    assert!(check_privileges(1000).is_err());
    let d = create_default_config();
    assert_eq!(d.server.hub, "DEFAULT");
    assert_eq!(d.auth.username, Some("vpnuser".to_string()));
}
