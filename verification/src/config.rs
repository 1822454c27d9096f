//! Client configuration: the settings, their defaults and their validation.
//!
//! Reading and writing the TOML form of a configuration is done around the
//! library; here a configuration is a plain value.

use vstd::prelude::*;
use crate::error::{Result, VpnError};
use crate::text::join2;
use crate::ip_text::{ip_text, is_ip_text};

verus! {

broadcast use vstd::string::axiom_spec_iter;

/// Authentication methods supported by SoftEther VPN.
#[derive(Debug, Clone, Copy, PartialEq, Eq, Structural)]
pub enum AuthMethod {
    /// Password authentication
    Password,
    /// Certificate authentication
    Certificate,
    /// Anonymous authentication
    Anonymous,
}

impl Default for AuthMethod {
    fn default() -> (r: Self)
        ensures
            r == AuthMethod::Password,
    {
        AuthMethod::Password
    }
}

/// Server configuration settings.
#[derive(Debug, Clone)]
pub struct ServerConfig {
    /// Server IP address (mandatory)
    pub address: String,
    /// Server hostname for the Host header
    pub hostname: Option<String>,
    /// Server port (usually 443 for HTTPS)
    pub port: u16,
    /// Hub name to connect to
    pub hub: String,
    /// Use SSL/TLS connection
    pub use_ssl: bool,
    /// Verify server certificate
    pub verify_certificate: bool,
    /// Connection timeout in seconds
    pub timeout: u32,
    /// Keepalive interval in seconds
    pub keepalive_interval: u32,
}

/// The bit pattern of the IEEE-754 double `2.0`.
pub const TWO_F64_BITS: u64 = 0x4000_0000_0000_0000;

/// Connection limits and pooling configuration.
#[derive(Debug, Clone)]
pub struct ConnectionLimitsConfig {
    /// Maximum number of concurrent connections (0 = unlimited)
    pub max_connections: u32,
    /// Connection pooling enabled
    pub enable_pooling: bool,
    /// Pool size for persistent connections
    pub pool_size: u32,
    /// Connection idle timeout in seconds
    pub idle_timeout: u32,
    /// Maximum connection lifetime in seconds
    pub max_lifetime: u32,
    /// Enable connection multiplexing
    pub enable_multiplexing: bool,
    /// Maximum multiplexed streams per connection
    pub max_streams_per_connection: u32,
    /// Connection retry attempts
    pub retry_attempts: u32,
    /// Retry delay in milliseconds
    pub retry_delay: u32,
    /// Exponential backoff factor, as the bit pattern of an IEEE-754 double
    pub backoff_factor_bits: u64,
    /// Maximum retry delay in seconds
    pub max_retry_delay: u32,
    /// Connection health check interval in seconds
    pub health_check_interval: u32,
    /// Rate limiting: requests per second
    pub rate_limit_rps: u32,
    /// Rate limiting: burst size
    pub rate_limit_burst: u32,
}

/// Load balancing strategies for cluster nodes.
#[derive(Debug, Clone, Copy, PartialEq, Eq, Structural)]
pub enum LoadBalancingStrategy {
    RoundRobin,
    LeastConnections,
    WeightedRoundRobin,
    Random,
    ConsistentHashing,
}

/// Session distribution modes for clustering.
#[derive(Debug, Clone, Copy, PartialEq, Eq, Structural)]
pub enum SessionDistributionMode {
    /// Distribute sessions evenly across nodes
    Distributed,
    /// Stick sessions to specific nodes
    Sticky,
    /// Replicate sessions across multiple nodes
    Replicated,
}

impl Default for LoadBalancingStrategy {
    fn default() -> (r: Self)
        ensures
            r == LoadBalancingStrategy::RoundRobin,
    {
        LoadBalancingStrategy::RoundRobin
    }
}

impl Default for SessionDistributionMode {
    fn default() -> (r: Self)
        ensures
            r == SessionDistributionMode::Distributed,
    {
        SessionDistributionMode::Distributed
    }
}

/// Clustering configuration for SSL-VPN RPC farm support.
#[derive(Debug, Clone)]
pub struct ClusteringConfig {
    /// Enable clustering support
    pub enabled: bool,
    /// Cluster node addresses (`hostname:port`)
    pub cluster_nodes: Vec<String>,
    /// Load balancing strategy
    pub load_balancing_strategy: LoadBalancingStrategy,
    /// Number of connections per cluster node
    pub connections_per_node: u32,
    /// Current active peers
    pub current_peer_count: u32,
    /// Maximum peers per cluster
    pub max_peers_per_cluster: u32,
    /// Health check interval for cluster nodes (seconds)
    pub health_check_interval: u32,
    /// Failover timeout (seconds)
    pub failover_timeout: u32,
    /// Enable automatic failover
    pub enable_failover: bool,
    /// RPC farm protocol version
    pub rpc_protocol_version: String,
    /// Session distribution mode
    pub session_distribution_mode: SessionDistributionMode,
}

/// Authentication configuration.
#[derive(Debug, Clone)]
pub struct AuthConfig {
    /// Authentication method
    pub method: AuthMethod,
    /// Username for password authentication
    pub username: Option<String>,
    /// Password for password authentication
    pub password: Option<String>,
    /// Client certificate file path
    pub client_cert: Option<String>,
    /// Client private key file path
    pub client_key: Option<String>,
    /// CA certificate file path
    pub ca_cert: Option<String>,
}

/// Network configuration settings.
#[derive(Debug, Clone)]
pub struct NetworkConfig {
    /// Enable IPv6 support
    pub enable_ipv6: bool,
    /// Bind to a specific local address
    pub bind_address: Option<String>,
    /// Use a proxy for connections
    pub proxy_url: Option<String>,
    /// User agent string
    pub user_agent: String,
    /// Enable HTTP/2 support
    pub enable_http2: bool,
    /// TCP keep-alive enabled
    pub tcp_keepalive: bool,
    /// TCP no-delay enabled
    pub tcp_nodelay: bool,
    /// Socket buffer size
    pub socket_buffer_size: Option<u32>,
}

/// Logging configuration.
#[derive(Debug, Clone)]
pub struct LoggingConfig {
    /// Log level (error, warn, info, debug, trace)
    pub level: String,
    /// Log file path (logs to the console when absent)
    pub file: Option<String>,
    /// Enable JSON logging format
    pub json_format: bool,
    /// Enable colored output
    pub colored: bool,
}

/// Main VPN configuration structure.
#[derive(Debug, Clone)]
pub struct Config {
    /// Server configuration
    pub server: ServerConfig,
    /// Connection limits and pooling configuration
    pub connection_limits: ConnectionLimitsConfig,
    /// Authentication configuration
    pub auth: AuthConfig,
    /// Network configuration
    pub network: NetworkConfig,
    /// Logging configuration
    pub logging: LoggingConfig,
    /// Clustering configuration
    pub clustering: ClusteringConfig,
}

/// Another name for the configuration.
pub type VpnConfig = Config;

pub fn default_true() -> (r: bool)
    ensures
        r,
{
    true
}

pub fn default_false() -> (r: bool)
    ensures
        !r,
{
    false
}

pub fn default_timeout() -> (r: u32)
    ensures
        r == 30,
{
    30
}

pub fn default_keepalive() -> (r: u32)
    ensures
        r == 60,
{
    60
}

pub fn default_max_connections() -> (r: u32)
    ensures
        r == 10,
{
    10
}

pub fn default_pool_size() -> (r: u32)
    ensures
        r == 5,
{
    5
}

pub fn default_idle_timeout() -> (r: u32)
    ensures
        r == 300,
{
    300
}

pub fn default_max_lifetime() -> (r: u32)
    ensures
        r == 3600,
{
    3600
}

pub fn default_max_streams() -> (r: u32)
    ensures
        r == 100,
{
    100
}

pub fn default_retry_attempts() -> (r: u32)
    ensures
        r == 3,
{
    3
}

pub fn default_retry_delay() -> (r: u32)
    ensures
        r == 1000,
{
    1000
}

/// The default backoff factor `2.0`, as the bit pattern of a double.
pub fn default_backoff_factor() -> (r: u64)
    ensures
        r == TWO_F64_BITS,
{
    TWO_F64_BITS
}

pub fn default_max_retry_delay() -> (r: u32)
    ensures
        r == 30,
{
    30
}

pub fn default_health_check_interval() -> (r: u32)
    ensures
        r == 30,
{
    30
}

pub fn default_rate_limit() -> (r: u32)
    ensures
        r == 100,
{
    100
}

pub fn default_burst_size() -> (r: u32)
    ensures
        r == 200,
{
    200
}

pub fn default_user_agent() -> (r: String)
    ensures
        r@ == "rVPNSE/0.1.0"@,
{
    "rVPNSE/0.1.0".to_owned()
}

pub fn default_log_level() -> (r: String)
    ensures
        r@ == "info"@,
{
    "info".to_owned()
}

pub fn default_cluster_nodes() -> (r: Vec<String>)
    ensures
        r@.len() == 1,
        r@[0]@ == "127.0.0.1:443"@,
{
    let mut v: Vec<String> = Vec::new();
    v.push("127.0.0.1:443".to_owned());
    v
}

pub fn default_lb_strategy() -> (r: LoadBalancingStrategy)
    ensures
        r == LoadBalancingStrategy::RoundRobin,
{
    LoadBalancingStrategy::RoundRobin
}

pub fn default_connections_per_node() -> (r: u32)
    ensures
        r == 10,
{
    10
}

pub fn default_zero() -> (r: u32)
    ensures
        r == 0,
{
    0
}

pub fn default_max_peers() -> (r: u32)
    ensures
        r == 100,
{
    100
}

pub fn default_cluster_health_interval() -> (r: u32)
    ensures
        r == 30,
{
    30
}

pub fn default_failover_timeout() -> (r: u32)
    ensures
        r == 60,
{
    60
}

pub fn default_rpc_version() -> (r: String)
    ensures
        r@ == "1.0"@,
{
    "1.0".to_owned()
}

pub fn default_session_distribution() -> (r: SessionDistributionMode)
    ensures
        r == SessionDistributionMode::Distributed,
{
    SessionDistributionMode::Distributed
}

impl ConnectionLimitsConfig {
    /// Every field holds its default value.
    pub open spec fn is_default(&self) -> bool {
        &&& self.max_connections == 10
        &&& self.enable_pooling
        &&& self.pool_size == 5
        &&& self.idle_timeout == 300
        &&& self.max_lifetime == 3600
        &&& !self.enable_multiplexing
        &&& self.max_streams_per_connection == 100
        &&& self.retry_attempts == 3
        &&& self.retry_delay == 1000
        &&& self.backoff_factor_bits == TWO_F64_BITS
        &&& self.max_retry_delay == 30
        &&& self.health_check_interval == 30
        &&& self.rate_limit_rps == 100
        &&& self.rate_limit_burst == 200
    }
}

impl Default for ConnectionLimitsConfig {
    fn default() -> (r: Self)
        ensures
            r.is_default(),
    {
        Self {
            max_connections: default_max_connections(),
            enable_pooling: default_true(),
            pool_size: default_pool_size(),
            idle_timeout: default_idle_timeout(),
            max_lifetime: default_max_lifetime(),
            enable_multiplexing: default_false(),
            max_streams_per_connection: default_max_streams(),
            retry_attempts: default_retry_attempts(),
            retry_delay: default_retry_delay(),
            backoff_factor_bits: default_backoff_factor(),
            max_retry_delay: default_max_retry_delay(),
            health_check_interval: default_health_check_interval(),
            rate_limit_rps: default_rate_limit(),
            rate_limit_burst: default_burst_size(),
        }
    }
}

impl NetworkConfig {
    /// Every field holds its default value.
    pub open spec fn is_default(&self) -> bool {
        &&& !self.enable_ipv6
        &&& self.bind_address is None
        &&& self.proxy_url is None
        &&& self.user_agent@ == "rVPNSE/0.1.0"@
        &&& self.enable_http2
        &&& self.tcp_keepalive
        &&& self.tcp_nodelay
        &&& self.socket_buffer_size is None
    }
}

impl Default for NetworkConfig {
    fn default() -> (r: Self)
        ensures
            r.is_default(),
    {
        Self {
            enable_ipv6: default_false(),
            bind_address: None,
            proxy_url: None,
            user_agent: default_user_agent(),
            enable_http2: default_true(),
            tcp_keepalive: default_true(),
            tcp_nodelay: default_true(),
            socket_buffer_size: None,
        }
    }
}

impl LoggingConfig {
    /// Every field holds its default value.
    pub open spec fn is_default(&self) -> bool {
        &&& self.level@ == "info"@
        &&& self.file is None
        &&& !self.json_format
        &&& self.colored
    }
}

impl Default for LoggingConfig {
    fn default() -> (r: Self)
        ensures
            r.is_default(),
    {
        Self {
            level: default_log_level(),
            file: None,
            json_format: default_false(),
            colored: default_true(),
        }
    }
}

impl ClusteringConfig {
    /// Every field holds its default value.
    pub open spec fn is_default(&self) -> bool {
        &&& !self.enabled
        &&& self.cluster_nodes@.len() == 1
        &&& self.cluster_nodes@[0]@ == "127.0.0.1:443"@
        &&& self.load_balancing_strategy == LoadBalancingStrategy::RoundRobin
        &&& self.connections_per_node == 10
        &&& self.current_peer_count == 0
        &&& self.max_peers_per_cluster == 100
        &&& self.health_check_interval == 30
        &&& self.failover_timeout == 60
        &&& self.enable_failover
        &&& self.rpc_protocol_version@ == "1.0"@
        &&& self.session_distribution_mode == SessionDistributionMode::Distributed
    }
}

impl Default for ClusteringConfig {
    fn default() -> (r: Self)
        ensures
            r.is_default(),
    {
        Self {
            enabled: default_false(),
            cluster_nodes: default_cluster_nodes(),
            load_balancing_strategy: default_lb_strategy(),
            connections_per_node: default_connections_per_node(),
            current_peer_count: default_zero(),
            max_peers_per_cluster: default_max_peers(),
            health_check_interval: default_cluster_health_interval(),
            failover_timeout: default_failover_timeout(),
            enable_failover: default_true(),
            rpc_protocol_version: default_rpc_version(),
            session_distribution_mode: default_session_distribution(),
        }
    }
}

impl ClusteringConfig {
    /// A copy of the clustering configuration.
    pub fn duplicate(&self) -> (r: Self)
        ensures
            r.enabled == self.enabled,
            r.cluster_nodes@ == self.cluster_nodes@,
            r.load_balancing_strategy == self.load_balancing_strategy,
            r.connections_per_node == self.connections_per_node,
            r.current_peer_count == self.current_peer_count,
            r.max_peers_per_cluster == self.max_peers_per_cluster,
            r.health_check_interval == self.health_check_interval,
            r.failover_timeout == self.failover_timeout,
            r.enable_failover == self.enable_failover,
            r.rpc_protocol_version == self.rpc_protocol_version,
            r.session_distribution_mode == self.session_distribution_mode,
    {
        let mut nodes: Vec<String> = Vec::new();
        let mut i: usize = 0;
        while i < self.cluster_nodes.len()
            invariant
                i <= self.cluster_nodes@.len(),
                nodes@ == self.cluster_nodes@.subrange(0, i as int),
            decreases self.cluster_nodes@.len() - i,
        {
            nodes.push(self.cluster_nodes[i].clone());
            i = i + 1;
        }
        assert(nodes@ =~= self.cluster_nodes@);
        Self {
            enabled: self.enabled,
            cluster_nodes: nodes,
            load_balancing_strategy: self.load_balancing_strategy,
            connections_per_node: self.connections_per_node,
            current_peer_count: self.current_peer_count,
            max_peers_per_cluster: self.max_peers_per_cluster,
            health_check_interval: self.health_check_interval,
            failover_timeout: self.failover_timeout,
            enable_failover: self.enable_failover,
            rpc_protocol_version: self.rpc_protocol_version.clone(),
            session_distribution_mode: self.session_distribution_mode,
        }
    }
}

impl ClusteringConfig {
    /// `self` holds what `other` holds: the same settings and the same node
    /// addresses.
    pub open spec fn same_as(&self, other: ClusteringConfig) -> bool {
        &&& self.enabled == other.enabled
        &&& self.cluster_nodes@ == other.cluster_nodes@
        &&& self.load_balancing_strategy == other.load_balancing_strategy
        &&& self.connections_per_node == other.connections_per_node
        &&& self.current_peer_count == other.current_peer_count
        &&& self.max_peers_per_cluster == other.max_peers_per_cluster
        &&& self.health_check_interval == other.health_check_interval
        &&& self.failover_timeout == other.failover_timeout
        &&& self.enable_failover == other.enable_failover
        &&& self.rpc_protocol_version == other.rpc_protocol_version
        &&& self.session_distribution_mode == other.session_distribution_mode
    }
}

/// A copy of an optional string.
fn copy_opt_string(o: &Option<String>) -> (r: Option<String>)
    ensures
        r == *o,
{
    match o {
        Some(s) => Some(s.clone()),
        None => None,
    }
}

impl Config {
    /// `self` holds what `other` holds.
    pub open spec fn same_as(&self, other: Config) -> bool {
        &&& self.server == other.server
        &&& self.connection_limits == other.connection_limits
        &&& self.auth == other.auth
        &&& self.network == other.network
        &&& self.logging == other.logging
        &&& self.clustering.same_as(other.clustering)
    }

    /// A copy of the configuration.
    pub fn duplicate(&self) -> (r: Self)
        ensures
            r.same_as(*self),
    {
        let c = &self.connection_limits;
        Config {
            server: ServerConfig {
                address: self.server.address.clone(),
                hostname: copy_opt_string(&self.server.hostname),
                port: self.server.port,
                hub: self.server.hub.clone(),
                use_ssl: self.server.use_ssl,
                verify_certificate: self.server.verify_certificate,
                timeout: self.server.timeout,
                keepalive_interval: self.server.keepalive_interval,
            },
            connection_limits: ConnectionLimitsConfig {
                max_connections: c.max_connections,
                enable_pooling: c.enable_pooling,
                pool_size: c.pool_size,
                idle_timeout: c.idle_timeout,
                max_lifetime: c.max_lifetime,
                enable_multiplexing: c.enable_multiplexing,
                max_streams_per_connection: c.max_streams_per_connection,
                retry_attempts: c.retry_attempts,
                retry_delay: c.retry_delay,
                backoff_factor_bits: c.backoff_factor_bits,
                max_retry_delay: c.max_retry_delay,
                health_check_interval: c.health_check_interval,
                rate_limit_rps: c.rate_limit_rps,
                rate_limit_burst: c.rate_limit_burst,
            },
            auth: AuthConfig {
                method: self.auth.method,
                username: copy_opt_string(&self.auth.username),
                password: copy_opt_string(&self.auth.password),
                client_cert: copy_opt_string(&self.auth.client_cert),
                client_key: copy_opt_string(&self.auth.client_key),
                ca_cert: copy_opt_string(&self.auth.ca_cert),
            },
            network: NetworkConfig {
                enable_ipv6: self.network.enable_ipv6,
                bind_address: copy_opt_string(&self.network.bind_address),
                proxy_url: copy_opt_string(&self.network.proxy_url),
                user_agent: self.network.user_agent.clone(),
                enable_http2: self.network.enable_http2,
                tcp_keepalive: self.network.tcp_keepalive,
                tcp_nodelay: self.network.tcp_nodelay,
                socket_buffer_size: self.network.socket_buffer_size,
            },
            logging: LoggingConfig {
                level: self.logging.level.clone(),
                file: copy_opt_string(&self.logging.file),
                json_format: self.logging.json_format,
                colored: self.logging.colored,
            },
            clustering: self.clustering.duplicate(),
        }
    }
}

/// The text of the first node address without a colon, if any.
pub open spec fn first_node_without_port(nodes: Seq<String>) -> Option<Seq<char>>
    decreases nodes.len(),
{
    if nodes.len() == 0 {
        None
    } else if !nodes[0]@.contains(':') {
        Some(nodes[0]@)
    } else {
        first_node_without_port(nodes.drop_first())
    }
}

/// Whether `s` holds a colon.
fn has_colon(s: &str) -> (r: bool)
    ensures
        r == s@.contains(':'),
{
    for c in it: s.chars()
        invariant
            it.seq() == s@,
            forall|j: int| 0 <= j < it.index() ==> it.seq()[j] != ':',
    {
        if c == ':' {
            return true;
        }
    }
    false
}

impl Config {
    /// What validation answers: `None` when the configuration is valid, else
    /// the message of the first rule it breaks. A bind address must be the
    /// text of an IP address; a `max_connections` of 0 means no limit, and
    /// then bounds no pool size.
    pub open spec fn validation_message(&self) -> Option<Seq<char>> {
        if self.server.address@.len() == 0 {
            Some("Server address cannot be empty"@)
        } else if self.server.port == 0 {
            Some("Server port must be non-zero"@)
        } else if self.server.hub@.len() == 0 {
            Some("Hub name cannot be empty"@)
        } else if self.auth.method == AuthMethod::Password && (self.auth.username is None
            || self.auth.password is None) {
            Some("Username and password required for password authentication"@)
        } else if self.auth.method == AuthMethod::Certificate && (self.auth.client_cert is None
            || self.auth.client_key is None) {
            Some("Client certificate and key required for certificate authentication"@)
        } else if self.network.bind_address is Some && !ip_text(self.network.bind_address->Some_0@) {
            Some("Invalid bind address: "@ + self.network.bind_address->Some_0@)
        } else if self.connection_limits.max_connections > 1000 {
            Some("Maximum connections cannot exceed 1000"@)
        } else if self.connection_limits.max_connections != 0 && self.connection_limits.pool_size
            > self.connection_limits.max_connections {
            Some("Pool size cannot exceed maximum connections"@)
        } else if self.clustering.enabled && self.clustering.cluster_nodes@.len() == 0 {
            Some("Cluster nodes list cannot be empty when clustering is enabled"@)
        } else if self.clustering.enabled && first_node_without_port(
            self.clustering.cluster_nodes@,
        ) is Some {
            Some(
                "Invalid cluster node address: "@ + first_node_without_port(
                    self.clustering.cluster_nodes@,
                )->Some_0 + ". Expected format: hostname:port"@,
            )
        } else {
            None
        }
    }

    /// Validate the configuration.
    #[verifier::loop_isolation(false)]
    pub fn validate(&self) -> (r: Result<()>)
        ensures
            r is Ok <==> self.validation_message() is None,
            r matches Err(e) ==> (e matches VpnError::Config(m) && m@ == self.validation_message()->Some_0),
    {
        if self.server.address.as_str().is_empty() {
            return Err(VpnError::Config("Server address cannot be empty".to_owned()));
        }
        if self.server.port == 0 {
            return Err(VpnError::Config("Server port must be non-zero".to_owned()));
        }
        if self.server.hub.as_str().is_empty() {
            return Err(VpnError::Config("Hub name cannot be empty".to_owned()));
        }
        match self.auth.method {
            AuthMethod::Password => {
                if self.auth.username.is_none() || self.auth.password.is_none() {
                    return Err(
                        VpnError::Config(
                            "Username and password required for password authentication".to_owned(),
                        ),
                    );
                }
            },
            AuthMethod::Certificate => {
                if self.auth.client_cert.is_none() || self.auth.client_key.is_none() {
                    return Err(
                        VpnError::Config(
                            "Client certificate and key required for certificate authentication".to_owned(),
                        ),
                    );
                }
            },
            AuthMethod::Anonymous => {},
        }
        if let Some(bind_addr) = &self.network.bind_address {
            if !is_ip_text(bind_addr.as_str()) {
                return Err(VpnError::Config(join2("Invalid bind address: ", bind_addr.as_str())));
            }
        }
        if self.connection_limits.max_connections > 1000 {
            return Err(VpnError::Config("Maximum connections cannot exceed 1000".to_owned()));
        }
        if self.connection_limits.max_connections != 0 && self.connection_limits.pool_size
            > self.connection_limits.max_connections {
            return Err(VpnError::Config("Pool size cannot exceed maximum connections".to_owned()));
        }
        if self.clustering.enabled {
            let nodes = &self.clustering.cluster_nodes;
            if nodes.len() == 0 {
                return Err(
                    VpnError::Config(
                        "Cluster nodes list cannot be empty when clustering is enabled".to_owned(),
                    ),
                );
            }
            let mut i: usize = 0;
            assert(nodes@.subrange(0, nodes@.len() as int) =~= nodes@);
            while i < nodes.len()
                invariant
                    i <= nodes@.len(),
                    first_node_without_port(nodes@) == first_node_without_port(
                        nodes@.subrange(i as int, nodes@.len() as int),
                    ),
                decreases nodes@.len() - i,
            {
                let ghost tail = nodes@.subrange(i as int, nodes@.len() as int);
                assert(tail[0] == nodes@[i as int]);
                if !has_colon(nodes[i].as_str()) {
                    let head = join2("Invalid cluster node address: ", nodes[i].as_str());
                    return Err(
                        VpnError::Config(join2(head.as_str(), ". Expected format: hostname:port")),
                    );
                }
                assert(tail.drop_first() =~= nodes@.subrange(i + 1, nodes@.len() as int));
                i = i + 1;
            }
            assert(nodes@.subrange(i as int, nodes@.len() as int) =~= Seq::<String>::empty());
        }
        Ok(())
    }

    /// A configuration for tests: local server on port 443, hub `DEFAULT`,
    /// password authentication as `test`/`test`, certificate checks off, and
    /// every other section at its default.
    pub fn default_test() -> (r: Self)
        ensures
            r.server.address@ == "127.0.0.1"@,
            r.server.hostname matches Some(h) && h@ == "localhost"@,
            r.server.port == 443,
            r.server.hub@ == "DEFAULT"@,
            r.server.use_ssl,
            !r.server.verify_certificate,
            r.server.timeout == 30,
            r.server.keepalive_interval == 60,
            r.connection_limits.is_default(),
            r.auth.method == AuthMethod::Password,
            r.auth.username matches Some(u) && u@ == "test"@,
            r.auth.password matches Some(p) && p@ == "test"@,
            r.auth.client_cert is None,
            r.auth.client_key is None,
            r.auth.ca_cert is None,
            r.network.is_default(),
            r.logging.is_default(),
            r.clustering.is_default(),
    {
        Self {
            server: ServerConfig {
                address: "127.0.0.1".to_owned(),
                hostname: Some("localhost".to_owned()),
                port: 443,
                hub: "DEFAULT".to_owned(),
                use_ssl: true,
                verify_certificate: false,
                timeout: 30,
                keepalive_interval: 60,
            },
            connection_limits: ConnectionLimitsConfig::default(),
            auth: AuthConfig {
                method: AuthMethod::Password,
                username: Some("test".to_owned()),
                password: Some("test".to_owned()),
                client_cert: None,
                client_key: None,
                ca_cert: None,
            },
            network: NetworkConfig::default(),
            logging: LoggingConfig::default(),
            clustering: ClusteringConfig::default(),
        }
    }
}

} // verus!
