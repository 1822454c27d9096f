use rvpnse::client::{
    AuthInfo, ClusterManager, ClusterTarget, ConnectionStatus, ConnectionTracker, HealthProbe,
    KeepaliveMode, Resolution, VpnClient,
};
use rvpnse::client_optimized::{OptimizedVpnClient, PacketBatch, PerformanceStats};
use rvpnse::config::{Config, LoadBalancingStrategy};
use rvpnse::error::VpnError;
use rvpnse::net::{ipv4, IpAddress, SocketAddress};
use rvpnse::protocol::handler::ProtocolHandler;

#[test]
fn test_vpn_client_creation() {
    let config = Config::default_test();
    let client = VpnClient::new(config);
    assert!(client.is_ok());

    let client = client.unwrap();
    assert_eq!(client.status(), ConnectionStatus::Disconnected);
}

#[test]
fn test_connection_states() {
    let config = Config::default_test();
    let mut client = VpnClient::new(config).unwrap();

    assert_eq!(client.status(), ConnectionStatus::Disconnected);
    assert!(!client.is_ready_for_packets());

    client.status = ConnectionStatus::Connecting;
    assert_eq!(client.status(), ConnectionStatus::Connecting);
}

fn addr(a: u8, port: u16) -> SocketAddress {
    SocketAddress { ip: IpAddress::V4(ipv4(10, 0, 0, a)), port }
}

#[test]
fn connect_flow_reaches_connected_then_disconnects() {
    let mut client = VpnClient::new(Config::default_test()).unwrap();
    let key = client.begin_connect_at("10.0.0.1", 443, 1_000).unwrap();
    assert_eq!(key, "10.0.0.1:443");
    assert_eq!(client.status(), ConnectionStatus::Connecting);
    assert!(client.begin_connect_at("10.0.0.1", 443, 1_001).is_err());
    client.set_server_endpoint(addr(1, 443));
    let handler = ProtocolHandler::new(addr(1, 443), false).unwrap();
    let auth = AuthInfo { session_id: Some("s".to_string()), is_authenticated: false, ip_config: None };
    client.finish_connect_at(&key, Some((handler, auth)), 1_002);
    assert_eq!(client.status(), ConnectionStatus::Connected);
    assert_eq!(client.connection_tracker.active_connections, 1);
    assert_eq!(client.keepalive_mode().unwrap(), KeepaliveMode::Http);
    client.complete_authentication(None).unwrap();
    assert!(client.is_ready_for_packets());
    client.prepare_tunnel().unwrap();
    client.tunnel_established();
    assert!(client.is_tunnel_established());
    assert_eq!(client.keepalive_mode().unwrap(), KeepaliveMode::Binary);
    let info = client.get_session_info().unwrap();
    assert_eq!(info.assigned_ip, Some("192.168.100.10".to_string()));
    client.disconnect().unwrap();
    assert_eq!(client.status(), ConnectionStatus::Disconnected);
    assert_eq!(client.connection_tracker.active_connections, 0);
}

#[test]
fn failed_attempt_counts_a_retry() {
    let mut client = VpnClient::new(Config::default_test()).unwrap();
    let key = client.begin_connect_at("h", 1, 0).unwrap();
    client.finish_connect_at(&key, None, 5);
    assert_eq!(client.status(), ConnectionStatus::Disconnected);
    assert_eq!(client.connection_tracker.retry_attempts[0].count, 1);
    assert!(client.needs_retry_delay(&key));
}

#[test]
fn tunnel_needs_connection_and_session() {
    let mut client = VpnClient::new(Config::default_test()).unwrap();
    match client.prepare_tunnel() {
        Err(VpnError::Connection(m)) => assert_eq!(m, "Must be connected first"),
        _ => panic!("expected a connection error"),
    }
    client.status = ConnectionStatus::Connected;
    match client.prepare_tunnel() {
        Err(VpnError::Connection(m)) => assert_eq!(m, "Must be authenticated first"),
        _ => panic!("expected a connection error"),
    }
}

#[test]
fn tracker_limits_concurrent_connections() {
    let mut config = Config::default_test();
    config.connection_limits.max_connections = 1;
    let mut t = ConnectionTracker::new();
    assert!(t.can_connect_at(&config.connection_limits, 0).is_ok());
    t.record_connection();
    match t.can_connect_at(&config.connection_limits, 1) {
        Err(VpnError::ConnectionLimitReached(m)) => {
            assert_eq!(m, "Maximum concurrent connections reached: 1/1")
        },
        _ => panic!("expected the limit"),
    }
    t.record_disconnection();
    assert_eq!(t.active_connections, 0);
}

#[test]
fn tracker_rate_limit_forgets_after_a_second() {
    let mut config = Config::default_test();
    config.connection_limits.rate_limit_rps = 2;
    let mut t = ConnectionTracker::new();
    assert!(t.can_connect_at(&config.connection_limits, 0).is_ok());
    assert!(t.can_connect_at(&config.connection_limits, 10).is_ok());
    match t.can_connect_at(&config.connection_limits, 20) {
        Err(VpnError::RateLimitExceeded(m)) => assert_eq!(m, "Too many connection attempts: 2/2 per second"),
        _ => panic!("expected the rate limit"),
    }
    assert!(t.can_connect_at(&config.connection_limits, 1_005).is_ok());
    assert_eq!(t.connection_attempts, vec![10, 1_005]);

    config.connection_limits.rate_limit_rps = 1;
    let mut t = ConnectionTracker::new();
    assert!(t.can_connect_at(&config.connection_limits, 0).is_ok());
    assert!(t.can_connect_at(&config.connection_limits, 2_000).is_ok());
}

#[test]
fn tracker_retry_cooldown() {
    let mut config = Config::default_test();
    config.connection_limits.retry_attempts = 2;
    config.connection_limits.retry_delay = 3_000;
    let mut t = ConnectionTracker::new();
    t.record_retry_at("e", 0);
    t.record_retry_at("e", 0);
    match t.can_retry_at("e", &config.connection_limits, 1_000) {
        Err(VpnError::RetryLimitExceeded(m)) => {
            assert_eq!(m, "Too many retry attempts for e: 2/2. Wait 2 seconds.")
        },
        _ => panic!("expected the retry limit"),
    }
    assert!(t.can_retry_at("e", &config.connection_limits, 3_000).is_ok());
    assert_eq!(t.retry_attempts[0].count, 0);

    config.connection_limits.retry_delay = 1_000;
    let mut t = ConnectionTracker::new();
    t.record_retry_at("e", 0);
    t.record_retry_at("e", 0);
    assert!(t.can_retry_at("e", &config.connection_limits, 2_000).is_ok());
    assert_eq!(t.retry_attempts[0].count, 0);
    assert!(t.can_retry_at("other", &config.connection_limits, 0).is_ok());
}

fn cluster(strategy: LoadBalancingStrategy, nodes: &[&str]) -> ClusterManager {
    let mut c = Config::default_test().clustering;
    c.enabled = true;
    c.load_balancing_strategy = strategy;
    c.cluster_nodes = nodes.iter().map(|s| s.to_string()).collect();
    ClusterManager::new_at(c, 0)
}

#[test]
fn round_robin_cycles() {
    let mut m = cluster(LoadBalancingStrategy::RoundRobin, &["a:1", "b:1", "c:1"]);
    assert_eq!(m.get_next_node(), Some(0));
    assert_eq!(m.get_next_node(), Some(1));
    assert_eq!(m.get_next_node(), Some(2));
    assert_eq!(m.get_next_node(), Some(0));
}

#[test]
fn least_connections_picks_first_least_loaded_healthy() {
    let mut m = cluster(LoadBalancingStrategy::LeastConnections, &["a:1", "b:1", "c:1"]);
    m.nodes[0].active_connections = 5;
    m.nodes[1].active_connections = 2;
    m.nodes[2].active_connections = 2;
    assert_eq!(m.get_next_node(), Some(1));
    m.nodes[1].is_healthy = false;
    assert_eq!(m.get_next_node(), Some(2));
}

#[test]
fn random_picks_a_healthy_node() {
    let mut m = cluster(LoadBalancingStrategy::Random, &["a:1", "b:1"]);
    m.nodes[0].is_healthy = false;
    for _ in 0..10 {
        assert_eq!(m.get_next_node(), Some(1));
    }
    m.nodes[1].is_healthy = false;
    assert_eq!(m.get_next_node(), None);
}

#[test]
fn failover_waits_and_skips_unhealthy() {
    let mut m = cluster(LoadBalancingStrategy::RoundRobin, &["a:1", "b:1", "c:1"]);
    m.config.failover_timeout = 60;
    assert_eq!(m.failover_at(1_000), None);
    m.nodes[1].is_healthy = false;
    assert_eq!(m.failover_at(60_000), Some(2));
    assert_eq!(m.current_node_index, 2);
    assert_eq!(m.failover_at(60_001), None);
}

#[test]
fn health_probes_update_nodes() {
    let mut m = cluster(LoadBalancingStrategy::RoundRobin, &["a:1", "b:1"]);
    m.config.health_check_interval = 30;
    assert_eq!(m.nodes_due_for_health_check_at(30_000), Vec::<usize>::new());
    assert_eq!(m.nodes_due_for_health_check_at(30_001), vec![0, 1]);
    m.record_health_probe_at(0, HealthProbe::Failed, 30_001);
    assert!(!m.nodes[0].is_healthy);
    m.record_health_probe_at(1, HealthProbe::Resolved(addr(9, 1)), 30_002);
    assert_eq!(m.nodes[1].endpoint, Some(addr(9, 1)));
    assert_eq!(m.nodes_due_for_health_check_at(60_002), vec![0]);
}

#[test]
fn cluster_connection_steps() {
    let mut config = Config::default_test();
    config.clustering.enabled = true;
    config.clustering.cluster_nodes = vec!["n1:443".to_string()];
    let mut client = VpnClient::new(config).unwrap();
    match client.select_cluster_node().unwrap() {
        ClusterTarget::Resolve(i, a) => {
            assert_eq!(i, 0);
            assert_eq!(a, "n1:443");
            let e = client.cluster_node_resolved(i, Resolution::Found(addr(3, 443))).unwrap();
            assert_eq!(e, addr(3, 443));
        },
        ClusterTarget::Endpoint(_) => panic!("the node has no endpoint yet"),
    }
    assert_eq!(client.get_peer_count(), 1);
    match client.select_cluster_node().unwrap() {
        ClusterTarget::Endpoint(e) => assert_eq!(e, addr(3, 443)),
        ClusterTarget::Resolve(_, _) => panic!("the node was resolved"),
    }
    assert_eq!(client.get_peer_count(), 2);
    let status = client.get_cluster_status().unwrap();
    assert_eq!(status, vec![("n1:443".to_string(), true, 2)]);
}

#[test]
fn cluster_disabled_is_refused() {
    let mut client = VpnClient::new(Config::default_test()).unwrap();
    match client.select_cluster_node() {
        Err(VpnError::Configuration(m)) => assert_eq!(m, "Clustering is not enabled"),
        _ => panic!("expected a configuration error"),
    }
    assert!(client.can_add_peer());
    assert_eq!(client.get_nodes_count(), 0);
}

#[test]
fn test_packet_batch() {
    let mut batch = PacketBatch::new_at(0);
    assert!(batch.is_empty());

    let small_packet = vec![0u8; 100];
    assert!(!batch.add_packet_at(small_packet, 0));
    assert_eq!(batch.len(), 1);

    for _ in 0..35 {
        let packet = vec![0u8; 100];
        if batch.add_packet_at(packet, 0) {
            break;
        }
    }

    assert!(batch.len() >= 32);
}

#[test]
fn batch_flushes_on_age_and_drains() {
    let mut batch = PacketBatch::new_at(100);
    assert!(!batch.add_packet_at(vec![1], 110));
    assert!(batch.add_packet_at(vec![2], 111));
    let packets = batch.drain_at(200);
    assert_eq!(packets, vec![vec![1], vec![2]]);
    assert!(batch.is_empty());
    assert_eq!(batch.total_size(), 0);
}

#[test]
fn test_performance_stats() {
    let mut stats = PerformanceStats::new();

    stats.update_traffic(1000, 2000, 10, 20);
    assert_eq!(stats.bytes_sent, 1000);
    assert_eq!(stats.bytes_received, 2000);

    stats.update_performance(50, 100);
    assert_eq!(stats.avg_latency_ms, 50);
    assert_eq!(stats.throughput_mbps, 100);

    let snapshot = stats.snapshot();
    assert_eq!(snapshot.bytes_sent, 1000);
    assert_eq!(snapshot.avg_latency_ms, 50);
}

#[test]
fn moving_average_weights_history() {
    let mut stats = PerformanceStats::new_at(0);
    stats.update_performance(80, 0);
    stats.update_performance(0, 0);
    assert_eq!(stats.avg_latency_ms, 70);
}

#[test]
fn adaptive_mtu_moves_within_bounds() {
    let mut client = OptimizedVpnClient::new(Config::default_test(), None);
    assert_eq!(client.perf_config.max_connections, 10);
    assert!(!client.is_connected());
    client.stats.packet_loss_percent = 10;
    client.optimize_performance().unwrap();
    assert_eq!(client.adaptive_mtu, 1400);
    client.stats.packet_loss_percent = 0;
    client.stats.avg_latency_ms = 10;
    client.stats.throughput_mbps = 500;
    client.optimize_performance().unwrap();
    assert_eq!(client.adaptive_mtu, 1500);
    assert!(client.connect(Ok(())).is_err());
}

#[test]
fn test_optimized_client_creation() {
    let config = Config {
        server: rvpnse::config::ServerConfig {
            address: "test.example.com".to_string(),
            hostname: Some("test.example.com".to_string()),
            port: 443,
            hub: "VPN".to_string(),
            use_ssl: true,
            verify_certificate: true,
            timeout: 30,
            keepalive_interval: 60,
        },
        auth: rvpnse::config::AuthConfig {
            method: rvpnse::config::AuthMethod::Password,
            username: Some("testuser".to_string()),
            password: Some("testpass".to_string()),
            client_cert: None,
            client_key: None,
            ca_cert: None,
        },
        connection_limits: Default::default(),
        network: Default::default(),
        logging: Default::default(),
        clustering: Default::default(),
    };

    let client = OptimizedVpnClient::new(config, None);
    assert!(!client.is_connected());
    assert_eq!(client.perf_config.max_connections, 10);
}

#[test]
fn healthy_node_counts_healthy_nodes_only() {
    let mut m = cluster(LoadBalancingStrategy::Random, &["a:1", "b:1", "c:1"]);
    m.nodes[1].is_healthy = false;
    assert_eq!(m.healthy_node(0), Some(0));
    assert_eq!(m.healthy_node(1), Some(2));
    assert_eq!(m.healthy_node(2), None);
}

#[test]
fn round_robin_from_the_middle_visits_every_node_once() {
    let mut m = cluster(LoadBalancingStrategy::RoundRobin, &["a:1", "b:1", "c:1", "d:1"]);
    m.current_node_index = 2;
    let picks: Vec<usize> = (0..4).map(|_| m.get_next_node().unwrap()).collect();
    assert_eq!(picks, vec![2, 3, 0, 1]);
}

#[test]
fn failover_without_timeout_moves_to_next_healthy_node() {
    let mut m = cluster(LoadBalancingStrategy::RoundRobin, &["a:1", "b:1", "c:1"]);
    m.config.failover_timeout = 0;
    m.nodes[1].is_healthy = false;
    assert_eq!(m.failover(), Some(2));
    assert_eq!(m.current_node_index, 2);
    assert_eq!(m.failover(), Some(0));
}

#[test]
fn session_manager_keeps_a_copy_of_the_configuration() {
    let config = Config::default_test();
    let m = rvpnse::protocol::session::SessionManager::new(&config).unwrap();
    assert_eq!(m.config.server.address, config.server.address);
    assert_eq!(m.config.auth.username, config.auth.username);
    assert_eq!(m.config.clustering.cluster_nodes, config.clustering.cluster_nodes);
    let copy = config.duplicate();
    assert_eq!(copy.network.user_agent, config.network.user_agent);
    assert_eq!(copy.logging.level, config.logging.level);
}

#[test]
fn round_robin_skips_unhealthy_nodes() {
    let mut m = cluster(LoadBalancingStrategy::RoundRobin, &["a:1", "b:1", "c:1"]);
    m.nodes[1].is_healthy = false;
    assert_eq!(m.get_next_node(), Some(0));
    assert_eq!(m.get_next_node(), Some(2));
    assert_eq!(m.get_next_node(), Some(0));
    m.nodes[0].is_healthy = false;
    m.nodes[2].is_healthy = false;
    assert_eq!(m.get_next_node(), None);
}

#[test]
fn round_robin_with_no_nodes_gives_none() {
    let mut m = cluster(LoadBalancingStrategy::RoundRobin, &[]);
    assert_eq!(m.get_next_node(), None);
}

#[test]
fn client_refuses_an_invalid_configuration() {
    let mut config = Config::default_test();
    config.server.address = String::new();
    match VpnClient::new(config) {
        Err(VpnError::Config(m)) => assert_eq!(m, "Server address cannot be empty"),
        _ => panic!("an empty server address must be refused"),
    }
    let mut config = Config::default_test();
    config.server.port = 0;
    assert!(VpnClient::new(config).is_err());
}

#[test]
fn optimized_client_starts_with_zeroed_statistics() {
    let client = OptimizedVpnClient::new(Config::default_test(), None);
    let s = client.get_stats();
    assert_eq!(s.bytes_sent, 0);
    assert_eq!(s.bytes_received, 0);
    assert_eq!(s.packets_sent, 0);
    assert_eq!(s.packets_received, 0);
    assert_eq!(s.avg_latency_ms, 0);
    assert_eq!(s.throughput_mbps, 0);
    assert_eq!(s.packet_loss_percent, 0);
    assert_eq!(s.connection_drops, 0);
    assert_eq!(s.active_connections, 0);
    assert_eq!(s.protocol_errors, 0);
}
