use rvpnse::ipv4_text::{netmask_to_cidr, parse_ipv4};
use rvpnse::net::{ipv4, ipv4_to_string, IpAddress};
use rvpnse::tunnel::packet_framing::{PacketFramer, PacketHeader};
use rvpnse::tunnel::parse::{
    active_interface_from, default_gateway_from, interfaces_from_ip_link, ips_from_ip_addr,
    needs_point_to_point, original_route_from, original_route_from_macos, server_ip_from_netstat,
    server_ip_from_ss, utun_interfaces_from, vpn_server_ip_from, windows_interface_name,
};
use rvpnse::tunnel::platform::{install_tap_driver, is_tun_available, list_tap_devices, parse_routing_table};
use rvpnse::tunnel::real_tun::{PacketProcessor, RealTunInterface, VpnPacket};
use rvpnse::tunnel::routing::{nsswitch_follow_up, CommandLine};
use rvpnse::tunnel::{get_tunnel_interface, create_tunnel_interface, destroy_tunnel_interface, TunnelConfig, TunnelManager};

#[test]
fn test_tun_availability() {
    let _is_available = is_tun_available();
}

#[test]
fn test_netmask_conversion() {
    assert_eq!(netmask_to_cidr("255.255.255.0").unwrap(), 24);
    assert_eq!(netmask_to_cidr("255.255.0.0").unwrap(), 16);
    assert_eq!(netmask_to_cidr("255.0.0.0").unwrap(), 8);
}

#[test]
fn netmask_errors_and_edges() {
    assert!(netmask_to_cidr("255.255.255.256").is_err());
    assert!(netmask_to_cidr("not a mask").is_err());
    assert_eq!(netmask_to_cidr("0.0.0.0").unwrap(), 0);
    assert_eq!(netmask_to_cidr("255.255.255.255").unwrap(), 32);
    assert_eq!(netmask_to_cidr("255.0.255.0").unwrap(), 8);
}

#[test]
fn dotted_text_reads_back() {
    assert_eq!(parse_ipv4("192.168.1.10"), Some(ipv4(192, 168, 1, 10)));
    assert_eq!(parse_ipv4("01.2.3.4"), None);
    assert_eq!(parse_ipv4("1.2.3"), None);
    assert_eq!(parse_ipv4("1.2.3.4.5"), None);
    assert_eq!(parse_ipv4(""), None);
    let ip = ipv4(10, 0, 255, 7);
    assert_eq!(parse_ipv4(&ipv4_to_string(ip)), Some(ip));
}

#[test]
fn test_device_enumeration() {
    let devices = list_tap_devices().unwrap();
    assert!(!devices.is_empty());
    assert_eq!(devices[0], r"\\.\Global\TAPRVPNSE01.tap");
    assert!(install_tap_driver().is_ok());
}

#[test]
fn test_packet_encryption() {
    let mut packet = VpnPacket::new(b"Hello VPN!".to_vec(), ipv4(192, 168, 1, 100), ipv4(8, 8, 8, 8), 6);

    let session_key = b"test_key_32_bytes_for_encryption";

    assert!(!packet.encrypted);
    packet.encrypt(session_key).unwrap();
    assert!(packet.encrypted);
    assert_ne!(packet.data, b"Hello VPN!".to_vec());

    packet.decrypt(session_key).unwrap();
    assert!(!packet.encrypted);
    assert_eq!(packet.data, b"Hello VPN!".to_vec());
}

#[test]
fn test_packet_stats() {
    let session_key = b"test_key_32_bytes_for_testing_st".to_vec();
    let processor = PacketProcessor::new(session_key);

    let stats = processor.get_stats();
    assert_eq!(stats.packets_sent, 0);
    assert_eq!(stats.bytes_sent, 0);
}

#[test]
fn processor_counts_packets() {
    let mut processor = PacketProcessor::new(vec![1]);
    let mut packet = VpnPacket::new(vec![0, 1, 2], 0, 0, 17);
    processor.process_packet(&mut packet).unwrap();
    assert_eq!(packet.data, vec![1, 0, 3]);
    assert_eq!(processor.get_stats().packets_sent, 1);
    assert_eq!(processor.get_stats().bytes_sent, 3);
}

#[test]
fn real_interface_states() {
    let mut tun = RealTunInterface::new("vpn0".to_string());
    assert!(!tun.is_running());
    assert!(tun.get_packet_stats().is_none());
    tun.interface_created();
    assert!(tun.is_running());
    assert_eq!(tun.get_packet_stats().unwrap().packets_sent, 0);
    tun.interface_destroyed().unwrap();
    assert!(!tun.is_running());
}

#[test]
fn framing_roundtrip() {
    let mut framer = PacketFramer::new(7, IpAddress::V4(ipv4(10, 0, 0, 1)));
    let framed = framer.frame_packet(&[1, 2, 3]);
    let (header, payload) = framer.decode_packet(&framed).unwrap();
    assert_eq!(payload, vec![1, 2, 3]);
    assert_eq!(header.session_id, 7);
    let keepalive = framer.create_keepalive();
    assert!(framer.is_keepalive(&keepalive));
    let h = PacketHeader::new(1, 2, 3);
    assert_eq!(PacketHeader::from_bytes(&h.to_bytes()).unwrap().payload_size, 3);
}

#[test]
fn tunnel_configurations() {
    let d = TunnelConfig::default();
    assert_eq!(ipv4_to_string(d.local_ip), "10.0.0.2");
    let dhcp = TunnelConfig::with_dhcp();
    assert_eq!(ipv4_to_string(dhcp.netmask), "255.255.0.0");
    let fb = TunnelConfig::with_fallback_ip();
    assert_eq!(ipv4_to_string(fb.remote_ip), "192.168.100.1");
    assert_eq!(fb.dns_servers, vec![ipv4(8, 8, 8, 8), ipv4(8, 8, 4, 4)]);
}

fn manager() -> TunnelManager {
    TunnelManager::new_with_session(TunnelConfig::default(), 1)
}

fn text(c: &CommandLine) -> String {
    let mut s = c.program.clone();
    for a in &c.args {
        s.push(' ');
        s.push_str(a);
    }
    s
}

#[test]
fn interface_info_and_registry() {
    let mut m = manager();
    assert!(m.get_interface_info().is_none());
    m.mark_established();
    let info = m.get_interface_info().unwrap();
    assert_eq!(info, ("vpnse0".to_string(), "10.0.0.2".to_string(), "10.0.0.1".to_string(), "10.0.0.2/24".to_string()));
    assert!(m.is_dhcp_assigned_ip());
    assert!(m.is_valid_vpn_ip(ipv4(8, 8, 8, 8)));
    assert!(!m.is_valid_vpn_ip(ipv4(224, 0, 0, 1)));
    let mut current: Option<TunnelManager> = None;
    assert!(get_tunnel_interface(&current).is_none());
    create_tunnel_interface(&mut current, m);
    assert_eq!(get_tunnel_interface(&current).unwrap().3, "10.0.0.2/24");
    let teardown = destroy_tunnel_interface(&mut current).unwrap();
    assert_eq!(text(teardown.last().unwrap()), "sudo ip link del vpnse0");
    assert!(current.is_none());
    assert!(destroy_tunnel_interface(&mut current).unwrap().is_empty());
}

#[test]
fn routing_plans() {
    let mut m = manager();
    assert!(m.server_route_commands().is_empty());
    m.set_original_route(Some("192.168.1.1".to_string()));
    let r = m.server_route_commands();
    assert_eq!(text(&r[0]), "sudo ip route add 10.0.0.1 via 192.168.1.1");
    let g = m.default_gateway_commands(
        Some("default via 192.168.1.1 dev eth0"),
        Some("8.8.8.8 via 192.168.1.1 dev eth0 src 192.168.1.5"),
        Some("62.24.65.211"),
    );
    assert_eq!(text(&g[1]), "sudo ip route add 62.24.65.211/32 via 192.168.1.1 dev eth0");
    assert_eq!(text(&g[3]), "sudo ip route add default via 10.0.0.1 dev vpnse0");
    assert_eq!(g.len(), 15);
    assert_eq!(m.vpn_subnet(), "10.0.0.0/24");
    assert_eq!(m.dns_server_list(), "10.0.0.1 1.1.1.1 8.8.8.8 8.8.4.4 1.0.0.1");
    assert!(m.resolved_conf().starts_with("[Resolve]\nDNS=10.0.0.1 "));
    assert!(m.resolv_conf().contains("nameserver 10.0.0.1\nnameserver 1.1.1.1\n"));
    assert!(m.teardown_commands().is_empty());
    m.mark_established();
    let t = m.teardown_commands();
    assert_eq!(t.len(), 4);
    assert_eq!(text(&t[3]), "sudo ip link del vpnse0");
    assert_eq!(m.packet_routing_commands().len(), 3);
    assert_eq!(m.resolved_dns_commands().len(), 5);
}

#[test]
fn command_output_readers() {
    assert_eq!(active_interface_from("8.8.8.8 via 192.168.1.1 dev wlan0 src 192.168.1.5"), "wlan0");
    assert_eq!(active_interface_from("unreachable"), "eth0");
    assert_eq!(default_gateway_from("default via 192.168.1.254 dev eth0 proto dhcp"), "192.168.1.254");
    assert_eq!(default_gateway_from("default dev ppp0 via gw"), "gw");
    assert_eq!(default_gateway_from(""), "192.168.1.1");
    assert_eq!(original_route_from("default via 10.1.1.1 dev eth0"), Some("10.1.1.1".to_string()));
    assert_eq!(original_route_from("default dev eth0"), None);
    assert_eq!(
        original_route_from_macos("   route to: default\n    gateway: 192.168.0.1\n  interface: en0\n"),
        Some("192.168.0.1".to_string())
    );
    let ss = "State Recv-Q Send-Q Local Peer\nESTAB 0 0 10.0.0.5:51000 62.1.2.3:443\n";
    assert_eq!(server_ip_from_ss(ss), Some("62.1.2.3".to_string()));
    let netstat = "tcp 0 0 10.0.0.5:5100 62.9.9.9:992 ESTABLISHED\n";
    assert_eq!(server_ip_from_netstat(netstat), Some("62.9.9.9".to_string()));
    assert_eq!(vpn_server_ip_from(None, None), "62.24.65.211");
    assert_eq!(vpn_server_ip_from(Some(""), Some(netstat)), "62.9.9.9");
    let links = "1: lo: <LOOPBACK,UP> mtu 65536\n    link/loopback 00:00\n2: eth0: <UP> mtu 1500\n";
    assert_eq!(interfaces_from_ip_link(links), vec!["lo".to_string(), "eth0".to_string()]);
    let addrs = "2: eth0: <UP>\n    inet 192.168.1.5/24 brd 192.168.1.255 scope global eth0\n    inet6 fe80::1/64\n";
    assert_eq!(ips_from_ip_addr(addrs), vec!["192.168.1.5".to_string()]);
    assert!(needs_point_to_point("3: vpnse0: <NO-CARRIER,POINTOPOINT> state DOWN"));
    assert!(!needs_point_to_point("3: vpnse0: <UP> state UP"));
    assert_eq!(windows_interface_name("Enabled Connected TAP-Windows Adapter"), "TAP-Windows");
    assert_eq!(windows_interface_name("Ethernet"), "VPN_Interface");
    assert_eq!(utun_interfaces_from("lo0 en0 utun0 utun3"), vec!["utun0".to_string(), "utun3".to_string()]);
}

#[test]
fn routing_table_rows() {
    let out = "Routing tables\n\nInternet:\nDestination Gateway Flags Refs Use Netif Expire\ndefault 192.168.1.1 UGSc 10 0 en0\n127 127.0.0.1 UCS 0 0 lo0\nshort line\n";
    let routes = parse_routing_table(out).unwrap();
    assert_eq!(routes.len(), 2);
    assert_eq!(routes[0].destination, "default");
    assert_eq!(routes[0].gateway, "192.168.1.1");
    assert_eq!(routes[0].interface, "en0");
}

#[test]
fn gateway_plan_reads_command_output_and_falls_back() {
    let m = manager();
    let g = m.default_gateway_commands(
        Some("default via 10.9.8.7 dev wlan0 proto dhcp"),
        Some("8.8.8.8 via 10.9.8.7 dev wlan0 src 10.9.8.20"),
        Some("62.24.65.211"),
    );
    assert_eq!(text(&g[0]), "sudo ip route del 62.24.65.211/32");
    assert_eq!(text(&g[1]), "sudo ip route add 62.24.65.211/32 via 10.9.8.7 dev wlan0");
    let d = m.default_gateway_commands(None, None, Some("62.24.65.211"));
    assert_eq!(text(&d[1]), "sudo ip route add 62.24.65.211/32 via 192.168.1.1 dev eth0");
    let no_server = m.default_gateway_commands(None, None, None);
    assert_eq!(no_server.len(), g.len() - 2);
    assert_eq!(text(&no_server[1]), "sudo ip route add default via 10.0.0.1 dev vpnse0");
}

#[test]
fn dns_set_up_follows_systemd_resolved() {
    let m = manager();
    let resolved = m.dns_set_up(Some("active\n"));
    assert!(resolved.before.is_empty());
    assert_eq!(resolved.file, "/tmp/vpn-dns.conf");
    assert_eq!(resolved.contents, m.resolved_conf());
    assert_eq!(resolved.after.len(), m.resolved_dns_commands().len());
    assert!(resolved.lookup_check.is_none());

    for out in [None, Some("inactive\n")] {
        let plain = m.dns_set_up(out);
        assert_eq!(plain.before.len(), 1);
        assert_eq!(text(&plain.before[0]), "sudo cp /etc/resolv.conf /etc/resolv.conf.vpn_backup");
        assert_eq!(plain.file, "/tmp/resolv.conf.vpn");
        assert_eq!(plain.contents, m.resolv_conf());
        assert_eq!(text(&plain.after[0]), "sudo mv /tmp/resolv.conf.vpn /etc/resolv.conf");
        assert_eq!(text(&plain.after[1]), "sudo chmod 644 /etc/resolv.conf");
        assert_eq!(text(plain.lookup_check.as_ref().unwrap()), "sudo grep -q hosts:.*dns /etc/nsswitch.conf");
    }
}

#[test]
fn nsswitch_fix_only_when_the_check_fails() {
    assert!(nsswitch_follow_up(true).is_none());
    assert_eq!(text(&nsswitch_follow_up(false).unwrap()), "sudo sed -i /hosts:/s/$/ dns/ /etc/nsswitch.conf");
}

#[test]
fn macos_routing_and_dns_plans() {
    let mut m = manager();
    assert!(m.macos_default_gateway_commands().is_empty());
    assert!(m.macos_restore_routing_commands().is_empty());
    m.set_original_route(Some("192.168.0.1".to_string()));
    let g = m.macos_default_gateway_commands();
    assert_eq!(g.len(), 2);
    assert_eq!(text(&g[0]), "sudo route delete default 192.168.0.1");
    assert_eq!(text(&g[1]), "sudo route add default -interface vpnse0");
    let r = m.macos_restore_routing_commands();
    assert_eq!(text(&r[0]), "sudo route delete default -interface vpnse0");
    assert_eq!(text(&r[1]), "sudo route add default 192.168.0.1");
    let d = m.macos_dns_commands();
    assert_eq!(d.len(), 4);
    assert_eq!(text(&d[0]), "sudo networksetup -setdnsservers vpnse0 1.1.1.1");
    assert_eq!(text(&d[3]), "sudo networksetup -setdnsservers vpnse0 1.0.0.1");
}
