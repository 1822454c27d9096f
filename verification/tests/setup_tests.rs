use rvpnse::error::VpnError;
use rvpnse::tunnel::routing::CommandLine;
use rvpnse::tunnel::shell::{
    address_command, link_up_command, linux_mtu_command, parse_u64_text, route_add_command,
    route_del_command, stat_file_path, stat_value, tap_address_command, tun_address_command,
    utun_configure_command, utun_mtu_command, utun_route_command, utun_stats_command,
};
use rvpnse::tunnel::{TunnelConfig, TunnelManager};

fn manager() -> TunnelManager {
    TunnelManager::new_with_session(TunnelConfig::default(), 7)
}

fn text(c: &CommandLine) -> String {
    let mut s = c.program.clone();
    for a in &c.args {
        s.push(' ');
        s.push_str(a);
    }
    s
}

#[test]
fn linux_interface_commands() {
    assert_eq!(link_up_command("tun0"), "sudo ip link set dev tun0 up");
    assert_eq!(
        tun_address_command("10.0.0.2", "10.0.0.1", "tun0"),
        "sudo ip addr add 10.0.0.2 peer 10.0.0.1 dev tun0"
    );
    assert_eq!(
        tap_address_command("10.0.0.2", "255.255.255.0", "tap0").unwrap(),
        "sudo ip addr add 10.0.0.2/24 dev tap0"
    );
    assert_eq!(
        address_command(false, "192.168.5.9", "x", "255.255.240.0", "tap1").unwrap(),
        "sudo ip addr add 192.168.5.9/20 dev tap1"
    );
    assert_eq!(
        address_command(true, "10.0.0.2", "10.0.0.1", "garbage", "tun0").unwrap(),
        "sudo ip addr add 10.0.0.2 peer 10.0.0.1 dev tun0"
    );
    match address_command(false, "10.0.0.2", "10.0.0.1", "garbage", "tap0") {
        Err(VpnError::Configuration(m)) => assert_eq!(m, "Invalid netmask"),
        _ => panic!("a bad netmask is refused"),
    }
    assert_eq!(linux_mtu_command("tun0", 1400), "sudo ip link set dev tun0 mtu 1400");
    assert_eq!(route_add_command("10.1.0.0/16", "tun0"), "sudo ip route add 10.1.0.0/16 dev tun0");
    assert_eq!(route_del_command("10.1.0.0/16", "tun0"), "sudo ip route del 10.1.0.0/16 dev tun0");
    assert_eq!(stat_file_path("tun0", "rx_bytes"), "/sys/class/net/tun0/statistics/rx_bytes");
}

#[test]
fn macos_interface_commands() {
    assert_eq!(
        utun_configure_command("utun3", "10.0.0.2", "10.0.0.1"),
        "sudo ifconfig utun3 10.0.0.2 10.0.0.1 up"
    );
    assert_eq!(
        utun_route_command("10.0.0.2", "10.0.0.1", "255.255.255.0"),
        "sudo route add -net 10.0.0.1 255.255.255.0 10.0.0.2"
    );
    assert_eq!(utun_mtu_command("utun3", 1500), "sudo ifconfig utun3 mtu 1500");
    assert_eq!(utun_stats_command("utun3"), "netstat -I utun3 -b");
}

#[test]
fn statistic_values() {
    assert_eq!(stat_value("12345\n"), 12345);
    assert_eq!(stat_value("  +7 "), 7);
    assert_eq!(stat_value(""), 0);
    assert_eq!(stat_value("12a"), 0);
    assert_eq!(stat_value("-3"), 0);
    assert_eq!(stat_value("+"), 0);
    assert_eq!(stat_value("18446744073709551615"), u64::MAX);
    assert_eq!(stat_value("18446744073709551616"), 0);
    let digits: Vec<char> = "0042".chars().collect();
    assert_eq!(parse_u64_text(&digits), Some(42));
}

#[test]
fn new_interface_commands() {
    let m = manager();
    let up = m.interface_up_commands();
    assert_eq!(text(&up[0]), "sudo ip link set dev vpnse0 up");
    assert_eq!(text(&up[1]), "ip addr show vpnse0");
    assert_eq!(text(&m.point_to_point_command()), "sudo ip link set dev vpnse0 up pointopoint 10.0.0.1");
    assert_eq!(text(&TunnelManager::tuntap_add_command()), "sudo ip tuntap add dev vpnse0 mode tun");
}

#[test]
fn platform_fallbacks() {
    let mut m = manager();
    m.set_interface_name("other".to_string());
    let cmds = m.linux_fallback_set_up(true);
    assert_eq!(m.interface_name, "vpnse0");
    assert_eq!(text(&cmds[0]), "sudo ip addr add 10.0.0.2/24 dev vpnse0");
    assert_eq!(text(&cmds[1]), "sudo ip link set dev vpnse0 up");
    assert!(m.linux_fallback_set_up(false).is_empty());
    assert_eq!(m.interface_name, "tun_demo");

    let c = m.macos_fallback_set_up(&[true, true, false]).unwrap();
    assert_eq!(m.interface_name, "utun2");
    assert_eq!(text(&c), "sudo ifconfig utun2 10.0.0.2 10.0.0.1 up");
    assert!(m.macos_fallback_set_up(&[true; 10]).is_none());
    assert_eq!(m.interface_name, "utun_demo");
    let c = m.macos_fallback_set_up(&[false]).unwrap();
    assert_eq!(text(&c), "sudo ifconfig utun0 10.0.0.2 10.0.0.1 up");

    m.windows_fallback_set_up("Enabled Connected Dedicated TAP-Windows Adapter V9");
    assert_eq!(m.interface_name, "TAP-Windows");
    m.windows_fallback_set_up("Enabled Connected Dedicated Ethernet");
    assert_eq!(m.interface_name, "VPN_Interface");
    m.demo_set_up();
    assert_eq!(m.interface_name, "vpnse_demo");
}
