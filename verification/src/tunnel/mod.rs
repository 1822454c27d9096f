//! Tunnel management: interface configuration, the tunnel manager's state,
//! and the decisions that routing and addressing make. Creating devices and
//! running the system's network commands is done by the caller, with the
//! command lines that this module computes.

pub mod packet_framing;
pub mod routing;
pub mod parse;
pub mod platform;
pub mod real_tun;
pub mod shell;
pub mod setup;

use vstd::prelude::*;
use crate::net::{ipv4, ipv4_spec, ipv4_to_string, dotted, octet, get_octet, IpAddress};
use crate::random::random_u32;
use crate::text::join2;
use crate::tunnel::packet_framing::PacketFramer;
use crate::tunnel::routing::{CommandLine, plan, teardown_plan};

verus! {

/// TUN interface configuration. Addresses are IPv4 addresses as integers,
/// first octet most significant.
#[derive(Debug)]
pub struct TunnelConfig {
    pub interface_name: String,
    pub local_ip: u32,
    pub remote_ip: u32,
    pub netmask: u32,
    pub mtu: u16,
    pub dns_servers: Vec<u32>,
}

/// The public DNS servers a tunnel uses by default: 8.8.8.8 and 8.8.4.4.
pub open spec fn default_dns() -> Seq<u32> {
    seq![ipv4_spec(8, 8, 8, 8), ipv4_spec(8, 8, 4, 4)]
}

fn default_dns_servers() -> (r: Vec<u32>)
    ensures
        r@ == default_dns(),
{
    let mut v: Vec<u32> = Vec::new();
    v.push(ipv4(8, 8, 8, 8));
    v.push(ipv4(8, 8, 4, 4));
    assert(v@ =~= default_dns());
    v
}

impl TunnelConfig {
    /// The configuration holds these values, with interface `vpnse0`, MTU
    /// 1500 and the default DNS servers.
    pub open spec fn is_vpnse0(&self, local: u32, remote: u32, netmask: u32) -> bool {
        &&& self.interface_name@ == "vpnse0"@
        &&& self.local_ip == local
        &&& self.remote_ip == remote
        &&& self.netmask == netmask
        &&& self.mtu == 1500
        &&& self.dns_servers@ == default_dns()
    }

    /// A `vpnse0` configuration with the given addresses.
    pub fn vpnse0(local_ip: u32, remote_ip: u32, netmask: u32) -> (r: Self)
        ensures
            r.is_vpnse0(local_ip, remote_ip, netmask),
    {
        Self {
            interface_name: "vpnse0".to_owned(),
            local_ip,
            remote_ip,
            netmask,
            mtu: 1500,
            dns_servers: default_dns_servers(),
        }
    }

    /// A DHCP-enabled configuration that will request an address from the
    /// server: link-local addresses 169.254.1.2 and 169.254.1.1, /16.
    pub fn with_dhcp() -> (r: Self)
        ensures
            r.is_vpnse0(ipv4_spec(169, 254, 1, 2), ipv4_spec(169, 254, 1, 1), ipv4_spec(255, 255, 0, 0)),
    {
        Self::vpnse0(ipv4(169, 254, 1, 2), ipv4(169, 254, 1, 1), ipv4(255, 255, 0, 0))
    }

    /// The configuration used when DHCP fails: 192.168.100.10 and
    /// 192.168.100.1, /24.
    pub fn with_fallback_ip() -> (r: Self)
        ensures
            r.is_vpnse0(ipv4_spec(192, 168, 100, 10), ipv4_spec(192, 168, 100, 1), ipv4_spec(255, 255, 255, 0)),
    {
        Self::vpnse0(ipv4(192, 168, 100, 10), ipv4(192, 168, 100, 1), ipv4(255, 255, 255, 0))
    }

    /// A copy of the configuration.
    pub fn copy(&self) -> (r: Self)
        ensures
            r.interface_name@ == self.interface_name@,
            r.local_ip == self.local_ip,
            r.remote_ip == self.remote_ip,
            r.netmask == self.netmask,
            r.mtu == self.mtu,
            r.dns_servers@ == self.dns_servers@,
    {
        Self {
            interface_name: self.interface_name.clone(),
            local_ip: self.local_ip,
            remote_ip: self.remote_ip,
            netmask: self.netmask,
            mtu: self.mtu,
            dns_servers: self.dns_servers.clone(),
        }
    }
}

impl Default for TunnelConfig {
    /// 10.0.0.2 and 10.0.0.1, /24, on `vpnse0`.
    fn default() -> (r: Self)
        ensures
            r.is_vpnse0(ipv4_spec(10, 0, 0, 2), ipv4_spec(10, 0, 0, 1), ipv4_spec(255, 255, 255, 0)),
    {
        Self::vpnse0(ipv4(10, 0, 0, 2), ipv4(10, 0, 0, 1), ipv4(255, 255, 255, 0))
    }
}

/// Tunnel manager: the configuration of a tunnel and what is known of its
/// state on the system.
pub struct TunnelManager {
    pub config: TunnelConfig,
    /// The interface in use (it can differ from the configured name when a
    /// fallback interface was set up)
    pub interface_name: String,
    /// The default gateway in use before the tunnel took over
    pub original_route: Option<String>,
    pub original_dns: Vec<String>,
    pub is_established: bool,
    /// Frames the tunnel's packets for the VPN session
    pub packet_framer: PacketFramer,
}

/// Interface information text: name, local address, remote address, subnet.
pub open spec fn interface_info(name: Seq<char>, local: u32, remote: u32) -> (Seq<char>, Seq<char>, Seq<char>, Seq<char>) {
    (name, dotted(local), dotted(remote), dotted(local) + "/24"@)
}

impl TunnelManager {
    /// A manager for `config`, not yet established, whose packets are
    /// framed for `session_id`.
    pub fn new_with_session(config: TunnelConfig, session_id: u32) -> (r: Self)
        ensures
            r.interface_name@ == config.interface_name@,
            r.config == config,
            r.original_route is None,
            r.original_dns@.len() == 0,
            !r.is_established,
            r.packet_framer.session_id == session_id,
            r.packet_framer.remote_ip == IpAddress::V4(config.remote_ip),
            r.packet_framer.sent_packets == 0 && r.packet_framer.received_packets == 0
                && r.packet_framer.errors == 0,
    {
        let remote = config.remote_ip;
        Self {
            interface_name: config.interface_name.clone(),
            config,
            original_route: None,
            original_dns: Vec::new(),
            is_established: false,
            packet_framer: PacketFramer::new(session_id, IpAddress::V4(remote)),
        }
    }

    /// A manager for `config` with a random framing session id.
    pub fn new(config: TunnelConfig) -> (r: Self)
        ensures
            r.interface_name@ == config.interface_name@,
            r.config == config,
            r.original_route is None,
            !r.is_established,
            r.packet_framer.remote_ip == IpAddress::V4(config.remote_ip),
    {
        let session_id = random_u32();
        Self::new_with_session(config, session_id)
    }

    /// Check if the tunnel is established.
    pub fn is_established(&self) -> (r: bool)
        ensures
            r == self.is_established,
    {
        self.is_established
    }

    /// Records that the tunnel is up.
    pub fn mark_established(&mut self)
        ensures
            final(self).is_established,
            final(self).config == old(self).config,
            final(self).interface_name == old(self).interface_name,
            final(self).original_route == old(self).original_route,
    {
        self.is_established = true;
    }

    /// Records that the tunnel is down.
    pub fn mark_torn_down(&mut self)
        ensures
            !final(self).is_established,
            final(self).config == old(self).config,
            final(self).interface_name == old(self).interface_name,
            final(self).original_route == old(self).original_route,
    {
        self.is_established = false;
    }

    /// Records the interface in use.
    pub fn set_interface_name(&mut self, name: String)
        ensures
            final(self).interface_name == name,
            final(self).config == old(self).config,
            final(self).is_established == old(self).is_established,
            final(self).original_route == old(self).original_route,
    {
        self.interface_name = name;
    }

    /// Records the gateway that was the default before the tunnel.
    pub fn set_original_route(&mut self, route: Option<String>)
        ensures
            final(self).original_route == route,
            final(self).config == old(self).config,
            final(self).is_established == old(self).is_established,
            final(self).interface_name == old(self).interface_name,
    {
        self.original_route = route;
    }

    /// Interface name, local address, remote address and subnet, while the
    /// tunnel is established.
    pub fn get_interface_info(&self) -> (r: Option<(String, String, String, String)>)
        ensures
            self.is_established ==> (r matches Some(t) && (t.0@, t.1@, t.2@, t.3@) == interface_info(
                self.interface_name@,
                self.config.local_ip,
                self.config.remote_ip,
            )),
            !self.is_established ==> r is None,
    {
        if self.is_established {
            let local = ipv4_to_string(self.config.local_ip);
            let subnet = join2(local.as_str(), "/24");
            Some((self.interface_name.clone(), local, ipv4_to_string(self.config.remote_ip), subnet))
        } else {
            None
        }
    }

    /// A copy of the configuration, while the tunnel is established.
    pub fn get_config(&self) -> (r: Option<TunnelConfig>)
        ensures
            self.is_established ==> (r matches Some(c) && c.interface_name@
                == self.config.interface_name@ && c.local_ip == self.config.local_ip && c.remote_ip
                == self.config.remote_ip && c.netmask == self.config.netmask && c.mtu
                == self.config.mtu && c.dns_servers@ == self.config.dns_servers@),
            !self.is_established ==> r is None,
    {
        if self.is_established {
            Some(self.config.copy())
        } else {
            None
        }
    }

    /// Whether the local address lies in a range that DHCP servers commonly
    /// hand out: 10/8, 172.16/12, 192.168/16, 100.64/10 and 124.166/16.
    pub fn is_dhcp_assigned_ip(&self) -> (r: bool)
        ensures
            r == is_dhcp_range(self.config.local_ip),
    {
        let a = get_octet(self.config.local_ip, 0);
        let b = get_octet(self.config.local_ip, 1);
        if a == 10 {
            return true;
        }
        (a == 172 && b >= 16 && b <= 31) || (a == 192 && b == 168) || (a == 100 && b >= 64 && b <= 127)
            || (a == 124 && b == 166)
    }

    /// Whether `ip` can be an address the VPN assigned: the configured local
    /// address, a private address, an address whose first octet is 100 to
    /// 127, or any address that is not loopback, multicast or broadcast.
    pub fn is_valid_vpn_ip(&self, ip: u32) -> (r: bool)
        ensures
            r == (ip == self.config.local_ip || is_private_or_vpn_range(ip) || !(octet(ip, 0) == 127
                || (224 <= octet(ip, 0) && octet(ip, 0) <= 239) || ip == 0xffff_ffff)),
    {
        if ip == self.config.local_ip {
            return true;
        }
        let a = get_octet(ip, 0);
        let b = get_octet(ip, 1);
        if a == 10 || (a == 172 && b >= 16 && b <= 31) || (a == 192 && b == 168) {
            return true;
        }
        if a >= 100 && a <= 127 {
            return true;
        }
        !(a == 127 || (a >= 224 && a <= 239) || ip == 0xffff_ffff)
    }
}

/// The ranges that DHCP servers commonly hand out.
pub open spec fn is_dhcp_range(ip: u32) -> bool {
    let a = octet(ip, 0);
    let b = octet(ip, 1);
    a == 10 || (a == 172 && 16 <= b && b <= 31) || (a == 192 && b == 168) || (a == 100 && 64 <= b
        && b <= 127) || (a == 124 && b == 166)
}

/// Private ranges, and first octets 100 to 127.
pub open spec fn is_private_or_vpn_range(ip: u32) -> bool {
    let a = octet(ip, 0);
    let b = octet(ip, 1);
    a == 10 || (a == 172 && 16 <= b && b <= 31) || (a == 192 && b == 168) || (100 <= a && a <= 127)
}

/// Registers an established tunnel as the library's current tunnel.
pub fn create_tunnel_interface(current: &mut Option<TunnelManager>, manager: TunnelManager)
    ensures
        *final(current) == Some(manager),
{
    *current = Some(manager);
}

/// Removes the current tunnel and tears it down: the answer is the commands
/// that restore the routing and delete the interface of a tunnel that was
/// established (nothing to run for none). A second call finds no tunnel.
pub fn destroy_tunnel_interface(current: &mut Option<TunnelManager>) -> (r: crate::error::Result<
    Vec<CommandLine>,
>)
    ensures
        *final(current) is None,
        r matches Ok(c) && plan(c@) == match *old(current) {
            Some(m) => teardown_plan(m),
            None => Seq::empty(),
        },
{
    match current.take() {
        Some(m) => Ok(m.teardown_commands()),
        None => {
            let c: Vec<CommandLine> = Vec::new();
            assert(plan(c@) =~= Seq::empty());
            Ok(c)
        },
    }
}

/// Interface name, local address, remote address and subnet of the current
/// tunnel, while it is established.
pub fn get_tunnel_interface(current: &Option<TunnelManager>) -> (r: Option<(String, String, String, String)>)
    ensures
        match current {
            Some(m) => m.is_established ==> (r matches Some(t) && (t.0@, t.1@, t.2@, t.3@)
                == interface_info(m.interface_name@, m.config.local_ip, m.config.remote_ip)),
            None => true,
        },
        current is None || !current->Some_0.is_established ==> r is None,
{
    match current {
        Some(m) => m.get_interface_info(),
        None => None,
    }
}

} // verus!
