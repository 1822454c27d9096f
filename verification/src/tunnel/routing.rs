//! The system commands that set up and restore routing and DNS for a
//! tunnel, as command lines, and the configuration files it writes.

use vstd::prelude::*;
use crate::net::{dotted, ipv4_to_string, octet, get_octet, ipv4_spec};
use vstd::arithmetic::power2::pow2;
use crate::text::{decimal, join2, u64_to_decimal};
use crate::tunnel::TunnelManager;
use crate::tunnel::parse::{active_interface_from, active_interface_text, default_gateway_from, default_gateway_text};
use crate::scan::{trim, chars_of, trim_chars};

verus! {

/// A command to run: a program and its arguments.
#[derive(Debug)]
pub struct CommandLine {
    pub program: String,
    pub args: Vec<String>,
}

impl View for CommandLine {
    type V = (Seq<char>, Seq<Seq<char>>);

    open spec fn view(&self) -> (Seq<char>, Seq<Seq<char>>) {
        (self.program@, self.args@.map_values(|a: String| a@))
    }
}

/// The text of each command of a plan.
pub open spec fn plan(v: Seq<CommandLine>) -> Seq<(Seq<char>, Seq<Seq<char>>)> {
    v.map_values(|c: CommandLine| c@)
}

/// The strings of `parts`, owned.
fn strings(parts: &[&str]) -> (r: Vec<String>)
    ensures
        r@.map_values(|a: String| a@) == parts@.map_values(|p: &str| p@),
{
    let mut r: Vec<String> = Vec::new();
    let mut i: usize = 0;
    while i < parts.len()
        invariant
            i <= parts@.len(),
            r@.len() == i,
            forall|j: int| 0 <= j < i ==> (#[trigger] r@[j])@ == parts@[j]@,
        decreases parts@.len() - i,
    {
        r.push(parts[i].to_owned());
        i = i + 1;
    }
    assert(r@.map_values(|a: String| a@) =~= parts@.map_values(|p: &str| p@));
    r
}

/// A command line.
pub(crate) fn command(program: &str, parts: &[&str]) -> (r: CommandLine)
    ensures
        r@ == (program@, parts@.map_values(|p: &str| p@)),
{
    CommandLine { program: program.to_owned(), args: strings(parts) }
}

/// The DNS servers of a tunnel whose gateway is `gateway`, separated by
/// spaces: the gateway first, then the public servers.
pub open spec fn dns_list(gateway: u32) -> Seq<char> {
    dotted(gateway) + " 1.1.1.1 8.8.8.8 8.8.4.4 1.0.0.1"@
}

/// The systemd-resolved drop-in file of a tunnel whose gateway is `gateway`.
pub open spec fn resolved_conf_text(gateway: u32) -> Seq<char> {
    "[Resolve]\n"@ + "DNS="@ + dns_list(gateway) + "\n"@ + "DNSStubListener=yes\n"@
        + "DNSOverTLS=opportunistic\n"@ + "Cache=yes\n"@ + "DNSSEC=allow-downgrade\n"@
}

/// The resolv.conf of a tunnel whose gateway is `gateway`.
pub open spec fn resolv_conf_text(gateway: u32) -> Seq<char> {
    "# DNS Configuration for rVPNSE VPN\n"@ + "options timeout:1 attempts:3 rotate\n"@
        + "options edns0\n"@ + "nameserver "@ + dotted(gateway) + "\n"@ + "nameserver 1.1.1.1\n"@
        + "nameserver 8.8.8.8\n"@ + "nameserver 8.8.4.4\n"@ + "nameserver 1.0.0.1\n"@
        + "search local vpn internal\n"@
}

/// The /24 subnet that holds `ip`, as text.
pub open spec fn subnet24_text(ip: u32) -> Seq<char> {
    decimal(octet(ip, 0) as nat) + "."@ + decimal(octet(ip, 1) as nat) + "."@ + decimal(
        octet(ip, 2) as nat,
    ) + ".0/24"@
}

/// The commands that send traffic for the tunnel's remote end through the
/// original gateway (Linux), when the original gateway is known.
pub open spec fn server_route_plan(m: TunnelManager) -> Seq<(Seq<char>, Seq<Seq<char>>)> {
    match m.original_route {
        Some(gw) => seq![("sudo"@, seq!["ip"@, "route"@, "add"@, dotted(m.config.remote_ip), "via"@, gw@])],
        None => Seq::empty(),
    }
}

/// The text of an optional string.
pub open spec fn opt_view(s: Option<&str>) -> Option<Seq<char>> {
    match s {
        Some(v) => Some(v@),
        None => None,
    }
}

/// The default gateway, from the output of `ip route show default` when
/// that command ran, else `192.168.1.1`.
pub open spec fn gateway_or_default(out: Option<Seq<char>>) -> Seq<char> {
    match out {
        Some(o) => default_gateway_text(o),
        None => "192.168.1.1"@,
    }
}

/// The interface that carries traffic out, from the output of
/// `ip route get 8.8.8.8` when that command ran, else `eth0`.
pub open spec fn interface_or_default(out: Option<Seq<char>>) -> Seq<char> {
    match out {
        Some(o) => active_interface_text(o),
        None => "eth0"@,
    }
}

/// The commands that make the tunnel the default route (Linux).
pub open spec fn default_gateway_plan(
    m: TunnelManager,
    default_gw: Seq<char>,
    active_interface: Seq<char>,
    vpn_server: Option<Seq<char>>,
) -> Seq<(Seq<char>, Seq<Seq<char>>)> {
    let remote = dotted(m.config.remote_ip);
    let ifn = m.interface_name@;
    let server_routes = match vpn_server {
        Some(vs) => seq![
            ("sudo"@, seq!["ip"@, "route"@, "del"@, vs + "/32"@]),
            ("sudo"@, seq!["ip"@, "route"@, "add"@, vs + "/32"@, "via"@, default_gw, "dev"@, active_interface]),
        ],
        None => Seq::empty(),
    };
    server_routes + seq![
        ("sudo"@, seq!["ip"@, "route"@, "del"@, "default"@]),
        ("sudo"@, seq!["ip"@, "route"@, "add"@, "default"@, "via"@, remote, "dev"@, ifn]),
        ("ip"@, seq!["route"@, "show"@]),
        ("sudo"@, seq!["ip"@, "route"@, "add"@, "0.0.0.0/1"@, "via"@, remote, "dev"@, ifn]),
        ("sudo"@, seq!["ip"@, "route"@, "add"@, "128.0.0.0/1"@, "via"@, remote, "dev"@, ifn]),
        ("sudo"@, seq!["sysctl"@, "-w"@, "net.ipv4.conf.all.rp_filter=0"@]),
        ("sudo"@, seq!["sysctl"@, "-w"@, "net.ipv4.conf."@ + ifn + ".rp_filter=0"@]),
        ("sudo"@, seq!["sysctl"@, "-w"@, "net.ipv4.ip_forward=1"@]),
        ("sudo"@, seq!["sysctl"@, "-w"@, "net.ipv4.ip_forward=1"@]),
        ("sudo"@, seq!["iptables"@, "-t"@, "nat"@, "-F"@]),
        ("sudo"@, seq!["iptables"@, "-t"@, "nat"@, "-A"@, "POSTROUTING"@, "-o"@, ifn, "-j"@, "MASQUERADE"@]),
        ("sudo"@, seq!["iptables"@, "-A"@, "FORWARD"@, "-i"@, ifn, "-j"@, "ACCEPT"@]),
        ("ip"@, seq!["route"@, "show"@]),
    ]
}

/// The command that adds a route for the prefix `prefix/len` through the
/// tunnel's remote end, on the tunnel's interface.
pub open spec fn tunnel_prefix_route(m: TunnelManager, prefix: u32, len: nat) -> (Seq<char>, Seq<Seq<char>>) {
    (
        "sudo"@,
        seq![
            "ip"@,
            "route"@,
            "add"@,
            dotted(prefix) + "/"@ + decimal(len),
            "via"@,
            dotted(m.config.remote_ip),
            "dev"@,
            m.interface_name@,
        ],
    )
}

/// Whether `addr` lies in the prefix `prefix/len`: the first `len` bits of
/// the two agree.
pub open spec fn in_prefix(addr: u32, prefix: u32, len: nat) -> bool {
    &&& len <= 32
    &&& addr as nat / pow2((32 - len) as nat) == prefix as nat / pow2((32 - len) as nat)
}

/// Every IPv4 address goes through the tunnel: whatever the gateway,
/// interface and server, the plan adds, through the tunnel's remote end on
/// its interface, a route for a prefix more specific than the default route
/// (at least one bit long) that holds `addr`. So the tunnel wins over any
/// default route that stays in place.
pub proof fn lemma_gateway_plan_covers_every_address(
    m: TunnelManager,
    default_gw: Seq<char>,
    active_interface: Seq<char>,
    vpn_server: Option<Seq<char>>,
    addr: u32,
)
    ensures
        exists|j: int, prefix: u32, len: nat|
            #![trigger default_gateway_plan(m, default_gw, active_interface, vpn_server)[j], in_prefix(addr, prefix, len)]
            0 <= j < default_gateway_plan(m, default_gw, active_interface, vpn_server).len() && 1 <= len
                && default_gateway_plan(m, default_gw, active_interface, vpn_server)[j] == tunnel_prefix_route(
                m,
                prefix,
                len,
            ) && in_prefix(addr, prefix, len),
{
    let p = default_gateway_plan(m, default_gw, active_interface, vpn_server);
    let off: int = if vpn_server is Some { 2 } else { 0 };
    assert(p.len() == off + 13);
    let low: u32 = 0;
    let high: u32 = 0x8000_0000;
    assert(ipv4_spec(0, 0, 0, 0) == 0u32) by (bit_vector);
    assert(ipv4_spec(128, 0, 0, 0) == 0x8000_0000u32) by (bit_vector);
    crate::ipv4_text::lemma_octets(0, 0, 0, 0);
    crate::ipv4_text::lemma_octets(128, 0, 0, 0);
    reveal_with_fuel(decimal, 4);
    assert(decimal(0) == seq!['0']);
    assert(decimal(1) == seq!['1']);
    assert(decimal(128) =~= seq!['1', '2', '8']);
    reveal_strlit("0.0.0.0/1");
    reveal_strlit("128.0.0.0/1");
    reveal_strlit("/");
    assert(dotted(low) + "/"@ + decimal(1) =~= "0.0.0.0/1"@);
    assert(dotted(high) + "/"@ + decimal(1) =~= "128.0.0.0/1"@);
    assert(p[off + 3] =~~= tunnel_prefix_route(m, low, 1));
    assert(p[off + 4] =~~= tunnel_prefix_route(m, high, 1));
    vstd::arithmetic::power2::lemma2_to64();
    assert(pow2(31) == 0x8000_0000);
    if addr < high {
        assert(addr as nat / 0x8000_0000nat == 0) by (nonlinear_arith)
            requires
                addr < 0x8000_0000,
        ;
        assert(low as nat / 0x8000_0000nat == 0);
        assert(in_prefix(addr, low, 1));
        assert(p[off + 3] == tunnel_prefix_route(m, low, 1) && in_prefix(addr, low, 1));
    } else {
        assert(addr as nat / 0x8000_0000nat == 1) by (nonlinear_arith)
            requires
                0x8000_0000 <= addr < 0x1_0000_0000,
        ;
        assert(high as nat / 0x8000_0000nat == 1);
        assert(in_prefix(addr, high, 1));
        assert(p[off + 4] == tunnel_prefix_route(m, high, 1) && in_prefix(addr, high, 1));
    }
}

/// The commands that install the systemd-resolved drop-in of a tunnel and
/// point its interface at its DNS servers.
pub open spec fn resolved_dns_plan(m: TunnelManager) -> Seq<(Seq<char>, Seq<Seq<char>>)> {
    seq![
        ("sudo"@, seq!["mkdir"@, "-p"@, "/etc/systemd/resolved.conf.d/"@]),
        ("sudo"@, seq!["mv"@, "/tmp/vpn-dns.conf"@, "/etc/systemd/resolved.conf.d/vpn-dns.conf"@]),
        ("sudo"@, seq!["resolvectl"@, "dns"@, m.interface_name@, dns_list(m.config.remote_ip)]),
        ("sudo"@, seq!["systemctl"@, "restart"@, "systemd-resolved"@]),
        ("sudo"@, seq!["resolvectl"@, "flush-caches"@]),
    ]
}

/// How a tunnel's DNS is set up: the commands to run first, the file to
/// write and what it holds, the commands to run once it is written, and,
/// where name lookups must be checked, the check whose failure calls for
/// [`nsswitch_dns_command`].
pub struct DnsSetUp {
    pub before: Vec<CommandLine>,
    pub file: String,
    pub contents: String,
    pub after: Vec<CommandLine>,
    pub lookup_check: Option<CommandLine>,
}

/// Whether systemd-resolved runs, from the output of
/// `systemctl is-active systemd-resolved` when that command ran.
pub open spec fn resolved_active(out: Option<Seq<char>>) -> bool {
    match out {
        Some(o) => trim(o) == "active"@,
        None => false,
    }
}

/// The commands that tear a tunnel down (Linux): for an established
/// tunnel, restoring the routing and then deleting its interface; nothing
/// otherwise.
pub open spec fn teardown_plan(m: TunnelManager) -> Seq<(Seq<char>, Seq<Seq<char>>)> {
    if m.is_established {
        restore_routing_plan(m) + seq![("sudo"@, seq!["ip"@, "link"@, "del"@, m.interface_name@])]
    } else {
        Seq::empty()
    }
}

/// The commands that put back the original default route and DNS (Linux).
pub open spec fn restore_routing_plan(m: TunnelManager) -> Seq<(Seq<char>, Seq<Seq<char>>)> {
    match m.original_route {
        Some(gw) => seq![
            ("sudo"@, seq!["ip"@, "route"@, "del"@, "default"@, "dev"@, m.interface_name@]),
            ("sudo"@, seq!["ip"@, "route"@, "add"@, "default"@, "via"@, gw@]),
            ("sudo"@, seq!["mv"@, "/etc/resolv.conf.vpn_backup"@, "/etc/resolv.conf"@]),
        ],
        None => Seq::empty(),
    }
}

impl TunnelManager {
    /// The commands that route traffic for the tunnel's remote end through
    /// the original gateway (Linux).
    pub fn server_route_commands(&self) -> (r: Vec<CommandLine>)
        ensures
            plan(r@) == server_route_plan(*self),
    {
        let mut r: Vec<CommandLine> = Vec::new();
        if let Some(gw) = &self.original_route {
            let remote = ipv4_to_string(self.config.remote_ip);
            r.push(command("sudo", &["ip", "route", "add", remote.as_str(), "via", gw.as_str()]));
        }
        assert(plan(r@) =~~= server_route_plan(*self));
        r
    }

    /// The /24 subnet of the local address, as text.
    pub fn vpn_subnet(&self) -> (r: String)
        ensures
            r@ == subnet24_text(self.config.local_ip),
    {
        let ip = self.config.local_ip;
        let a = join2(u64_to_decimal(get_octet(ip, 0) as u64).as_str(), ".");
        let b = join2(a.as_str(), u64_to_decimal(get_octet(ip, 1) as u64).as_str());
        let c = join2(b.as_str(), ".");
        let d = join2(c.as_str(), u64_to_decimal(get_octet(ip, 2) as u64).as_str());
        join2(d.as_str(), ".0/24")
    }

    /// The commands that make the tunnel the default route (Linux): a host
    /// route for the VPN server through the original gateway and interface
    /// (when the server is known), the default route and both halves of the
    /// address space through the tunnel, the kernel settings for forwarded
    /// traffic, and the NAT and forwarding rules. The original gateway is
    /// read from the output of `ip route show default` and the original
    /// interface from that of `ip route get 8.8.8.8`; where a command could
    /// not be run, 192.168.1.1 and eth0 stand in.
    pub fn default_gateway_commands(
        &self,
        route_show_default: Option<&str>,
        route_get: Option<&str>,
        vpn_server: Option<&str>,
    ) -> (r: Vec<CommandLine>)
        ensures
            plan(r@) == default_gateway_plan(
                *self,
                gateway_or_default(opt_view(route_show_default)),
                interface_or_default(opt_view(route_get)),
                opt_view(vpn_server),
            ),
    {
        let gateway = match route_show_default {
            Some(o) => default_gateway_from(o),
            None => "192.168.1.1".to_owned(),
        };
        let active = match route_get {
            Some(o) => active_interface_from(o),
            None => "eth0".to_owned(),
        };
        let default_gw = gateway.as_str();
        let active_interface = active.as_str();
        let mut r: Vec<CommandLine> = Vec::new();
        let remote = ipv4_to_string(self.config.remote_ip);
        let ifn = self.interface_name.as_str();
        if let Some(vs) = vpn_server {
            let host = join2(vs, "/32");
            r.push(command("sudo", &["ip", "route", "del", host.as_str()]));
            r.push(command("sudo", &["ip", "route", "add", host.as_str(), "via", default_gw, "dev", active_interface]));
        }
        let rp = join2("net.ipv4.conf.", ifn);
        let rp_filter = join2(rp.as_str(), ".rp_filter=0");
        r.push(command("sudo", &["ip", "route", "del", "default"]));
        r.push(command("sudo", &["ip", "route", "add", "default", "via", remote.as_str(), "dev", ifn]));
        r.push(command("ip", &["route", "show"]));
        r.push(command("sudo", &["ip", "route", "add", "0.0.0.0/1", "via", remote.as_str(), "dev", ifn]));
        r.push(command("sudo", &["ip", "route", "add", "128.0.0.0/1", "via", remote.as_str(), "dev", ifn]));
        r.push(command("sudo", &["sysctl", "-w", "net.ipv4.conf.all.rp_filter=0"]));
        r.push(command("sudo", &["sysctl", "-w", rp_filter.as_str()]));
        r.push(command("sudo", &["sysctl", "-w", "net.ipv4.ip_forward=1"]));
        r.push(command("sudo", &["sysctl", "-w", "net.ipv4.ip_forward=1"]));
        r.push(command("sudo", &["iptables", "-t", "nat", "-F"]));
        r.push(command("sudo", &["iptables", "-t", "nat", "-A", "POSTROUTING", "-o", ifn, "-j", "MASQUERADE"]));
        r.push(command("sudo", &["iptables", "-A", "FORWARD", "-i", ifn, "-j", "ACCEPT"]));
        r.push(command("ip", &["route", "show"]));
        assert(plan(r@) =~~= default_gateway_plan(
            *self,
            gateway_or_default(opt_view(route_show_default)),
            interface_or_default(opt_view(route_get)),
            opt_view(vpn_server),
        ));
        r
    }

    /// The DNS servers of the tunnel, separated by spaces.
    pub fn dns_server_list(&self) -> (r: String)
        ensures
            r@ == dns_list(self.config.remote_ip),
    {
        let gw = ipv4_to_string(self.config.remote_ip);
        join2(gw.as_str(), " 1.1.1.1 8.8.8.8 8.8.4.4 1.0.0.1")
    }

    /// The systemd-resolved drop-in file for the tunnel.
    pub fn resolved_conf(&self) -> (r: String)
        ensures
            r@ == resolved_conf_text(self.config.remote_ip),
    {
        let list = self.dns_server_list();
        let a = join2("[Resolve]\nDNS=", list.as_str());
        let r = join2(a.as_str(), "\nDNSStubListener=yes\nDNSOverTLS=opportunistic\nCache=yes\nDNSSEC=allow-downgrade\n");
        proof {
            reveal_strlit("[Resolve]\nDNS=");
            reveal_strlit("[Resolve]\n");
            reveal_strlit("DNS=");
            reveal_strlit("\nDNSStubListener=yes\nDNSOverTLS=opportunistic\nCache=yes\nDNSSEC=allow-downgrade\n");
            reveal_strlit("\n");
            reveal_strlit("DNSStubListener=yes\n");
            reveal_strlit("DNSOverTLS=opportunistic\n");
            reveal_strlit("Cache=yes\n");
            reveal_strlit("DNSSEC=allow-downgrade\n");
        }
        assert(r@ =~= resolved_conf_text(self.config.remote_ip));
        r
    }

    /// The commands that install the resolved drop-in (written to
    /// `/tmp/vpn-dns.conf`) and point the tunnel's interface at its DNS
    /// servers.
    pub fn resolved_dns_commands(&self) -> (r: Vec<CommandLine>)
        ensures
            plan(r@) == resolved_dns_plan(*self),
    {
        let list = self.dns_server_list();
        let mut r: Vec<CommandLine> = Vec::new();
        r.push(command("sudo", &["mkdir", "-p", "/etc/systemd/resolved.conf.d/"]));
        r.push(command("sudo", &["mv", "/tmp/vpn-dns.conf", "/etc/systemd/resolved.conf.d/vpn-dns.conf"]));
        r.push(command("sudo", &["resolvectl", "dns", self.interface_name.as_str(), list.as_str()]));
        r.push(command("sudo", &["systemctl", "restart", "systemd-resolved"]));
        r.push(command("sudo", &["resolvectl", "flush-caches"]));
        assert(plan(r@) =~~= seq![
            ("sudo"@, seq!["mkdir"@, "-p"@, "/etc/systemd/resolved.conf.d/"@]),
            ("sudo"@, seq!["mv"@, "/tmp/vpn-dns.conf"@, "/etc/systemd/resolved.conf.d/vpn-dns.conf"@]),
            ("sudo"@, seq!["resolvectl"@, "dns"@, self.interface_name@, dns_list(self.config.remote_ip)]),
            ("sudo"@, seq!["systemctl"@, "restart"@, "systemd-resolved"@]),
            ("sudo"@, seq!["resolvectl"@, "flush-caches"@]),
        ]);
        r
    }

    /// How the tunnel's DNS is set up (Linux), given the output of
    /// `systemctl is-active systemd-resolved` when that command ran: with
    /// systemd-resolved running, a drop-in written to `/tmp/vpn-dns.conf` and
    /// installed; otherwise `/etc/resolv.conf` backed up, the tunnel's
    /// resolv.conf written to `/tmp/resolv.conf.vpn` and installed, and the
    /// name-service switch checked for DNS.
    pub fn dns_set_up(&self, systemctl_output: Option<&str>) -> (r: DnsSetUp)
        ensures
            resolved_active(opt_view(systemctl_output)) ==> {
                &&& r.before@.len() == 0
                &&& r.file@ == "/tmp/vpn-dns.conf"@
                &&& r.contents@ == resolved_conf_text(self.config.remote_ip)
                &&& plan(r.after@) == resolved_dns_plan(*self)
                &&& r.lookup_check is None
            },
            !resolved_active(opt_view(systemctl_output)) ==> {
                &&& plan(r.before@) == seq![
                    ("sudo"@, seq!["cp"@, "/etc/resolv.conf"@, "/etc/resolv.conf.vpn_backup"@]),
                ]
                &&& r.file@ == "/tmp/resolv.conf.vpn"@
                &&& r.contents@ == resolv_conf_text(self.config.remote_ip)
                &&& plan(r.after@) == seq![
                    ("sudo"@, seq!["mv"@, "/tmp/resolv.conf.vpn"@, "/etc/resolv.conf"@]),
                    ("sudo"@, seq!["chmod"@, "644"@, "/etc/resolv.conf"@]),
                ]
                &&& r.lookup_check matches Some(c) && c@ == (
                    "sudo"@,
                    seq!["grep"@, "-q"@, "hosts:.*dns"@, "/etc/nsswitch.conf"@],
                )
            },
    {
        let resolved = match systemctl_output {
            Some(o) => uses_systemd_resolved(o),
            None => false,
        };
        if resolved {
            DnsSetUp {
                before: Vec::new(),
                file: "/tmp/vpn-dns.conf".to_owned(),
                contents: self.resolved_conf(),
                after: self.resolved_dns_commands(),
                lookup_check: None,
            }
        } else {
            let mut before: Vec<CommandLine> = Vec::new();
            before.push(resolv_conf_backup_command());
            let mut after: Vec<CommandLine> = Vec::new();
            after.push(command("sudo", &["mv", "/tmp/resolv.conf.vpn", "/etc/resolv.conf"]));
            after.push(command("sudo", &["chmod", "644", "/etc/resolv.conf"]));
            let check = command("sudo", &["grep", "-q", "hosts:.*dns", "/etc/nsswitch.conf"]);
            assert(plan(before@) =~~= seq![
                ("sudo"@, seq!["cp"@, "/etc/resolv.conf"@, "/etc/resolv.conf.vpn_backup"@]),
            ]);
            assert(plan(after@) =~~= seq![
                ("sudo"@, seq!["mv"@, "/tmp/resolv.conf.vpn"@, "/etc/resolv.conf"@]),
                ("sudo"@, seq!["chmod"@, "644"@, "/etc/resolv.conf"@]),
            ]);
            assert(check@.1 =~= seq!["grep"@, "-q"@, "hosts:.*dns"@, "/etc/nsswitch.conf"@]);
            DnsSetUp {
                before,
                file: "/tmp/resolv.conf.vpn".to_owned(),
                contents: self.resolv_conf(),
                after,
                lookup_check: Some(check),
            }
        }
    }

    /// The resolv.conf for the tunnel: short timeouts, the gateway and then
    /// the public servers as name servers, and the usual VPN search domains.
    pub fn resolv_conf(&self) -> (r: String)
        ensures
            r@ == resolv_conf_text(self.config.remote_ip),
    {
        let gw = ipv4_to_string(self.config.remote_ip);
        let a = join2(
            "# DNS Configuration for rVPNSE VPN\noptions timeout:1 attempts:3 rotate\noptions edns0\nnameserver ",
            gw.as_str(),
        );
        let r = join2(
            a.as_str(),
            "\nnameserver 1.1.1.1\nnameserver 8.8.8.8\nnameserver 8.8.4.4\nnameserver 1.0.0.1\nsearch local vpn internal\n",
        );
        proof {
            reveal_strlit("# DNS Configuration for rVPNSE VPN\noptions timeout:1 attempts:3 rotate\noptions edns0\nnameserver ");
            reveal_strlit("# DNS Configuration for rVPNSE VPN\n");
            reveal_strlit("options timeout:1 attempts:3 rotate\n");
            reveal_strlit("options edns0\n");
            reveal_strlit("nameserver ");
            reveal_strlit("\nnameserver 1.1.1.1\nnameserver 8.8.8.8\nnameserver 8.8.4.4\nnameserver 1.0.0.1\nsearch local vpn internal\n");
            reveal_strlit("\n");
            reveal_strlit("nameserver 1.1.1.1\n");
            reveal_strlit("nameserver 8.8.8.8\n");
            reveal_strlit("nameserver 8.8.4.4\n");
            reveal_strlit("nameserver 1.0.0.1\n");
            reveal_strlit("search local vpn internal\n");
        }
        assert(r@ =~= resolv_conf_text(self.config.remote_ip));
        r
    }

    /// The commands that put back the original default route and DNS
    /// (Linux), when the original gateway is known.
    pub fn restore_routing_commands(&self) -> (r: Vec<CommandLine>)
        ensures
            plan(r@) == restore_routing_plan(*self),
    {
        let mut r: Vec<CommandLine> = Vec::new();
        if let Some(gw) = &self.original_route {
            r.push(command("sudo", &["ip", "route", "del", "default", "dev", self.interface_name.as_str()]));
            r.push(command("sudo", &["ip", "route", "add", "default", "via", gw.as_str()]));
            r.push(command("sudo", &["mv", "/etc/resolv.conf.vpn_backup", "/etc/resolv.conf"]));
        }
        assert(plan(r@) =~~= restore_routing_plan(*self));
        r
    }

    /// The commands that tear an established tunnel down (Linux): restore
    /// the routing, then delete the interface. Nothing for a tunnel that is
    /// not established.
    pub fn teardown_commands(&self) -> (r: Vec<CommandLine>)
        ensures
            plan(r@) == teardown_plan(*self),
    {
        if !self.is_established {
            return Vec::new();
        }
        let mut r = self.restore_routing_commands();
        let ghost before = r@;
        r.push(command("sudo", &["ip", "link", "del", self.interface_name.as_str()]));
        assert(plan(r@) =~~= plan(before) + seq![("sudo"@, seq!["ip"@, "link"@, "del"@, self.interface_name@])]);
        r
    }

    /// The commands that let traffic flow through the tunnel's interface
    /// (Linux): IP forwarding, and the NAT and forwarding rules.
    pub fn packet_routing_commands(&self) -> (r: Vec<CommandLine>)
        ensures
            plan(r@) == seq![
                ("sudo"@, seq!["sysctl"@, "-w"@, "net.ipv4.ip_forward=1"@]),
                ("sudo"@, seq!["iptables"@, "-t"@, "nat"@, "-A"@, "POSTROUTING"@, "-o"@, self.interface_name@, "-j"@, "MASQUERADE"@]),
                ("sudo"@, seq!["iptables"@, "-A"@, "FORWARD"@, "-i"@, self.interface_name@, "-j"@, "ACCEPT"@]),
            ],
    {
        let ifn = self.interface_name.as_str();
        let mut r: Vec<CommandLine> = Vec::new();
        r.push(command("sudo", &["sysctl", "-w", "net.ipv4.ip_forward=1"]));
        r.push(command("sudo", &["iptables", "-t", "nat", "-A", "POSTROUTING", "-o", ifn, "-j", "MASQUERADE"]));
        r.push(command("sudo", &["iptables", "-A", "FORWARD", "-i", ifn, "-j", "ACCEPT"]));
        assert(plan(r@) =~~= seq![
            ("sudo"@, seq!["sysctl"@, "-w"@, "net.ipv4.ip_forward=1"@]),
            ("sudo"@, seq!["iptables"@, "-t"@, "nat"@, "-A"@, "POSTROUTING"@, "-o"@, self.interface_name@, "-j"@, "MASQUERADE"@]),
            ("sudo"@, seq!["iptables"@, "-A"@, "FORWARD"@, "-i"@, self.interface_name@, "-j"@, "ACCEPT"@]),
        ]);
        r
    }
}

/// The commands that make the tunnel the default route on macOS, when the
/// original gateway is known: drop the default route through it, then add
/// one through the tunnel's interface.
pub open spec fn macos_default_gateway_plan(m: TunnelManager) -> Seq<(Seq<char>, Seq<Seq<char>>)> {
    match m.original_route {
        Some(gw) => seq![
            ("sudo"@, seq!["route"@, "delete"@, "default"@, gw@]),
            ("sudo"@, seq!["route"@, "add"@, "default"@, "-interface"@, m.interface_name@]),
        ],
        None => Seq::empty(),
    }
}

/// The commands that put back the original default route on macOS, when the
/// original gateway is known.
pub open spec fn macos_restore_routing_plan(m: TunnelManager) -> Seq<(Seq<char>, Seq<Seq<char>>)> {
    match m.original_route {
        Some(gw) => seq![
            ("sudo"@, seq!["route"@, "delete"@, "default"@, "-interface"@, m.interface_name@]),
            ("sudo"@, seq!["route"@, "add"@, "default"@, gw@]),
        ],
        None => Seq::empty(),
    }
}

/// The commands that set the public DNS servers on the tunnel's interface
/// on macOS, one server per command.
pub open spec fn macos_dns_plan(m: TunnelManager) -> Seq<(Seq<char>, Seq<Seq<char>>)> {
    seq![
        ("sudo"@, seq!["networksetup"@, "-setdnsservers"@, m.interface_name@, "1.1.1.1"@]),
        ("sudo"@, seq!["networksetup"@, "-setdnsservers"@, m.interface_name@, "8.8.8.8"@]),
        ("sudo"@, seq!["networksetup"@, "-setdnsservers"@, m.interface_name@, "8.8.4.4"@]),
        ("sudo"@, seq!["networksetup"@, "-setdnsservers"@, m.interface_name@, "1.0.0.1"@]),
    ]
}

impl TunnelManager {
    /// The commands that make the tunnel the default route (macOS).
    pub fn macos_default_gateway_commands(&self) -> (r: Vec<CommandLine>)
        ensures
            plan(r@) == macos_default_gateway_plan(*self),
    {
        let mut r: Vec<CommandLine> = Vec::new();
        if let Some(gw) = &self.original_route {
            r.push(command("sudo", &["route", "delete", "default", gw.as_str()]));
            r.push(command("sudo", &["route", "add", "default", "-interface", self.interface_name.as_str()]));
        }
        assert(plan(r@) =~~= macos_default_gateway_plan(*self));
        r
    }

    /// The commands that put back the original default route (macOS).
    pub fn macos_restore_routing_commands(&self) -> (r: Vec<CommandLine>)
        ensures
            plan(r@) == macos_restore_routing_plan(*self),
    {
        let mut r: Vec<CommandLine> = Vec::new();
        if let Some(gw) = &self.original_route {
            r.push(command("sudo", &["route", "delete", "default", "-interface", self.interface_name.as_str()]));
            r.push(command("sudo", &["route", "add", "default", gw.as_str()]));
        }
        assert(plan(r@) =~~= macos_restore_routing_plan(*self));
        r
    }

    /// The commands that point the tunnel's interface at the public DNS
    /// servers (macOS).
    pub fn macos_dns_commands(&self) -> (r: Vec<CommandLine>)
        ensures
            plan(r@) == macos_dns_plan(*self),
    {
        let ifn = self.interface_name.as_str();
        let mut r: Vec<CommandLine> = Vec::new();
        r.push(command("sudo", &["networksetup", "-setdnsservers", ifn, "1.1.1.1"]));
        r.push(command("sudo", &["networksetup", "-setdnsservers", ifn, "8.8.8.8"]));
        r.push(command("sudo", &["networksetup", "-setdnsservers", ifn, "8.8.4.4"]));
        r.push(command("sudo", &["networksetup", "-setdnsservers", ifn, "1.0.0.1"]));
        assert(plan(r@) =~~= macos_dns_plan(*self));
        r
    }
}

/// Whether systemd-resolved runs, from the output of
/// `systemctl is-active systemd-resolved`: the output, trimmed, is `active`.
pub fn uses_systemd_resolved(output: &str) -> (r: bool)
    ensures
        r == (trim(output@) == "active"@),
{
    let cs = chars_of(output);
    let t = trim_chars(cs.as_slice());
    let word = chars_of("active");
    let mut same = t.len() == word.len();
    let mut i: usize = 0;
    while same && i < t.len()
        invariant
            i <= t@.len(),
            t@ == trim(output@),
            word@ == "active"@,
            same ==> t@.len() == word@.len(),
            same ==> t@.subrange(0, i as int) == word@.subrange(0, i as int),
            !same ==> t@ != word@,
        decreases t@.len() - i,
    {
        if t[i] != word[i] {
            same = false;
        } else {
            assert(t@.subrange(0, i + 1) =~= t@.subrange(0, i as int).push(t@[i as int]));
            assert(word@.subrange(0, i + 1) =~= word@.subrange(0, i as int).push(word@[i as int]));
        }
        i = i + 1;
    }
    if same {
        assert(t@ =~= t@.subrange(0, t@.len() as int));
        assert(word@ =~= word@.subrange(0, word@.len() as int));
    }
    same
}

/// The command that keeps a copy of `/etc/resolv.conf` before the tunnel
/// replaces it.
pub fn resolv_conf_backup_command() -> (r: CommandLine)
    ensures
        r@ == ("sudo"@, seq!["cp"@, "/etc/resolv.conf"@, "/etc/resolv.conf.vpn_backup"@]),
{
    let r = command("sudo", &["cp", "/etc/resolv.conf", "/etc/resolv.conf.vpn_backup"]);
    assert(r@.1 =~= seq!["cp"@, "/etc/resolv.conf"@, "/etc/resolv.conf.vpn_backup"@]);
    r
}

/// The commands that install the tunnel's resolv.conf (written to
/// `/tmp/resolv.conf.vpn`), and then check that name lookups go to DNS.
pub fn resolv_conf_install_commands() -> (r: Vec<CommandLine>)
    ensures
        plan(r@) == seq![
            ("sudo"@, seq!["mv"@, "/tmp/resolv.conf.vpn"@, "/etc/resolv.conf"@]),
            ("sudo"@, seq!["chmod"@, "644"@, "/etc/resolv.conf"@]),
            ("sudo"@, seq!["grep"@, "-q"@, "hosts:.*dns"@, "/etc/nsswitch.conf"@]),
        ],
{
    let mut r: Vec<CommandLine> = Vec::new();
    r.push(command("sudo", &["mv", "/tmp/resolv.conf.vpn", "/etc/resolv.conf"]));
    r.push(command("sudo", &["chmod", "644", "/etc/resolv.conf"]));
    r.push(command("sudo", &["grep", "-q", "hosts:.*dns", "/etc/nsswitch.conf"]));
    assert(plan(r@) =~~= seq![
        ("sudo"@, seq!["mv"@, "/tmp/resolv.conf.vpn"@, "/etc/resolv.conf"@]),
        ("sudo"@, seq!["chmod"@, "644"@, "/etc/resolv.conf"@]),
        ("sudo"@, seq!["grep"@, "-q"@, "hosts:.*dns"@, "/etc/nsswitch.conf"@]),
    ]);
    r
}

/// The command that adds DNS to the `hosts` line of `/etc/nsswitch.conf`,
/// run when the `grep` above does not find it.
pub fn nsswitch_dns_command() -> (r: CommandLine)
    ensures
        r@ == ("sudo"@, seq!["sed"@, "-i"@, "/hosts:/s/$/ dns/"@, "/etc/nsswitch.conf"@]),
{
    let r = command("sudo", &["sed", "-i", "/hosts:/s/$/ dns/", "/etc/nsswitch.conf"]);
    assert(r@.1 =~= seq!["sed"@, "-i"@, "/hosts:/s/$/ dns/"@, "/etc/nsswitch.conf"@]);
    r
}

/// What follows the name-service check of a DNS set-up: where the check
/// failed, the command that adds DNS to the `hosts` line.
pub fn nsswitch_follow_up(check_succeeded: bool) -> (r: Option<CommandLine>)
    ensures
        check_succeeded ==> r is None,
        !check_succeeded ==> (r matches Some(c) && c@ == (
            "sudo"@,
            seq!["sed"@, "-i"@, "/hosts:/s/$/ dns/"@, "/etc/nsswitch.conf"@],
        )),
{
    if check_succeeded {
        None
    } else {
        Some(nsswitch_dns_command())
    }
}

} // verus!
