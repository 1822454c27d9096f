//! Setting a tunnel interface up: the commands that bring a new TUN
//! interface up, and the fallback set-ups of each platform, where the
//! tunnel manager decides which interface it uses from what the system
//! reported.

use vstd::prelude::*;
use crate::net::{dotted, ipv4_to_string};
use crate::text::{decimal, join2, u64_to_decimal};
use crate::scan::contains;
use crate::tunnel::TunnelManager;
use crate::tunnel::routing::{CommandLine, command, plan};

verus! {

/// The name of the `i`-th utun interface (macOS).
pub open spec fn utun_name(i: nat) -> Seq<char> {
    "utun"@ + decimal(i)
}

/// The first of the utun interfaces 0 to 9 that the probes report free:
/// `in_use[i]` tells whether `utun<i>` exists.
pub open spec fn first_free_utun(in_use: Seq<bool>) -> Option<nat> {
    if exists|i: int| 0 <= i < 10 && i < in_use.len() && !#[trigger] in_use[i] {
        Some(choose|i: nat| i < 10 && i < in_use.len() && !#[trigger] in_use[i as int]
            && forall|j: int| 0 <= j < i ==> in_use[j])
    } else {
        None
    }
}

impl TunnelManager {
    /// The commands that bring a newly created TUN interface up (Linux),
    /// then show its status.
    pub fn interface_up_commands(&self) -> (r: Vec<CommandLine>)
        ensures
            plan(r@) == seq![
                ("sudo"@, seq!["ip"@, "link"@, "set"@, "dev"@, self.interface_name@, "up"@]),
                ("ip"@, seq!["addr"@, "show"@, self.interface_name@]),
            ],
    {
        let ifn = self.interface_name.as_str();
        let mut r: Vec<CommandLine> = Vec::new();
        r.push(command("sudo", &["ip", "link", "set", "dev", ifn, "up"]));
        r.push(command("ip", &["addr", "show", ifn]));
        assert(plan(r@) =~~= seq![
            ("sudo"@, seq!["ip"@, "link"@, "set"@, "dev"@, self.interface_name@, "up"@]),
            ("ip"@, seq!["addr"@, "show"@, self.interface_name@]),
        ]);
        r
    }

    /// The command that makes the interface a point-to-point link to the
    /// remote address, for an interface whose status shows it down or
    /// without carrier (Linux).
    pub fn point_to_point_command(&self) -> (r: CommandLine)
        ensures
            r@ == ("sudo"@, seq!["ip"@, "link"@, "set"@, "dev"@, self.interface_name@, "up"@,
                "pointopoint"@, dotted(self.config.remote_ip)]),
    {
        let remote = ipv4_to_string(self.config.remote_ip);
        let r = command("sudo", &["ip", "link", "set", "dev", self.interface_name.as_str(), "up",
            "pointopoint", remote.as_str()]);
        assert(r@.1 =~= seq!["ip"@, "link"@, "set"@, "dev"@, self.interface_name@, "up"@,
            "pointopoint"@, dotted(self.config.remote_ip)]);
        r
    }

    /// The command that creates the fallback TUN interface `vpnse0` (Linux).
    pub fn tuntap_add_command() -> (r: CommandLine)
        ensures
            r@ == ("sudo"@, seq!["ip"@, "tuntap"@, "add"@, "dev"@, "vpnse0"@, "mode"@, "tun"@]),
    {
        let r = command("sudo", &["ip", "tuntap", "add", "dev", "vpnse0", "mode", "tun"]);
        assert(r@.1 =~= seq!["ip"@, "tuntap"@, "add"@, "dev"@, "vpnse0"@, "mode"@, "tun"@]);
        r
    }

    /// The fallback set-up on Linux, once the creation of `vpnse0` has been
    /// tried: where it was created the tunnel uses it and gets the commands
    /// that give it its address (a /24) and bring it up; otherwise the tunnel
    /// runs on the demonstration interface `tun_demo`, with nothing to run.
    pub fn linux_fallback_set_up(&mut self, created: bool) -> (r: Vec<CommandLine>)
        ensures
            final(self).interface_name@ == if created { "vpnse0"@ } else { "tun_demo"@ },
            created ==> plan(r@) == seq![
                ("sudo"@, seq!["ip"@, "addr"@, "add"@, dotted(old(self).config.local_ip) + "/24"@, "dev"@, "vpnse0"@]),
                ("sudo"@, seq!["ip"@, "link"@, "set"@, "dev"@, "vpnse0"@, "up"@]),
            ],
            !created ==> r@.len() == 0,
            final(self).config == old(self).config,
            final(self).is_established == old(self).is_established,
            final(self).original_route == old(self).original_route,
    {
        if !created {
            self.interface_name = "tun_demo".to_owned();
            return Vec::new();
        }
        self.interface_name = "vpnse0".to_owned();
        let local = ipv4_to_string(self.config.local_ip);
        let address = join2(local.as_str(), "/24");
        let mut r: Vec<CommandLine> = Vec::new();
        r.push(command("sudo", &["ip", "addr", "add", address.as_str(), "dev", "vpnse0"]));
        r.push(command("sudo", &["ip", "link", "set", "dev", "vpnse0", "up"]));
        assert(plan(r@) =~~= seq![
            ("sudo"@, seq!["ip"@, "addr"@, "add"@, dotted(old(self).config.local_ip) + "/24"@, "dev"@, "vpnse0"@]),
            ("sudo"@, seq!["ip"@, "link"@, "set"@, "dev"@, "vpnse0"@, "up"@]),
        ]);
        r
    }

    /// The fallback set-up on macOS, once the interfaces `utun0` to `utun9`
    /// have been probed in order (`in_use[i]`: `utun<i>` exists; probing may
    /// stop at the first free one): the tunnel takes the first free one and
    /// gets the command that gives it its addresses; where none is free it
    /// runs on the demonstration interface `utun_demo`, with nothing to run.
    pub fn macos_fallback_set_up(&mut self, in_use: &[bool]) -> (r: Option<CommandLine>)
        ensures
            match first_free_utun(in_use@) {
                Some(i) => final(self).interface_name@ == utun_name(i) && (r matches Some(c) && c@ == (
                    "sudo"@,
                    seq!["ifconfig"@, utun_name(i), dotted(old(self).config.local_ip),
                        dotted(old(self).config.remote_ip), "up"@],
                )),
                None => final(self).interface_name@ == "utun_demo"@ && r is None,
            },
            final(self).config == old(self).config,
            final(self).is_established == old(self).is_established,
            final(self).original_route == old(self).original_route,
    {
        let mut i: usize = 0;
        while i < 10 && i < in_use.len()
            invariant
                i <= 10,
                i <= in_use@.len(),
                forall|j: int| 0 <= j < i ==> in_use@[j],
                *self == *old(self),
            decreases 10 - i,
        {
            if !in_use[i] {
                let name = join2("utun", u64_to_decimal(i as u64).as_str());
                let local = ipv4_to_string(self.config.local_ip);
                let remote = ipv4_to_string(self.config.remote_ip);
                let c = command("sudo", &["ifconfig", name.as_str(), local.as_str(), remote.as_str(), "up"]);
                proof {
                    let w = choose|k: nat| k < 10 && k < in_use@.len() && !#[trigger] in_use@[k as int]
                        && forall|j: int| 0 <= j < k ==> in_use@[j];
                    assert(i < 10 && i < in_use@.len() && !in_use@[i as int]
                        && forall|j: int| 0 <= j < i ==> in_use@[j]);
                    if w < i {
                        assert(in_use@[w as int]);
                    }
                    if w > i {
                        assert(in_use@[i as int]);
                    }
                    assert(w == i);
                    assert(c@.1 =~= seq!["ifconfig"@, utun_name(i as nat), dotted(self.config.local_ip),
                        dotted(self.config.remote_ip), "up"@]);
                }
                self.interface_name = name;
                return Some(c);
            }
            i = i + 1;
        }
        self.interface_name = "utun_demo".to_owned();
        None
    }

    /// The fallback set-up on Windows, from the output of
    /// `netsh interface show interface`: the TAP adapter when one is listed,
    /// else the virtual interface `VPN_Interface`.
    pub fn windows_fallback_set_up(&mut self, interfaces: &str)
        ensures
            final(self).interface_name@ == if contains(interfaces@, "TAP"@) {
                "TAP-Windows"@
            } else {
                "VPN_Interface"@
            },
            final(self).config == old(self).config,
            final(self).is_established == old(self).is_established,
            final(self).original_route == old(self).original_route,
    {
        self.interface_name = crate::tunnel::parse::windows_interface_name(interfaces);
    }

    /// The set-up where no platform support exists: the demonstration
    /// interface `vpnse_demo`.
    pub fn demo_set_up(&mut self)
        ensures
            final(self).interface_name@ == "vpnse_demo"@,
            final(self).config == old(self).config,
            final(self).is_established == old(self).is_established,
            final(self).original_route == old(self).original_route,
    {
        self.interface_name = "vpnse_demo".to_owned();
    }
}

} // verus!
