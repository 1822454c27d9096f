//! The shell command lines (run with `sh -c`) that configure a TUN/TAP
//! interface on Linux or a utun interface on macOS, and the reading of the
//! interface statistics that Linux keeps in files.

use vstd::prelude::*;
use crate::error::{Result, VpnError};
use crate::ipv4_text::{parse_dotted, leading_ones, netmask_to_cidr, is_digit, digits_value};
use crate::scan::{trim, chars_of, trim_chars};
use crate::text::{join2, decimal, u64_to_decimal};

verus! {

/// The concatenation of three strings.
fn join3(a: &str, b: &str, c: &str) -> (r: String)
    ensures
        r@ == a@ + b@ + c@,
{
    let ab = join2(a, b);
    join2(ab.as_str(), c)
}

/// `sudo ip link set dev <name> up` (Linux).
pub fn link_up_command(name: &str) -> (r: String)
    ensures
        r@ == "sudo ip link set dev "@ + name@ + " up"@,
{
    join3("sudo ip link set dev ", name, " up")
}

/// `sudo ip addr add <local> peer <remote> dev <name>`: the point-to-point
/// address of a TUN interface (Linux).
pub fn tun_address_command(local_ip: &str, remote_ip: &str, name: &str) -> (r: String)
    ensures
        r@ == "sudo ip addr add "@ + local_ip@ + " peer "@ + remote_ip@ + " dev "@ + name@,
{
    let a = join3("sudo ip addr add ", local_ip, " peer ");
    let b = join3(a.as_str(), remote_ip, " dev ");
    join2(b.as_str(), name)
}

/// `sudo ip addr add <local>/<prefix> dev <name>`: the address of a TAP
/// interface (Linux), with the prefix length of `netmask`. A netmask that
/// is not a dotted-decimal IPv4 address is refused.
pub fn tap_address_command(local_ip: &str, netmask: &str, name: &str) -> (r: Result<String>)
    ensures
        match parse_dotted(netmask@) {
            Some(mask) => r matches Ok(s) && s@ == "sudo ip addr add "@ + local_ip@ + "/"@
                + decimal(leading_ones(mask) as nat) + " dev "@ + name@,
            None => r matches Err(VpnError::Configuration(m)) && m@ == "Invalid netmask"@,
        },
{
    let cidr = match netmask_to_cidr(netmask) {
        Ok(n) => n,
        Err(e) => {
            return Err(e);
        },
    };
    let prefix = u64_to_decimal(cidr as u64);
    let a = join3("sudo ip addr add ", local_ip, "/");
    let b = join3(a.as_str(), prefix.as_str(), " dev ");
    Ok(join2(b.as_str(), name))
}

/// The address command of an interface (Linux): point-to-point for a TUN
/// interface, address and prefix for a TAP interface.
pub fn address_command(is_tun: bool, local_ip: &str, remote_ip: &str, netmask: &str, name: &str) -> (r: Result<String>)
    ensures
        is_tun ==> (r matches Ok(s) && s@ == "sudo ip addr add "@ + local_ip@ + " peer "@ + remote_ip@
            + " dev "@ + name@),
        !is_tun ==> match parse_dotted(netmask@) {
            Some(mask) => r matches Ok(s) && s@ == "sudo ip addr add "@ + local_ip@ + "/"@
                + decimal(leading_ones(mask) as nat) + " dev "@ + name@,
            None => r matches Err(VpnError::Configuration(m)) && m@ == "Invalid netmask"@,
        },
{
    if is_tun {
        Ok(tun_address_command(local_ip, remote_ip, name))
    } else {
        tap_address_command(local_ip, netmask, name)
    }
}

/// `sudo ip link set dev <name> mtu <mtu>` (Linux).
pub fn linux_mtu_command(name: &str, mtu: u32) -> (r: String)
    ensures
        r@ == "sudo ip link set dev "@ + name@ + " mtu "@ + decimal(mtu as nat),
{
    let m = u64_to_decimal(mtu as u64);
    let a = join3("sudo ip link set dev ", name, " mtu ");
    join2(a.as_str(), m.as_str())
}

/// `sudo ip route add <destination> dev <interface>` (Linux).
pub fn route_add_command(destination: &str, interface: &str) -> (r: String)
    ensures
        r@ == "sudo ip route add "@ + destination@ + " dev "@ + interface@,
{
    let a = join3("sudo ip route add ", destination, " dev ");
    join2(a.as_str(), interface)
}

/// `sudo ip route del <destination> dev <interface>` (Linux).
pub fn route_del_command(destination: &str, interface: &str) -> (r: String)
    ensures
        r@ == "sudo ip route del "@ + destination@ + " dev "@ + interface@,
{
    let a = join3("sudo ip route del ", destination, " dev ");
    join2(a.as_str(), interface)
}

/// `sudo ifconfig <name> <local> <remote> up`: the addresses of a utun
/// interface (macOS).
pub fn utun_configure_command(name: &str, local_ip: &str, remote_ip: &str) -> (r: String)
    ensures
        r@ == "sudo ifconfig "@ + name@ + " "@ + local_ip@ + " "@ + remote_ip@ + " up"@,
{
    let a = join3("sudo ifconfig ", name, " ");
    let b = join3(a.as_str(), local_ip, " ");
    join3(b.as_str(), remote_ip, " up")
}

/// `sudo route add -net <remote> <netmask> <local>`: the route through a
/// utun interface (macOS).
pub fn utun_route_command(local_ip: &str, remote_ip: &str, netmask: &str) -> (r: String)
    ensures
        r@ == "sudo route add -net "@ + remote_ip@ + " "@ + netmask@ + " "@ + local_ip@,
{
    let a = join3("sudo route add -net ", remote_ip, " ");
    let b = join3(a.as_str(), netmask, " ");
    join2(b.as_str(), local_ip)
}

/// `sudo ifconfig <name> mtu <mtu>` (macOS).
pub fn utun_mtu_command(name: &str, mtu: u32) -> (r: String)
    ensures
        r@ == "sudo ifconfig "@ + name@ + " mtu "@ + decimal(mtu as nat),
{
    let m = u64_to_decimal(mtu as u64);
    let a = join3("sudo ifconfig ", name, " mtu ");
    join2(a.as_str(), m.as_str())
}

/// `netstat -I <name> -b`: the statistics of an interface (macOS).
pub fn utun_stats_command(name: &str) -> (r: String)
    ensures
        r@ == "netstat -I "@ + name@ + " -b"@,
{
    join3("netstat -I ", name, " -b")
}

/// The file in which Linux keeps the statistic `stat` (such as `rx_bytes`)
/// of an interface.
pub fn stat_file_path(name: &str, stat: &str) -> (r: String)
    ensures
        r@ == "/sys/class/net/"@ + name@ + "/statistics/"@ + stat@,
{
    let a = join3("/sys/class/net/", name, "/statistics/");
    join2(a.as_str(), stat)
}

/// The digits of an unsigned number's text: what follows one leading `+`.
pub open spec fn unsigned_digits(t: Seq<char>) -> Seq<char> {
    if t.len() > 0 && t[0] == '+' {
        t.drop_first()
    } else {
        t
    }
}

/// The `u64` that `t` writes, as `str::parse::<u64>` reads it: an optional
/// `+`, then one or more decimal digits, of a value that fits.
pub open spec fn parse_u64(t: Seq<char>) -> Option<u64> {
    let d = unsigned_digits(t);
    if d.len() >= 1 && (forall|i: int| 0 <= i < d.len() ==> is_digit(#[trigger] d[i]))
        && digits_value(d) <= u64::MAX {
        Some(digits_value(d) as u64)
    } else {
        None
    }
}

/// A prefix of a run of digits writes no more than the whole run.
proof fn lemma_digits_prefix_le(t: Seq<char>, k: int)
    requires
        0 <= k <= t.len(),
        forall|i: int| 0 <= i < t.len() ==> is_digit(#[trigger] t[i]),
    ensures
        digits_value(t.subrange(0, k)) <= digits_value(t),
    decreases t.len() - k,
{
    if k < t.len() {
        let u = t.subrange(0, k + 1);
        assert(u.drop_last() =~= t.subrange(0, k));
        assert(is_digit(t[k]));
        lemma_digits_nonneg(t.subrange(0, k));
        lemma_digits_prefix_le(t, k + 1);
    } else {
        assert(t.subrange(0, k) =~= t);
    }
}

proof fn lemma_digits_nonneg(t: Seq<char>)
    requires
        forall|i: int| 0 <= i < t.len() ==> is_digit(#[trigger] t[i]),
    ensures
        digits_value(t) >= 0,
    decreases t.len(),
{
    if t.len() > 0 {
        assert(is_digit(t[t.len() - 1]));
        lemma_digits_nonneg(t.drop_last());
    }
}

/// Read an unsigned number as `str::parse::<u64>` does.
pub fn parse_u64_text(t: &[char]) -> (r: Option<u64>)
    ensures
        r == parse_u64(t@),
{
    let start: usize = if t.len() > 0 && t[0] == '+' { 1 } else { 0 };
    let ghost d = unsigned_digits(t@);
    assert(d =~= t@.subrange(start as int, t@.len() as int));
    if start >= t.len() {
        return None;
    }
    let mut acc: u64 = 0;
    let mut i: usize = start;
    while i < t.len()
        invariant
            start <= i <= t@.len(),
            start < t@.len(),
            d == unsigned_digits(t@),
            d =~= t@.subrange(start as int, t@.len() as int),
            forall|j: int| 0 <= j < i - start ==> is_digit(#[trigger] d[j]),
            acc == digits_value(d.subrange(0, i - start)),
        decreases t@.len() - i,
    {
        let c = t[i];
        if !('0' <= c && c <= '9') {
            assert(d[i - start] == c);
            assert(!is_digit(d[i - start]));
            return None;
        }
        let ghost k: int = i - start;
        assert(d.subrange(0, k + 1).drop_last() =~= d.subrange(0, k));
        assert(d.subrange(0, k + 1).last() == c);
        let digit: u64 = (c as u32 - '0' as u32) as u64;
        if acc > (u64::MAX - digit) / 10 {
            proof {
                assert(acc * 10 + digit > u64::MAX) by (nonlinear_arith)
                    requires
                        acc > (u64::MAX - digit) / 10,
                        digit <= 9,
                ;
                assert forall|j: int| 0 <= j < k + 1 implies is_digit(#[trigger] d.subrange(0, k + 1)[j]) by {
                    if j < k {
                        assert(d.subrange(0, k + 1)[j] == d[j]);
                    }
                }
                if forall|j: int| 0 <= j < d.len() ==> is_digit(#[trigger] d[j]) {
                    lemma_digits_prefix_le(d, k + 1);
                }
            }
            return None;
        }
        proof {
            assert(acc * 10 + digit <= u64::MAX) by (nonlinear_arith)
                requires
                    acc <= (u64::MAX - digit) / 10,
                    digit <= 9,
            ;
        }
        acc = acc * 10 + digit;
        i = i + 1;
    }
    assert(d.subrange(0, d.len() as int) =~= d);
    Some(acc)
}

/// The value of a statistic file's content, as Linux writes it: the
/// number, read without the whitespace around it; 0 where it is not one.
pub fn stat_value(content: &str) -> (r: u64)
    ensures
        r == match parse_u64(trim(content@)) {
            Some(v) => v,
            None => 0,
        },
{
    let cs = chars_of(content);
    let t = trim_chars(cs.as_slice());
    match parse_u64_text(t.as_slice()) {
        Some(v) => v,
        None => 0,
    }
}

} // verus!
