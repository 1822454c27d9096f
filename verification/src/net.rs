//! IP addresses as plain values, and their dotted-decimal text.

use vstd::prelude::*;
use crate::text::{decimal, push_decimal, string_from_chars};

verus! {

/// An IPv4 address (first octet most significant) or an IPv6 address.
#[derive(Debug, Clone, Copy, PartialEq, Eq, Structural)]
pub enum IpAddress {
    V4(u32),
    V6(u128),
}

/// An IP address and a port.
#[derive(Debug, Clone, Copy, PartialEq, Eq, Structural)]
pub struct SocketAddress {
    pub ip: IpAddress,
    pub port: u16,
}

/// Octet `k` (0 to 3, from the left) of an IPv4 address.
pub open spec fn octet(ip: u32, k: int) -> u8 {
    if k == 0 {
        (ip >> 24u32) as u8
    } else if k == 1 {
        (ip >> 16u32) as u8
    } else if k == 2 {
        (ip >> 8u32) as u8
    } else {
        ip as u8
    }
}

/// The address with the given octets.
pub open spec fn ipv4_spec(a: u8, b: u8, c: u8, d: u8) -> u32 {
    ((a as u32) << 24u32) | ((b as u32) << 16u32) | ((c as u32) << 8u32) | (d as u32)
}

/// The address with the given octets.
pub fn ipv4(a: u8, b: u8, c: u8, d: u8) -> (r: u32)
    ensures
        r == ipv4_spec(a, b, c, d),
        octet(r, 0) == a && octet(r, 1) == b && octet(r, 2) == c && octet(r, 3) == d,
{
    let r = ((a as u32) << 24u32) | ((b as u32) << 16u32) | ((c as u32) << 8u32) | (d as u32);
    assert(((((a as u32) << 24u32) | ((b as u32) << 16u32) | ((c as u32) << 8u32) | (d as u32))
        >> 24u32) as u8 == a) by (bit_vector);
    assert(((((a as u32) << 24u32) | ((b as u32) << 16u32) | ((c as u32) << 8u32) | (d as u32))
        >> 16u32) as u8 == b) by (bit_vector);
    assert(((((a as u32) << 24u32) | ((b as u32) << 16u32) | ((c as u32) << 8u32) | (d as u32))
        >> 8u32) as u8 == c) by (bit_vector);
    assert((((a as u32) << 24u32) | ((b as u32) << 16u32) | ((c as u32) << 8u32) | (d as u32))
        as u8 == d) by (bit_vector);
    r
}

/// Octet `k` of an address.
pub fn get_octet(ip: u32, k: usize) -> (r: u8)
    requires
        k < 4,
    ensures
        r == octet(ip, k as int),
{
    if k == 0 {
        (ip >> 24u32) as u8
    } else if k == 1 {
        (ip >> 16u32) as u8
    } else if k == 2 {
        (ip >> 8u32) as u8
    } else {
        ip as u8
    }
}

/// Dotted-decimal text of an IPv4 address.
pub open spec fn dotted(ip: u32) -> Seq<char> {
    decimal(octet(ip, 0) as nat) + seq!['.'] + decimal(octet(ip, 1) as nat) + seq!['.'] + decimal(
        octet(ip, 2) as nat,
    ) + seq!['.'] + decimal(octet(ip, 3) as nat)
}

/// Appends the dotted-decimal text of an IPv4 address.
pub fn push_dotted(out: &mut Vec<char>, ip: u32)
    ensures
        final(out)@ == old(out)@ + dotted(ip),
{
    push_decimal(out, get_octet(ip, 0) as u64);
    out.push('.');
    push_decimal(out, get_octet(ip, 1) as u64);
    out.push('.');
    push_decimal(out, get_octet(ip, 2) as u64);
    out.push('.');
    push_decimal(out, get_octet(ip, 3) as u64);
    assert(out@ =~= old(out)@ + dotted(ip));
}

/// Writes an IPv4 address in dotted-decimal form.
pub fn ipv4_to_string(ip: u32) -> (s: String)
    ensures
        s@ == dotted(ip),
{
    let mut out: Vec<char> = Vec::new();
    push_dotted(&mut out, ip);
    assert(out@ =~= dotted(ip));
    string_from_chars(&out)
}

} // verus!
