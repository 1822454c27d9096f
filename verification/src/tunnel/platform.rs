//! What the platform-specific tunnel code reads and reports: interface
//! statistics, routing table entries, TUN availability and TAP devices.

use vstd::prelude::*;
use crate::error::Result;
use crate::scan::{lines, split_lines, split_words, words};
use crate::text::string_from_chars;
use crate::tunnel::parse::collect_some;

verus! {

/// Interface statistics.
#[derive(Debug, Clone, Copy, PartialEq, Eq, Structural)]
pub struct InterfaceStats {
    pub bytes_received: u64,
    pub bytes_sent: u64,
    pub packets_received: u64,
    pub packets_sent: u64,
    pub errors_received: u64,
    pub errors_sent: u64,
}

impl Default for InterfaceStats {
    fn default() -> (r: Self)
        ensures
            r == (InterfaceStats {
                bytes_received: 0,
                bytes_sent: 0,
                packets_received: 0,
                packets_sent: 0,
                errors_received: 0,
                errors_sent: 0,
            }),
    {
        InterfaceStats {
            bytes_received: 0,
            bytes_sent: 0,
            packets_received: 0,
            packets_sent: 0,
            errors_received: 0,
            errors_sent: 0,
        }
    }
}

/// The statistics read from `netstat -I <interface> -b` (macOS). The columns
/// are not read: every count is zero.
pub fn parse_netstat_output(output: &str) -> (r: Result<InterfaceStats>)
    ensures
        r == Ok::<InterfaceStats, crate::error::VpnError>(InterfaceStats {
            bytes_received: 0,
            bytes_sent: 0,
            packets_received: 0,
            packets_sent: 0,
            errors_received: 0,
            errors_sent: 0,
        }),
{
    Ok(InterfaceStats::default())
}

/// Routing table entry.
#[derive(Debug)]
pub struct Route {
    pub destination: String,
    pub gateway: String,
    pub interface: String,
}

/// The route on a line of `netstat -rn -f inet` (macOS): destination,
/// gateway and the sixth column, the interface.
pub open spec fn route_line(line: Seq<char>) -> Option<Seq<char>> {
    if words(line).len() >= 6 {
        Some(line)
    } else {
        None
    }
}

/// The routes of a routing table printed by `netstat -rn -f inet` (macOS):
/// after the four header lines, every line of at least six columns gives
/// its first, second and sixth column.
pub fn parse_routing_table(output: &str) -> (r: Result<Vec<Route>>)
    ensures
        r matches Ok(routes) && {
            let ls = if lines(output@).len() >= 4 {
                lines(output@).subrange(4, lines(output@).len() as int)
            } else {
                Seq::<Seq<char>>::empty()
            };
            let rows = collect_some(ls, |l: Seq<char>| route_line(l));
            &&& routes@.len() == rows.len()
            &&& forall|k: int|
                0 <= k < rows.len() ==> (#[trigger] routes@[k]).destination@ == words(rows[k])[0]
                    && routes@[k].gateway@ == words(rows[k])[1] && routes@[k].interface@ == words(
                    rows[k],
                )[5]
        },
{
    let ls = split_lines(output);
    let ghost lv = ls@.map_values(|l: Vec<char>| l@);
    let ghost f = |l: Seq<char>| route_line(l);
    let ghost skipped = if lv.len() >= 4 {
        lv.subrange(4, lv.len() as int)
    } else {
        Seq::<Seq<char>>::empty()
    };
    let mut routes: Vec<Route> = Vec::new();
    let ghost mut rows: Seq<Seq<char>> = Seq::empty();
    let mut i: usize = if ls.len() >= 4 { 4 } else { ls.len() };
    proof {
        if lv.len() >= 4 {
            assert(lv.subrange(i as int, lv.len() as int) =~= skipped);
        } else {
            assert(lv.subrange(i as int, lv.len() as int) =~= skipped);
        }
    }
    while i < ls.len()
        invariant
            i <= ls@.len(),
            lv == ls@.map_values(|l: Vec<char>| l@),
            lv == lines(output@),
            f == (|l: Seq<char>| route_line(l)),
            collect_some(skipped, f) == rows + collect_some(lv.subrange(i as int, lv.len() as int), f),
            routes@.len() == rows.len(),
            forall|k: int|
                0 <= k < rows.len() ==> (#[trigger] routes@[k]).destination@ == words(rows[k])[0]
                    && routes@[k].gateway@ == words(rows[k])[1] && routes@[k].interface@ == words(
                    rows[k],
                )[5],
        decreases ls@.len() - i,
    {
        proof {
            let s = lv.subrange(i as int, lv.len() as int);
            assert(s[0] == lv[i as int]);
            assert(s.drop_first() =~= lv.subrange(i + 1, lv.len() as int));
            assert(lv[i as int] == ls@[i as int]@);
        }
        let parts = split_words(ls[i].as_slice());
        if parts.len() >= 6 {
            proof {
                let pv = parts@.map_values(|w: Vec<char>| w@);
                assert(pv[0] == parts@[0]@);
                assert(pv[1] == parts@[1]@);
                assert(pv[5] == parts@[5]@);
            }
            routes.push(
                Route {
                    destination: string_from_chars(&parts[0]),
                    gateway: string_from_chars(&parts[1]),
                    interface: string_from_chars(&parts[5]),
                },
            );
            proof {
                rows = rows.push(lv[i as int]);
                assert(seq![lv[i as int]] + collect_some(lv.subrange(i + 1, lv.len() as int), f)
                    =~= seq![lv[i as int]].add(collect_some(lv.subrange(i + 1, lv.len() as int), f)));
                assert(rows.drop_last() + seq![lv[i as int]] =~= rows);
            }
        }
        i = i + 1;
    }
    assert(collect_some(lv.subrange(i as int, lv.len() as int), f) =~= Seq::<Seq<char>>::empty());
    assert(rows + Seq::<Seq<char>>::empty() =~= rows);
    Ok(routes)
}

/// Whether a file exists at `path`.
///
/// Trusted: calls `std::path::Path::exists`. Nothing is promised of the
/// answer: it depends on the file system.
#[verifier::external_body]
fn path_exists(path: &str) -> (r: bool) {
    std::path::Path::new(path).exists()
}

/// The device through which Linux hands out TUN interfaces.
pub const TUN_DEVICE: &'static str = "/dev/net/tun";

/// Whether the TUN/TAP device is available (Linux).
pub fn is_tun_available() -> (r: bool) {
    path_exists(TUN_DEVICE)
}

/// Whether TUN interfaces can be made here (Linux): the TUN device exists.
pub fn has_tun_permissions() -> (r: bool) {
    path_exists(TUN_DEVICE)
}

/// Install the TAP driver (Windows): the driver is installed by hand, so
/// there is nothing to do.
pub fn install_tap_driver() -> (r: Result<()>)
    ensures
        r is Ok,
{
    Ok(())
}

/// The TAP devices to try (Windows).
pub fn list_tap_devices() -> (r: Result<Vec<String>>)
    ensures
        r matches Ok(v) && v@.len() == 2 && v@[0]@ == "\\\\.\\Global\\TAPRVPNSE01.tap"@ && v@[1]@
            == "\\\\.\\Global\\tap0901.tap"@,
{
    let mut v: Vec<String> = Vec::new();
    v.push("\\\\.\\Global\\TAPRVPNSE01.tap".to_owned());
    v.push("\\\\.\\Global\\tap0901.tap".to_owned());
    Ok(v)
}

} // verus!
