//! Recognising the text of an IP address: dotted-decimal IPv4, or IPv6 in
//! the forms of RFC 4291 (eight groups of one to four hexadecimal digits,
//! with one `::` standing for one or more zero groups, and an optional
//! dotted-decimal IPv4 address for the last two groups), without zone or
//! brackets. These are the texts that the standard library's `IpAddr`
//! parser accepts.

use vstd::prelude::*;
use crate::ipv4_text::{parse_dotted, parse_ipv4};
use crate::scan::{chars_of, find, find_chars_from, lemma_find_from};
use crate::text::string_from_chars;

verus! {

/// Whether `c` is a hexadecimal digit.
pub open spec fn is_hex_digit(c: char) -> bool {
    ('0' <= c && c <= '9') || ('a' <= c && c <= 'f') || ('A' <= c && c <= 'F')
}

/// Whether `t` is one group of an IPv6 address: one to four hex digits.
pub open spec fn hex_group(t: Seq<char>) -> bool {
    &&& 1 <= t.len() <= 4
    &&& forall|i: int| 0 <= i < t.len() ==> is_hex_digit(#[trigger] t[i])
}

/// The pieces of `s` between colons.
pub open spec fn split_colons(s: Seq<char>) -> Seq<Seq<char>>
    decreases s.len(),
{
    match find(s, seq![':']) {
        Some(i) => {
            proof {
                lemma_find_from(s, seq![':'], 0);
            }
            seq![s.subrange(0, i)] + split_colons(s.subrange(i + 1, s.len() as int))
        },
        None => seq![s],
    }
}

/// How many 16-bit groups the colon-separated pieces `p` write: each piece
/// a hex group, except that where `v4_last` allows it the last piece may be
/// a dotted IPv4 address, which writes two; `None` where they write none.
pub open spec fn pieces_groups(p: Seq<Seq<char>>, v4_last: bool) -> Option<int> {
    if forall|i: int| 0 <= i < p.len() ==> hex_group(#[trigger] p[i]) {
        Some(p.len() as int)
    } else if v4_last && p.len() >= 1 && (forall|i: int| 0 <= i < p.len() - 1 ==> hex_group(#[trigger] p[i]))
        && parse_dotted(p.last()) is Some {
        Some(p.len() + 1int)
    } else {
        None
    }
}

/// The groups one side of a `::` writes: none for empty text.
pub open spec fn side_groups(s: Seq<char>, v4_last: bool) -> Option<int> {
    if s.len() == 0 {
        Some(0)
    } else {
        pieces_groups(split_colons(s), v4_last)
    }
}

/// Whether `s` is the text of an IPv6 address: eight groups; or groups
/// before and after one `::`, the ones before it all hex, seven at most in
/// all.
pub open spec fn ipv6_text(s: Seq<char>) -> bool {
    match find(s, seq![':', ':']) {
        None => pieces_groups(split_colons(s), true) == Some(8int),
        Some(i) => match (
            side_groups(s.subrange(0, i), false),
            side_groups(s.subrange(i + 2, s.len() as int), true),
        ) {
            (Some(h), Some(t)) => h + t <= 7,
            _ => false,
        },
    }
}

/// Whether `s` is the text of an IP address, IPv4 or IPv6.
pub open spec fn ip_text(s: Seq<char>) -> bool {
    parse_dotted(s) is Some || ipv6_text(s)
}

/// The characters of `s` from `from` to `to`.
fn copy_range(s: &[char], from: usize, to: usize) -> (r: Vec<char>)
    requires
        from <= to <= s@.len(),
    ensures
        r@ == s@.subrange(from as int, to as int),
{
    let mut r: Vec<char> = Vec::new();
    let mut k: usize = from;
    while k < to
        invariant
            from <= k <= to,
            to <= s@.len(),
            r@ == s@.subrange(from as int, k as int),
        decreases to - k,
    {
        r.push(s[k]);
        k = k + 1;
    }
    r
}

/// The pieces of `s` between colons.
fn split_on_colons(s: &[char]) -> (r: Vec<Vec<char>>)
    ensures
        r@.map_values(|p: Vec<char>| p@) == split_colons(s@),
    decreases s@.len(),
{
    let colon: [char; 1] = [':'];
    let cs = colon.as_slice();
    assert(cs@ =~= seq![':']);
    let n = s.len();
    let found = find_chars_from(s, cs, 0);
    proof {
        lemma_find_from(s@, seq![':'], 0);
    }
    match found {
        Some(i) => {
            let head = copy_range(s, 0, i);
            let tail = copy_range(s, i + 1, n);
            let rest = split_on_colons(tail.as_slice());
            let mut r: Vec<Vec<char>> = Vec::new();
            r.push(head);
            let mut j: usize = 0;
            let ghost rv = rest@.map_values(|p: Vec<char>| p@);
            while j < rest.len()
                invariant
                    j <= rest@.len(),
                    rv == rest@.map_values(|p: Vec<char>| p@),
                    r@.len() == j + 1,
                    r@[0]@ == s@.subrange(0, i as int),
                    forall|q: int| 1 <= q <= j ==> (#[trigger] r@[q])@ == rv[q - 1],
                decreases rest@.len() - j,
            {
                r.push(rest[j].clone());
                j = j + 1;
            }
            assert(r@.map_values(|p: Vec<char>| p@) =~= seq![s@.subrange(0, i as int)] + rv);
            r
        },
        None => {
            let head = copy_range(s, 0, n);
            let mut r: Vec<Vec<char>> = Vec::new();
            r.push(head);
            assert(head@ =~= s@);
            assert(r@.map_values(|p: Vec<char>| p@) =~= seq![s@]);
            r
        },
    }
}

fn is_hex_char(c: char) -> (r: bool)
    ensures
        r == is_hex_digit(c),
{
    ('0' <= c && c <= '9') || ('a' <= c && c <= 'f') || ('A' <= c && c <= 'F')
}

fn is_hex_group(t: &Vec<char>) -> (r: bool)
    ensures
        r == hex_group(t@),
{
    if t.len() < 1 || t.len() > 4 {
        return false;
    }
    let mut i: usize = 0;
    while i < t.len()
        invariant
            i <= t@.len(),
            forall|j: int| 0 <= j < i ==> is_hex_digit(#[trigger] t@[j]),
        decreases t@.len() - i,
    {
        if !is_hex_char(t[i]) {
            return false;
        }
        i = i + 1;
    }
    true
}

/// How many groups the pieces write, as [`pieces_groups`] counts them: the
/// number of pieces, and whether the last one is an IPv4 address (which
/// writes one group more).
fn groups_of(p: &Vec<Vec<char>>, v4_last: bool) -> (r: Option<(usize, bool)>)
    ensures
        match pieces_groups(p@.map_values(|x: Vec<char>| x@), v4_last) {
            Some(g) => r matches Some((k, v)) && g == k + (if v { 1int } else { 0int }),
            None => r is None,
        },
{
    let ghost pv = p@.map_values(|x: Vec<char>| x@);
    let n = p.len();
    // how many leading pieces are hex groups
    let mut i: usize = 0;
    while i < n && is_hex_group(&p[i])
        invariant
            i <= n,
            n == p@.len(),
            pv == p@.map_values(|x: Vec<char>| x@),
            forall|j: int| 0 <= j < i ==> hex_group(#[trigger] pv[j]),
        decreases n - i,
    {
        assert(pv[i as int] == p@[i as int]@);
        i = i + 1;
    }
    if i == n {
        return Some((n, false));
    }
    assert(pv[i as int] == p@[i as int]@);
    assert(!hex_group(pv[i as int]));
    if v4_last && i + 1 == n {
        let text = string_from_chars(&p[i]);
        if parse_ipv4(text.as_str()).is_some() {
            assert(pv.last() == p@[i as int]@);
            return Some((n, true));
        }
    }
    assert(!(forall|j: int| 0 <= j < pv.len() ==> hex_group(#[trigger] pv[j])));
    proof {
        if v4_last && pv.len() >= 1 && (forall|j: int| 0 <= j < pv.len() - 1 ==> hex_group(#[trigger] pv[j])) {
            if i < n - 1 {
                assert(hex_group(pv[i as int]));
            }
        }
    }
    None
}

/// The groups one side of a `::` writes, as [`side_groups`] counts them,
/// when they are at most seven.
fn side_groups_of(s: &[char], v4_last: bool) -> (r: Option<usize>)
    ensures
        match side_groups(s@, v4_last) {
            Some(g) => if g <= 7 { r == Some(g as usize) } else { r is None },
            None => r is None,
        },
{
    if s.len() == 0 {
        return Some(0);
    }
    let parts = split_on_colons(s);
    match groups_of(&parts, v4_last) {
        Some((k, v)) => {
            if k > 7 {
                None
            } else if v {
                if k + 1 > 7 { None } else { Some(k + 1) }
            } else {
                Some(k)
            }
        },
        None => None,
    }
}

/// Whether `s` is the text of an IPv6 address.
pub fn is_ipv6_text(s: &[char]) -> (r: bool)
    ensures
        r == ipv6_text(s@),
{
    let n = s.len();
    let dc: [char; 2] = [':', ':'];
    let ds = dc.as_slice();
    assert(ds@ =~= seq![':', ':']);
    let found = find_chars_from(s, ds, 0);
    proof {
        lemma_find_from(s@, seq![':', ':'], 0);
    }
    match found {
        None => {
            let parts = split_on_colons(s);
            match groups_of(&parts, true) {
                Some((k, v)) => if v { k == 7 } else { k == 8 },
                None => false,
            }
        },
        Some(i) => {
            assert(crate::scan::occurs_at(s@, seq![':', ':'], i as int));
            let head = copy_range(s, 0, i);
            let tail = copy_range(s, i + 2, n);
            let h = side_groups_of(head.as_slice(), false);
            let t = side_groups_of(tail.as_slice(), true);
            proof {
                assert(head@ == s@.subrange(0, i as int));
            }
            match (h, t) {
                (Some(a), Some(b)) => a <= 7 && b <= 7 - a,
                _ => false,
            }
        },
    }
}

/// Whether `text` is the text of an IP address, IPv4 or IPv6.
pub fn is_ip_text(text: &str) -> (r: bool)
    ensures
        r == ip_text(text@),
{
    if parse_ipv4(text).is_some() {
        return true;
    }
    let cs = chars_of(text);
    is_ipv6_text(cs.as_slice())
}

} // verus!
