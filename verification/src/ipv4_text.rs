//! Reading IPv4 addresses written in dotted-decimal form, and netmask
//! prefix lengths.
//!
//! The accepted texts are exactly the ones that `dotted` writes: four
//! decimal octets of one to three digits, without leading zeros, separated
//! by dots. This is the grammar the standard library's `Ipv4Addr` parser
//! accepts.

use vstd::prelude::*;
use crate::error::{Result, VpnError};
use crate::net::{dotted, ipv4_spec, octet};
use crate::scan::{chars_of, find, find_chars_from, lemma_find_from, occurs_at};
use crate::text::{decimal, digit_char};

verus! {

/// Whether `c` is an ASCII digit.
pub open spec fn is_digit(c: char) -> bool {
    '0' <= c && c <= '9'
}

/// The number that the digits `t` write in decimal.
pub open spec fn digits_value(t: Seq<char>) -> int
    decreases t.len(),
{
    if t.len() == 0 {
        0
    } else {
        digits_value(t.drop_last()) * 10 + (t.last() as int - '0' as int)
    }
}

/// Whether `t` is the text of an octet: one to three digits, no leading
/// zero, at most 255.
pub open spec fn octet_text(t: Seq<char>) -> bool {
    &&& 1 <= t.len() <= 3
    &&& forall|i: int| 0 <= i < t.len() ==> is_digit(#[trigger] t[i])
    &&& t.len() > 1 ==> t[0] != '0'
    &&& digits_value(t) <= 255
}

/// The pieces of `s` between dots.
pub open spec fn split_dots(s: Seq<char>) -> Seq<Seq<char>>
    decreases s.len(),
{
    match find(s, seq!['.']) {
        Some(i) => {
            proof {
                lemma_find_from(s, seq!['.'], 0);
            }
            seq![s.subrange(0, i)] + split_dots(s.subrange(i + 1, s.len() as int))
        },
        None => seq![s],
    }
}

/// The address that `s` writes in dotted-decimal form, if it is one.
pub open spec fn parse_dotted(s: Seq<char>) -> Option<u32> {
    let p = split_dots(s);
    if p.len() == 4 && octet_text(p[0]) && octet_text(p[1]) && octet_text(p[2]) && octet_text(p[3]) {
        Some(
            ipv4_spec(
                digits_value(p[0]) as u8,
                digits_value(p[1]) as u8,
                digits_value(p[2]) as u8,
                digits_value(p[3]) as u8,
            ),
        )
    } else {
        None
    }
}

proof fn lemma_digit_char(d: nat)
    requires
        d < 10,
    ensures
        is_digit(digit_char(d)),
        digit_char(d) as int - '0' as int == d,
{
}

proof fn lemma_digit_of_char(c: char)
    requires
        is_digit(c),
    ensures
        digit_char((c as int - '0' as int) as nat) == c,
{
}

proof fn lemma_decimal_octet(n: nat)
    requires
        n <= 255,
    ensures
        octet_text(decimal(n)),
        digits_value(decimal(n)) == n,
    decreases n,
{
    let d = decimal(n);
    if n < 10 {
        lemma_digit_char(n);
        assert(d == seq![digit_char(n)]);
        assert(d.drop_last() =~= Seq::<char>::empty());
        assert(digits_value(d.drop_last()) == 0);
        assert(d.last() == digit_char(n));
    } else {
        let m = n / 10;
        lemma_decimal_octet(m);
        lemma_digit_char(n % 10);
        let dm = decimal(m);
        assert(d == dm.push(digit_char(n % 10)));
        assert(d.drop_last() =~= dm);
        assert(d.last() == digit_char(n % 10));
        assert(m * 10 + n % 10 == n);
        assert(digits_value(d) == n);
        assert forall|i: int| 0 <= i < d.len() implies is_digit(#[trigger] d[i]) by {
            if i < d.len() - 1 {
                assert(d[i] == dm[i]);
            }
        }
        assert(d[0] == dm[0]);
        if m < 10 {
            lemma_digit_char(m);
            assert(dm == seq![digit_char(m)]);
            assert(dm.len() == 1);
            assert(m >= 1);
            assert(dm[0] != '0');
        } else {
            let k = m / 10;
            assert(k < 10);
            assert(decimal(k) == seq![digit_char(k)]);
            assert(dm == decimal(k).push(digit_char(m % 10)));
            assert(dm.len() == 2);
        }
        assert(d.len() <= 3);
    }
}

proof fn lemma_digits_value_positive(t: Seq<char>)
    requires
        t.len() >= 1,
        forall|i: int| 0 <= i < t.len() ==> is_digit(#[trigger] t[i]),
        t[0] != '0',
    ensures
        digits_value(t) >= 1,
    decreases t.len(),
{
    let u = t.drop_last();
    assert(is_digit(t[t.len() - 1]));
    assert(t.last() == t[t.len() - 1]);
    if t.len() > 1 {
        assert(u[0] == t[0]);
        assert forall|i: int| 0 <= i < u.len() implies is_digit(#[trigger] u[i]) by {
            assert(u[i] == t[i]);
        }
        lemma_digits_value_positive(u);
    } else {
        assert(u =~= Seq::<char>::empty());
        assert(digits_value(u) == 0);
        assert(t.last() == t[0]);
        assert(is_digit(t[0]));
    }
}

proof fn lemma_digits_value_range(t: Seq<char>)
    requires
        forall|i: int| 0 <= i < t.len() ==> is_digit(#[trigger] t[i]),
    ensures
        digits_value(t) >= 0,
    decreases t.len(),
{
    if t.len() > 0 {
        let u = t.drop_last();
        assert forall|i: int| 0 <= i < u.len() implies is_digit(#[trigger] u[i]) by {
            assert(u[i] == t[i]);
        }
        lemma_digits_value_range(u);
        assert(is_digit(t[t.len() - 1]));
    }
}

proof fn lemma_octet_decimal(t: Seq<char>)
    requires
        t.len() >= 1,
        forall|i: int| 0 <= i < t.len() ==> is_digit(#[trigger] t[i]),
        t.len() > 1 ==> t[0] != '0',
    ensures
        decimal(digits_value(t) as nat) == t,
    decreases t.len(),
{
    let u = t.drop_last();
    let c = t.last();
    assert(is_digit(t[t.len() - 1]));
    let d = c as int - '0' as int;
    lemma_digit_of_char(c);
    assert forall|i: int| 0 <= i < u.len() implies is_digit(#[trigger] u[i]) by {
        assert(u[i] == t[i]);
    }
    lemma_digits_value_range(u);
    if t.len() == 1 {
        assert(u.len() == 0);
        assert(digits_value(t) == d);
        assert(decimal(d as nat) =~= t);
    } else {
        assert(u[0] == t[0]);
        lemma_digits_value_positive(u);
        lemma_octet_decimal(u);
        let v = digits_value(u);
        let n = digits_value(t);
        assert(n == v * 10 + d);
        assert(n >= 10);
        assert(n / 10 == v && n % 10 == d) by (nonlinear_arith)
            requires
                n == v * 10 + d,
                0 <= d < 10,
                v >= 0,
        ;
        assert(decimal(n as nat) == decimal((n / 10) as nat).push(digit_char((n % 10) as nat)));
        assert(decimal(n as nat) =~= t);
    }
}

proof fn lemma_no_dot_in_decimal(n: nat)
    ensures
        forall|i: int| 0 <= i < decimal(n).len() ==> is_digit(#[trigger] decimal(n)[i]),
        forall|i: int| 0 <= i < decimal(n).len() ==> #[trigger] decimal(n)[i] != '.',
    decreases n,
{
    if n < 10 {
        lemma_digit_char(n);
    } else {
        lemma_no_dot_in_decimal(n / 10);
        lemma_digit_char(n % 10);
        assert forall|i: int| 0 <= i < decimal(n).len() implies is_digit(#[trigger] decimal(n)[i]) by {
            if i < decimal(n).len() - 1 {
                assert(decimal(n)[i] == decimal(n / 10)[i]);
            }
        }
    }
}

proof fn lemma_no_dot_find(a: Seq<char>)
    requires
        forall|i: int| 0 <= i < a.len() ==> #[trigger] a[i] != '.',
    ensures
        find(a, seq!['.']) is None,
{
    lemma_find_from(a, seq!['.'], 0);
    if find(a, seq!['.']) is Some {
        let j = find(a, seq!['.'])->Some_0;
        assert(a.subrange(j, j + 1)[0] == a[j]);
    }
}

proof fn lemma_split_dots_head(a: Seq<char>, b: Seq<char>)
    requires
        forall|i: int| 0 <= i < a.len() ==> #[trigger] a[i] != '.',
    ensures
        split_dots(a + seq!['.'] + b) == seq![a] + split_dots(b),
{
    let s = a + seq!['.'] + b;
    lemma_find_from(s, seq!['.'], 0);
    assert(s.subrange(a.len() as int, a.len() + 1 as int) =~= seq!['.']);
    assert(occurs_at(s, seq!['.'], a.len() as int));
    let j = find(s, seq!['.'])->Some_0;
    if j < a.len() {
        assert(s.subrange(j, j + 1)[0] == a[j]);
    }
    assert(j == a.len());
    assert(s.subrange(0, j) =~= a);
    assert(s.subrange(j + 1, s.len() as int) =~= b);
}

proof fn lemma_split_dots_single(a: Seq<char>)
    requires
        forall|i: int| 0 <= i < a.len() ==> #[trigger] a[i] != '.',
    ensures
        split_dots(a) == seq![a],
{
    lemma_no_dot_find(a);
}

/// Octet `k` of the address with octets a, b, c, d.
pub proof fn lemma_octets(a: u8, b: u8, c: u8, d: u8)
    ensures
        octet(ipv4_spec(a, b, c, d), 0) == a,
        octet(ipv4_spec(a, b, c, d), 1) == b,
        octet(ipv4_spec(a, b, c, d), 2) == c,
        octet(ipv4_spec(a, b, c, d), 3) == d,
{
    assert(((((a as u32) << 24u32) | ((b as u32) << 16u32) | ((c as u32) << 8u32) | (d as u32))
        >> 24u32) as u8 == a) by (bit_vector);
    assert(((((a as u32) << 24u32) | ((b as u32) << 16u32) | ((c as u32) << 8u32) | (d as u32))
        >> 16u32) as u8 == b) by (bit_vector);
    assert(((((a as u32) << 24u32) | ((b as u32) << 16u32) | ((c as u32) << 8u32) | (d as u32))
        >> 8u32) as u8 == c) by (bit_vector);
    assert((((a as u32) << 24u32) | ((b as u32) << 16u32) | ((c as u32) << 8u32) | (d as u32))
        as u8 == d) by (bit_vector);
}

/// An address is made back from its octets.
pub proof fn lemma_from_octets(ip: u32)
    ensures
        ipv4_spec(octet(ip, 0), octet(ip, 1), octet(ip, 2), octet(ip, 3)) == ip,
{
    assert(((((ip >> 24u32) as u8) as u32) << 24u32) | ((((ip >> 16u32) as u8) as u32) << 16u32) | (
    (((ip >> 8u32) as u8) as u32) << 8u32) | ((ip as u8) as u32) == ip) by (bit_vector);
}

/// The dotted text of an address reads back as that address.
pub proof fn lemma_parse_dotted_roundtrip(ip: u32)
    ensures
        parse_dotted(dotted(ip)) == Some(ip),
{
    let o0 = octet(ip, 0) as nat;
    let o1 = octet(ip, 1) as nat;
    let o2 = octet(ip, 2) as nat;
    let o3 = octet(ip, 3) as nat;
    lemma_no_dot_in_decimal(o0);
    lemma_no_dot_in_decimal(o1);
    lemma_no_dot_in_decimal(o2);
    lemma_no_dot_in_decimal(o3);
    lemma_decimal_octet(o0);
    lemma_decimal_octet(o1);
    lemma_decimal_octet(o2);
    lemma_decimal_octet(o3);
    let t3 = decimal(o3);
    let t23 = decimal(o2) + seq!['.'] + t3;
    let t123 = decimal(o1) + seq!['.'] + t23;
    let s = decimal(o0) + seq!['.'] + t123;
    assert(s =~= dotted(ip));
    lemma_split_dots_single(t3);
    lemma_split_dots_head(decimal(o2), t3);
    lemma_split_dots_head(decimal(o1), t23);
    lemma_split_dots_head(decimal(o0), t123);
    let p = split_dots(s);
    assert(p =~= seq![decimal(o0), decimal(o1), decimal(o2), decimal(o3)]);
    lemma_from_octets(ip);
}

proof fn lemma_split_dots_join(s: Seq<char>)
    ensures
        split_dots(s).len() >= 1,
        split_dots(s).len() == 4 ==> s == split_dots(s)[0] + seq!['.'] + split_dots(s)[1] + seq!['.']
            + split_dots(s)[2] + seq!['.'] + split_dots(s)[3],
        split_dots(s).len() == 3 ==> s == split_dots(s)[0] + seq!['.'] + split_dots(s)[1] + seq!['.']
            + split_dots(s)[2],
        split_dots(s).len() == 2 ==> s == split_dots(s)[0] + seq!['.'] + split_dots(s)[1],
        split_dots(s).len() == 1 ==> s == split_dots(s)[0],
    decreases s.len(),
{
    lemma_find_from(s, seq!['.'], 0);
    match find(s, seq!['.']) {
        Some(i) => {
            let rest = s.subrange(i + 1, s.len() as int);
            lemma_split_dots_join(rest);
            assert(s.subrange(i, i + 1)[0] == '.');
            assert(s =~= s.subrange(0, i) + seq!['.'] + rest);
            let p = split_dots(s);
            let q = split_dots(rest);
            assert(p =~= seq![s.subrange(0, i)] + q);
            if q.len() == 3 {
                assert(s =~= p[0] + seq!['.'] + p[1] + seq!['.'] + p[2] + seq!['.'] + p[3]);
            }
            if q.len() == 2 {
                assert(s =~= p[0] + seq!['.'] + p[1] + seq!['.'] + p[2]);
            }
            if q.len() == 1 {
                assert(s =~= p[0] + seq!['.'] + p[1]);
            }
        },
        None => {},
    }
}

/// Text that reads as an address is the dotted text of that address.
pub proof fn lemma_parse_dotted_canonical(s: Seq<char>)
    ensures
        parse_dotted(s) matches Some(ip) ==> dotted(ip) == s,
{
    if parse_dotted(s) is Some {
        let p = split_dots(s);
        lemma_split_dots_join(s);
        lemma_octet_decimal(p[0]);
        lemma_octet_decimal(p[1]);
        lemma_octet_decimal(p[2]);
        lemma_octet_decimal(p[3]);
        lemma_digits_value_range(p[0]);
        lemma_digits_value_range(p[1]);
        lemma_digits_value_range(p[2]);
        lemma_digits_value_range(p[3]);
        let a = digits_value(p[0]) as u8;
        let b = digits_value(p[1]) as u8;
        let c = digits_value(p[2]) as u8;
        let d = digits_value(p[3]) as u8;
        lemma_octets(a, b, c, d);
        assert(dotted(ipv4_spec(a, b, c, d)) =~= s);
    }
}

/// The value of one piece, when it is the text of an octet.
fn octet_of(t: &[char]) -> (r: Option<u8>)
    ensures
        octet_text(t@) ==> r == Some(digits_value(t@) as u8),
        !octet_text(t@) ==> r is None,
{
    if t.len() < 1 || t.len() > 3 {
        return None;
    }
    if t.len() > 1 && t[0] == '0' {
        return None;
    }
    let mut v: u32 = 0;
    let mut i: usize = 0;
    while i < t.len()
        invariant
            1 <= t@.len() <= 3,
            i <= t@.len(),
            forall|j: int| 0 <= j < i ==> is_digit(#[trigger] t@[j]),
            v == digits_value(t@.subrange(0, i as int)),
            v <= 999,
            i <= 1 ==> v <= 9,
            i <= 2 ==> v <= 99,
        decreases t@.len() - i,
    {
        let c = t[i];
        if !('0' <= c && c <= '9') {
            assert(!is_digit(t@[i as int]));
            return None;
        }
        proof {
            let s = t@.subrange(0, i + 1);
            assert(s.drop_last() =~= t@.subrange(0, i as int));
        }
        v = v * 10 + (c as u32 - '0' as u32);
        i = i + 1;
    }
    assert(t@.subrange(0, i as int) =~= t@);
    if v > 255 {
        return None;
    }
    Some(v as u8)
}

/// The pieces of `s` between dots.
fn split_on_dots(s: &[char]) -> (r: Vec<Vec<char>>)
    ensures
        r@.map_values(|p: Vec<char>| p@) == split_dots(s@),
    decreases s@.len(),
{
    let dot: [char; 1] = ['.'];
    let ds = dot.as_slice();
    assert(ds@ =~= seq!['.']);
    let n = s.len();
    let found = find_chars_from(s, ds, 0);
    proof {
        lemma_find_from(s@, seq!['.'], 0);
    }
    let mut head: Vec<char> = Vec::new();
    let end = match found {
        Some(i) => i,
        None => n,
    };
    let mut k: usize = 0;
    while k < end
        invariant
            k <= end,
            end <= s@.len(),
            head@ == s@.subrange(0, k as int),
        decreases end - k,
    {
        head.push(s[k]);
        k = k + 1;
    }
    match found {
        Some(i) => {
            let mut tail: Vec<char> = Vec::new();
            let mut m: usize = i + 1;
            while m < n
                invariant
                    i + 1 <= m <= n,
                    n == s@.len(),
                    tail@ == s@.subrange(i + 1, m as int),
                decreases n - m,
            {
                tail.push(s[m]);
                m = m + 1;
            }
            let rest = split_on_dots(tail.as_slice());
            let mut r: Vec<Vec<char>> = Vec::new();
            r.push(head);
            let mut j: usize = 0;
            let ghost rv = rest@.map_values(|p: Vec<char>| p@);
            while j < rest.len()
                invariant
                    j <= rest@.len(),
                    rv == rest@.map_values(|p: Vec<char>| p@),
                    r@.len() == j + 1,
                    r@[0]@ == s@.subrange(0, i as int),
                    forall|q: int| 1 <= q <= j ==> (#[trigger] r@[q])@ == rv[q - 1],
                decreases rest@.len() - j,
            {
                r.push(rest[j].clone());
                j = j + 1;
            }
            assert(r@.map_values(|p: Vec<char>| p@) =~= seq![s@.subrange(0, i as int)] + rv);
            r
        },
        None => {
            let mut r: Vec<Vec<char>> = Vec::new();
            r.push(head);
            assert(head@ =~= s@);
            assert(r@.map_values(|p: Vec<char>| p@) =~= seq![s@]);
            r
        },
    }
}

/// The address that `text` writes in dotted-decimal form, if it is one.
/// Exactly the texts that `dotted` writes are read, each as its address.
pub fn parse_ipv4(text: &str) -> (r: Option<u32>)
    ensures
        r == parse_dotted(text@),
        r matches Some(ip) ==> dotted(ip) == text@,
        r is None ==> forall|ip: u32| #[trigger] dotted(ip) != text@,
{
    let cs = chars_of(text);
    let parts = split_on_dots(cs.as_slice());
    let ghost pv = parts@.map_values(|p: Vec<char>| p@);
    proof {
        lemma_parse_dotted_canonical(text@);
        assert forall|ip: u32| #[trigger] dotted(ip) == text@ implies parse_dotted(text@) is Some by {
            lemma_parse_dotted_roundtrip(ip);
        }
    }
    if parts.len() != 4 {
        return None;
    }
    assert(pv[0] == parts@[0]@ && pv[1] == parts@[1]@ && pv[2] == parts@[2]@ && pv[3] == parts@[3]@);
    let a = match octet_of(parts[0].as_slice()) {
        Some(x) => x,
        None => return None,
    };
    let b = match octet_of(parts[1].as_slice()) {
        Some(x) => x,
        None => return None,
    };
    let c = match octet_of(parts[2].as_slice()) {
        Some(x) => x,
        None => return None,
    };
    let d = match octet_of(parts[3].as_slice()) {
        Some(x) => x,
        None => return None,
    };
    Some(crate::net::ipv4(a, b, c, d))
}

/// The number of leading one bits of `mask`.
pub open spec fn leading_ones(mask: u32) -> nat
{
    leading_ones_from(mask, 0)
}

/// The number of one bits of `mask` from bit `31 - k` down, before the
/// first zero.
pub open spec fn leading_ones_from(mask: u32, k: nat) -> nat
    decreases 32 - k,
{
    if k >= 32 {
        0
    } else if (mask >> ((31 - k) as u32)) & 1 == 1 {
        1 + leading_ones_from(mask, k + 1)
    } else {
        0
    }
}

/// The prefix length of a netmask written in dotted-decimal form: the
/// number of its leading one bits.
pub fn netmask_to_cidr(netmask: &str) -> (r: Result<u8>)
    ensures
        match parse_dotted(netmask@) {
            Some(mask) => r matches Ok(n) && n == leading_ones(mask),
            None => r matches Err(VpnError::Configuration(m)) && m@ == "Invalid netmask"@,
        },
{
    let mask = match parse_ipv4(netmask) {
        Some(m) => m,
        None => {
            return Err(VpnError::Configuration("Invalid netmask".to_owned()));
        },
    };
    let mut n: u8 = 0;
    let mut k: u32 = 0;
    while k < 32
        invariant
            k <= 32,
            n == k,
            parse_dotted(netmask@) == Some(mask),
            leading_ones(mask) == k + leading_ones_from(mask, k as nat),
        decreases 32 - k,
    {
        if (mask >> (31 - k)) & 1 != 1 {
            assert(leading_ones_from(mask, k as nat) == 0);
            return Ok(n);
        }
        assert(leading_ones_from(mask, k as nat) == 1 + leading_ones_from(mask, (k + 1) as nat));
        n = n + 1;
        k = k + 1;
    }
    Ok(n)
}

} // verus!
