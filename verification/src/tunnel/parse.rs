//! Reading the output of the system's network commands: interfaces,
//! addresses, gateways, routes and established connections.

use vstd::prelude::*;
use crate::scan::{
    chars_of, contains, find, find_chars_from, lines, split_lines, split_words, starts_with,
    chars_start_with, trim, trim_chars, words, lemma_find_from,
};
use crate::text::string_from_chars;

verus! {

/// What the regular expression `pattern` captures in group `group` of its
/// first match in `text`; `None` when the pattern does not compile, does not
/// match, or the group took no part in the match.
pub uninterp spec fn regex_group_match(pattern: Seq<char>, text: Seq<char>, group: usize) -> Option<Seq<char>>;

/// The text captured by group `group` of the first match of `pattern` in
/// `text`.
///
/// Trusted: compiles `pattern` with `regex::Regex::new` (a pattern that does
/// not compile gives `None`), takes `captures` of the first match and the
/// group's text. The result is the name `regex_group_match` of the
/// arguments; nothing more is stated of it here.
#[verifier::external_body]
fn regex_group(pattern: &str, text: &str, group: usize) -> (r: Option<String>)
    ensures
        match r {
            Some(s) => regex_group_match(pattern@, text@, group) == Some(s@),
            None => regex_group_match(pattern@, text@, group) is None,
        },
{
    let re = match regex::Regex::new(pattern) {
        Ok(re) => re,
        Err(_) => return None,
    };
    match re.captures(text) {
        Some(caps) => caps.get(group).map(|m| m.as_str().to_string()),
        None => None,
    }
}

/// The text of `s` before the first `c` (all of it when there is none), as
/// `s.split(c).next()` gives it.
pub open spec fn before_char(s: Seq<char>, c: char) -> Seq<char> {
    match find(s, seq![c]) {
        Some(i) => s.subrange(0, i),
        None => s,
    }
}

/// The text of `s` after the first `c`, if there is one.
pub open spec fn after_char(s: Seq<char>, c: char) -> Option<Seq<char>> {
    match find(s, seq![c]) {
        Some(i) => Some(s.subrange(i + 1, s.len() as int)),
        None => None,
    }
}

/// The first `Some` that `f` gives on the items of `xs`, in order.
pub open spec fn first_some<T>(xs: Seq<Seq<char>>, f: spec_fn(Seq<char>) -> Option<T>) -> Option<T>
    decreases xs.len(),
{
    if xs.len() == 0 {
        None
    } else {
        match f(xs[0]) {
            Some(v) => Some(v),
            None => first_some(xs.drop_first(), f),
        }
    }
}

/// Everything that `f` gives on the items of `xs`, in order.
pub open spec fn collect_some<T>(xs: Seq<Seq<char>>, f: spec_fn(Seq<char>) -> Option<T>) -> Seq<T>
    decreases xs.len(),
{
    if xs.len() == 0 {
        Seq::empty()
    } else {
        match f(xs[0]) {
            Some(v) => seq![v] + collect_some(xs.drop_first(), f),
            None => collect_some(xs.drop_first(), f),
        }
    }
}

proof fn lemma_first_some_step<T>(xs: Seq<Seq<char>>, f: spec_fn(Seq<char>) -> Option<T>, i: int)
    requires
        0 <= i < xs.len(),
    ensures
        first_some(xs.subrange(i, xs.len() as int), f) == match f(xs[i]) {
            Some(v) => Some(v),
            None => first_some(xs.subrange(i + 1, xs.len() as int), f),
        },
{
    let s = xs.subrange(i, xs.len() as int);
    assert(s[0] == xs[i]);
    assert(s.drop_first() =~= xs.subrange(i + 1, xs.len() as int));
}

proof fn lemma_collect_some_step<T>(xs: Seq<Seq<char>>, f: spec_fn(Seq<char>) -> Option<T>, i: int)
    requires
        0 <= i < xs.len(),
    ensures
        collect_some(xs.subrange(i, xs.len() as int), f) == match f(xs[i]) {
            Some(v) => seq![v] + collect_some(xs.subrange(i + 1, xs.len() as int), f),
            None => collect_some(xs.subrange(i + 1, xs.len() as int), f),
        },
{
    let s = xs.subrange(i, xs.len() as int);
    assert(s[0] == xs[i]);
    assert(s.drop_first() =~= xs.subrange(i + 1, xs.len() as int));
}

/// The characters of `s` from `a` to `b`.
fn slice_chars(s: &[char], a: usize, b: usize) -> (r: Vec<char>)
    requires
        a <= b <= s@.len(),
    ensures
        r@ == s@.subrange(a as int, b as int),
{
    let mut r: Vec<char> = Vec::new();
    let mut k: usize = a;
    while k < b
        invariant
            a <= k <= b,
            b <= s@.len(),
            r@ == s@.subrange(a as int, k as int),
        decreases b - k,
    {
        r.push(s[k]);
        k = k + 1;
    }
    r
}

/// The first position of `pat` in `s`.
fn find_str(s: &[char], pat: &str) -> (r: Option<usize>)
    ensures
        r == match find(s@, pat@) {
            Some(j) => Some(j as usize),
            None => None::<usize>,
        },
{
    let p = chars_of(pat);
    find_chars_from(s, p.as_slice(), 0)
}

/// Whether `pat` occurs in `s`.
fn has(s: &[char], pat: &str) -> (r: bool)
    ensures
        r == contains(s@, pat@),
{
    find_str(s, pat).is_some()
}

/// The text of `s` before the first `c`.
fn before(s: &[char], c: char) -> (r: Vec<char>)
    ensures
        r@ == before_char(s@, c),
{
    let cv: [char; 1] = [c];
    let cs = cv.as_slice();
    assert(cs@ =~= seq![c]);
    let n = s.len();
    let found = find_chars_from(s, cs, 0);
    proof {
        lemma_find_from(s@, seq![c], 0);
    }
    match found {
        Some(i) => slice_chars(s, 0, i),
        None => slice_chars(s, 0, n),
    }
}

/// The text of `s` after the first `c`.
fn after(s: &[char], c: char) -> (r: Option<Vec<char>>)
    ensures
        match after_char(s@, c) {
            Some(t) => r matches Some(v) && v@ == t,
            None => r is None,
        },
{
    let cv: [char; 1] = [c];
    let cs = cv.as_slice();
    assert(cs@ =~= seq![c]);
    let n = s.len();
    let found = find_chars_from(s, cs, 0);
    proof {
        lemma_find_from(s@, seq![c], 0);
    }
    match found {
        Some(i) => Some(slice_chars(s, i + 1, n)),
        None => None,
    }
}

/// The interface that carries traffic out, from the output of
/// `ip route get`: the word after `dev `, or `eth0`.
pub open spec fn active_interface_text(out: Seq<char>) -> Seq<char> {
    match find(out, "dev "@) {
        Some(p) => {
            let ws = words(out.subrange(p + 4, out.len() as int));
            if ws.len() > 0 {
                ws[0]
            } else {
                "eth0"@
            }
        },
        None => "eth0"@,
    }
}

/// The interface that carries traffic out, from the output of
/// `ip route get 8.8.8.8`.
pub fn active_interface_from(route_get: &str) -> (r: String)
    ensures
        r@ == active_interface_text(route_get@),
{
    let s = chars_of(route_get);
    let n = s.len();
    proof {
        reveal_strlit("dev ");
        lemma_find_from(s@, "dev "@, 0);
    }
    match find_str(s.as_slice(), "dev ") {
        Some(p) => {
            let rest = slice_chars(s.as_slice(), p + 4, n);
            let ws = split_words(rest.as_slice());
            if ws.len() > 0 {
                assert(ws@.map_values(|w: Vec<char>| w@)[0] == ws@[0]@);
                string_from_chars(&ws[0])
            } else {
                "eth0".to_owned()
            }
        },
        None => "eth0".to_owned(),
    }
}

/// The word after the first word `via`.
pub open spec fn word_after_via(ws: Seq<Seq<char>>) -> Option<Seq<char>>
    decreases ws.len(),
{
    if ws.len() == 0 {
        None
    } else if ws[0] == "via"@ {
        if ws.len() >= 2 {
            Some(ws[1])
        } else {
            None
        }
    } else {
        word_after_via(ws.drop_first())
    }
}

/// The pattern that finds the default gateway in `ip route show default`.
pub const DEFAULT_ROUTE_PATTERN: &'static str = "default\\s+via\\s+(\\d+\\.\\d+\\.\\d+\\.\\d+)";

/// The default gateway, from the output `out` of `ip route show default`
/// and what the pattern captured in it: the capture, else the word after
/// `via`, else `192.168.1.1`.
pub open spec fn gateway_given(out: Seq<char>, captured: Option<Seq<char>>) -> Seq<char> {
    match captured {
        Some(g) => g,
        None => match word_after_via(words(out)) {
            Some(w) => w,
            None => "192.168.1.1"@,
        },
    }
}

/// The default gateway, from the output of `ip route show default`: the
/// address the pattern captures, else the word after `via`, else
/// `192.168.1.1`.
pub open spec fn default_gateway_text(out: Seq<char>) -> Seq<char> {
    gateway_given(out, regex_group_match(DEFAULT_ROUTE_PATTERN@, out, 1))
}

/// The default gateway, from the output of `ip route show default`.
pub fn default_gateway_from(route_info: &str) -> (r: String)
    ensures
        r@ == default_gateway_text(route_info@),
{
    let captured = regex_group(DEFAULT_ROUTE_PATTERN, route_info, 1);
    match captured {
        Some(g) => default_gateway_given(route_info, Some(g.as_str())),
        None => default_gateway_given(route_info, None),
    }
}

/// The default gateway, from the output of `ip route show default` and
/// what [`DEFAULT_ROUTE_PATTERN`] captured in it.
pub fn default_gateway_given(route_info: &str, captured: Option<&str>) -> (r: String)
    ensures
        r@ == gateway_given(
            route_info@,
            match captured {
                Some(g) => Some(g@),
                None => None,
            },
        ),
{
    if let Some(g) = captured {
        return g.to_owned();
    }
    let s = chars_of(route_info);
    let ws = split_words(s.as_slice());
    let ghost wv = ws@.map_values(|w: Vec<char>| w@);
    let mut i: usize = 0;
    assert(wv.subrange(0, wv.len() as int) =~= wv);
    while i < ws.len()
        invariant
            i <= ws@.len(),
            captured is None,
            wv == words(route_info@),
            wv == ws@.map_values(|w: Vec<char>| w@),
            word_after_via(wv) == word_after_via(wv.subrange(i as int, wv.len() as int)),
        decreases ws@.len() - i,
    {
        let ghost rest = wv.subrange(i as int, wv.len() as int);
        assert(rest[0] == ws@[i as int]@);
        let is_via = ws[i].len() == 3 && ws[i][0] == 'v' && ws[i][1] == 'i' && ws[i][2] == 'a';
        proof {
            reveal_strlit("via");
            if is_via {
                assert(ws@[i as int]@ =~= "via"@);
            } else if ws@[i as int]@ == "via"@ {
                assert(ws@[i as int]@[0] == 'v');
            }
        }
        if is_via {
            if i + 1 < ws.len() {
                assert(rest.len() >= 2);
                assert(rest[1] == ws@[i + 1]@);
                return string_from_chars(&ws[i + 1]);
            }
            return "192.168.1.1".to_owned();
        }
        assert(rest.drop_first() =~= wv.subrange(i + 1, wv.len() as int));
        i = i + 1;
    }
    "192.168.1.1".to_owned()
}

/// The gateway of the default route, from the output of
/// `ip route show default` (Linux): the text between `via ` and the next
/// space.
pub open spec fn original_route_text(out: Seq<char>) -> Option<Seq<char>> {
    match find(out, "via "@) {
        Some(p) => {
            let after = out.subrange(p + 4, out.len() as int);
            match find(after, " "@) {
                Some(q) => Some(after.subrange(0, q)),
                None => None,
            }
        },
        None => None,
    }
}

/// The gateway of the default route, from the output of
/// `ip route show default` (Linux).
pub fn original_route_from(route_info: &str) -> (r: Option<String>)
    ensures
        match original_route_text(route_info@) {
            Some(g) => r matches Some(s) && s@ == g,
            None => r is None,
        },
{
    let s = chars_of(route_info);
    let n = s.len();
    proof {
        reveal_strlit("via ");
        lemma_find_from(s@, "via "@, 0);
    }
    match find_str(s.as_slice(), "via ") {
        Some(p) => {
            let rest = slice_chars(s.as_slice(), p + 4, n);
            proof {
                lemma_find_from(rest@, " "@, 0);
            }
            match find_str(rest.as_slice(), " ") {
                Some(q) => {
                    let g = slice_chars(rest.as_slice(), 0, q);
                    Some(string_from_chars(&g))
                },
                None => None,
            }
        },
        None => None,
    }
}

/// The gateway named on a `gateway:` line of `route -n get default` (macOS).
pub open spec fn gateway_line(line: Seq<char>) -> Option<Seq<char>> {
    if starts_with(trim(line), "gateway:"@) {
        match after_char(line, ':') {
            Some(t) => Some(trim(before_char(t, ':'))),
            None => None,
        }
    } else {
        None
    }
}

/// The gateway of the default route, from the output of
/// `route -n get default` (macOS).
pub fn original_route_from_macos(route_info: &str) -> (r: Option<String>)
    ensures
        match first_some(lines(route_info@), |l: Seq<char>| gateway_line(l)) {
            Some(g) => r matches Some(s) && s@ == g,
            None => r is None,
        },
{
    let ls = split_lines(route_info);
    let ghost lv = ls@.map_values(|l: Vec<char>| l@);
    let ghost f = |l: Seq<char>| gateway_line(l);
    assert(lv.subrange(0, lv.len() as int) =~= lv);
    let mut i: usize = 0;
    while i < ls.len()
        invariant
            i <= ls@.len(),
            lv == ls@.map_values(|l: Vec<char>| l@),
            lv == lines(route_info@),
            f == (|l: Seq<char>| gateway_line(l)),
            first_some(lv, f) == first_some(lv.subrange(i as int, lv.len() as int), f),
        decreases ls@.len() - i,
    {
        proof {
            lemma_first_some_step(lv, f, i as int);
            assert(lv[i as int] == ls@[i as int]@);
        }
        let line = &ls[i];
        let t = trim_chars(line.as_slice());
        if chars_start_with(t.as_slice(), "gateway:") {
            match after(line.as_slice(), ':') {
                Some(rest) => {
                    let field = before(rest.as_slice(), ':');
                    let g = trim_chars(field.as_slice());
                    return Some(string_from_chars(&g));
                },
                None => {},
            }
        }
        i = i + 1;
    }
    None
}

/// Whether `line` holds `tag` and one of the SSL-VPN ports 443 and 992.
pub open spec fn vpn_port_line(line: Seq<char>, tag: Seq<char>) -> bool {
    contains(line, tag) && (contains(line, ":443"@) || contains(line, ":992"@))
}

/// The address of a word `address:port` on one of the SSL-VPN ports, when
/// it looks like a dotted address that is not loopback.
pub open spec fn ss_word_ip(w: Seq<char>) -> Option<Seq<char>> {
    if contains(w, ":443"@) || contains(w, ":992"@) {
        let ip = before_char(w, ':');
        if contains(ip, "."@) && !starts_with(ip, "127."@) {
            Some(ip)
        } else {
            None
        }
    } else {
        None
    }
}

/// The address after `peer=` up to the next space, without its port.
pub open spec fn ss_peer_ip(line: Seq<char>) -> Option<Seq<char>> {
    match find(line, "peer="@) {
        Some(p) => {
            let after = line.subrange(p + 5, line.len() as int);
            match find(after, " "@) {
                Some(e) => Some(before_char(after.subrange(0, e), ':')),
                None => None,
            }
        },
        None => None,
    }
}

/// The VPN server's address on an established SSL-VPN connection line of
/// `ss -tn state established`.
pub open spec fn ss_line_ip(line: Seq<char>) -> Option<Seq<char>> {
    if vpn_port_line(line, "ESTAB"@) {
        match ss_peer_ip(line) {
            Some(ip) => Some(ip),
            None => first_some(words(line), |w: Seq<char>| ss_word_ip(w)),
        }
    } else {
        None
    }
}

/// The VPN server's address on an established SSL-VPN connection line of
/// `netstat -tn`: the fifth column, without its port.
pub open spec fn netstat_line_ip(line: Seq<char>) -> Option<Seq<char>> {
    if vpn_port_line(line, "ESTABLISHED"@) {
        let ws = words(line);
        if ws.len() > 4 {
            Some(before_char(ws[4], ':'))
        } else {
            None
        }
    } else {
        None
    }
}

fn ss_word_ip_of(w: &[char]) -> (r: Option<Vec<char>>)
    ensures
        match ss_word_ip(w@) {
            Some(ip) => r matches Some(v) && v@ == ip,
            None => r is None,
        },
{
    if has(w, ":443") || has(w, ":992") {
        let ip = before(w, ':');
        if has(ip.as_slice(), ".") && !chars_start_with(ip.as_slice(), "127.") {
            return Some(ip);
        }
    }
    None
}

fn ss_line_ip_of(line: &[char]) -> (r: Option<Vec<char>>)
    ensures
        match ss_line_ip(line@) {
            Some(ip) => r matches Some(v) && v@ == ip,
            None => r is None,
        },
{
    if !(has(line, "ESTAB") && (has(line, ":443") || has(line, ":992"))) {
        return None;
    }
    let n = line.len();
    proof {
        reveal_strlit("peer=");
        lemma_find_from(line@, "peer="@, 0);
    }
    if let Some(p) = find_str(line, "peer=") {
        let rest = slice_chars(line, p + 5, n);
        proof {
            lemma_find_from(rest@, " "@, 0);
        }
        if let Some(e) = find_str(rest.as_slice(), " ") {
            let addr = slice_chars(rest.as_slice(), 0, e);
            return Some(before(addr.as_slice(), ':'));
        }
    }
    let ws = split_words(line);
    let ghost wv = ws@.map_values(|w: Vec<char>| w@);
    let ghost f = |w: Seq<char>| ss_word_ip(w);
    assert(wv.subrange(0, wv.len() as int) =~= wv);
    let mut i: usize = 0;
    while i < ws.len()
        invariant
            i <= ws@.len(),
            wv == ws@.map_values(|w: Vec<char>| w@),
            wv == words(line@),
            f == (|w: Seq<char>| ss_word_ip(w)),
            ss_line_ip(line@) == first_some(wv.subrange(i as int, wv.len() as int), f),
        decreases ws@.len() - i,
    {
        proof {
            lemma_first_some_step(wv, f, i as int);
            assert(wv[i as int] == ws@[i as int]@);
        }
        if let Some(ip) = ss_word_ip_of(ws[i].as_slice()) {
            return Some(ip);
        }
        i = i + 1;
    }
    None
}

fn netstat_line_ip_of(line: &[char]) -> (r: Option<Vec<char>>)
    ensures
        match netstat_line_ip(line@) {
            Some(ip) => r matches Some(v) && v@ == ip,
            None => r is None,
        },
{
    if !(has(line, "ESTABLISHED") && (has(line, ":443") || has(line, ":992"))) {
        return None;
    }
    let ws = split_words(line);
    if ws.len() > 4 {
        assert(ws@.map_values(|w: Vec<char>| w@)[4] == ws@[4]@);
        return Some(before(ws[4].as_slice(), ':'));
    }
    None
}

/// The VPN server's address, from the output of
/// `ss -tn state established`: the first established SSL-VPN connection.
pub fn server_ip_from_ss(output: &str) -> (r: Option<String>)
    ensures
        match first_some(lines(output@), |l: Seq<char>| ss_line_ip(l)) {
            Some(ip) => r matches Some(s) && s@ == ip,
            None => r is None,
        },
{
    let ls = split_lines(output);
    let ghost lv = ls@.map_values(|l: Vec<char>| l@);
    let ghost f = |l: Seq<char>| ss_line_ip(l);
    assert(lv.subrange(0, lv.len() as int) =~= lv);
    let mut i: usize = 0;
    while i < ls.len()
        invariant
            i <= ls@.len(),
            lv == ls@.map_values(|l: Vec<char>| l@),
            lv == lines(output@),
            f == (|l: Seq<char>| ss_line_ip(l)),
            first_some(lv, f) == first_some(lv.subrange(i as int, lv.len() as int), f),
        decreases ls@.len() - i,
    {
        proof {
            lemma_first_some_step(lv, f, i as int);
            assert(lv[i as int] == ls@[i as int]@);
        }
        if let Some(ip) = ss_line_ip_of(ls[i].as_slice()) {
            return Some(string_from_chars(&ip));
        }
        i = i + 1;
    }
    None
}

/// The VPN server's address, from the output of `netstat -tn`: the first
/// established SSL-VPN connection.
pub fn server_ip_from_netstat(output: &str) -> (r: Option<String>)
    ensures
        match first_some(lines(output@), |l: Seq<char>| netstat_line_ip(l)) {
            Some(ip) => r matches Some(s) && s@ == ip,
            None => r is None,
        },
{
    let ls = split_lines(output);
    let ghost lv = ls@.map_values(|l: Vec<char>| l@);
    let ghost f = |l: Seq<char>| netstat_line_ip(l);
    assert(lv.subrange(0, lv.len() as int) =~= lv);
    let mut i: usize = 0;
    while i < ls.len()
        invariant
            i <= ls@.len(),
            lv == ls@.map_values(|l: Vec<char>| l@),
            lv == lines(output@),
            f == (|l: Seq<char>| netstat_line_ip(l)),
            first_some(lv, f) == first_some(lv.subrange(i as int, lv.len() as int), f),
        decreases ls@.len() - i,
    {
        proof {
            lemma_first_some_step(lv, f, i as int);
            assert(lv[i as int] == ls@[i as int]@);
        }
        if let Some(ip) = netstat_line_ip_of(ls[i].as_slice()) {
            return Some(string_from_chars(&ip));
        }
        i = i + 1;
    }
    None
}

/// The address used for the VPN server when nothing better is known.
pub const DEFAULT_VPN_SERVER_IP: &'static str = "62.24.65.211";

/// The VPN server's address: from the `ss` output when it names one, else
/// from the `netstat` output, else the default address.
pub fn vpn_server_ip_from(ss_output: Option<&str>, netstat_output: Option<&str>) -> (r: String)
    ensures
        r@ == match ss_output {
            Some(o) if first_some(lines(o@), |l: Seq<char>| ss_line_ip(l)) is Some => first_some(
                lines(o@),
                |l: Seq<char>| ss_line_ip(l),
            )->Some_0,
            _ => match netstat_output {
                Some(o) if first_some(lines(o@), |l: Seq<char>| netstat_line_ip(l)) is Some => first_some(
                    lines(o@),
                    |l: Seq<char>| netstat_line_ip(l),
                )->Some_0,
                _ => DEFAULT_VPN_SERVER_IP@,
            },
        },
{
    if let Some(o) = ss_output {
        if let Some(ip) = server_ip_from_ss(o) {
            return ip;
        }
    }
    if let Some(o) = netstat_output {
        if let Some(ip) = server_ip_from_netstat(o) {
            return ip;
        }
    }
    DEFAULT_VPN_SERVER_IP.to_owned()
}

/// The interface named on a line of `ip link show`: the text between the
/// first `: ` and the next colon.
pub open spec fn link_name(line: Seq<char>) -> Option<Seq<char>> {
    match find(line, ": "@) {
        Some(st) => {
            let rest = line.subrange(st + 2, line.len() as int);
            match find(rest, ":"@) {
                Some(e) => Some(rest.subrange(0, e)),
                None => None,
            }
        },
        None => None,
    }
}

fn link_name_of(line: &[char]) -> (r: Option<Vec<char>>)
    ensures
        match link_name(line@) {
            Some(x) => r matches Some(v) && v@ == x,
            None => r is None,
        },
{
    let n = line.len();
    proof {
        reveal_strlit(": ");
        lemma_find_from(line@, ": "@, 0);
    }
    if let Some(st) = find_str(line, ": ") {
        let rest = slice_chars(line, st + 2, n);
        proof {
            lemma_find_from(rest@, ":"@, 0);
        }
        if let Some(e) = find_str(rest.as_slice(), ":") {
            return Some(slice_chars(rest.as_slice(), 0, e));
        }
    }
    None
}

/// The network interfaces listed in the output of `ip link show`.
pub fn interfaces_from_ip_link(output: &str) -> (r: Vec<String>)
    ensures
        r@.map_values(|x: String| x@) == collect_some(lines(output@), |l: Seq<char>| link_name(l)),
{
    let ls = split_lines(output);
    let ghost lv = ls@.map_values(|l: Vec<char>| l@);
    let ghost f = |l: Seq<char>| link_name(l);
    assert(lv.subrange(0, lv.len() as int) =~= lv);
    let mut r: Vec<String> = Vec::new();
    let mut i: usize = 0;
    while i < ls.len()
        invariant
            i <= ls@.len(),
            lv == ls@.map_values(|l: Vec<char>| l@),
            lv == lines(output@),
            f == (|l: Seq<char>| link_name(l)),
            collect_some(lv, f) == r@.map_values(|x: String| x@) + collect_some(lv.subrange(i as int, lv.len() as int), f),
        decreases ls@.len() - i,
    {
        proof {
            lemma_collect_some_step(lv, f, i as int);
            assert(lv[i as int] == ls@[i as int]@);
        }
        let ghost before = r@.map_values(|x: String| x@);
        if let Some(name) = link_name_of(ls[i].as_slice()) {
            r.push(string_from_chars(&name));
            assert(r@.map_values(|x: String| x@) =~= before + seq![name@]);
        }
        i = i + 1;
    }
    assert(collect_some(lv.subrange(i as int, lv.len() as int), f) =~= Seq::<Seq<char>>::empty());
    r
}

/// The address on an `inet` line of `ip addr show`, without its prefix
/// length.
pub open spec fn inet_ip(line: Seq<char>) -> Option<Seq<char>> {
    let t = trim(line);
    if starts_with(t, "inet "@) {
        let ws = words(t);
        if ws.len() > 1 {
            Some(before_char(ws[1], '/'))
        } else {
            None
        }
    } else {
        None
    }
}

fn inet_ip_of(line: &[char]) -> (r: Option<Vec<char>>)
    ensures
        match inet_ip(line@) {
            Some(x) => r matches Some(v) && v@ == x,
            None => r is None,
        },
{
    let t = trim_chars(line);
    if chars_start_with(t.as_slice(), "inet ") {
        let ws = split_words(t.as_slice());
        if ws.len() > 1 {
            assert(ws@.map_values(|w: Vec<char>| w@)[1] == ws@[1]@);
            return Some(before(ws[1].as_slice(), '/'));
        }
    }
    None
}

/// The IPv4 addresses listed in the output of `ip addr show dev ...`.
pub fn ips_from_ip_addr(output: &str) -> (r: Vec<String>)
    ensures
        r@.map_values(|x: String| x@) == collect_some(lines(output@), |l: Seq<char>| inet_ip(l)),
{
    let ls = split_lines(output);
    let ghost lv = ls@.map_values(|l: Vec<char>| l@);
    let ghost f = |l: Seq<char>| inet_ip(l);
    assert(lv.subrange(0, lv.len() as int) =~= lv);
    let mut r: Vec<String> = Vec::new();
    let mut i: usize = 0;
    while i < ls.len()
        invariant
            i <= ls@.len(),
            lv == ls@.map_values(|l: Vec<char>| l@),
            lv == lines(output@),
            f == (|l: Seq<char>| inet_ip(l)),
            collect_some(lv, f) == r@.map_values(|x: String| x@) + collect_some(lv.subrange(i as int, lv.len() as int), f),
        decreases ls@.len() - i,
    {
        proof {
            lemma_collect_some_step(lv, f, i as int);
            assert(lv[i as int] == ls@[i as int]@);
        }
        let ghost before = r@.map_values(|x: String| x@);
        if let Some(ip) = inet_ip_of(ls[i].as_slice()) {
            r.push(string_from_chars(&ip));
            assert(r@.map_values(|x: String| x@) =~= before + seq![ip@]);
        }
        i = i + 1;
    }
    assert(collect_some(lv.subrange(i as int, lv.len() as int), f) =~= Seq::<Seq<char>>::empty());
    r
}

/// Whether the status text of `ip addr show` says that the link is not up.
pub fn needs_point_to_point(status: &str) -> (r: bool)
    ensures
        r == (contains(status@, "NO-CARRIER"@) || contains(status@, "DOWN"@)),
{
    let s = chars_of(status);
    has(s.as_slice(), "NO-CARRIER") || has(s.as_slice(), "DOWN")
}

/// The adapter to use on Windows, from the output of
/// `netsh interface show interface`: the TAP adapter when one is listed.
pub fn windows_interface_name(interfaces: &str) -> (r: String)
    ensures
        r@ == if contains(interfaces@, "TAP"@) {
            "TAP-Windows"@
        } else {
            "VPN_Interface"@
        },
{
    let s = chars_of(interfaces);
    if has(s.as_slice(), "TAP") {
        "TAP-Windows".to_owned()
    } else {
        "VPN_Interface".to_owned()
    }
}

/// The words of `ifconfig -l` that name utun interfaces.
pub open spec fn utun_word(w: Seq<char>) -> Option<Seq<char>> {
    if starts_with(w, "utun"@) {
        Some(w)
    } else {
        None
    }
}

/// The utun interfaces listed in the output of `ifconfig -l` (macOS).
pub fn utun_interfaces_from(output: &str) -> (r: Vec<String>)
    ensures
        r@.map_values(|x: String| x@) == collect_some(words(output@), |w: Seq<char>| utun_word(w)),
{
    let cs = chars_of(output);
    let ws = split_words(cs.as_slice());
    let ghost wv = ws@.map_values(|w: Vec<char>| w@);
    let ghost f = |w: Seq<char>| utun_word(w);
    assert(wv.subrange(0, wv.len() as int) =~= wv);
    let mut r: Vec<String> = Vec::new();
    let mut i: usize = 0;
    while i < ws.len()
        invariant
            i <= ws@.len(),
            wv == ws@.map_values(|w: Vec<char>| w@),
            wv == words(output@),
            f == (|w: Seq<char>| utun_word(w)),
            collect_some(wv, f) == r@.map_values(|x: String| x@) + collect_some(wv.subrange(i as int, wv.len() as int), f),
        decreases ws@.len() - i,
    {
        proof {
            lemma_collect_some_step(wv, f, i as int);
            assert(wv[i as int] == ws@[i as int]@);
        }
        let ghost before = r@.map_values(|x: String| x@);
        if chars_start_with(ws[i].as_slice(), "utun") {
            r.push(string_from_chars(&ws[i]));
            assert(r@.map_values(|x: String| x@) =~= before + seq![ws@[i as int]@]);
        }
        i = i + 1;
    }
    assert(collect_some(wv.subrange(i as int, wv.len() as int), f) =~= Seq::<Seq<char>>::empty());
    r
}

} // verus!
