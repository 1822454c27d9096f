//! Scanning text: characters, substrings, whitespace-separated words and
//! lines, with the meaning that the standard library gives them.

use vstd::prelude::*;

verus! {

broadcast use vstd::string::axiom_spec_iter;

/// The characters of `s`.
pub fn chars_of(s: &str) -> (r: Vec<char>)
    ensures
        r@ == s@,
{
    let mut r: Vec<char> = Vec::new();
    for c in it: s.chars()
        invariant
            it.seq() == s@,
            r@ == it.seq().subrange(0, it.index() as int),
    {
        r.push(c);
    }
    r
}

/// Whether `pat` occurs in `s` at position `i`.
pub open spec fn occurs_at(s: Seq<char>, pat: Seq<char>, i: int) -> bool {
    0 <= i && i + pat.len() <= s.len() && s.subrange(i, i + pat.len()) == pat
}

/// The first position, from `i` on, where `pat` occurs in `s`.
pub open spec fn find_from(s: Seq<char>, pat: Seq<char>, i: int) -> Option<int>
    decreases s.len() + 1 - i,
{
    if i < 0 || i + pat.len() > s.len() {
        None
    } else if occurs_at(s, pat, i) {
        Some(i)
    } else {
        find_from(s, pat, i + 1)
    }
}

/// The first position where `pat` occurs in `s`.
pub open spec fn find(s: Seq<char>, pat: Seq<char>) -> Option<int> {
    find_from(s, pat, 0)
}

/// Whether `pat` occurs in `s`.
pub open spec fn contains(s: Seq<char>, pat: Seq<char>) -> bool {
    find(s, pat) is Some
}

pub proof fn lemma_find_from(s: Seq<char>, pat: Seq<char>, i: int)
    requires
        0 <= i,
    ensures
        find_from(s, pat, i) matches Some(j) ==> i <= j && occurs_at(s, pat, j) && forall|k: int|
            i <= k < j ==> !#[trigger] occurs_at(s, pat, k),
        find_from(s, pat, i) is None ==> forall|k: int| i <= k ==> !#[trigger] occurs_at(s, pat, k),
    decreases s.len() + 1 - i,
{
    if i + pat.len() <= s.len() && !occurs_at(s, pat, i) {
        lemma_find_from(s, pat, i + 1);
    }
}

/// The first position where `pat` occurs in `s`, from `start` on.
pub fn find_chars_from(s: &[char], pat: &[char], start: usize) -> (r: Option<usize>)
    ensures
        r == match find_from(s@, pat@, start as int) {
            Some(j) => Some(j as usize),
            None => None::<usize>,
        },
{
    proof {
        lemma_find_from(s@, pat@, start as int);
    }
    if pat.len() > s.len() || start > s.len() - pat.len() {
        return None;
    }
    if pat.len() == 0 {
        assert(s@.subrange(start as int, start as int) =~= pat@);
        return Some(start);
    }
    let last = s.len() - pat.len();
    let mut i: usize = start;
    while i <= last
        invariant
            start <= i,
            s@.len() <= usize::MAX,
            pat@.len() >= 1,
            last == s@.len() - pat@.len(),
            find_from(s@, pat@, start as int) == find_from(s@, pat@, i as int),
        decreases last + 1 - i,
    {
        let mut k: usize = 0;
        while k < pat.len() && s[i + k] == pat[k]
            invariant
                k <= pat@.len(),
                s@.len() <= usize::MAX,
                i + pat@.len() <= s@.len(),
                forall|m: int| 0 <= m < k ==> s@[i + m] == pat@[m],
            decreases pat@.len() - k,
        {
            k = k + 1;
        }
        if k == pat.len() {
            assert(s@.subrange(i as int, i + pat@.len()) =~= pat@);
            return Some(i);
        }
        assert(!occurs_at(s@, pat@, i as int)) by {
            if occurs_at(s@, pat@, i as int) {
                assert(s@.subrange(i as int, i + pat@.len())[k as int] == pat@[k as int]);
            }
        }
        i = i + 1;
    }
    None
}

/// Whether `pat` occurs in `s`.
pub fn str_contains(s: &str, pat: &str) -> (r: bool)
    ensures
        r == contains(s@, pat@),
{
    let sv = chars_of(s);
    let pv = chars_of(pat);
    find_chars_from(sv.as_slice(), pv.as_slice(), 0).is_some()
}

/// Whether `s` begins with `pat`.
pub open spec fn starts_with(s: Seq<char>, pat: Seq<char>) -> bool {
    pat.len() <= s.len() && s.subrange(0, pat.len() as int) == pat
}

/// Whether `s` begins with `pat`.
pub fn chars_start_with(s: &[char], pat: &str) -> (r: bool)
    ensures
        r == starts_with(s@, pat@),
{
    let pv = chars_of(pat);
    if pv.len() > s.len() {
        return false;
    }
    let mut k: usize = 0;
    while k < pv.len()
        invariant
            k <= pv@.len(),
            pv@ == pat@,
            pv@.len() <= s@.len(),
            forall|m: int| 0 <= m < k ==> s@[m] == pv@[m],
        decreases pv@.len() - k,
    {
        if s[k] != pv[k] {
            assert(s@.subrange(0, pv@.len() as int)[k as int] != pat@[k as int]);
            return false;
        }
        k = k + 1;
    }
    assert(s@.subrange(0, pv@.len() as int) =~= pat@);
    true
}

/// The characters with the Unicode `White_Space` property, which is what
/// `char::is_whitespace` tests.
pub open spec fn is_ws(c: char) -> bool {
    let x = c as u32;
    (0x09 <= x && x <= 0x0d) || x == 0x20 || x == 0x85 || x == 0xa0 || x == 0x1680 || (0x2000 <= x
        && x <= 0x200a) || x == 0x2028 || x == 0x2029 || x == 0x202f || x == 0x205f || x == 0x3000
}

/// Whether `c` is whitespace.
pub fn is_whitespace(c: char) -> (r: bool)
    ensures
        r == is_ws(c),
{
    let x = c as u32;
    (0x09 <= x && x <= 0x0d) || x == 0x20 || x == 0x85 || x == 0xa0 || x == 0x1680 || (0x2000 <= x
        && x <= 0x200a) || x == 0x2028 || x == 0x2029 || x == 0x202f || x == 0x205f || x == 0x3000
}

/// The text from the first character that is not whitespace on.
pub open spec fn skip_ws(s: Seq<char>) -> Seq<char>
    decreases s.len(),
{
    if s.len() > 0 && is_ws(s[0]) {
        skip_ws(s.drop_first())
    } else {
        s
    }
}

/// How many characters open `s` before its first whitespace.
pub open spec fn word_len(s: Seq<char>) -> nat
    decreases s.len(),
{
    if s.len() == 0 || is_ws(s[0]) {
        0
    } else {
        1 + word_len(s.drop_first())
    }
}

pub proof fn lemma_skip_ws_len(s: Seq<char>)
    ensures
        skip_ws(s).len() <= s.len(),
        skip_ws(s).len() > 0 ==> !is_ws(skip_ws(s)[0]),
    decreases s.len(),
{
    if s.len() > 0 && is_ws(s[0]) {
        lemma_skip_ws_len(s.drop_first());
    }
}

pub proof fn lemma_word_len(s: Seq<char>)
    ensures
        word_len(s) <= s.len(),
        s.len() > 0 && !is_ws(s[0]) ==> word_len(s) >= 1,
    decreases s.len(),
{
    if s.len() > 0 && !is_ws(s[0]) {
        lemma_word_len(s.drop_first());
    }
}

/// The whitespace-separated words of `s`, as `str::split_whitespace` gives
/// them.
pub open spec fn words(s: Seq<char>) -> Seq<Seq<char>>
    decreases s.len(),
{
    let t = skip_ws(s);
    if t.len() == 0 {
        Seq::empty()
    } else {
        let n = word_len(t);
        proof {
            lemma_skip_ws_len(s);
            lemma_word_len(t);
        }
        seq![t.subrange(0, n as int)] + words(t.subrange(n as int, t.len() as int))
    }
}

proof fn lemma_words_skip(s: Seq<char>)
    requires
        s.len() > 0,
        is_ws(s[0]),
    ensures
        words(s) == words(s.drop_first()),
{
}

proof fn lemma_word_len_run(s: Seq<char>, n: int)
    requires
        0 <= n <= s.len(),
        forall|m: int| 0 <= m < n ==> !#[trigger] is_ws(s[m]),
        n == s.len() || is_ws(s[n]),
    ensures
        word_len(s) == n,
    decreases n,
{
    if n > 0 {
        lemma_word_len_run(s.drop_first(), n - 1);
    }
}

/// The words of `s`.
pub fn split_words(s: &[char]) -> (r: Vec<Vec<char>>)
    ensures
        r@.map_values(|w: Vec<char>| w@) == words(s@),
{
    let mut r: Vec<Vec<char>> = Vec::new();
    let mut i: usize = 0;
    assert(s@.subrange(0, s@.len() as int) =~= s@);
    while i < s.len()
        invariant
            i <= s@.len(),
            words(s@) == r@.map_values(|w: Vec<char>| w@) + words(s@.subrange(i as int, s@.len() as int)),
        decreases s@.len() - i,
    {
        let ghost rest = s@.subrange(i as int, s@.len() as int);
        if is_whitespace(s[i]) {
            proof {
                lemma_words_skip(rest);
                assert(rest.drop_first() =~= s@.subrange(i + 1, s@.len() as int));
            }
            i = i + 1;
        } else {
            let mut w: Vec<char> = Vec::new();
            let mut j: usize = i;
            while j < s.len() && !is_whitespace(s[j])
                invariant
                    i <= j <= s@.len(),
                    w@ == s@.subrange(i as int, j as int),
                    forall|m: int| i <= m < j ==> !#[trigger] is_ws(s@[m]),
                decreases s@.len() - j,
            {
                w.push(s[j]);
                j = j + 1;
            }
            proof {
                assert(skip_ws(rest) == rest);
                lemma_word_len_run(rest, j - i);
                assert(rest.subrange(0, j - i) =~= s@.subrange(i as int, j as int));
                assert(rest.subrange(j - i, rest.len() as int) =~= s@.subrange(j as int, s@.len() as int));
            }
            let ghost before = r@.map_values(|w: Vec<char>| w@);
            r.push(w);
            assert(r@.map_values(|w: Vec<char>| w@) =~= before.push(s@.subrange(i as int, j as int)));
            i = j;
        }
    }
    assert(words(s@.subrange(i as int, s@.len() as int)) =~= Seq::<Seq<char>>::empty());
    r
}

/// `s` without its whitespace at both ends, as `str::trim` gives it.
pub open spec fn trim(s: Seq<char>) -> Seq<char> {
    let t = skip_ws(s);
    t.subrange(0, t.len() - trailing_ws(t))
}

/// How many whitespace characters end `s`.
pub open spec fn trailing_ws(s: Seq<char>) -> int
    decreases s.len(),
{
    if s.len() > 0 && is_ws(s.last()) {
        1 + trailing_ws(s.drop_last())
    } else {
        0
    }
}

proof fn lemma_trailing_ws(s: Seq<char>)
    ensures
        0 <= trailing_ws(s) <= s.len(),
    decreases s.len(),
{
    if s.len() > 0 && is_ws(s.last()) {
        lemma_trailing_ws(s.drop_last());
    }
}

proof fn lemma_skip_ws_suffix(s: Seq<char>, i: int)
    requires
        0 <= i <= s.len(),
        forall|m: int| 0 <= m < i ==> #[trigger] is_ws(s[m]),
    ensures
        skip_ws(s) == skip_ws(s.subrange(i, s.len() as int)),
    decreases i,
{
    if i > 0 {
        assert(is_ws(s[0]));
        assert(s.drop_first().subrange(i - 1, s.len() - 1) =~= s.subrange(i, s.len() as int));
        assert forall|m: int| 0 <= m < i - 1 implies #[trigger] is_ws(s.drop_first()[m]) by {
            assert(s.drop_first()[m] == s[m + 1]);
        }
        lemma_skip_ws_suffix(s.drop_first(), i - 1);
    } else {
        assert(s.subrange(0, s.len() as int) =~= s);
    }
}

proof fn lemma_trailing_prefix(s: Seq<char>, j: int)
    requires
        0 <= j <= s.len(),
        forall|m: int| j <= m < s.len() ==> #[trigger] is_ws(s[m]),
        j == 0 || !is_ws(s[j - 1]),
    ensures
        trailing_ws(s) == s.len() - j,
    decreases s.len() - j,
{
    if j < s.len() {
        assert(s.drop_last().len() == s.len() - 1);
        assert forall|m: int| j <= m < s.drop_last().len() implies #[trigger] is_ws(s.drop_last()[m]) by {
            assert(s.drop_last()[m] == s[m]);
        }
        lemma_trailing_prefix(s.drop_last(), j);
    }
}

/// `s` without its whitespace at both ends.
pub fn trim_chars(s: &[char]) -> (r: Vec<char>)
    ensures
        r@ == trim(s@),
{
    let mut i: usize = 0;
    while i < s.len() && is_whitespace(s[i])
        invariant
            i <= s@.len(),
            forall|m: int| 0 <= m < i ==> #[trigger] is_ws(s@[m]),
        decreases s@.len() - i,
    {
        i = i + 1;
    }
    let mut j: usize = s.len();
    while j > i && is_whitespace(s[j - 1])
        invariant
            i <= j <= s@.len(),
            forall|m: int| j <= m < s@.len() ==> #[trigger] is_ws(s@[m]),
        decreases j,
    {
        j = j - 1;
    }
    let mut r: Vec<char> = Vec::new();
    let mut k: usize = i;
    while k < j
        invariant
            i <= k <= j,
            j <= s@.len(),
            r@ == s@.subrange(i as int, k as int),
        decreases j - k,
    {
        r.push(s[k]);
        k = k + 1;
    }
    proof {
        lemma_skip_ws_suffix(s@, i as int);
        let t = s@.subrange(i as int, s@.len() as int);
        if i < s@.len() {
            assert(!is_ws(t[0]));
        }
        assert(skip_ws(t) == t);
        assert forall|m: int| j - i <= m < t.len() implies #[trigger] is_ws(t[m]) by {
            assert(t[m] == s@[i + m]);
        }
        if j > i {
            assert(t[j - i - 1] == s@[j - 1]);
        }
        lemma_trailing_prefix(t, j - i);
        assert(t.subrange(0, j - i) =~= s@.subrange(i as int, j as int));
    }
    r
}

/// The pieces of `s` between newlines: every piece followed by a newline
/// loses one carriage return at its end, and an empty last piece is
/// dropped. These are the lines that `str::lines` gives.
pub open spec fn lines(s: Seq<char>) -> Seq<Seq<char>>
    decreases s.len(),
{
    match find(s, seq!['\n']) {
        Some(i) => {
            proof {
                lemma_find_from(s, seq!['\n'], 0);
            }
            let piece = s.subrange(0, i);
            let line = if piece.len() > 0 && piece.last() == '\r' {
                piece.drop_last()
            } else {
                piece
            };
            seq![line] + lines(s.subrange(i + 1, s.len() as int))
        },
        None => if s.len() == 0 {
            Seq::empty()
        } else {
            seq![s]
        },
    }
}

/// The lines of `s`.
pub fn split_lines(s: &str) -> (r: Vec<Vec<char>>)
    ensures
        r@.map_values(|l: Vec<char>| l@) == lines(s@),
{
    let cs = chars_of(s);
    let mut r: Vec<Vec<char>> = Vec::new();
    let mut i: usize = 0;
    let newline: [char; 1] = ['\n'];
    assert(newline@ == seq!['\n']);
    assert(cs@.subrange(0, cs@.len() as int) =~= cs@);
    while i < cs.len()
        invariant
            i <= cs@.len(),
            newline@ == seq!['\n'],
            lines(cs@) == r@.map_values(|l: Vec<char>| l@) + lines(cs@.subrange(i as int, cs@.len() as int)),
        decreases cs@.len() - i,
    {
        let ghost rest = cs@.subrange(i as int, cs@.len() as int);
        let found = find_chars_from(cs.as_slice(), newline.as_slice(), i);
        proof {
            lemma_find_from(cs@, seq!['\n'], i as int);
            lemma_find_from(rest, seq!['\n'], 0);
        }
        let end: usize = match found {
            Some(j) => j,
            None => cs.len(),
        };
        proof {
            assert forall|k: int| 0 <= k < end - i implies !#[trigger] occurs_at(rest, seq!['\n'], k) by {
                assert(!occurs_at(cs@, seq!['\n'], i + k));
                assert(rest.subrange(k, k + 1) =~= cs@.subrange(i + k, i + k + 1));
            }
            if found is Some {
                assert(rest.subrange(end - i, end - i + 1) =~= cs@.subrange(end as int, end + 1));
                assert(occurs_at(rest, seq!['\n'], end - i));
            }
        }
        let mut line: Vec<char> = Vec::new();
        let mut k: usize = i;
        while k < end
            invariant
                i <= k <= end,
                end <= cs@.len(),
                line@ == cs@.subrange(i as int, k as int),
            decreases end - k,
        {
            line.push(cs[k]);
            k = k + 1;
        }
        let ghost before = r@.map_values(|l: Vec<char>| l@);
        match found {
            Some(j) => {
                let ghost piece = line@;
                if line.len() > 0 && line[line.len() - 1] == '\r' {
                    line.pop();
                }
                proof {
                    if find(rest, seq!['\n']) != Some(j - i) {
                        lemma_find_from(rest, seq!['\n'], 0);
                    }
                    assert(rest.subrange(0, j - i) =~= piece);
                    assert(rest.subrange(j - i + 1, rest.len() as int) =~= cs@.subrange(j + 1, cs@.len() as int));
                }
                r.push(line);
                assert(r@.map_values(|l: Vec<char>| l@) =~= before.push(r@[r@.len() - 1]@));
                i = j + 1;
            },
            None => {
                proof {
                    assert(find(rest, seq!['\n']) is None);
                    assert(line@ =~= rest);
                    assert(cs@.subrange(cs@.len() as int, cs@.len() as int) =~= Seq::<char>::empty());
                }
                r.push(line);
                assert(r@.map_values(|l: Vec<char>| l@) =~= before.push(rest));
                i = cs.len();
            },
        }
    }
    assert(cs@.subrange(i as int, cs@.len() as int) =~= Seq::<char>::empty());
    r
}

} // verus!
