use vstd::prelude::*;
use vstd::string::*;

verus! {

/// The parts of a URL that a connection needs.
pub struct URL {
    pub protocol: String,
    pub host: String,
    pub port: isize,
    pub path: String,
}

pub open spec fn http_prefix() -> Seq<char> {
    seq!['h', 't', 't', 'p', ':', '/', '/']
}

pub open spec fn https_prefix() -> Seq<char> {
    seq!['h', 't', 't', 'p', 's', ':', '/', '/']
}

pub open spec fn has_prefix(s: Seq<char>, p: Seq<char>) -> bool {
    p.len() <= s.len() && s.subrange(0, p.len() as int) == p
}

/// Whether the URL names the `https` scheme.
pub open spec fn is_https(u: Seq<char>) -> bool {
    !has_prefix(u, http_prefix()) && has_prefix(u, https_prefix())
}

/// Length of the scheme prefix that the URL starts with, 0 when there is none.
pub open spec fn scheme_len(u: Seq<char>) -> int {
    if has_prefix(u, http_prefix()) {
        7
    } else if is_https(u) {
        8
    } else {
        0
    }
}

pub open spec fn protocol_of(u: Seq<char>) -> Seq<char> {
    if is_https(u) {
        seq!['h', 't', 't', 'p', 's']
    } else {
        seq!['h', 't', 't', 'p']
    }
}

/// `i` is the first position of `c` in `s`.
pub open spec fn first_at(s: Seq<char>, c: char, i: int) -> bool {
    &&& 0 <= i < s.len()
    &&& s[i] == c
    &&& forall|j: int| 0 <= j < i ==> s[j] != c
}

/// The first position of `c` in `s`, or the length of `s` when `c` does not occur.
#[verifier::opaque]
pub open spec fn first_index(s: Seq<char>, c: char) -> int {
    if exists|i: int| first_at(s, c, i) {
        choose|i: int| first_at(s, c, i)
    } else {
        s.len() as int
    }
}

/// What follows the scheme prefix.
pub open spec fn uri_of(u: Seq<char>) -> Seq<char> {
    u.subrange(scheme_len(u), u.len() as int)
}

/// Host and optional port: the URI up to its first `/`.
pub open spec fn authority_of(u: Seq<char>) -> Seq<char> {
    let uri = uri_of(u);
    uri.subrange(0, first_index(uri, '/'))
}

pub open spec fn path_of(u: Seq<char>) -> Seq<char> {
    let uri = uri_of(u);
    let i = first_index(uri, '/');
    if i < uri.len() {
        uri.subrange(i, uri.len() as int)
    } else {
        seq!['/']
    }
}

/// The host named in an authority: the part before its first `:`.
pub open spec fn host_in(a: Seq<char>) -> Seq<char> {
    a.subrange(0, first_index(a, ':'))
}

pub open spec fn host_of(u: Seq<char>) -> Seq<char> {
    host_in(authority_of(u))
}

/// The text between the first `:` of an authority and the next `:`, if any.
pub open spec fn port_text_in(a: Seq<char>) -> Seq<char> {
    let rest = a.subrange(first_index(a, ':') + 1, a.len() as int);
    rest.subrange(0, first_index(rest, ':'))
}

pub open spec fn is_digit(c: char) -> bool {
    '0' <= c && c <= '9'
}

pub open spec fn digit_value(c: char) -> int {
    (c as int) - ('0' as int)
}

pub open spec fn all_digits(s: Seq<char>) -> bool {
    s.len() > 0 && forall|i: int| 0 <= i < s.len() ==> is_digit(#[trigger] s[i])
}

/// The number that a string of decimal digits denotes.
pub open spec fn digits_value(s: Seq<char>) -> int
    decreases s.len(),
{
    if s.len() == 0 {
        0
    } else {
        digits_value(s.drop_last()) * 10 + digit_value(s.last())
    }
}

/// The decimal integer with an optional sign that `s` spells, when it fits in `isize`.
pub open spec fn parse_isize(s: Seq<char>) -> Option<int> {
    let neg = s.len() > 0 && s[0] == '-';
    let signed = s.len() > 0 && (s[0] == '-' || s[0] == '+');
    let digits = if signed {
        s.drop_first()
    } else {
        s
    };
    let v = if neg {
        -digits_value(digits)
    } else {
        digits_value(digits)
    };
    if all_digits(digits) && isize::MIN <= v <= isize::MAX {
        Some(v)
    } else {
        None
    }
}

/// The port of an authority: the one it spells out, or the scheme's default.
pub open spec fn port_in(a: Seq<char>, https: bool) -> Option<int> {
    if first_index(a, ':') < a.len() {
        parse_isize(port_text_in(a))
    } else if https {
        Some(443)
    } else {
        Some(80)
    }
}

pub open spec fn port_of(u: Seq<char>) -> Option<int> {
    port_in(authority_of(u), is_https(u))
}

proof fn lemma_digits_value_monotone(s: Seq<char>, k: int)
    requires
        0 <= k <= s.len(),
        forall|i: int| 0 <= i < s.len() ==> is_digit(#[trigger] s[i]),
    ensures
        0 <= digits_value(s.subrange(0, k)) <= digits_value(s),
    decreases s.len() - k,
{
    if k < s.len() {
        lemma_digits_value_monotone(s, k + 1);
        let t = s.subrange(0, k + 1);
        assert(t.drop_last() =~= s.subrange(0, k));
    } else {
        assert(s.subrange(0, k) =~= s);
        lemma_digits_value_nonneg(s);
    }
}

proof fn lemma_digits_value_nonneg(s: Seq<char>)
    requires
        forall|i: int| 0 <= i < s.len() ==> is_digit(#[trigger] s[i]),
    ensures
        0 <= digits_value(s),
    decreases s.len(),
{
    if s.len() > 0 {
        assert(forall|i: int| 0 <= i < s.len() - 1 ==> s.drop_last()[i] == s[i]);
        lemma_digits_value_nonneg(s.drop_last());
    }
}

/// Parses `s[from..to]` as a decimal integer with an optional sign.
fn parse_isize_exec(s: &Vec<char>, from: usize, to: usize) -> (r: Option<isize>)
    requires
        from <= to <= s@.len(),
    ensures
        r is Some <==> parse_isize(s@.subrange(from as int, to as int)) is Some,
        r matches Some(v) ==> parse_isize(s@.subrange(from as int, to as int)) == Some(v as int),
{
    let ghost t = s@.subrange(from as int, to as int);
    let mut start = from;
    let mut neg = false;
    if from < to && (s[from] == '-' || s[from] == '+') {
        neg = s[from] == '-';
        start = from + 1;
    }
    let ghost digits = s@.subrange(start as int, to as int);
    assert(digits =~= (if t.len() > 0 && (t[0] == '-' || t[0] == '+') {
        t.drop_first()
    } else {
        t
    }));
    assert(neg == (t.len() > 0 && t[0] == '-'));
    let ghost value = if neg {
        -digits_value(digits)
    } else {
        digits_value(digits)
    };
    assert(parse_isize(t) == if all_digits(digits) && isize::MIN <= value <= isize::MAX {
        Some(value)
    } else {
        None::<int>
    });
    if start == to {
        assert(digits.len() == 0);
        return None;
    }
    let mut acc: isize = 0;
    let mut i = start;
    while i < to
        invariant
            start <= i <= to <= s@.len(),
            digits == s@.subrange(start as int, to as int),
            value == if neg {
                -digits_value(digits)
            } else {
                digits_value(digits)
            },
            parse_isize(s@.subrange(from as int, to as int)) == if all_digits(digits) && isize::MIN
                <= value <= isize::MAX {
                Some(value)
            } else {
                None::<int>
            },
            forall|k: int| start <= k < i ==> is_digit(#[trigger] s@[k]),
            acc as int == if neg {
                -digits_value(s@.subrange(start as int, i as int))
            } else {
                digits_value(s@.subrange(start as int, i as int))
            },
        decreases to - i,
    {
        let c = s[i];
        if !('0' <= c && c <= '9') {
            assert(digits[i - start] == c);
            assert(!all_digits(digits));
            return None;
        }
        let d = (c as u32 - '0' as u32) as isize;
        let ghost prefix = s@.subrange(start as int, i as int + 1);
        assert(prefix.drop_last() =~= s@.subrange(start as int, i as int));
        assert(forall|k: int| 0 <= k < prefix.len() ==> is_digit(#[trigger] prefix[k])) by {
            assert(forall|k: int| 0 <= k < prefix.len() ==> prefix[k] == s@[start + k]);
        }
        let next = match acc.checked_mul(10) {
            Some(m) => if neg {
                m.checked_sub(d)
            } else {
                m.checked_add(d)
            },
            None => None,
        };
        match next {
            Some(n) => {
                acc = n;
            },
            None => {
                proof {
                    assert(digits_value(prefix) == digits_value(
                        s@.subrange(start as int, i as int),
                    ) * 10 + digit_value(c));
                    lemma_digits_value_nonneg(s@.subrange(start as int, i as int));
                    if all_digits(digits) {
                        lemma_digits_value_monotone(digits, i + 1 - start);
                        assert(digits.subrange(0, i + 1 - start) =~= prefix);
                    }
                }
                return None;
            },
        }
        i = i + 1;
    }
    assert(s@.subrange(start as int, to as int) =~= digits);
    assert(forall|k: int| 0 <= k < digits.len() ==> is_digit(#[trigger] digits[k])) by {
        assert(forall|k: int| 0 <= k < digits.len() ==> digits[k] == s@[start + k]);
    }
    Some(acc)
}

/// The characters of `s`, one by one.
pub(crate) fn chars_of(s: &str) -> (r: Vec<char>)
    ensures
        r@ == s@,
{
    let n = s.unicode_len();
    let mut v: Vec<char> = Vec::new();
    let mut i: usize = 0;
    while i < n
        invariant
            n == s@.len(),
            i <= n,
            v@ == s@.subrange(0, i as int),
        decreases n - i,
    {
        v.push(s.get_char(i));
        i = i + 1;
        assert(v@ =~= s@.subrange(0, i as int));
    }
    assert(v@ =~= s@);
    v
}

/// Whether `s` starts with the characters of `p`.
fn starts_with_at(s: &Vec<char>, p: &Vec<char>) -> (r: bool)
    ensures
        r == has_prefix(s@, p@),
{
    if p.len() > s.len() {
        return false;
    }
    let mut i: usize = 0;
    while i < p.len()
        invariant
            p@.len() <= s@.len(),
            i <= p@.len(),
            forall|k: int| 0 <= k < i ==> s@[k] == p@[k],
        decreases p@.len() - i,
    {
        if s[i] != p[i] {
            assert(s@.subrange(0, p@.len() as int)[i as int] != p@[i as int]);
            return false;
        }
        i = i + 1;
    }
    assert(s@.subrange(0, p@.len() as int) =~= p@);
    true
}

/// The first position of `c` in `s[from..to]`, relative to `from`.
fn find_char(s: &Vec<char>, from: usize, to: usize, c: char) -> (r: usize)
    requires
        from <= to <= s@.len(),
    ensures
        r as int == first_index(s@.subrange(from as int, to as int), c),
        r <= to - from,
{
    proof {
        reveal(first_index);
    }
    let ghost t = s@.subrange(from as int, to as int);
    let mut i = from;
    while i < to
        invariant
            from <= i <= to <= s@.len(),
            t == s@.subrange(from as int, to as int),
            forall|j: int| 0 <= j < i - from ==> t[j] != c,
        decreases to - i,
    {
        if s[i] == c {
            proof {
                reveal(first_index);
                let w = (i - from) as int;
                assert(first_at(t, c, w));
                let k = choose|k: int| first_at(t, c, k);
                assert(first_at(t, c, k));
                if k < w {
                    assert(t[k] != c);
                } else if k > w {
                    assert(t[w] == c);
                }
                assert(first_index(t, c) == w);
            }
            return i - from;
        }
        i = i + 1;
    }
    assert(!exists|k: int| first_at(t, c, k));
    to - from
}

fn string_of(s: &str, from: usize, to: usize) -> (r: String)
    requires
        from <= to <= s@.len(),
    ensures
        r@ == s@.subrange(from as int, to as int),
{
    s.substring_char(from, to).to_owned()
}

/// The port spelled out in the authority `s[start..end]`, or the scheme's default.
fn port_in_exec(s: &Vec<char>, start: usize, end: usize, https: bool) -> (r: Option<isize>)
    requires
        start <= end <= s@.len(),
    ensures
        r is Some <==> port_in(s@.subrange(start as int, end as int), https) is Some,
        r matches Some(p) ==> port_in(s@.subrange(start as int, end as int), https) == Some(
            p as int,
        ),
{
    let ghost a = s@.subrange(start as int, end as int);
    let colon = find_char(s, start, end, ':');
    if start + colon < end {
        let after = start + colon + 1;
        let ghost rest = a.subrange(colon + 1, a.len() as int);
        assert(rest =~= s@.subrange(after as int, end as int));
        let second = find_char(s, after, end, ':');
        assert(port_text_in(a) =~= s@.subrange(after as int, (after + second) as int));
        parse_isize_exec(s, after, after + second)
    } else if https {
        Some(443)
    } else {
        Some(80)
    }
}

fn protocol_string(https: bool) -> (r: String)
    ensures
        r@ == (if https {
            seq!['h', 't', 't', 'p', 's']
        } else {
            seq!['h', 't', 't', 'p']
        }),
{
    proof {
        reveal_strlit("https");
        reveal_strlit("http");
    }
    if https {
        let r = String::from_str("https");
        assert(r@ =~= seq!['h', 't', 't', 'p', 's']);
        r
    } else {
        let r = String::from_str("http");
        assert(r@ =~= seq!['h', 't', 't', 'p']);
        r
    }
}

/// Where the URI starts and whether the scheme is `https`.
fn scheme_of(chars: &Vec<char>) -> (r: (bool, usize))
    ensures
        r.0 == is_https(chars@),
        r.1 as int == scheme_len(chars@),
{
    let http: Vec<char> = vec!['h', 't', 't', 'p', ':', '/', '/'];
    let https: Vec<char> = vec!['h', 't', 't', 'p', 's', ':', '/', '/'];
    assert(http@ =~= http_prefix());
    assert(https@ =~= https_prefix());
    if starts_with_at(chars, &http) {
        (false, 7)
    } else if starts_with_at(chars, &https) {
        (true, 8)
    } else {
        (false, 0)
    }
}

impl URL {
    /// Splits a URL into scheme, host, port and path.
    ///
    /// A URL that starts with neither `http://` nor `https://` is read as a bare
    /// `http` address. The path runs from the first `/` after the scheme and
    /// defaults to `/`. A port after `:` replaces the scheme's default (80 or 443);
    /// `None` when that port is not a decimal integer that fits in `isize`.
    pub fn parser(url: &str) -> (r: Option<URL>)
        ensures
            r is Some <==> port_of(url@) is Some,
            r matches Some(u) ==> {
                &&& u.protocol@ == protocol_of(url@)
                &&& u.host@ == host_of(url@)
                &&& Some(u.port as int) == port_of(url@)
                &&& u.path@ == path_of(url@)
            },
    {
        let chars = chars_of(url);
        let ghost u = url@;
        let n = chars.len();
        let (secure, start) = scheme_of(&chars);
        let ghost uri = uri_of(u);
        let slash = find_char(&chars, start, n, '/');
        let host_end = start + slash;
        let path = if host_end < n {
            string_of(url, host_end, n)
        } else {
            let p = String::from_str("/");
            proof {
                reveal_strlit("/");
            }
            assert(p@ =~= seq!['/']);
            p
        };
        assert(path@ =~= path_of(u));
        let ghost a = authority_of(u);
        assert(a =~= u.subrange(start as int, host_end as int));
        let colon = find_char(&chars, start, host_end, ':');
        let host = string_of(url, start, start + colon);
        assert(host@ =~= host_of(u));
        let port = match port_in_exec(&chars, start, host_end, secure) {
            Some(p) => p,
            None => {
                return None;
            },
        };
        let protocol = protocol_string(secure);
        Some(URL { protocol, host, port, path })
    }
}

} // verus!
