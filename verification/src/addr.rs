//! Addresses and registry keys.
//!
//! A registry key is the textual socket address `"<ip>:<port>"` observed at
//! accept time. The relay routes on IPv4 addresses. This module gives the
//! plain-value forms of an address and of a key, the grammar of their
//! canonical texts, and verified parsing and formatting between the two:
//! parsing succeeds exactly on the canonical texts (decimal components,
//! no leading zeros), which are also exactly the texts formatting produces.

use vstd::prelude::*;

verus! {

/// An IPv4 address as four plain octets.
#[derive(Clone, Copy, PartialEq, Eq, Structural, Debug)]
pub struct Ipv4 {
    pub a: u8,
    pub b: u8,
    pub c: u8,
    pub d: u8,
}

/// A registry key: the IPv4 address and port of one live connection,
/// as assigned from the client's observed socket address at accept time.
#[derive(Clone, Copy, PartialEq, Eq, Structural, Debug)]
pub struct ConnKey {
    pub ip: Ipv4,
    pub port: u16,
}

// ---------------------------------------------------------------------------
// Decimal components
// ---------------------------------------------------------------------------

pub open spec fn is_digit_char(c: char) -> bool {
    '0' as int <= c as int && c as int <= '9' as int
}

pub open spec fn digit_val(c: char) -> nat {
    (c as int - '0' as int) as nat
}

pub open spec fn digit_char(n: nat) -> char {
    if n == 0 {
        '0'
    } else if n == 1 {
        '1'
    } else if n == 2 {
        '2'
    } else if n == 3 {
        '3'
    } else if n == 4 {
        '4'
    } else if n == 5 {
        '5'
    } else if n == 6 {
        '6'
    } else if n == 7 {
        '7'
    } else if n == 8 {
        '8'
    } else {
        '9'
    }
}

pub open spec fn all_digits(s: Seq<char>) -> bool {
    forall|i: int| 0 <= i < s.len() ==> is_digit_char(#[trigger] s[i])
}

/// The number a digit sequence denotes, most significant digit first.
pub open spec fn dec_val(s: Seq<char>) -> nat
    decreases s.len(),
{
    if s.len() == 0 {
        0
    } else {
        dec_val(s.drop_last()) * 10 + digit_val(s.last())
    }
}

/// The canonical text of `n`: its decimal digits, no leading zeros.
pub open spec fn dec_text(n: nat) -> Seq<char>
    decreases n,
{
    if n < 10 {
        seq![digit_char(n)]
    } else {
        dec_text(n / 10).push(digit_char(n % 10))
    }
}

/// A canonical decimal component: nonempty, digits only, and no leading
/// zero (a single `"0"` is allowed).
pub open spec fn valid_dec(s: Seq<char>) -> bool {
    &&& s.len() >= 1
    &&& all_digits(s)
    &&& (s.len() == 1 || s[0] != '0')
}

pub open spec fn valid_octet_text(s: Seq<char>) -> bool {
    valid_dec(s) && dec_val(s) <= 255
}

pub open spec fn valid_port_text(s: Seq<char>) -> bool {
    valid_dec(s) && dec_val(s) <= 65535
}

proof fn lemma_dec_val_prefix_mono(s: Seq<char>, i: int)
    requires
        0 <= i <= s.len(),
    ensures
        dec_val(s.subrange(0, i)) <= dec_val(s),
    decreases s.len() - i,
{
    if i == s.len() {
        assert(s.subrange(0, i) =~= s);
    } else {
        assert(s.subrange(0, i + 1).drop_last() =~= s.subrange(0, i));
        assert(dec_val(s.subrange(0, i + 1)) == dec_val(s.subrange(0, i)) * 10 + digit_val(
            s.subrange(0, i + 1).last(),
        ));
        lemma_dec_val_prefix_mono(s, i + 1);
    }
}

/// `dec_text(n)` is a canonical component and denotes `n`; it never starts
/// with `'0'` unless `n` itself is zero.
pub proof fn lemma_dec_text_props(n: nat)
    ensures
        valid_dec(dec_text(n)),
        dec_val(dec_text(n)) == n,
        n >= 1 ==> dec_text(n)[0] != '0',
    decreases n,
{
    if n < 10 {
        let s = dec_text(n);
        assert(s.len() == 1);
        assert(s[0] == digit_char(n));
        assert(is_digit_char(digit_char(n)));
        assert(s.drop_last() =~= Seq::<char>::empty());
        assert(dec_val(Seq::<char>::empty()) == 0);
        assert(s.last() == digit_char(n));
        assert(dec_val(s) == digit_val(digit_char(n)));
    } else {
        lemma_dec_text_props(n / 10);
        let p = dec_text(n / 10);
        let s = dec_text(n);
        assert(s == p.push(digit_char(n % 10)));
        assert(s.drop_last() =~= p);
        assert(s.last() == digit_char(n % 10));
        assert(dec_val(s) == dec_val(p) * 10 + digit_val(digit_char(n % 10)));
        assert(dec_val(s) == n);
        assert forall|i: int| 0 <= i < s.len() implies is_digit_char(#[trigger] s[i]) by {
            if i < p.len() {
                assert(s[i] == p[i]);
            } else {
                assert(s[i] == digit_char(n % 10));
            }
        }
        assert(s[0] == p[0]);
        assert(n / 10 >= 1);
    }
}

// ---------------------------------------------------------------------------
// Address and key texts
// ---------------------------------------------------------------------------

/// The canonical dotted-quad text of an address.
pub open spec fn ipv4_text(ip: Ipv4) -> Seq<char> {
    dec_text(ip.a as nat) + seq!['.'] + dec_text(ip.b as nat) + seq!['.'] + dec_text(ip.c as nat)
        + seq!['.'] + dec_text(ip.d as nat)
}

/// The canonical `"<ip>:<port>"` text of a key.
pub open spec fn key_text(k: ConnKey) -> Seq<char> {
    ipv4_text(k.ip) + seq![':'] + dec_text(k.port as nat)
}

/// `s` splits as dotted quad with the three dots at `i < j < k`.
pub open spec fn ipv4_split_at(s: Seq<char>, i: int, j: int, k: int) -> bool {
    &&& 0 <= i < j < k < s.len()
    &&& s[i] == '.'
    &&& s[j] == '.'
    &&& s[k] == '.'
    &&& valid_octet_text(s.subrange(0, i))
    &&& valid_octet_text(s.subrange(i + 1, j))
    &&& valid_octet_text(s.subrange(j + 1, k))
    &&& valid_octet_text(s.subrange(k + 1, s.len() as int))
}

pub open spec fn valid_ipv4_text(s: Seq<char>) -> bool {
    exists|t: (int, int, int)| ipv4_split_at(s, t.0, t.1, t.2)
}

pub open spec fn ipv4_at_split(s: Seq<char>, i: int, j: int, k: int) -> Ipv4 {
    Ipv4 {
        a: dec_val(s.subrange(0, i)) as u8,
        b: dec_val(s.subrange(i + 1, j)) as u8,
        c: dec_val(s.subrange(j + 1, k)) as u8,
        d: dec_val(s.subrange(k + 1, s.len() as int)) as u8,
    }
}

/// What parsing a destination or key half as an address yields.
pub open spec fn spec_parse_ipv4(s: Seq<char>) -> Option<Ipv4> {
    if valid_ipv4_text(s) {
        let t = choose|t: (int, int, int)| ipv4_split_at(s, t.0, t.1, t.2);
        Some(ipv4_at_split(s, t.0, t.1, t.2))
    } else {
        None
    }
}

/// `s` splits as `"<ip>:<port>"` with the colon at `c`.
pub open spec fn key_split_at(s: Seq<char>, c: int) -> bool {
    &&& 0 <= c < s.len()
    &&& s[c] == ':'
    &&& valid_ipv4_text(s.subrange(0, c))
    &&& valid_port_text(s.subrange(c + 1, s.len() as int))
}

pub open spec fn valid_key_text(s: Seq<char>) -> bool {
    exists|c: int| key_split_at(s, c)
}

pub open spec fn key_at_split(s: Seq<char>, c: int) -> ConnKey {
    ConnKey {
        ip: spec_parse_ipv4(s.subrange(0, c)).unwrap(),
        port: dec_val(s.subrange(c + 1, s.len() as int)) as u16,
    }
}

/// What parsing a full `"<ip>:<port>"` key yields.
pub open spec fn spec_parse_key(s: Seq<char>) -> Option<ConnKey> {
    if valid_key_text(s) {
        Some(key_at_split(s, choose|c: int| key_split_at(s, c)))
    } else {
        None
    }
}

/// In a dotted quad, the dots stand exactly at the split positions and
/// every other character is a digit.
proof fn lemma_ipv4_dots(s: Seq<char>, i: int, j: int, k: int, p: int)
    requires
        ipv4_split_at(s, i, j, k),
        0 <= p < s.len(),
    ensures
        (s[p] == '.') <==> (p == i || p == j || p == k),
        s[p] == '.' || is_digit_char(s[p]),
{
    if p != i && p != j && p != k {
        if p < i {
            assert(s.subrange(0, i)[p] == s[p]);
            assert(is_digit_char(s.subrange(0, i)[p]));
        } else if p < j {
            assert(s.subrange(i + 1, j)[p - (i + 1)] == s[p]);
            assert(is_digit_char(s.subrange(i + 1, j)[p - (i + 1)]));
        } else if p < k {
            assert(s.subrange(j + 1, k)[p - (j + 1)] == s[p]);
            assert(is_digit_char(s.subrange(j + 1, k)[p - (j + 1)]));
        } else {
            assert(s.subrange(k + 1, s.len() as int)[p - (k + 1)] == s[p]);
            assert(is_digit_char(s.subrange(k + 1, s.len() as int)[p - (k + 1)]));
        }
    }
}

/// A dotted quad splits in only one way.
proof fn lemma_ipv4_split_unique(s: Seq<char>, i1: int, j1: int, k1: int, i2: int, j2: int, k2: int)
    requires
        ipv4_split_at(s, i1, j1, k1),
        ipv4_split_at(s, i2, j2, k2),
    ensures
        i1 == i2 && j1 == j2 && k1 == k2,
{
    lemma_ipv4_dots(s, i2, j2, k2, i1);
    lemma_ipv4_dots(s, i2, j2, k2, j1);
    lemma_ipv4_dots(s, i2, j2, k2, k1);
    lemma_ipv4_dots(s, i1, j1, k1, i2);
    lemma_ipv4_dots(s, i1, j1, k1, j2);
    lemma_ipv4_dots(s, i1, j1, k1, k2);
}

/// In a key text the colon stands at exactly one place.
proof fn lemma_key_colon_unique(s: Seq<char>, c: int, p: int)
    requires
        key_split_at(s, c),
        0 <= p < s.len(),
        s[p] == ':',
    ensures
        p == c,
{
    if p < c {
        let t = s.subrange(0, c);
        let w = choose|w: (int, int, int)| ipv4_split_at(t, w.0, w.1, w.2);
        lemma_ipv4_dots(t, w.0, w.1, w.2, p);
        assert(t[p] == s[p]);
    } else if p > c {
        assert(s.subrange(c + 1, s.len() as int)[p - (c + 1)] == s[p]);
        assert(is_digit_char(s.subrange(c + 1, s.len() as int)[p - (c + 1)]));
    }
}

/// The two destination forms are disjoint: a full `"<ip>:<port>"` key text
/// is never itself a bare dotted-quad text.
pub proof fn lemma_key_not_ipv4(s: Seq<char>)
    ensures
        !(valid_key_text(s) && valid_ipv4_text(s)),
{
    if valid_key_text(s) && valid_ipv4_text(s) {
        let c = choose|c: int| key_split_at(s, c);
        let t = choose|t: (int, int, int)| ipv4_split_at(s, t.0, t.1, t.2);
        lemma_ipv4_dots(s, t.0, t.1, t.2, c);
    }
}

// ---------------------------------------------------------------------------
// Parsing
// ---------------------------------------------------------------------------

/// First position of `target` in `s` at or after `from`.
fn find_char_from(s: &str, from: usize, target: char) -> (r: Option<usize>)
    requires
        from <= s@.len(),
    ensures
        match r {
            Some(p) => from <= p < s@.len() && s@[p as int] == target && forall|q: int|
                from <= q < p ==> s@[q] != target,
            None => forall|q: int| from <= q < s@.len() ==> s@[q] != target,
        },
{
    let n = s.unicode_len();
    let mut p: usize = from;
    while p < n
        invariant
            n == s@.len(),
            from <= p <= n,
            forall|q: int| from <= q < p ==> s@[q] != target,
        decreases n - p,
    {
        if s.get_char(p) == target {
            return Some(p);
        }
        p = p + 1;
    }
    None
}

/// Parse a canonical decimal component worth at most `cap`.
fn parse_dec(seg: &str, cap: u32) -> (r: Option<u32>)
    ensures
        match r {
            Some(v) => valid_dec(seg@) && dec_val(seg@) == v && v <= cap,
            None => !(valid_dec(seg@) && dec_val(seg@) <= cap),
        },
{
    let n = seg.unicode_len();
    if n == 0 {
        return None;
    }
    let c0 = seg.get_char(0);
    if n > 1 && c0 == '0' {
        return None;
    }
    let mut acc: u64 = 0;
    let mut i: usize = 0;
    while i < n
        invariant
            n == seg@.len(),
            i <= n,
            forall|q: int| 0 <= q < i ==> is_digit_char(#[trigger] seg@[q]),
            acc == dec_val(seg@.subrange(0, i as int)),
            acc <= cap,
        decreases n - i,
    {
        let c = seg.get_char(i);
        let d = c as u32;
        if d < 48 || d > 57 {
            assert(!is_digit_char(seg@[i as int]));
            return None;
        }
        let dv: u64 = (d - 48) as u64;
        proof {
            assert(seg@.subrange(0, i + 1 as int).drop_last() =~= seg@.subrange(0, i as int));
            assert(seg@.subrange(0, i + 1 as int).last() == seg@[i as int]);
        }
        let next: u64 = acc * 10 + dv;
        if next > cap as u64 {
            proof {
                if valid_dec(seg@) {
                    lemma_dec_val_prefix_mono(seg@, i + 1 as int);
                }
            }
            return None;
        }
        acc = next;
        i = i + 1;
    }
    proof {
        assert(seg@.subrange(0, n as int) =~= seg@);
    }
    Some(acc as u32)
}

/// Parse one octet of a dotted quad.
fn parse_octet(seg: &str) -> (r: Option<u8>)
    ensures
        match r {
            Some(v) => valid_octet_text(seg@) && dec_val(seg@) == v,
            None => !valid_octet_text(seg@),
        },
{
    match parse_dec(seg, 255) {
        Some(v) => Some(v as u8),
        None => None,
    }
}

/// Parse a destination or key half as a dotted-quad address. Succeeds
/// exactly on canonical dotted quads.
pub fn parse_ipv4(s: &str) -> (r: Option<Ipv4>)
    ensures
        r == spec_parse_ipv4(s@),
{
    let n = s.unicode_len();
    let i = match find_char_from(s, 0, '.') {
        Some(i) => i,
        None => {
            proof {
                if valid_ipv4_text(s@) {
                    let t = choose|t: (int, int, int)| ipv4_split_at(s@, t.0, t.1, t.2);
                    assert(s@[t.0] == '.');
                }
            }
            return None;
        },
    };
    let j = match find_char_from(s, i + 1, '.') {
        Some(j) => j,
        None => {
            proof {
                if valid_ipv4_text(s@) {
                    let t = choose|t: (int, int, int)| ipv4_split_at(s@, t.0, t.1, t.2);
                    lemma_ipv4_dots(s@, t.0, t.1, t.2, i as int);
                    assert(s@[t.1] == '.');
                }
            }
            return None;
        },
    };
    let k = match find_char_from(s, j + 1, '.') {
        Some(k) => k,
        None => {
            proof {
                if valid_ipv4_text(s@) {
                    let t = choose|t: (int, int, int)| ipv4_split_at(s@, t.0, t.1, t.2);
                    lemma_ipv4_dots(s@, t.0, t.1, t.2, i as int);
                    lemma_ipv4_dots(s@, t.0, t.1, t.2, j as int);
                    assert(s@[t.2] == '.');
                }
            }
            return None;
        },
    };
    if let Some(m) = find_char_from(s, k + 1, '.') {
        proof {
            if valid_ipv4_text(s@) {
                let t = choose|t: (int, int, int)| ipv4_split_at(s@, t.0, t.1, t.2);
                lemma_ipv4_dots(s@, t.0, t.1, t.2, i as int);
                lemma_ipv4_dots(s@, t.0, t.1, t.2, j as int);
                lemma_ipv4_dots(s@, t.0, t.1, t.2, k as int);
                lemma_ipv4_dots(s@, t.0, t.1, t.2, m as int);
            }
        }
        return None;
    }
    proof {
        if valid_ipv4_text(s@) {
            let t = choose|t: (int, int, int)| ipv4_split_at(s@, t.0, t.1, t.2);
            lemma_ipv4_dots(s@, t.0, t.1, t.2, i as int);
            lemma_ipv4_dots(s@, t.0, t.1, t.2, j as int);
            lemma_ipv4_dots(s@, t.0, t.1, t.2, k as int);
            assert(t.0 == i && t.1 == j && t.2 == k);
        }
    }
    let sa = s.substring_char(0, i);
    let sb = s.substring_char(i + 1, j);
    let sc = s.substring_char(j + 1, k);
    let sd = s.substring_char(k + 1, n);
    let a = match parse_octet(sa) {
        Some(a) => a,
        None => {
            return None;
        },
    };
    let b = match parse_octet(sb) {
        Some(b) => b,
        None => {
            return None;
        },
    };
    let c = match parse_octet(sc) {
        Some(c) => c,
        None => {
            return None;
        },
    };
    let d = match parse_octet(sd) {
        Some(d) => d,
        None => {
            return None;
        },
    };
    proof {
        let w = (i as int, j as int, k as int);
        assert(ipv4_split_at(s@, w.0, w.1, w.2));
        assert(valid_ipv4_text(s@));
        let t = choose|t: (int, int, int)| ipv4_split_at(s@, t.0, t.1, t.2);
        lemma_ipv4_split_unique(s@, t.0, t.1, t.2, i as int, j as int, k as int);
    }
    Some(Ipv4 { a, b, c, d })
}

/// Parse a full `"<ip>:<port>"` registry key. Succeeds exactly on
/// canonical key texts.
pub fn parse_key(s: &str) -> (r: Option<ConnKey>)
    ensures
        r == spec_parse_key(s@),
{
    let n = s.unicode_len();
    let c = match find_char_from(s, 0, ':') {
        Some(c) => c,
        None => {
            proof {
                if valid_key_text(s@) {
                    let c0 = choose|c0: int| key_split_at(s@, c0);
                    assert(s@[c0] == ':');
                }
            }
            return None;
        },
    };
    let ip_part = s.substring_char(0, c);
    let port_part = s.substring_char(c + 1, n);
    let ip = match parse_ipv4(ip_part) {
        Some(ip) => ip,
        None => {
            proof {
                if valid_key_text(s@) {
                    let c0 = choose|c0: int| key_split_at(s@, c0);
                    lemma_key_colon_unique(s@, c0, c as int);
                }
            }
            return None;
        },
    };
    let port = match parse_dec(port_part, 65535) {
        Some(p) => p,
        None => {
            proof {
                if valid_key_text(s@) {
                    let c0 = choose|c0: int| key_split_at(s@, c0);
                    lemma_key_colon_unique(s@, c0, c as int);
                }
            }
            return None;
        },
    };
    proof {
        assert(key_split_at(s@, c as int));
        let c0 = choose|c0: int| key_split_at(s@, c0);
        lemma_key_colon_unique(s@, c0, c as int);
    }
    Some(ConnKey { ip, port: port as u16 })
}

/// Whether `ip` is a well-formed textual IPv4 address.
pub fn is_valid_ip(ip: &str) -> (r: bool)
    ensures
        r == valid_ipv4_text(ip@),
{
    parse_ipv4(ip).is_some()
}

// ---------------------------------------------------------------------------
// Formatting
// ---------------------------------------------------------------------------

fn digit_str(d: u32) -> (r: &'static str)
    requires
        d < 10,
    ensures
        r@ == seq![digit_char(d as nat)],
{
    if d == 0 {
        proof {
            reveal_strlit("0");
        }
        let r = "0";
        assert(r@ =~= seq![digit_char(d as nat)]);
        r
    } else if d == 1 {
        proof {
            reveal_strlit("1");
        }
        let r = "1";
        assert(r@ =~= seq![digit_char(d as nat)]);
        r
    } else if d == 2 {
        proof {
            reveal_strlit("2");
        }
        let r = "2";
        assert(r@ =~= seq![digit_char(d as nat)]);
        r
    } else if d == 3 {
        proof {
            reveal_strlit("3");
        }
        let r = "3";
        assert(r@ =~= seq![digit_char(d as nat)]);
        r
    } else if d == 4 {
        proof {
            reveal_strlit("4");
        }
        let r = "4";
        assert(r@ =~= seq![digit_char(d as nat)]);
        r
    } else if d == 5 {
        proof {
            reveal_strlit("5");
        }
        let r = "5";
        assert(r@ =~= seq![digit_char(d as nat)]);
        r
    } else if d == 6 {
        proof {
            reveal_strlit("6");
        }
        let r = "6";
        assert(r@ =~= seq![digit_char(d as nat)]);
        r
    } else if d == 7 {
        proof {
            reveal_strlit("7");
        }
        let r = "7";
        assert(r@ =~= seq![digit_char(d as nat)]);
        r
    } else if d == 8 {
        proof {
            reveal_strlit("8");
        }
        let r = "8";
        assert(r@ =~= seq![digit_char(d as nat)]);
        r
    } else {
        proof {
            reveal_strlit("9");
        }
        let r = "9";
        assert(r@ =~= seq![digit_char(d as nat)]);
        r
    }
}

/// Format `n` as its canonical decimal text.
pub fn format_dec(n: u32) -> (r: String)
    ensures
        r@ == dec_text(n as nat),
    decreases n,
{
    if n < 10 {
        let r = String::from_str(digit_str(n));
        proof {
            assert(r@ =~= dec_text(n as nat));
        }
        r
    } else {
        let mut r = format_dec(n / 10);
        r.append(digit_str(n % 10));
        proof {
            assert((n / 10) as nat == (n as nat) / 10);
            assert((n % 10) as nat == (n as nat) % 10);
            assert(r@ =~= dec_text(n as nat));
        }
        r
    }
}

/// Format an address as its canonical dotted-quad text.
pub fn format_ipv4(ip: Ipv4) -> (r: String)
    ensures
        r@ == ipv4_text(ip),
{
    let mut r = format_dec(ip.a as u32);
    r.append(".");
    let sb = format_dec(ip.b as u32);
    r.append(sb.as_str());
    r.append(".");
    let sc = format_dec(ip.c as u32);
    r.append(sc.as_str());
    r.append(".");
    let sd = format_dec(ip.d as u32);
    r.append(sd.as_str());
    proof {
        reveal_strlit(".");
        assert("."@ =~= seq!['.']);
        assert(r@ =~= ipv4_text(ip));
    }
    r
}

/// Format a key as its canonical `"<ip>:<port>"` text.
pub fn format_key(k: ConnKey) -> (r: String)
    ensures
        r@ == key_text(k),
{
    let mut r = format_ipv4(k.ip);
    r.append(":");
    let sp = format_dec(k.port as u32);
    r.append(sp.as_str());
    proof {
        reveal_strlit(":");
        assert(":"@ =~= seq![':']);
        assert(r@ =~= key_text(k));
    }
    r
}

// ---------------------------------------------------------------------------
// Round trips
// ---------------------------------------------------------------------------

/// The canonical text of any address parses back to that address.
pub proof fn lemma_ipv4_text_parses(ip: Ipv4)
    ensures
        valid_ipv4_text(ipv4_text(ip)),
        spec_parse_ipv4(ipv4_text(ip)) == Some(ip),
{
    lemma_dec_text_props(ip.a as nat);
    lemma_dec_text_props(ip.b as nat);
    lemma_dec_text_props(ip.c as nat);
    lemma_dec_text_props(ip.d as nat);
    let s = ipv4_text(ip);
    let la = dec_text(ip.a as nat).len() as int;
    let lb = dec_text(ip.b as nat).len() as int;
    let lc = dec_text(ip.c as nat).len() as int;
    let i = la;
    let j = la + 1 + lb;
    let k = la + 1 + lb + 1 + lc;
    assert(s.subrange(0, i) =~= dec_text(ip.a as nat));
    assert(s.subrange(i + 1, j) =~= dec_text(ip.b as nat));
    assert(s.subrange(j + 1, k) =~= dec_text(ip.c as nat));
    assert(s.subrange(k + 1, s.len() as int) =~= dec_text(ip.d as nat));
    let w = (i, j, k);
    assert(ipv4_split_at(s, w.0, w.1, w.2));
    assert(valid_ipv4_text(s));
    let t = choose|t: (int, int, int)| ipv4_split_at(s, t.0, t.1, t.2);
    lemma_ipv4_split_unique(s, t.0, t.1, t.2, i, j, k);
    assert(ipv4_at_split(s, i, j, k) == ip);
}

/// Key texts are one-to-one: two keys with the same canonical text are the
/// same key.
pub proof fn lemma_key_text_injective(k1: ConnKey, k2: ConnKey)
    ensures
        key_text(k1) == key_text(k2) ==> k1 == k2,
{
    if key_text(k1) == key_text(k2) {
        lemma_key_text_parses(k1);
        lemma_key_text_parses(k2);
    }
}

/// The canonical text of any key parses back to that key.
pub proof fn lemma_key_text_parses(k: ConnKey)
    ensures
        valid_key_text(key_text(k)),
        spec_parse_key(key_text(k)) == Some(k),
{
    lemma_ipv4_text_parses(k.ip);
    lemma_dec_text_props(k.port as nat);
    let s = key_text(k);
    let c = ipv4_text(k.ip).len() as int;
    assert(s.subrange(0, c) =~= ipv4_text(k.ip));
    assert(s.subrange(c + 1, s.len() as int) =~= dec_text(k.port as nat));
    assert(key_split_at(s, c));
    let c0 = choose|c0: int| key_split_at(s, c0);
    lemma_key_colon_unique(s, c0, c);
    assert(key_at_split(s, c0) == k);
}

} // verus!
