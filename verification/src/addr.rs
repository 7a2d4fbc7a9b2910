//! Socket addresses as plain values: an IPv4 or IPv6 address together
//! with a port, and a verified parser for the textual forms
//! `a.b.c.d:port` and `[groups]:port`.
//!
//! IPv4 octets are decimal, at most three digits, without leading zeros.
//! IPv6 text is colon-separated groups of one to four hexadecimal digits,
//! either all eight groups or with a single `::` standing for the missing
//! zero groups. Ports are decimal with value at most 65535.

use vstd::prelude::*;

use crate::text::{
    dec_val, find_char, hex_val, index_of, is_dec, is_hex, is_hex_str, lemma_hex_val_step,
    lemma_index_of, parse_dec_capped, pow16,
};

verus! {

/// The eight 16-bit groups of an IPv6 address, most significant first.
#[derive(Clone, Copy, Debug, PartialEq, Eq, Structural)]
pub struct Ipv6Segments {
    pub s0: u16,
    pub s1: u16,
    pub s2: u16,
    pub s3: u16,
    pub s4: u16,
    pub s5: u16,
    pub s6: u16,
    pub s7: u16,
}

/// An IP address, version 4 or 6.
#[derive(Clone, Copy, Debug, PartialEq, Eq, Structural)]
pub enum IpAddr {
    V4 { a: u8, b: u8, c: u8, d: u8 },
    V6 { segs: Ipv6Segments },
}

/// An IP address with a port: where one service listens.
#[derive(Clone, Copy, Debug, PartialEq, Eq, Structural)]
pub struct SocketAddr {
    pub ip: IpAddr,
    pub port: u16,
}

impl SocketAddr {
    /// Address family of this address.
    pub fn is_ipv4(&self) -> (r: bool)
        ensures
            r == (self.ip is V4),
    {
        match self.ip {
            IpAddr::V4 { .. } => true,
            IpAddr::V6 { .. } => false,
        }
    }
}

/// Decimal text of an IPv4 octet: up to three digits, no leading zero,
/// value at most 255.
pub open spec fn valid_octet(s: Seq<char>) -> bool {
    is_dec(s) && s.len() <= 3 && (s.len() > 1 ==> s[0] != '0') && dec_val(s) <= 255
}

/// The IPv4 address denoted by `a.b.c.d` text, if valid.
pub open spec fn v4_of(s: Seq<char>) -> Option<IpAddr> {
    match index_of(s, '.') {
        None => None,
        Some(i) => {
            let o1 = s.take(i);
            let r1 = s.skip(i + 1);
            match index_of(r1, '.') {
                None => None,
                Some(j) => {
                    let o2 = r1.take(j);
                    let r2 = r1.skip(j + 1);
                    match index_of(r2, '.') {
                        None => None,
                        Some(k) => {
                            let o3 = r2.take(k);
                            let o4 = r2.skip(k + 1);
                            if index_of(o4, '.') is Some {
                                None
                            } else if valid_octet(o1) && valid_octet(o2) && valid_octet(o3)
                                && valid_octet(o4) {
                                Some(IpAddr::V4 {
                                    a: dec_val(o1) as u8,
                                    b: dec_val(o2) as u8,
                                    c: dec_val(o3) as u8,
                                    d: dec_val(o4) as u8,
                                })
                            } else {
                                None
                            }
                        },
                    }
                },
            }
        },
    }
}

/// The port denoted by decimal text, if its value fits.
pub open spec fn port_of(s: Seq<char>) -> Option<u16> {
    if is_dec(s) && dec_val(s) <= 65535 {
        Some(dec_val(s) as u16)
    } else {
        None
    }
}

/// Text of one IPv6 group: one to four hexadecimal digits.
pub open spec fn valid_h16(s: Seq<char>) -> bool {
    is_hex_str(s) && s.len() <= 4
}

/// The groups denoted by a colon-separated list of IPv6 group texts.
pub open spec fn group_list_of(s: Seq<char>) -> Option<Seq<u16>>
    decreases s.len(),
    via group_list_of_decreases
{
    match index_of(s, ':') {
        None => if valid_h16(s) {
            Some(seq![hex_val(s) as u16])
        } else {
            None
        },
        Some(i) => if valid_h16(s.take(i)) {
            match group_list_of(s.skip(i + 1)) {
                Some(rest) => Some(seq![hex_val(s.take(i)) as u16] + rest),
                None => None,
            }
        } else {
            None
        },
    }
}

#[via_fn]
proof fn group_list_of_decreases(s: Seq<char>) {
    lemma_index_of(s, ':');
}

/// Position of the first `::` in `s`, if any.
pub open spec fn dcolon_of(s: Seq<char>) -> Option<int>
    decreases s.len(),
{
    if s.len() < 2 {
        None
    } else if s[0] == ':' && s[1] == ':' {
        Some(0)
    } else {
        match dcolon_of(s.skip(1)) {
            Some(i) => Some(i + 1),
            None => None,
        }
    }
}

/// `dcolon_of` finds exactly the first adjacent pair of colons.
pub proof fn lemma_dcolon_of(s: Seq<char>)
    ensures
        match dcolon_of(s) {
            Some(i) => 0 <= i < s.len() - 1 && s[i] == ':' && s[i + 1] == ':' && forall|j: int|
                0 <= j < i ==> !(#[trigger] s[j] == ':' && s[j + 1] == ':'),
            None => forall|j: int|
                0 <= j < s.len() - 1 ==> !(#[trigger] s[j] == ':' && s[j + 1] == ':'),
        },
    decreases s.len(),
{
    if s.len() >= 2 && !(s[0] == ':' && s[1] == ':') {
        let t = s.skip(1);
        lemma_dcolon_of(t);
        match dcolon_of(t) {
            Some(i) => {
                assert(t[i] == s[i + 1] && t[i + 1] == s[i + 2]);
                assert forall|j: int| 0 <= j < i + 1 implies !(#[trigger] s[j] == ':' && s[j
                    + 1] == ':') by {
                    if j >= 1 {
                        assert(s[j] == t[j - 1] && s[j + 1] == t[j]);
                    }
                }
            },
            None => {
                assert forall|j: int| 0 <= j < s.len() - 1 implies !(#[trigger] s[j] == ':'
                    && s[j + 1] == ':') by {
                    if j >= 1 {
                        assert(s[j] == t[j - 1] && s[j + 1] == t[j]);
                    }
                }
            },
        }
    }
}

/// Eight groups as a segment record.
pub open spec fn segs_of(gs: Seq<u16>) -> Ipv6Segments
    recommends
        gs.len() == 8,
{
    Ipv6Segments {
        s0: gs[0],
        s1: gs[1],
        s2: gs[2],
        s3: gs[3],
        s4: gs[4],
        s5: gs[5],
        s6: gs[6],
        s7: gs[7],
    }
}

/// The IPv6 address denoted by group text, if valid: either eight plain
/// groups, or at most seven groups around a single `::` that stands for
/// the zero groups left out.
pub open spec fn v6_of(s: Seq<char>) -> Option<IpAddr> {
    match dcolon_of(s) {
        None => match group_list_of(s) {
            Some(gs) => if gs.len() == 8 {
                Some(IpAddr::V6 { segs: segs_of(gs) })
            } else {
                None
            },
            None => None,
        },
        Some(i) => {
            let left = s.take(i);
            let right = s.skip(i + 2);
            let lg: Option<Seq<u16>> = if left.len() == 0 {
                Some(Seq::empty())
            } else {
                group_list_of(left)
            };
            let rg: Option<Seq<u16>> = if right.len() == 0 {
                Some(Seq::empty())
            } else {
                group_list_of(right)
            };
            match (lg, rg) {
                (Some(l), Some(r)) => if l.len() + r.len() <= 7 {
                    Some(
                        IpAddr::V6 {
                            segs: segs_of(l + Seq::new((8 - l.len() - r.len()) as nat, |i| 0u16)
                                + r),
                        },
                    )
                } else {
                    None
                },
                _ => None,
            }
        },
    }
}

/// The socket address denoted by `v4:port` or `[v6]:port` text, if valid.
pub open spec fn sock_addr_of(s: Seq<char>) -> Option<SocketAddr> {
    if s.len() > 0 && s[0] == '[' {
        match index_of(s, ']') {
            Some(j) => {
                let inner = s.subrange(1, j);
                let rest = s.skip(j + 1);
                if rest.len() >= 2 && rest[0] == ':' {
                    match (v6_of(inner), port_of(rest.skip(1))) {
                        (Some(ip), Some(p)) => Some(SocketAddr { ip, port: p }),
                        _ => None,
                    }
                } else {
                    None
                }
            },
            None => None,
        }
    } else {
        match index_of(s, ':') {
            Some(i) => match (v4_of(s.take(i)), port_of(s.skip(i + 1))) {
                (Some(ip), Some(p)) => Some(SocketAddr { ip, port: p }),
                _ => None,
            },
            None => None,
        }
    }
}

/// Parse one IPv4 octet.
fn parse_octet(s: &str) -> (r: Option<u8>)
    ensures
        match r {
            Some(v) => valid_octet(s@) && v == dec_val(s@),
            None => !valid_octet(s@),
        },
{
    let n = s.unicode_len();
    if n == 0 || n > 3 {
        return None;
    }
    if n > 1 && s.get_char(0) == '0' {
        return None;
    }
    match parse_dec_capped(s, 255) {
        Some(v) => Some(v as u8),
        None => None,
    }
}

/// Parse an IPv4 address in dotted-quad form.
pub fn parse_v4(s: &str) -> (r: Option<IpAddr>)
    ensures
        r == v4_of(s@),
{
    let n = s.unicode_len();
    let i = match find_char(s, '.') {
        Some(i) => i,
        None => {
            return None;
        },
    };
    proof {
        lemma_index_of(s@, '.');
    }
    let o1 = s.substring_char(0, i);
    let r1 = s.substring_char(i + 1, n);
    proof {
        assert(o1@ =~= s@.take(i as int));
        assert(r1@ =~= s@.skip(i as int + 1));
    }
    let n1 = r1.unicode_len();
    let j = match find_char(r1, '.') {
        Some(j) => j,
        None => {
            return None;
        },
    };
    proof {
        lemma_index_of(r1@, '.');
    }
    let o2 = r1.substring_char(0, j);
    let r2 = r1.substring_char(j + 1, n1);
    proof {
        assert(o2@ =~= r1@.take(j as int));
        assert(r2@ =~= r1@.skip(j as int + 1));
    }
    let n2 = r2.unicode_len();
    let k = match find_char(r2, '.') {
        Some(k) => k,
        None => {
            return None;
        },
    };
    proof {
        lemma_index_of(r2@, '.');
    }
    let o3 = r2.substring_char(0, k);
    let o4 = r2.substring_char(k + 1, n2);
    proof {
        assert(o3@ =~= r2@.take(k as int));
        assert(o4@ =~= r2@.skip(k as int + 1));
    }
    if let Some(_) = find_char(o4, '.') {
        return None;
    }
    match (parse_octet(o1), parse_octet(o2), parse_octet(o3), parse_octet(o4)) {
        (Some(a), Some(b), Some(c), Some(d)) => Some(IpAddr::V4 { a, b, c, d }),
        _ => None,
    }
}

/// Parse a port number.
pub fn parse_port(s: &str) -> (r: Option<u16>)
    ensures
        r == port_of(s@),
{
    match parse_dec_capped(s, 65535) {
        Some(v) => Some(v as u16),
        None => None,
    }
}

/// Parse one IPv6 group of one to four hexadecimal digits.
fn parse_h16(s: &str) -> (r: Option<u16>)
    ensures
        match r {
            Some(v) => valid_h16(s@) && v == hex_val(s@),
            None => !valid_h16(s@),
        },
{
    let n = s.unicode_len();
    if n == 0 || n > 4 {
        return None;
    }
    proof {
        assert(pow16(0) == 1);
        assert(pow16(1) == 16);
        assert(pow16(2) == 256);
        assert(pow16(3) == 4096);
        assert(pow16(4) == 65536);
    }
    let mut acc: u32 = 0;
    let mut i: usize = 0;
    while i < n
        invariant
            0 <= i <= n <= 4,
            n == s@.len(),
            forall|j: int| 0 <= j < i ==> is_hex(#[trigger] s@[j]),
            acc == hex_val(s@.take(i as int)),
            0 <= acc < pow16(i as nat),
            pow16(0) == 1 && pow16(1) == 16 && pow16(2) == 256 && pow16(3) == 4096 && pow16(4)
                == 65536,
        decreases n - i,
    {
        let c = s.get_char(i);
        let v = c as u32;
        let d: u32;
        if 48 <= v && v <= 57 {
            d = v - 48;
        } else if 97 <= v && v <= 102 {
            d = v - 97 + 10;
        } else if 65 <= v && v <= 70 {
            d = v - 65 + 10;
        } else {
            assert(!is_hex(s@[i as int]));
            return None;
        }
        proof {
            lemma_hex_val_step(s@, i as int);
            assert(pow16((i + 1) as nat) == 16 * pow16(i as nat));
        }
        acc = acc * 16 + d;
        i = i + 1;
    }
    proof {
        assert(s@.take(n as int) =~= s@);
    }
    Some(acc as u16)
}

/// Parse a colon-separated list of IPv6 groups.
fn parse_groups(s: &str) -> (r: Option<Vec<u16>>)
    ensures
        match group_list_of(s@) {
            Some(gs) => r is Some && r->Some_0@ == gs,
            None => r is None,
        },
    decreases s@.len(),
{
    let n = s.unicode_len();
    match find_char(s, ':') {
        None => match parse_h16(s) {
            Some(v) => {
                let mut out: Vec<u16> = Vec::new();
                out.push(v);
                proof {
                    assert(out@ =~= seq![hex_val(s@) as u16]);
                }
                Some(out)
            },
            None => None,
        },
        Some(i) => {
            proof {
                lemma_index_of(s@, ':');
            }
            let g = s.substring_char(0, i);
            proof {
                assert(g@ =~= s@.take(i as int));
            }
            match parse_h16(g) {
                Some(v) => {
                    let rest = s.substring_char(i + 1, n);
                    proof {
                        assert(rest@ =~= s@.skip(i as int + 1));
                    }
                    match parse_groups(rest) {
                        Some(mut vs) => {
                            vs.insert(0, v);
                            proof {
                                assert(vs@ =~= seq![hex_val(s@.take(i as int)) as u16]
                                    + group_list_of(s@.skip(i as int + 1))->Some_0);
                            }
                            Some(vs)
                        },
                        None => None,
                    }
                },
                None => None,
            }
        },
    }
}

/// Find the first `::` in a string slice.
fn find_dcolon(s: &str) -> (r: Option<usize>)
    ensures
        match dcolon_of(s@) {
            Some(i) => r == Some(i as usize),
            None => r is None,
        },
{
    let n = s.unicode_len();
    if n < 2 {
        return None;
    }
    let mut j: usize = 0;
    while j < n - 1
        invariant
            2 <= n == s@.len(),
            0 <= j <= n - 1,
            forall|k: int| 0 <= k < j ==> !(#[trigger] s@[k] == ':' && s@[k + 1] == ':'),
        decreases n - j,
    {
        if s.get_char(j) == ':' && s.get_char(j + 1) == ':' {
            proof {
                lemma_dcolon_of(s@);
            }
            return Some(j);
        }
        j = j + 1;
    }
    proof {
        lemma_dcolon_of(s@);
    }
    None
}

/// Parse an IPv6 address.
pub fn parse_v6(s: &str) -> (r: Option<IpAddr>)
    ensures
        r == v6_of(s@),
{
    let n = s.unicode_len();
    match find_dcolon(s) {
        None => match parse_groups(s) {
            Some(gs) => {
                if gs.len() == 8 {
                    Some(
                        IpAddr::V6 {
                            segs: Ipv6Segments {
                                s0: gs[0],
                                s1: gs[1],
                                s2: gs[2],
                                s3: gs[3],
                                s4: gs[4],
                                s5: gs[5],
                                s6: gs[6],
                                s7: gs[7],
                            },
                        },
                    )
                } else {
                    None
                }
            },
            None => None,
        },
        Some(i) => {
            proof {
                lemma_dcolon_of(s@);
            }
            let left = s.substring_char(0, i);
            let right = s.substring_char(i + 2, n);
            proof {
                assert(left@ =~= s@.take(i as int));
                assert(right@ =~= s@.skip(i as int + 2));
            }
            let lv: Vec<u16> = if left.unicode_len() == 0 {
                Vec::new()
            } else {
                match parse_groups(left) {
                    Some(v) => v,
                    None => {
                        return None;
                    },
                }
            };
            let rv: Vec<u16> = if right.unicode_len() == 0 {
                Vec::new()
            } else {
                match parse_groups(right) {
                    Some(v) => v,
                    None => {
                        return None;
                    },
                }
            };
            if lv.len() > 7 || rv.len() > 7 - lv.len() {
                return None;
            }
            let fill: usize = 8 - lv.len() - rv.len();
            let ghost mid = Seq::new(fill as nat, |x: int| 0u16);
            let mut all: Vec<u16> = Vec::new();
            let mut p: usize = 0;
            while p < lv.len()
                invariant
                    0 <= p <= lv.len(),
                    all@ =~= lv@.take(p as int),
                decreases lv.len() - p,
            {
                all.push(lv[p]);
                p = p + 1;
            }
            proof {
                assert(all@ =~= lv@);
            }
            let mut q: usize = 0;
            while q < fill
                invariant
                    0 <= q <= fill,
                    mid == Seq::new(fill as nat, |x: int| 0u16),
                    all@ =~= lv@ + mid.take(q as int),
                decreases fill - q,
            {
                all.push(0);
                q = q + 1;
            }
            proof {
                assert(all@ =~= lv@ + mid);
            }
            let mut t: usize = 0;
            while t < rv.len()
                invariant
                    0 <= t <= rv.len(),
                    mid == Seq::new(fill as nat, |x: int| 0u16),
                    all@ =~= lv@ + mid + rv@.take(t as int),
                decreases rv.len() - t,
            {
                all.push(rv[t]);
                t = t + 1;
            }
            proof {
                assert(all@ =~= lv@ + mid + rv@);
            }
            Some(
                IpAddr::V6 {
                    segs: Ipv6Segments {
                        s0: all[0],
                        s1: all[1],
                        s2: all[2],
                        s3: all[3],
                        s4: all[4],
                        s5: all[5],
                        s6: all[6],
                        s7: all[7],
                    },
                },
            )
        },
    }
}

/// Parse a socket address: `v4:port` or `[v6]:port`.
pub fn parse_sock_addr(s: &str) -> (r: Option<SocketAddr>)
    ensures
        r == sock_addr_of(s@),
{
    let n = s.unicode_len();
    if n > 0 && s.get_char(0) == '[' {
        match find_char(s, ']') {
            Some(j) => {
                proof {
                    lemma_index_of(s@, ']');
                    assert(s@[j as int] == ']' && s@[0] == '[');
                }
                let inner = s.substring_char(1, j);
                let rest = s.substring_char(j + 1, n);
                proof {
                    assert(inner@ =~= s@.subrange(1, j as int));
                    assert(rest@ =~= s@.skip(j as int + 1));
                }
                let rn = rest.unicode_len();
                if rn >= 2 && rest.get_char(0) == ':' {
                    let ptxt = rest.substring_char(1, rn);
                    proof {
                        assert(ptxt@ =~= rest@.skip(1));
                    }
                    match (parse_v6(inner), parse_port(ptxt)) {
                        (Some(ip), Some(p)) => Some(SocketAddr { ip, port: p }),
                        _ => None,
                    }
                } else {
                    None
                }
            },
            None => None,
        }
    } else {
        match find_char(s, ':') {
            Some(i) => {
                proof {
                    lemma_index_of(s@, ':');
                }
                let a = s.substring_char(0, i);
                let p = s.substring_char(i + 1, n);
                proof {
                    assert(a@ =~= s@.take(i as int));
                    assert(p@ =~= s@.skip(i as int + 1));
                }
                match (parse_v4(a), parse_port(p)) {
                    (Some(ip), Some(pt)) => Some(SocketAddr { ip, port: pt }),
                    _ => None,
                }
            },
            None => None,
        }
    }
}

} // verus!
