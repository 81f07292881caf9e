//! Socket addresses in their writing: `a.b.c.d:port` for IPv4 and
//! `[groups]:port` for IPv6.

use vstd::prelude::*;
use crate::ip6::{append_ip6, ip6, ip6_text, parse_ip6};
use crate::text::{
    all_digits, append_decimal, bounded_number, decimal, digits_value, is_digit, lemma_decimal,
    parse_number, push_char, to_chars,
};

verus! {

/// The address of a host: the four octets of an IPv4 address, or the
/// eight groups of an IPv6 address and the number of the scope it is
/// meant in, which is 0 where none is given.
#[derive(Clone, Copy, Debug, PartialEq, Eq, Structural)]
pub enum Host {
    V4 { a: u8, b: u8, c: u8, d: u8 },
    V6 {
        g0: u16,
        g1: u16,
        g2: u16,
        g3: u16,
        g4: u16,
        g5: u16,
        g6: u16,
        g7: u16,
        scope_id: u32,
    },
}

/// The address of a host and a port.
#[derive(Clone, Copy, Debug, PartialEq, Eq, Structural)]
pub struct SocketAddress {
    pub host: Host,
    pub port: u16,
}

/// The first position of `c` in `s`, or the length of `s` where `c` does not
/// occur.
pub open spec fn index_of(s: Seq<char>, c: char) -> int
    decreases s.len(),
{
    if s.len() == 0 {
        0
    } else if s[0] == c {
        0
    } else {
        1 + index_of(s.drop_first(), c)
    }
}

/// `i` is where [`index_of`] points: no `c` before it, and a `c` at it
/// unless it is the end.
pub proof fn lemma_index_of(s: Seq<char>, c: char, i: int)
    requires
        0 <= i <= s.len(),
        forall|k: int| 0 <= k < i ==> s[k] != c,
        i < s.len() ==> s[i] == c,
    ensures
        index_of(s, c) == i,
    decreases s.len(),
{
    if s.len() == 0 {
    } else if i == 0 {
    } else {
        assert(s[0] != c);
        let t = s.drop_first();
        assert forall|k: int| 0 <= k < i - 1 implies t[k] != c by {
            assert(t[k] == s[k + 1]);
        }
        lemma_index_of(t, c, i - 1);
    }
}

/// [`index_of`] is within bounds, and points at a `c` unless it is the end.
pub proof fn lemma_index_found(s: Seq<char>, c: char)
    ensures
        0 <= index_of(s, c) <= s.len(),
        index_of(s, c) < s.len() ==> s[index_of(s, c)] == c,
    decreases s.len(),
{
    if s.len() == 0 || s[0] == c {
    } else {
        lemma_index_found(s.drop_first(), c);
    }
}

/// What one part of a dotted address is worth: one to three ASCII digits,
/// no zero in front of another digit, and no more than 255.
pub open spec fn octet(s: Seq<char>) -> Option<nat> {
    if 1 <= s.len() <= 3 && all_digits(s) && (s.len() == 1 || s[0] != '0') && digits_value(s)
        <= 255 {
        Some(digits_value(s))
    } else {
        None
    }
}

/// The four octets that `host` writes: four parts with dots between
/// them.
pub open spec fn quad(host: Seq<char>) -> Option<(nat, nat, nat, nat)> {
    let d1 = index_of(host, '.');
    let r1 = host.skip(d1 + 1);
    let d2 = index_of(r1, '.');
    let r2 = r1.skip(d2 + 1);
    let d3 = index_of(r2, '.');
    if d1 < host.len() && d2 < r1.len() && d3 < r2.len() {
        match (octet(host.take(d1)), octet(r1.take(d2)), octet(r2.take(d3)), octet(r2.skip(d3 + 1))) {
            (Some(a), Some(b), Some(c), Some(d)) => Some((a, b, c, d)),
            _ => None,
        }
    } else {
        None
    }
}

/// The IPv4 address and port that `s` writes: four octets separated by
/// dots, a colon, and a port in decimal no larger than 65535.
pub open spec fn parsed_v4(s: Seq<char>) -> Option<SocketAddress> {
    let colon = index_of(s, ':');
    if colon < s.len() {
        match (quad(s.take(colon)), bounded_number(s.skip(colon + 1), 65535)) {
            (Some((a, b, c, d)), Some(port)) => Some(
                SocketAddress {
                    host: Host::V4 { a: a as u8, b: b as u8, c: c as u8, d: d as u8 },
                    port: port as u16,
                },
            ),
            _ => None,
        }
    } else {
        None
    }
}

/// The host with the groups `g`, of which there are eight, in the scope
/// `scope_id`.
pub open spec fn host_of(g: Seq<u16>, scope_id: u32) -> Host {
    Host::V6 {
        g0: g[0],
        g1: g[1],
        g2: g[2],
        g3: g[3],
        g4: g[4],
        g5: g[5],
        g6: g[6],
        g7: g[7],
        scope_id,
    }
}

/// The scope that the text in the brackets gives after the address: the
/// number after a `%`, or 0 where there is no `%`.
pub open spec fn scope_in(inner: Seq<char>) -> Option<nat> {
    if index_of(inner, '%') < inner.len() {
        bounded_number(inner.skip(index_of(inner, '%') + 1), u32::MAX as nat)
    } else {
        Some(0)
    }
}

/// The IPv6 address and port that `s` writes: in square brackets an IPv6
/// address and, after a `%`, the number of a scope or none; then a colon
/// and a port in decimal no larger than 65535.
pub open spec fn parsed_v6(s: Seq<char>) -> Option<SocketAddress> {
    let close = index_of(s, ']');
    let inner = s.subrange(1, close);
    if close < s.len() && close + 1 < s.len() && s[close + 1] == ':' {
        match (
            ip6(inner.take(index_of(inner, '%'))),
            scope_in(inner),
            bounded_number(s.skip(close + 2), 65535),
        ) {
            (Some(g), Some(scope), Some(port)) => Some(
                SocketAddress { host: host_of(g, scope as u32), port: port as u16 },
            ),
            _ => None,
        }
    } else {
        None
    }
}

/// The address that `s` writes, if it writes one: an IPv6 address where it
/// starts with a square bracket, an IPv4 address otherwise.
pub open spec fn parsed(s: Seq<char>) -> Option<SocketAddress> {
    if s.len() > 0 && s[0] == '[' {
        parsed_v6(s)
    } else {
        parsed_v4(s)
    }
}

/// The first position of `c` in `v[from..to]`, counted from `from`, or
/// `to - from` where it does not occur there.
pub fn find(v: &Vec<char>, from: usize, to: usize, c: char) -> (i: usize)
    requires
        from <= to <= v.len(),
    ensures
        from <= i <= to,
        i - from == index_of(v@.subrange(from as int, to as int), c),
{
    let ghost s = v@.subrange(from as int, to as int);
    let mut i: usize = from;
    while i < to
        invariant
            from <= i <= to <= v.len(),
            s == v@.subrange(from as int, to as int),
            forall|k: int| 0 <= k < i - from ==> s[k] != c,
        decreases to - i,
    {
        if v[i] == c {
            proof {
                assert(s[i - from] == c);
                lemma_index_of(s, c, i - from);
            }
            return i;
        }
        assert(s[i - from] != c);
        i += 1;
    }
    proof {
        lemma_index_of(s, c, to - from);
    }
    i
}

/// Reads `v[from..to]` as one part of a dotted address.
fn parse_octet(v: &Vec<char>, from: usize, to: usize) -> (r: Option<u8>)
    requires
        from <= to <= v.len(),
    ensures
        r == match octet(v@.subrange(from as int, to as int)) {
            Some(n) => Some(n as u8),
            None => None,
        },
{
    let ghost s = v@.subrange(from as int, to as int);
    if to - from < 1 || to - from > 3 {
        return None;
    }
    if to - from > 1 && v[from] == '0' {
        assert(s[0] == '0');
        return None;
    }
    assert(s[0] == v@[from as int]);
    match parse_number(v, from, to, 255) {
        Some(n) => Some(n as u8),
        None => None,
    }
}

/// Four numbers in decimal with dots between them.
pub open spec fn dotted(a: nat, b: nat, c: nat, d: nat) -> Seq<char> {
    decimal(a) + seq!['.'] + decimal(b) + seq!['.'] + decimal(c) + seq!['.'] + decimal(d)
}

/// Reads `v[from..to]` as four octets with dots between them.
pub fn parse_quad(v: &Vec<char>, from: usize, to: usize) -> (r: Option<(u8, u8, u8, u8)>)
    requires
        from <= to <= v.len(),
    ensures
        r == match quad(v@.subrange(from as int, to as int)) {
            Some((a, b, c, d)) => Some((a as u8, b as u8, c as u8, d as u8)),
            None => None,
        },
{
    let ghost host = v@.subrange(from as int, to as int);
    let first_dot = find(v, from, to, '.');
    if first_dot >= to {
        return None;
    }
    let ghost d1 = first_dot - from;
    let ghost r1 = host.skip(d1 + 1);
    assert(v@.subrange(first_dot + 1, to as int) =~= r1);
    let second_dot = find(v, first_dot + 1, to, '.');
    if second_dot >= to {
        return None;
    }
    let ghost d2 = second_dot - (first_dot + 1);
    let ghost r2 = r1.skip(d2 + 1);
    assert(v@.subrange(second_dot + 1, to as int) =~= r2);
    let third_dot = find(v, second_dot + 1, to, '.');
    if third_dot >= to {
        return None;
    }
    let ghost d3 = third_dot - (second_dot + 1);
    proof {
        assert(v@.subrange(from as int, first_dot as int) =~= host.take(d1));
        assert(v@.subrange(first_dot + 1, second_dot as int) =~= r1.take(d2));
        assert(v@.subrange(second_dot + 1, third_dot as int) =~= r2.take(d3));
        assert(v@.subrange(third_dot + 1, to as int) =~= r2.skip(d3 + 1));
    }
    let a = parse_octet(v, from, first_dot);
    let b = parse_octet(v, first_dot + 1, second_dot);
    let c = parse_octet(v, second_dot + 1, third_dot);
    let d = parse_octet(v, third_dot + 1, to);
    match (a, b, c, d) {
        (Some(a), Some(b), Some(c), Some(d)) => Some((a, b, c, d)),
        _ => None,
    }
}

impl Host {
    /// The eight groups of an IPv6 address; none for an IPv4 address.
    pub open spec fn groups(&self) -> Seq<u16> {
        match *self {
            Host::V4 { .. } => Seq::empty(),
            Host::V6 { g0, g1, g2, g3, g4, g5, g6, g7, .. } => seq![
                g0,
                g1,
                g2,
                g3,
                g4,
                g5,
                g6,
                g7,
            ],
        }
    }

    /// The writing of the scope after the address: `%` and its number,
    /// or nothing for the scope 0 and for an IPv4 address.
    pub open spec fn scope_text(&self) -> Seq<char> {
        match *self {
            Host::V6 { scope_id, .. } => if scope_id != 0 {
                seq!['%'] + decimal(scope_id as nat)
            } else {
                Seq::empty()
            },
            Host::V4 { .. } => Seq::empty(),
        }
    }
}

impl SocketAddress {
    /// The writing of the address. For IPv4: the four octets in decimal
    /// with dots between them, a colon, the port in decimal. For IPv6:
    /// in square brackets the address and the scope, unless it is 0;
    /// then a colon and the port in decimal.
    pub open spec fn text(&self) -> Seq<char> {
        match self.host {
            Host::V4 { a, b, c, d } => dotted(a as nat, b as nat, c as nat, d as nat) + seq![':']
                + decimal(self.port as nat),
            Host::V6 { .. } => seq!['['] + ip6_text(self.host.groups()) + self.host.scope_text()
                + seq![']', ':'] + decimal(self.port as nat),
        }
    }

    /// The IPv4 address `a.b.c.d:port`.
    pub fn new(a: u8, b: u8, c: u8, d: u8, port: u16) -> (r: SocketAddress)
        ensures
            r == (SocketAddress { host: Host::V4 { a, b, c, d }, port }),
    {
        SocketAddress { host: Host::V4 { a, b, c, d }, port }
    }

    /// The same address with another port.
    pub fn with_port(&self, port: u16) -> (r: SocketAddress)
        ensures
            r == (SocketAddress { port, ..*self }),
    {
        SocketAddress { host: self.host, port }
    }

    /// Writes the address out.
    pub fn to_text(&self) -> (r: String)
        ensures
            r@ == self.text(),
    {
        let mut out = String::new();
        match self.host {
            Host::V4 { a, b, c, d } => {
                append_decimal(&mut out, a as u128);
                push_char(&mut out, '.');
                append_decimal(&mut out, b as u128);
                push_char(&mut out, '.');
                append_decimal(&mut out, c as u128);
                push_char(&mut out, '.');
                append_decimal(&mut out, d as u128);
                push_char(&mut out, ':');
                append_decimal(&mut out, self.port as u128);
                assert(out@ =~= self.text());
            },
            Host::V6 { g0, g1, g2, g3, g4, g5, g6, g7, scope_id } => {
                let mut g: Vec<u16> = Vec::new();
                g.push(g0);
                g.push(g1);
                g.push(g2);
                g.push(g3);
                g.push(g4);
                g.push(g5);
                g.push(g6);
                g.push(g7);
                assert(g@ =~= self.host.groups());
                push_char(&mut out, '[');
                append_ip6(&mut out, &g);
                if scope_id != 0 {
                    push_char(&mut out, '%');
                    append_decimal(&mut out, scope_id as u128);
                }
                push_char(&mut out, ']');
                push_char(&mut out, ':');
                append_decimal(&mut out, self.port as u128);
                assert(out@ =~= self.text());
            },
        }
        out
    }

    /// Reads an address; `None` for any text that does not write one.
    pub fn parse(text: &str) -> (r: Option<SocketAddress>)
        ensures
            r == parsed(text@),
    {
        let v = to_chars(text);
        let n = v.len();
        let ghost s = v@;
        assert(s.subrange(0, n as int) =~= s);
        if n > 0 && v[0] == '[' {
            let close = find(&v, 0, n, ']');
            if close >= n || close + 1 >= n || v[close + 1] != ':' {
                return None;
            }
            proof {
                lemma_index_found(s, ']');
            }
            let ghost inner = s.subrange(1, close as int);
            let percent = find(&v, 1, close, '%');
            proof {
                assert(v@.subrange(1, percent as int) =~= inner.take(percent - 1));
                assert(s.subrange(close + 2, n as int) =~= s.skip(close + 2));
            }
            let scope = if percent < close {
                assert(v@.subrange(percent + 1, close as int) =~= inner.skip(percent - 1 + 1));
                match parse_number(&v, percent + 1, close, 0xffff_ffff) {
                    Some(n) => n as u32,
                    None => {
                        return None;
                    },
                }
            } else {
                0
            };
            let port = parse_number(&v, close + 2, n, 65535);
            match (parse_ip6(&v, 1, percent), port) {
                (Some(g), Some(port)) => Some(
                    SocketAddress {
                        host: Host::V6 {
                            g0: g[0],
                            g1: g[1],
                            g2: g[2],
                            g3: g[3],
                            g4: g[4],
                            g5: g[5],
                            g6: g[6],
                            g7: g[7],
                            scope_id: scope,
                        },
                        port: port as u16,
                    },
                ),
                _ => None,
            }
        } else {
            let colon = find(&v, 0, n, ':');
            if colon >= n {
                return None;
            }
            proof {
                assert(s.subrange(0, colon as int) =~= s.take(colon as int));
                assert(s.subrange(colon + 1, n as int) =~= s.skip(colon + 1));
            }
            let port = parse_number(&v, colon + 1, n, 65535);
            match (parse_quad(&v, 0, colon), port) {
                (Some((a, b, c, d)), Some(port)) => Some(
                    SocketAddress { host: Host::V4 { a, b, c, d }, port: port as u16 },
                ),
                _ => None,
            }
        }
    }
}

/// `c` does not occur in `s`.
pub open spec fn free_of(s: Seq<char>, c: char) -> bool {
    forall|k: int| 0 <= k < s.len() ==> #[trigger] s[k] != c
}

/// A text is split at the first `c` where `c` does not occur before it.
pub proof fn lemma_split(front: Seq<char>, c: char, rest: Seq<char>)
    requires
        free_of(front, c),
    ensures
        index_of(front + seq![c] + rest, c) == front.len(),
        (front + seq![c] + rest).take(front.len() as int) == front,
        (front + seq![c] + rest).skip(front.len() as int + 1) == rest,
{
    let s = front + seq![c] + rest;
    assert forall|k: int| 0 <= k < front.len() implies s[k] != c by {
        assert(s[k] == front[k]);
    }
    assert(s[front.len() as int] == c);
    lemma_index_of(s, c, front.len() as int);
    assert(s.take(front.len() as int) =~= front);
    assert(s.skip(front.len() as int + 1) =~= rest);
}

/// Two texts without `c`, put together with another character between
/// them, are a text without `c`.
pub proof fn lemma_free_of_joined(front: Seq<char>, between: char, rest: Seq<char>, c: char)
    requires
        free_of(front, c),
        free_of(rest, c),
        between != c,
    ensures
        free_of(front + seq![between] + rest, c),
{
    let s = front + seq![between] + rest;
    assert forall|k: int| 0 <= k < s.len() implies #[trigger] s[k] != c by {
        if k < front.len() {
            assert(s[k] == front[k]);
        } else if k > front.len() {
            assert(s[k] == rest[k - front.len() - 1]);
        }
    }
}

/// Digits hold no character that is no digit.
pub proof fn lemma_digits_free_of(digits: Seq<char>, c: char)
    requires
        all_digits(digits),
        !is_digit(c),
    ensures
        free_of(digits, c),
{
    assert forall|k: int| 0 <= k < digits.len() implies #[trigger] digits[k] != c by {
        assert(is_digit(digits[k]));
    }
}

/// The decimal writing of a number up to 255 is read as that number where
/// a part of a dotted address is expected.
proof fn lemma_octet(n: u8)
    ensures
        octet(decimal(n as nat)) == Some(n as nat),
        free_of(decimal(n as nat), '.'),
        free_of(decimal(n as nat), ':'),
{
    lemma_decimal(n as nat);
    lemma_digits_free_of(decimal(n as nat), '.');
    lemma_digits_free_of(decimal(n as nat), ':');
}

/// What four parts with dots between them are read as.
proof fn lemma_dotted(a: Seq<char>, b: Seq<char>, c: Seq<char>, d: Seq<char>)
    requires
        free_of(a, '.'),
        free_of(b, '.'),
        free_of(c, '.'),
        free_of(a, ':'),
        free_of(b, ':'),
        free_of(c, ':'),
        free_of(d, ':'),
    ensures
        ({
            let host = a + seq!['.'] + (b + seq!['.'] + (c + seq!['.'] + d));
            let d1 = index_of(host, '.');
            let r1 = host.skip(d1 + 1);
            let d2 = index_of(r1, '.');
            let r2 = r1.skip(d2 + 1);
            let d3 = index_of(r2, '.');
            &&& free_of(host, ':')
            &&& d1 < host.len() && d2 < r1.len() && d3 < r2.len()
            &&& host.take(d1) == a
            &&& r1.take(d2) == b
            &&& r2.take(d3) == c
            &&& r2.skip(d3 + 1) == d
        }),
{
    let r2 = c + seq!['.'] + d;
    let r1 = b + seq!['.'] + r2;
    lemma_split(a, '.', r1);
    lemma_split(b, '.', r2);
    lemma_split(c, '.', d);
    lemma_free_of_joined(c, '.', d, ':');
    lemma_free_of_joined(b, '.', r2, ':');
    lemma_free_of_joined(a, '.', r1, ':');
}

/// Four octets written with dots between them are read as those octets;
/// the writing holds a dot, and neither a colon nor a `%` nor a `]`.
pub proof fn lemma_quad(a: u8, b: u8, c: u8, d: u8)
    ensures
        quad(dotted(a as nat, b as nat, c as nat, d as nat)) == Some(
            (a as nat, b as nat, c as nat, d as nat),
        ),
        index_of(dotted(a as nat, b as nat, c as nat, d as nat), '.') < dotted(
            a as nat,
            b as nat,
            c as nat,
            d as nat,
        ).len(),
        free_of(dotted(a as nat, b as nat, c as nat, d as nat), ':'),
        free_of(dotted(a as nat, b as nat, c as nat, d as nat), '%'),
        free_of(dotted(a as nat, b as nat, c as nat, d as nat), ']'),
{
    let da = decimal(a as nat);
    let db = decimal(b as nat);
    let dc = decimal(c as nat);
    let dd = decimal(d as nat);
    lemma_octet(a);
    lemma_octet(b);
    lemma_octet(c);
    lemma_octet(d);
    let r2 = dc + seq!['.'] + dd;
    let r1 = db + seq!['.'] + r2;
    let host = da + seq!['.'] + r1;
    lemma_dotted(da, db, dc, dd);
    assert(dotted(a as nat, b as nat, c as nat, d as nat) =~= host);
    lemma_decimal(a as nat);
    lemma_decimal(b as nat);
    lemma_decimal(c as nat);
    lemma_decimal(d as nat);
    lemma_digits_free_of(da, '%');
    lemma_digits_free_of(db, '%');
    lemma_digits_free_of(dc, '%');
    lemma_digits_free_of(dd, '%');
    lemma_free_of_joined(dc, '.', dd, '%');
    lemma_free_of_joined(db, '.', r2, '%');
    lemma_free_of_joined(da, '.', r1, '%');
    lemma_digits_free_of(da, ']');
    lemma_digits_free_of(db, ']');
    lemma_digits_free_of(dc, ']');
    lemma_digits_free_of(dd, ']');
    lemma_free_of_joined(dc, '.', dd, ']');
    lemma_free_of_joined(db, '.', r2, ']');
    lemma_free_of_joined(da, '.', r1, ']');
}

/// Every IPv4 address is read back from its own writing.
pub proof fn lemma_address_round_trip(address: SocketAddress)
    requires
        address.host is V4,
    ensures
        parsed(address.text()) == Some(address),
{
    let (a, b, c, d) = (address.host->a, address.host->b, address.host->c, address.host->d);
    let da = decimal(a as nat);
    let db = decimal(b as nat);
    let dc = decimal(c as nat);
    let dd = decimal(d as nat);
    let dp = decimal(address.port as nat);
    lemma_octet(a);
    lemma_octet(b);
    lemma_octet(c);
    lemma_octet(d);
    lemma_decimal(address.port as nat);
    let host = da + seq!['.'] + (db + seq!['.'] + (dc + seq!['.'] + dd));
    lemma_dotted(da, db, dc, dd);
    lemma_split(host, ':', dp);
    assert(address.text() =~= host + seq![':'] + dp);
    assert(is_digit(da[0]));
    assert(address.text()[0] == da[0]);
}

} // verus!
