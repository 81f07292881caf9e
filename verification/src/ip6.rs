//! IPv6 addresses in their text form: eight groups of hexadecimal digits,
//! a run of zero groups shortened to `::`, and the last two groups written
//! as a dotted IPv4 address where the writer chose so.

use vstd::prelude::*;
use crate::net::{dotted, find, index_of, parse_quad, quad};
use crate::text::{append_decimal, is_digit, push_char};

verus! {

/// Whether `c` is a hexadecimal digit, in either case.
pub open spec fn is_hex(c: char) -> bool {
    is_digit(c) || ('a' <= c && c <= 'f') || ('A' <= c && c <= 'F')
}

/// The number that the hexadecimal digit `c` stands for.
pub open spec fn hex_value(c: char) -> nat {
    if is_digit(c) {
        (c as nat - '0' as nat) as nat
    } else if 'a' <= c && c <= 'f' {
        (c as nat - 'a' as nat + 10) as nat
    } else {
        (c as nat - 'A' as nat + 10) as nat
    }
}

/// The number written by the hexadecimal digits `s`.
pub open spec fn hexes_value(s: Seq<char>) -> nat
    decreases s.len(),
{
    if s.len() == 0 {
        0
    } else {
        hexes_value(s.drop_last()) * 16 + hex_value(s.last())
    }
}

/// The group that a text writes: one to four hexadecimal digits.
pub open spec fn group(s: Seq<char>) -> Option<u16> {
    if 1 <= s.len() <= 4 && (forall|i: int| 0 <= i < s.len() ==> is_hex(#[trigger] s[i])) {
        Some(hexes_value(s) as u16)
    } else {
        None
    }
}

/// The groups that a text writes with single colons between them. Where
/// `v4` holds, the last part may be a dotted IPv4 address, which stands
/// for two groups.
pub open spec fn groups(s: Seq<char>, v4: bool) -> Option<Seq<u16>>
    decreases s.len(),
{
    let i = index_of(s, ':');
    if 0 <= i < s.len() {
        match (group(s.take(i)), groups(s.skip(i + 1), v4)) {
            (Some(g), Some(rest)) => Some(seq![g] + rest),
            _ => None,
        }
    } else if v4 && index_of(s, '.') < s.len() {
        match quad(s) {
            Some((a, b, c, d)) => Some(seq![(a * 256 + b) as u16, (c * 256 + d) as u16]),
            None => None,
        }
    } else {
        match group(s) {
            Some(g) => Some(seq![g]),
            None => None,
        }
    }
}

/// A `::` starts at `k` in `s`.
pub open spec fn twin_at(s: Seq<char>, k: int) -> bool {
    0 <= k && k + 1 < s.len() && s[k] == ':' && s[k + 1] == ':'
}

/// Where the first `::` of `s` starts, or the length of `s` where it has
/// none.
pub open spec fn twin_of(s: Seq<char>) -> int
    decreases s.len(),
{
    if s.len() < 2 {
        s.len() as int
    } else if s[0] == ':' && s[1] == ':' {
        0
    } else {
        1 + twin_of(s.drop_first())
    }
}

/// `i` is where [`twin_of`] points.
pub proof fn lemma_twin_of(s: Seq<char>, i: int)
    requires
        0 <= i <= s.len(),
        forall|k: int| 0 <= k < i ==> !twin_at(s, k),
        i < s.len() ==> twin_at(s, i),
    ensures
        twin_of(s) == i,
    decreases s.len(),
{
    if s.len() < 2 {
    } else if i == 0 {
    } else {
        assert(!twin_at(s, 0));
        let t = s.drop_first();
        assert forall|k: int| 0 <= k < i - 1 implies !twin_at(t, k) by {
            assert(!twin_at(s, k + 1));
            if k + 1 < t.len() {
                assert(t[k] == s[k + 1]);
                assert(t[k + 1] == s[k + 2]);
            }
        }
        if i < s.len() {
            assert(twin_at(s, i));
            assert(t[i - 1] == s[i]);
            assert(t[i] == s[i + 1]);
            assert(twin_at(t, i - 1));
        }
        lemma_twin_of(t, i - 1);
    }
}

/// `n` groups of zero.
pub open spec fn zeros(n: int) -> Seq<u16> {
    Seq::new(if n >= 0 { n as nat } else { 0 }, |i: int| 0u16)
}

/// The eight groups that a text writes as an IPv6 address. Without a `::`
/// the text has to write all eight; with one, the groups before it and
/// after it are at most seven, and zero groups fill the gap.
pub open spec fn ip6(s: Seq<char>) -> Option<Seq<u16>> {
    let p = twin_of(s);
    if p >= s.len() {
        match groups(s, true) {
            Some(g) => if g.len() == 8 {
                Some(g)
            } else {
                None
            },
            None => None,
        }
    } else {
        let head = if p == 0 {
            Some(Seq::<u16>::empty())
        } else {
            groups(s.take(p), false)
        };
        let tail = if p + 2 >= s.len() {
            Some(Seq::<u16>::empty())
        } else {
            groups(s.skip(p + 2), true)
        };
        match (head, tail) {
            (Some(h), Some(t)) => if h.len() + t.len() <= 7 {
                Some(h + zeros(8 - h.len() - t.len()) + t)
            } else {
                None
            },
            _ => None,
        }
    }
}

/// The hexadecimal digit that stands for `d`, for `d` below sixteen.
pub open spec fn hex_digit(d: nat) -> char {
    if d < 10 {
        crate::text::digit(d)
    } else if d == 10 {
        'a'
    } else if d == 11 {
        'b'
    } else if d == 12 {
        'c'
    } else if d == 13 {
        'd'
    } else if d == 14 {
        'e'
    } else {
        'f'
    }
}

/// The shortest hexadecimal writing of `n`, in lower case.
pub open spec fn hex(n: nat) -> Seq<char>
    decreases n,
{
    if n < 16 {
        seq![hex_digit(n)]
    } else {
        hex(n / 16).push(hex_digit(n % 16))
    }
}

/// The groups `g` in hexadecimal with single colons between them.
pub open spec fn hex_groups(g: Seq<u16>) -> Seq<char>
    decreases g.len(),
{
    if g.len() == 0 {
        Seq::empty()
    } else if g.len() == 1 {
        hex(g[0] as nat)
    } else {
        hex_groups(g.drop_last()) + seq![':'] + hex(g.last() as nat)
    }
}

/// How many zero groups follow each other from `i` on.
pub open spec fn run(g: Seq<u16>, i: int) -> int
    decreases g.len() - i,
{
    if i < 0 || i >= g.len() || g[i] != 0 {
        0
    } else {
        1 + run(g, i + 1)
    }
}

/// Where the longest run of zero groups at or after `i` starts, the first
/// one of that length; the number of groups where there is no place left.
pub open spec fn best(g: Seq<u16>, i: int) -> int
    decreases g.len() - i,
{
    if i < 0 || i >= g.len() {
        g.len() as int
    } else if run(g, best(g, i + 1)) > run(g, i) {
        best(g, i + 1)
    } else {
        i
    }
}

/// Whether the groups are an IPv4 address mapped into IPv6: five zero
/// groups and a group of ones before the address.
pub open spec fn is_mapped(g: Seq<u16>) -> bool {
    g.len() == 8 && g[0] == 0 && g[1] == 0 && g[2] == 0 && g[3] == 0 && g[4] == 0 && g[5]
        == 0xffff
}

/// The text of an IPv6 address of eight groups: a mapped IPv4 address as
/// `::ffff:a.b.c.d`; otherwise the groups in hexadecimal, with the longest
/// run of two or more zero groups, the first of them, shortened to `::`.
pub open spec fn ip6_text(g: Seq<u16>) -> Seq<char> {
    if is_mapped(g) {
        seq![':', ':', 'f', 'f', 'f', 'f', ':'] + dotted(
            g[6] as nat / 256,
            g[6] as nat % 256,
            g[7] as nat / 256,
            g[7] as nat % 256,
        )
    } else if run(g, best(g, 0)) >= 2 {
        hex_groups(g.take(best(g, 0))) + seq![':', ':'] + hex_groups(
            g.skip(best(g, 0) + run(g, best(g, 0))),
        )
    } else {
        hex_groups(g)
    }
}

fn hex_char(d: u16) -> (c: char)
    requires
        d < 16,
    ensures
        c == hex_digit(d as nat),
{
    if d == 0 {
        '0'
    } else if d == 1 {
        '1'
    } else if d == 2 {
        '2'
    } else if d == 3 {
        '3'
    } else if d == 4 {
        '4'
    } else if d == 5 {
        '5'
    } else if d == 6 {
        '6'
    } else if d == 7 {
        '7'
    } else if d == 8 {
        '8'
    } else if d == 9 {
        '9'
    } else if d == 10 {
        'a'
    } else if d == 11 {
        'b'
    } else if d == 12 {
        'c'
    } else if d == 13 {
        'd'
    } else if d == 14 {
        'e'
    } else {
        'f'
    }
}

fn append_hex(out: &mut String, n: u16)
    ensures
        final(out)@ == old(out)@ + hex(n as nat),
    decreases n,
{
    if n < 16 {
        push_char(out, hex_char(n));
        assert(old(out)@.push(hex_digit(n as nat)) =~= old(out)@ + hex(n as nat));
    } else {
        append_hex(out, n / 16);
        push_char(out, hex_char(n % 16));
        assert((old(out)@ + hex((n / 16) as nat)).push(hex_digit((n % 16) as nat)) =~= old(out)@
            + hex(n as nat));
    }
}

fn append_hex_groups(out: &mut String, g: &Vec<u16>, from: usize, to: usize)
    requires
        from <= to <= g.len(),
    ensures
        final(out)@ == old(out)@ + hex_groups(g@.subrange(from as int, to as int)),
{
    let ghost s = g@.subrange(from as int, to as int);
    let mut i: usize = from;
    assert(s.take(0) =~= Seq::<u16>::empty());
    assert(out@ =~= old(out)@ + hex_groups(s.take(0)));
    while i < to
        invariant
            from <= i <= to <= g.len(),
            s == g@.subrange(from as int, to as int),
            out@ == old(out)@ + hex_groups(s.take(i - from)),
        decreases to - i,
    {
        let ghost before = out@;
        if i > from {
            push_char(out, ':');
        }
        append_hex(out, g[i]);
        proof {
            let now = s.take(i - from + 1);
            assert(now.drop_last() =~= s.take(i - from));
            assert(now.last() == g@[i as int]);
            assert(out@ =~= old(out)@ + hex_groups(now));
        }
        i += 1;
    }
    assert(s.take(to - from) =~= s);
}

/// Writes an IPv6 address of eight groups out, as [`ip6_text`] has it.
pub fn append_ip6(out: &mut String, g: &Vec<u16>)
    requires
        g.len() == 8,
    ensures
        final(out)@ == old(out)@ + ip6_text(g@),
{
    if g[0] == 0 && g[1] == 0 && g[2] == 0 && g[3] == 0 && g[4] == 0 && g[5] == 0xffff {
        push_char(out, ':');
        push_char(out, ':');
        push_char(out, 'f');
        push_char(out, 'f');
        push_char(out, 'f');
        push_char(out, 'f');
        push_char(out, ':');
        append_decimal(out, (g[6] / 256) as u128);
        push_char(out, '.');
        append_decimal(out, (g[6] % 256) as u128);
        push_char(out, '.');
        append_decimal(out, (g[7] / 256) as u128);
        push_char(out, '.');
        append_decimal(out, (g[7] % 256) as u128);
        assert(out@ =~= old(out)@ + ip6_text(g@));
        return;
    }
    let mut start: usize = 8;
    let mut longest: usize = 0;
    let mut current: usize = 0;
    let mut i: usize = 8;
    while i > 0
        invariant
            i <= 8,
            g.len() == 8,
            start <= 8,
            start == best(g@, i as int),
            longest == run(g@, start as int),
            current == run(g@, i as int),
            longest <= 8 - i,
            current <= 8 - i,
            start + longest <= 8,
        decreases i,
    {
        i -= 1;
        if g[i] == 0 {
            current += 1;
        } else {
            current = 0;
        }
        if !(longest > current) {
            start = i;
            longest = current;
        }
    }
    if longest >= 2 {
        append_hex_groups(out, g, 0, start);
        push_char(out, ':');
        push_char(out, ':');
        append_hex_groups(out, g, start + longest, 8);
        proof {
            assert(g@.subrange(0, start as int) =~= g@.take(start as int));
            assert(g@.subrange(start + longest, 8) =~= g@.skip(start + longest));
            assert(out@ =~= old(out)@ + ip6_text(g@));
        }
    } else {
        append_hex_groups(out, g, 0, 8);
        assert(g@.subrange(0, 8) =~= g@);
    }
}

/// Reads `v[from..to]` as a group.
fn parse_group(v: &Vec<char>, from: usize, to: usize) -> (r: Option<u16>)
    requires
        from <= to <= v.len(),
    ensures
        r == group(v@.subrange(from as int, to as int)),
{
    let ghost s = v@.subrange(from as int, to as int);
    if to - from < 1 || to - from > 4 {
        return None;
    }
    let mut acc: u32 = 0;
    let mut i: usize = from;
    assert(s.take(0) =~= Seq::<char>::empty());
    while i < to
        invariant
            from <= i <= to <= v.len(),
            to - from <= 4,
            s == v@.subrange(from as int, to as int),
            forall|k: int| 0 <= k < i - from ==> is_hex(#[trigger] s[k]),
            acc == hexes_value(s.take(i - from)),
            i - from == 0 ==> acc == 0,
            i - from == 1 ==> acc < 16,
            i - from == 2 ==> acc < 256,
            i - from == 3 ==> acc < 4096,
            i - from == 4 ==> acc < 65536,
        decreases to - i,
    {
        let c = v[i];
        proof {
            assert(s[i - from] == c);
            assert(s.take(i - from + 1).drop_last() =~= s.take(i - from));
            assert(s.take(i - from + 1).last() == c);
        }
        let d: u32 = if '0' <= c && c <= '9' {
            c as u32 - '0' as u32
        } else if 'a' <= c && c <= 'f' {
            c as u32 - 'a' as u32 + 10
        } else if 'A' <= c && c <= 'F' {
            c as u32 - 'A' as u32 + 10
        } else {
            assert(!is_hex(s[i - from]));
            return None;
        };
        assert(d == hex_value(c));
        acc = acc * 16 + d;
        i += 1;
    }
    assert(s.take(to - from) =~= s);
    Some(acc as u16)
}

/// Reads `v[from..to]` as groups with single colons between them and
/// appends them to `out`.
fn parse_groups(v: &Vec<char>, from: usize, to: usize, v4: bool, out: &mut Vec<u16>) -> (r: bool)
    requires
        from <= to <= v.len(),
    ensures
        match groups(v@.subrange(from as int, to as int), v4) {
            Some(g) => r && final(out)@ == old(out)@ + g,
            None => !r,
        },
{
    let ghost whole = v@.subrange(from as int, to as int);
    let mut start: usize = from;
    assert(v@.subrange(from as int, to as int) =~= whole);
    assert(out@ =~= old(out)@ + Seq::<u16>::empty());
    let ghost mut done = Seq::<u16>::empty();
    loop
        invariant
            from <= start <= to <= v.len(),
            whole == v@.subrange(from as int, to as int),
            out@ == old(out)@ + done,
            groups(whole, v4) == (match groups(v@.subrange(start as int, to as int), v4) {
                Some(rest) => Some(done + rest),
                None => None,
            }),
        decreases to - start,
    {
        let ghost s = v@.subrange(start as int, to as int);
        let colon = find(v, start, to, ':');
        proof {
            assert(s.take(colon - start) =~= v@.subrange(start as int, colon as int));
        }
        if colon < to {
            proof {
                assert(s.skip(colon - start + 1) =~= v@.subrange(colon + 1, to as int));
            }
            match parse_group(v, start, colon) {
                Some(g) => {
                    out.push(g);
                    proof {
                        let rest = groups(v@.subrange(colon + 1, to as int), v4);
                        if rest is Some {
                            assert(done + (seq![g] + rest->Some_0) =~= done.push(g) + rest->Some_0);
                        }
                        done = done.push(g);
                    }
                    start = colon + 1;
                },
                None => {
                    return false;
                },
            }
        } else {
            let dot = find(v, start, to, '.');
            if v4 && dot < to {
                match parse_quad(v, start, to) {
                    Some((a, b, c, d)) => {
                        out.push((a as u16) * 256 + b as u16);
                        out.push((c as u16) * 256 + d as u16);
                        proof {
                            let two = seq![
                                (a as nat * 256 + b as nat) as u16,
                                (c as nat * 256 + d as nat) as u16,
                            ];
                            assert(out@ =~= old(out)@ + (done + two));
                        }
                        return true;
                    },
                    None => {
                        return false;
                    },
                }
            } else {
                match parse_group(v, start, to) {
                    Some(g) => {
                        out.push(g);
                        assert(out@ =~= old(out)@ + (done + seq![g]));
                        return true;
                    },
                    None => {
                        return false;
                    },
                }
            }
        }
    }
}

/// Where the first `::` of `v[from..to]` starts, or `to`.
fn find_twin(v: &Vec<char>, from: usize, to: usize) -> (i: usize)
    requires
        from <= to <= v.len(),
    ensures
        from <= i <= to,
        i - from == twin_of(v@.subrange(from as int, to as int)),
        i < to ==> i + 2 <= to,
{
    let ghost s = v@.subrange(from as int, to as int);
    let mut i: usize = from;
    while i < to
        invariant
            from <= i <= to <= v.len(),
            s == v@.subrange(from as int, to as int),
            forall|k: int| 0 <= k < i - from ==> !twin_at(s, k),
        decreases to - i,
    {
        if v[i] == ':' && i + 1 < to && v[i + 1] == ':' {
            proof {
                assert(s[i - from] == ':' && s[i - from + 1] == ':');
                assert(twin_at(s, i - from));
                lemma_twin_of(s, i - from);
            }
            return i;
        }
        proof {
            assert(s[i - from] == v@[i as int]);
            if i + 1 < to {
                assert(s[i - from + 1] == v@[i + 1]);
            }
            assert(!twin_at(s, i - from));
        }
        i += 1;
    }
    proof {
        lemma_twin_of(s, s.len() as int);
    }
    i
}

/// Reads `v[from..to]` as an IPv6 address: its eight groups, or nothing.
pub fn parse_ip6(v: &Vec<char>, from: usize, to: usize) -> (r: Option<Vec<u16>>)
    requires
        from <= to <= v.len(),
    ensures
        match r {
            Some(g) => ip6(v@.subrange(from as int, to as int)) == Some(g@) && g@.len() == 8,
            None => ip6(v@.subrange(from as int, to as int)) is None,
        },
{
    let ghost s = v@.subrange(from as int, to as int);
    let p = find_twin(v, from, to);
    let mut out: Vec<u16> = Vec::new();
    if p >= to {
        if !parse_groups(v, from, to, true, &mut out) {
            return None;
        }
        assert(out@ =~= groups(s, true)->Some_0);
        if out.len() == 8 {
            Some(out)
        } else {
            None
        }
    } else {
        proof {
            assert(s.take(p - from) =~= v@.subrange(from as int, p as int));
            assert(s.skip(p - from + 2) =~= v@.subrange(p + 2, to as int));
        }
        if p > from {
            if !parse_groups(v, from, p, false, &mut out) {
                return None;
            }
        }
        let ghost head = out@;
        let mut tail: Vec<u16> = Vec::new();
        if p + 2 < to {
            if !parse_groups(v, p + 2, to, true, &mut tail) {
                return None;
            }
        }
        assert(tail@ =~= if p + 2 >= to {
            Seq::<u16>::empty()
        } else {
            groups(s.skip(p - from + 2), true)->Some_0
        });
        if out.len() > 7 || tail.len() > 7 - out.len() {
            return None;
        }
        let gap = 8 - out.len() - tail.len();
        let mut k: usize = 0;
        while k < gap
            invariant
                k <= gap,
                out@ == head + zeros(k as int),
            decreases gap - k,
        {
            out.push(0);
            assert(out@ =~= head + zeros(k + 1));
            k += 1;
        }
        let ghost filled = out@;
        let mut j: usize = 0;
        while j < tail.len()
            invariant
                j <= tail.len(),
                out@ == filled + tail@.take(j as int),
            decreases tail.len() - j,
        {
            out.push(tail[j]);
            assert(out@ =~= filled + tail@.take(j + 1));
            j += 1;
        }
        assert(tail@.take(tail.len() as int) =~= tail@);
        Some(out)
    }
}

} // verus!
