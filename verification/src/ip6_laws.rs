//! Every IPv6 address is read back from its own writing.

use vstd::prelude::*;
use crate::ip6::{
    best, group, groups, hex, hex_groups, hex_value, hexes_value, ip6, ip6_text,
    is_hex, is_mapped, lemma_twin_of, run, twin_at, twin_of, zeros,
};
use crate::net::{
    dotted, free_of, host_of, lemma_address_round_trip, lemma_digits_free_of, lemma_index_of,
    lemma_quad, lemma_split, parsed, Host, SocketAddress,
};
use crate::text::{decimal, lemma_decimal};

verus! {

/// A text of groups: it is not empty, neither starts nor ends with a
/// colon, has no two colons in a row, and holds nothing but hexadecimal
/// digits and colons.
pub open spec fn tidy(s: Seq<char>) -> bool {
    &&& s.len() > 0
    &&& s[0] != ':'
    &&& s.last() != ':'
    &&& forall|k: int| 0 <= k < s.len() ==> !twin_at(s, k)
    &&& forall|k: int| 0 <= k < s.len() ==> is_hex(#[trigger] s[k]) || s[k] == ':'
}

/// The hexadecimal writing of a group is made of one to four hexadecimal
/// digits and is worth the group.
pub proof fn lemma_hex(n: nat)
    requires
        n < 65536,
    ensures
        1 <= hex(n).len() <= 4,
        forall|k: int| 0 <= k < hex(n).len() ==> is_hex(#[trigger] hex(n)[k]),
        hexes_value(hex(n)) == n,
        group(hex(n)) == Some(n as u16),
        n < 16 ==> hex(n).len() == 1,
        n < 256 ==> hex(n).len() <= 2,
        n < 4096 ==> hex(n).len() <= 3,
    decreases n,
{
    if n < 16 {
        let s = hex(n);
        assert(s.drop_last() =~= Seq::<char>::empty());
        assert(hexes_value(s.drop_last()) == 0);
        assert(is_hex(s[0]));
        assert(hex_value(s[0]) == n);
    } else {
        lemma_hex(n / 16);
        let front = hex(n / 16);
        let s = hex(n);
        assert(s.drop_last() =~= front);
        assert(is_hex(s.last()));
        assert(hex_value(s.last()) == n % 16);
        assert forall|k: int| 0 <= k < s.len() implies is_hex(#[trigger] s[k]) by {
            if k < front.len() {
                assert(s[k] == front[k]);
            }
        }
    }
}

/// A group in front of other groups is written in front of them, with a
/// colon between.
pub proof fn lemma_hex_groups_front(x: u16, rest: Seq<u16>)
    requires
        rest.len() > 0,
    ensures
        hex_groups(seq![x] + rest) == hex(x as nat) + seq![':'] + hex_groups(rest),
    decreases rest.len(),
{
    let all = seq![x] + rest;
    assert(all.drop_last() =~= seq![x] + rest.drop_last());
    assert(all.last() == rest.last());
    if rest.len() == 1 {
        assert(all.drop_last() =~= seq![x]);
        assert(rest.drop_last() =~= Seq::<u16>::empty());
        assert(hex_groups(seq![x]) == hex(x as nat));
        assert(hex_groups(rest) == hex(rest[0] as nat));
        assert(rest.last() == rest[0]);
    } else {
        lemma_hex_groups_front(x, rest.drop_last());
        assert(hex_groups(all) =~= hex(x as nat) + seq![':'] + hex_groups(rest));
    }
}

/// The writing of one group or more is tidy.
pub proof fn lemma_tidy(g: Seq<u16>)
    requires
        g.len() > 0,
    ensures
        tidy(hex_groups(g)),
    decreases g.len(),
{
    lemma_hex(g.last() as nat);
    let last = hex(g.last() as nat);
    if g.len() == 1 {
        assert(g.last() == g[0]);
        assert(is_hex(last[0]));
        assert(is_hex(last.last()));
        assert forall|k: int| 0 <= k < last.len() implies !twin_at(last, k) by {
            assert(is_hex(last[k]));
        }
    } else {
        lemma_tidy(g.drop_last());
        let front = hex_groups(g.drop_last());
        let s = hex_groups(g);
        assert(s =~= front + seq![':'] + last);
        assert(s[0] == front[0]);
        assert(is_hex(last.last()));
        assert(s.last() == last.last());
        assert forall|k: int| 0 <= k < s.len() implies is_hex(#[trigger] s[k]) || s[k] == ':' by {
            if k < front.len() {
                assert(s[k] == front[k]);
            } else if k > front.len() {
                assert(s[k] == last[k - front.len() - 1]);
            }
        }
        assert forall|k: int| 0 <= k < s.len() implies !twin_at(s, k) by {
            if k + 1 < front.len() {
                assert(s[k] == front[k] && s[k + 1] == front[k + 1]);
                assert(!twin_at(front, k));
            } else if k + 1 == front.len() {
                assert(s[k] == front.last());
            } else if k + 1 < s.len() {
                assert(s[k + 1] == last[k + 1 - front.len() - 1]);
                assert(is_hex(last[k - front.len()]));
            }
        }
    }
}

/// A tidy text holds none of the characters that are neither colons nor
/// hexadecimal digits.
pub proof fn lemma_tidy_free_of(s: Seq<char>, c: char)
    requires
        tidy(s),
        !is_hex(c),
        c != ':',
    ensures
        free_of(s, c),
{
    assert forall|k: int| 0 <= k < s.len() implies #[trigger] s[k] != c by {
        assert(is_hex(s[k]) || s[k] == ':');
    }
}

/// A tidy text has no `::`.
pub proof fn lemma_tidy_has_no_twin(s: Seq<char>)
    requires
        tidy(s),
    ensures
        twin_of(s) == s.len(),
{
    lemma_twin_of(s, s.len() as int);
}

/// The hexadecimal writing of a group holds no colon.
pub proof fn lemma_hex_free_of_colon(n: nat)
    requires
        n < 65536,
    ensures
        free_of(hex(n), ':'),
{
    lemma_hex(n);
    assert forall|k: int| 0 <= k < hex(n).len() implies #[trigger] hex(n)[k] != ':' by {
        assert(is_hex(hex(n)[k]));
    }
}

/// Groups are read back from their writing.
pub proof fn lemma_groups_read(g: Seq<u16>, v4: bool)
    requires
        g.len() > 0,
    ensures
        groups(hex_groups(g), v4) == Some(g),
    decreases g.len(),
{
    let x = g[0];
    let rest = g.drop_first();
    lemma_hex(x as nat);
    lemma_hex_free_of_colon(x as nat);
    lemma_tidy(g);
    lemma_tidy_free_of(hex_groups(g), '.');
    if g.len() == 1 {
        let s = hex_groups(g);
        assert(s == hex(x as nat));
        lemma_index_of(s, ':', s.len() as int);
        lemma_index_of(s, '.', s.len() as int);
    } else {
        assert(seq![x] + rest =~= g);
        lemma_hex_groups_front(x, rest);
        lemma_groups_read(rest, v4);
        let s = hex_groups(g);
        lemma_split(hex(x as nat), ':', hex_groups(rest));
        assert(seq![x] + rest =~= g);
    }
}

/// A run of zero groups stays within the groups and is made of zeros.
pub proof fn lemma_run(g: Seq<u16>, i: int)
    requires
        0 <= i <= g.len(),
    ensures
        0 <= run(g, i) <= g.len() - i,
        forall|k: int| i <= k < i + run(g, i) ==> #[trigger] g[k] == 0,
    decreases g.len() - i,
{
    if i < g.len() && g[i] == 0 {
        lemma_run(g, i + 1);
    }
}

/// The longest run at or after a place starts at or after that place.
pub proof fn lemma_best(g: Seq<u16>, i: int)
    requires
        0 <= i <= g.len(),
    ensures
        i <= best(g, i) <= g.len(),
    decreases g.len() - i,
{
    if i < g.len() {
        lemma_best(g, i + 1);
    }
}

/// The text `ffff` is the writing of the group of ones.
proof fn lemma_ones()
    ensures
        hex(65535) == seq!['f', 'f', 'f', 'f'],
{
    assert(hex(15) =~= seq!['f']);
    assert(hex(255) =~= seq!['f', 'f']);
    assert(hex(4095) =~= seq!['f', 'f', 'f']);
    assert(hex(65535) =~= seq!['f', 'f', 'f', 'f']);
}

/// A mapped IPv4 address is read back from its writing.
proof fn lemma_mapped_round_trip(g: Seq<u16>)
    requires
        is_mapped(g),
    ensures
        ip6(ip6_text(g)) == Some(g),
        free_of(ip6_text(g), '%'),
        free_of(ip6_text(g), ']'),
{
    let a = (g[6] / 256) as u8;
    let b = (g[6] % 256) as u8;
    let c = (g[7] / 256) as u8;
    let d = (g[7] % 256) as u8;
    let dq = dotted(a as nat, b as nat, c as nat, d as nat);
    let ones = seq!['f', 'f', 'f', 'f'];
    let text = ip6_text(g);
    lemma_quad(a, b, c, d);
    lemma_ones();
    lemma_hex(65535);
    lemma_hex_free_of_colon(65535);
    assert(text =~= seq![':', ':'] + (ones + seq![':'] + dq));
    assert(text[0] == ':' && text[1] == ':');
    assert(twin_of(text) == 0);
    let tail = text.skip(2);
    assert(tail =~= ones + seq![':'] + dq);
    lemma_split(ones, ':', dq);
    lemma_index_of(dq, ':', dq.len() as int);
    let last = seq![(a as nat * 256 + b as nat) as u16, (c as nat * 256 + d as nat) as u16];
    assert(groups(dq, true) == Some(last));
    assert(groups(tail, true) == Some(seq![65535u16] + last));
    assert(last[0] == g[6] && last[1] == g[7]);
    assert(Seq::<u16>::empty() + zeros(5) + (seq![65535u16] + last) =~= g);
    assert forall|k: int| 0 <= k < text.len() implies #[trigger] text[k] != '%' && text[k]
        != ']' by {
        if k >= 7 {
            assert(text[k] == dq[k - 7]);
        }
    }
}

/// Every IPv6 address of eight groups is read back from its own writing,
/// which holds neither a `%` nor a `]`.
pub proof fn lemma_ip6_round_trip(g: Seq<u16>)
    requires
        g.len() == 8,
    ensures
        ip6(ip6_text(g)) == Some(g),
        free_of(ip6_text(g), '%'),
        free_of(ip6_text(g), ']'),
{
    let text = ip6_text(g);
    if is_mapped(g) {
        lemma_mapped_round_trip(g);
    } else if run(g, best(g, 0)) >= 2 {
        let p = best(g, 0);
        let n = run(g, p);
        lemma_best(g, 0);
        lemma_run(g, p);
        let front = g.take(p);
        let back = g.skip(p + n);
        let h = hex_groups(front);
        let t = hex_groups(back);
        assert(text == h + seq![':', ':'] + t);
        if p > 0 {
            lemma_tidy(front);
            lemma_tidy_free_of(h, '%');
            lemma_tidy_free_of(h, ']');
            lemma_groups_read(front, false);
        } else {
            assert(front =~= Seq::<u16>::empty());
        }
        if p + n < 8 {
            lemma_tidy(back);
            lemma_tidy_free_of(t, '%');
            lemma_tidy_free_of(t, ']');
            lemma_groups_read(back, true);
        } else {
            assert(back =~= Seq::<u16>::empty());
        }
        assert(text[h.len() as int] == ':' && text[h.len() as int + 1] == ':');
        assert forall|k: int| 0 <= k < h.len() implies !twin_at(text, k) by {
            assert(text[k] == h[k]);
            if k + 1 < h.len() {
                assert(text[k + 1] == h[k + 1]);
                assert(!twin_at(h, k));
            } else {
                assert(h[k] == h.last());
            }
        }
        lemma_twin_of(text, h.len() as int);
        assert(text.take(h.len() as int) =~= h);
        assert(text.skip(h.len() as int + 2) =~= t);
        assert(front + zeros(n) + back =~= g) by {
            assert forall|k: int| 0 <= k < 8 implies (front + zeros(n) + back)[k] == g[k] by {
                if p <= k < p + n {
                    assert(g[k] == 0);
                }
            }
        }
        assert forall|k: int| 0 <= k < text.len() implies #[trigger] text[k] != '%' && text[k]
            != ']' by {
            if k < h.len() {
                assert(text[k] == h[k]);
            } else if k >= h.len() + 2 {
                assert(text[k] == t[k - h.len() - 2]);
            }
        }
    } else {
        lemma_tidy(g);
        lemma_tidy_has_no_twin(text);
        lemma_groups_read(g, true);
        lemma_tidy_free_of(text, '%');
        lemma_tidy_free_of(text, ']');
    }
}

/// Every socket address is read back from its own writing.
pub proof fn lemma_socket_round_trip(address: SocketAddress)
    ensures
        parsed(address.text()) == Some(address),
{
    match address.host {
        Host::V4 { .. } => {
            lemma_address_round_trip(address);
        },
        Host::V6 { g0, g1, g2, g3, g4, g5, g6, g7, scope_id } => {
            let g = address.host.groups();
            let ip = ip6_text(g);
            let sc = address.host.scope_text();
            let dp = decimal(address.port as nat);
            let s = address.text();
            lemma_ip6_round_trip(g);
            lemma_decimal(address.port as nat);
            lemma_decimal(scope_id as nat);
            lemma_digits_free_of(decimal(scope_id as nat), ']');
            let inner = ip + sc;
            assert(s =~= seq!['['] + inner + seq![']', ':'] + dp);
            let close = inner.len() + 1;
            assert forall|k: int| 0 <= k < close implies s[k] != ']' by {
                if k >= 1 {
                    assert(s[k] == inner[k - 1]);
                    if k - 1 < ip.len() {
                        assert(inner[k - 1] == ip[k - 1]);
                    } else {
                        assert(inner[k - 1] == sc[k - 1 - ip.len()]);
                        if k - 1 - ip.len() > 0 {
                            assert(sc[k - 1 - ip.len()] == decimal(scope_id as nat)[k - 2
                                - ip.len()]);
                        }
                    }
                }
            }
            assert(s[close as int] == ']');
            lemma_index_of(s, ']', close as int);
            assert(s.subrange(1, close as int) =~= inner);
            assert(s.skip(close as int + 2) =~= dp);
            if scope_id != 0 {
                assert(inner =~= ip + seq!['%'] + decimal(scope_id as nat));
                lemma_split(ip, '%', decimal(scope_id as nat));
            } else {
                assert(inner =~= ip);
                lemma_index_of(inner, '%', inner.len() as int);
                assert(inner.take(inner.len() as int) =~= inner);
            }
            assert(host_of(g, scope_id) == address.host);
        },
    }
}

} // verus!
