//! Reading single settings out of a configuration document.

use vstd::prelude::*;
use libp2p::multiaddr::Multiaddr;
use crate::engine::{canonical, engine_address};
use crate::filter::{regex_compiles, SubscriptionFilter};
use crate::mode::{mode_of_token, TendermintMode};
use crate::net::{parsed, SocketAddress};
use crate::peer::{
    multiaddr_hops, multiaddr_parse, multiaddr_parsed, peer_of, Hop, PeerAddress,
};
use crate::text::{bounded_number, parse_number, same_text, to_chars};
use crate::time::{is_rfc3339, rfc3339};
use crate::timeout::{timeout_of, Timeout};
use crate::value::{lemma_view_array, names_of, nodes_of, text_list, Node, Datum};

verus! {

/// The text that a value is, if it is one.
pub open spec fn as_text(node: Option<Node>) -> Option<Seq<char>> {
    match node {
        Some(Node::Text(t)) => Some(t),
        _ => None,
    }
}

/// The name that a value is: a text that is not empty.
pub open spec fn as_name(node: Option<Node>) -> Option<Seq<char>> {
    match as_text(node) {
        Some(t) => if t.len() > 0 {
            Some(t)
        } else {
            None
        },
        None => None,
    }
}

/// The point in time that a value writes: a text as RFC 3339 has it.
pub open spec fn as_time(node: Option<Node>) -> Option<Seq<char>> {
    match as_text(node) {
        Some(t) => if is_rfc3339(t) {
            Some(t)
        } else {
            None
        },
        None => None,
    }
}

/// The truth value that a value stands for: a boolean, or one of the
/// texts `true` and `false`.
pub open spec fn as_flag(node: Option<Node>) -> Option<bool> {
    match node {
        Some(Node::Boolean(b)) => Some(b),
        Some(Node::Text(t)) => if t == "true"@ {
            Some(true)
        } else if t == "false"@ {
            Some(false)
        } else {
            None
        },
        _ => None,
    }
}

/// The count that a value stands for: an integer from 0 up to the largest
/// 64-bit number, or a text that writes one in decimal.
pub open spec fn as_count(node: Option<Node>) -> Option<u64> {
    match node {
        Some(Node::Integer(i)) => if 0 <= i <= u64::MAX {
            Some(i as u64)
        } else {
            None
        },
        Some(Node::Text(t)) => match bounded_number(t, u64::MAX as nat) {
            Some(n) => Some(n as u64),
            None => None,
        },
        _ => None,
    }
}

/// A setting that may be left out: nothing where it is absent, otherwise
/// what `read` makes of it.
pub open spec fn when_present<T>(node: Option<Node>, read: Option<T>) -> Option<Option<T>> {
    match node {
        None => Some(None),
        Some(_) => match read {
            Some(x) => Some(Some(x)),
            None => None,
        },
    }
}

/// The texts that a value lists, if it is a list of texts.
pub open spec fn as_texts(node: Option<Node>) -> Option<Seq<Seq<char>>> {
    match node {
        Some(Node::Array(items)) => if forall|i: int|
            0 <= i < items.len() ==> (#[trigger] items[i]) is Text {
            Some(Seq::new(items.len(), |i: int| items[i]->Text_0))
        } else {
            None
        },
        _ => None,
    }
}

/// The socket address that a value writes.
pub open spec fn as_socket(node: Option<Node>) -> Option<SocketAddress> {
    match as_text(node) {
        Some(t) => parsed(t),
        None => None,
    }
}

/// The timeout that a value writes.
pub open spec fn as_timeout(node: Option<Node>) -> Option<Timeout> {
    match as_text(node) {
        Some(t) => match timeout_of(t) {
            Some((secs, nanos)) => Some(Timeout { secs, nanos }),
            None => None,
        },
        None => None,
    }
}

/// The mode that a value names.
pub open spec fn as_mode(node: Option<Node>) -> Option<TendermintMode> {
    match as_text(node) {
        Some(t) => mode_of_token(t),
        None => None,
    }
}

/// The components of the multiaddress that a value writes.
pub open spec fn as_multiaddr(node: Option<Node>) -> Option<Seq<Hop>> {
    match as_text(node) {
        Some(t) => multiaddr_parsed(t),
        None => None,
    }
}

/// `s` without the items that occurred before.
pub open spec fn unique<T>(s: Seq<T>) -> Seq<T>
    decreases s.len(),
{
    if s.len() == 0 {
        Seq::empty()
    } else {
        let rest = unique(s.drop_last());
        if rest.contains(s.last()) {
            rest
        } else {
            rest.push(s.last())
        }
    }
}

/// No item of [`unique`] occurs twice, and it holds the items of the
/// sequence it is made from and no others.
pub proof fn lemma_unique<T>(s: Seq<T>)
    ensures
        forall|i: int, j: int| 0 <= i < j < unique(s).len() ==> unique(s)[i] != unique(s)[j],
        forall|x: T| unique(s).contains(x) <==> s.contains(x),
    decreases s.len(),
{
    if s.len() == 0 {
    } else {
        let front = s.drop_last();
        let rest = unique(front);
        lemma_unique(front);
        assert forall|x: T| unique(s).contains(x) <==> s.contains(x) by {
            if s.contains(x) {
                let k = s.lemma_contains_to_index(x);
                if k < s.len() - 1 {
                    assert(front[k] == x);
                    assert(front.contains(x));
                    assert(rest.contains(x));
                    let m = rest.lemma_contains_to_index(x);
                    assert(unique(s)[m] == x);
                    assert(unique(s).contains(x));
                } else {
                    if rest.contains(x) {
                        let m = rest.lemma_contains_to_index(x);
                        assert(unique(s)[m] == x);
                    } else {
                        assert(unique(s)[rest.len() as int] == x);
                    }
                    assert(unique(s).contains(x));
                }
            }
            if unique(s).contains(x) {
                let m = unique(s).lemma_contains_to_index(x);
                if m < rest.len() {
                    assert(rest[m] == x);
                    assert(rest.contains(x));
                    assert(front.contains(x));
                    let k = front.lemma_contains_to_index(x);
                    assert(s[k] == x);
                } else {
                    assert(s[s.len() - 1] == x);
                }
                assert(s.contains(x));
            }
        }
        assert forall|i: int, j: int| 0 <= i < j < unique(s).len() implies unique(s)[i] != unique(
            s,
        )[j] by {
            if j == rest.len() {
                assert(rest[i] == unique(s)[i]);
                assert(rest.contains(rest[i]));
            }
        }
    }
}

/// The peers that a value lists, each of them once: it has to be a list of
/// texts that each write a peer.
pub open spec fn as_peers(node: Option<Node>) -> Option<Seq<(Seq<Hop>, Seq<u8>)>> {
    match as_texts(node) {
        Some(texts) => if forall|i: int|
            0 <= i < texts.len() ==> peer_of(#[trigger] texts[i]) is Some {
            Some(unique(Seq::new(texts.len(), |i: int| peer_of(texts[i])->Some_0)))
        } else {
            None
        },
        None => None,
    }
}

/// Whether a value stands for a subscription filter: a text that the
/// regular-expression engine accepts, or a list of texts.
pub open spec fn is_filter(node: Option<Node>) -> bool {
    match node {
        Some(Node::Text(t)) => regex_compiles(t),
        Some(Node::Array(_)) => as_texts(node) is Some,
        _ => false,
    }
}

/// The addresses of the peers of the consensus engine that a value lists:
/// it has to be a list of texts that each write such an address.
pub open spec fn as_engine_addresses(node: Option<Node>) -> Option<Seq<Seq<char>>> {
    match as_texts(node) {
        Some(texts) => if forall|i: int|
            0 <= i < texts.len() ==> engine_address(#[trigger] texts[i]) is Some {
            Some(Seq::new(texts.len(), |i: int| engine_address(texts[i])->Some_0))
        } else {
            None
        },
        None => None,
    }
}

/// The part named `key`, if it is a table.
pub open spec fn section(node: Node, key: Seq<char>) -> Option<Node> {
    match node.child(key) {
        Some(Node::Table(entries)) => Some(Node::Table(entries)),
        _ => None,
    }
}

/// The views of a list of peers.
pub open spec fn peer_views(peers: Seq<PeerAddress>) -> Seq<(Seq<Hop>, Seq<u8>)> {
    Seq::new(peers.len(), |i: int| peers[i].view())
}

/// Reads the text named `key`.
pub fn text_at(node: &Datum, key: &str) -> (r: Option<String>)
    ensures
        match r {
            Some(t) => as_text(node@.child(key@)) == Some(t@),
            None => as_text(node@.child(key@)) is None,
        },
{
    match node.get(key) {
        Some(v) => match v {
            Datum::Text(t) => Some(t.clone()),
            _ => None,
        },
        None => None,
    }
}

/// Reads the name named `key`.
pub fn name_at(node: &Datum, key: &str) -> (r: Option<String>)
    ensures
        match r {
            Some(t) => as_name(node@.child(key@)) == Some(t@),
            None => as_name(node@.child(key@)) is None,
        },
{
    match text_at(node, key) {
        Some(t) => {
            if to_chars(t.as_str()).len() > 0 {
                Some(t)
            } else {
                None
            }
        },
        None => None,
    }
}

/// Reads the point in time named `key`.
pub fn time_at(node: &Datum, key: &str) -> (r: Option<String>)
    ensures
        match r {
            Some(t) => as_time(node@.child(key@)) == Some(t@),
            None => as_time(node@.child(key@)) is None,
        },
{
    match text_at(node, key) {
        Some(t) => {
            if rfc3339(t.as_str()) {
                Some(t)
            } else {
                None
            }
        },
        None => None,
    }
}

/// Reads the truth value named `key`.
pub fn flag_at(node: &Datum, key: &str) -> (r: Option<bool>)
    ensures
        r == as_flag(node@.child(key@)),
{
    match node.get(key) {
        Some(v) => match v {
            Datum::Boolean(b) => Some(*b),
            Datum::Text(t) => {
                if same_text(t.as_str(), "true") {
                    Some(true)
                } else if same_text(t.as_str(), "false") {
                    Some(false)
                } else {
                    None
                }
            },
            _ => None,
        },
        None => None,
    }
}

fn count_of(v: &Datum) -> (r: Option<u64>)
    ensures
        r == as_count(Some(v@)),
{
    match v {
        Datum::Integer(i) => {
            if 0 <= *i && *i <= 0xffff_ffff_ffff_ffff {
                Some(*i as u64)
            } else {
                None
            }
        },
        Datum::Text(t) => {
            let chars = to_chars(t.as_str());
            assert(chars@.subrange(0, chars.len() as int) =~= t@);
            parse_number(&chars, 0, chars.len(), u64::MAX)
        },
        _ => None,
    }
}

/// Reads the count named `key`.
pub fn count_at(node: &Datum, key: &str) -> (r: Option<u64>)
    ensures
        r == as_count(node@.child(key@)),
{
    match node.get(key) {
        Some(v) => count_of(v),
        None => None,
    }
}

/// Reads the count named `key`, which may be left out.
pub fn optional_count_at(node: &Datum, key: &str) -> (r: Option<Option<u64>>)
    ensures
        r == when_present(node@.child(key@), as_count(node@.child(key@))),
{
    match node.get(key) {
        Some(v) => match count_of(v) {
            Some(n) => Some(Some(n)),
            None => None,
        },
        None => Some(None),
    }
}

/// Reads the text named `key`, which may be left out.
pub fn optional_text_at(node: &Datum, key: &str) -> (r: Option<Option<String>>)
    ensures
        match r {
            Some(Some(t)) => when_present(node@.child(key@), as_text(node@.child(key@))) == Some(
                Some(t@),
            ),
            Some(None) => when_present(node@.child(key@), as_text(node@.child(key@))) == Some(
                None::<Seq<char>>,
            ),
            None => when_present(node@.child(key@), as_text(node@.child(key@))) is None,
        },
{
    match node.get(key) {
        Some(v) => match v {
            Datum::Text(t) => Some(Some(t.clone())),
            _ => None,
        },
        None => Some(None),
    }
}

fn texts_of(v: &Datum) -> (r: Option<Vec<String>>)
    ensures
        match r {
            Some(t) => as_texts(Some(v@)) == Some(names_of(t@)),
            None => as_texts(Some(v@)) is None,
        },
{
    match v {
        Datum::Array(items) => {
            let ghost nodes = nodes_of(items@);
            proof {
                lemma_view_array(*items);
            }
            let mut out: Vec<String> = Vec::new();
            let mut i: usize = 0;
            while i < items.len()
                invariant
                    i <= items.len(),
                    nodes == nodes_of(items@),
                    v@ == Node::Array(nodes),
                    out@.len() == i,
                    forall|k: int|
                        0 <= k < i ==> (#[trigger] nodes[k]) is Text && nodes[k]->Text_0
                            == out@[k]@,
                decreases items.len() - i,
            {
                assert(nodes[i as int] == items@[i as int]@);
                match &items[i] {
                    Datum::Text(t) => {
                        out.push(t.clone());
                    },
                    _ => {
                        assert(!(nodes[i as int] is Text));
                        return None;
                    },
                }
                i += 1;
            }
            proof {
                assert(as_texts(Some(v@))->Some_0 =~= names_of(out@));
            }
            Some(out)
        },
        _ => None,
    }
}

/// Reads the list of texts named `key`.
pub fn texts_at(node: &Datum, key: &str) -> (r: Option<Vec<String>>)
    ensures
        match r {
            Some(t) => as_texts(node@.child(key@)) == Some(names_of(t@)),
            None => as_texts(node@.child(key@)) is None,
        },
{
    match node.get(key) {
        Some(v) => texts_of(v),
        None => None,
    }
}

/// Reads the socket address named `key`.
pub fn socket_at(node: &Datum, key: &str) -> (r: Option<SocketAddress>)
    ensures
        r == as_socket(node@.child(key@)),
{
    match text_at(node, key) {
        Some(t) => SocketAddress::parse(t.as_str()),
        None => None,
    }
}

/// Reads the timeout named `key`.
pub fn timeout_at(node: &Datum, key: &str) -> (r: Option<Timeout>)
    ensures
        r == as_timeout(node@.child(key@)),
{
    match text_at(node, key) {
        Some(t) => Timeout::parse(t.as_str()),
        None => None,
    }
}

/// Reads the mode named `key`.
pub fn mode_at(node: &Datum, key: &str) -> (r: Option<TendermintMode>)
    ensures
        r == as_mode(node@.child(key@)),
{
    match text_at(node, key) {
        Some(t) => TendermintMode::parse(t.as_str()),
        None => None,
    }
}

/// Reads the multiaddress named `key`.
pub fn multiaddr_at(node: &Datum, key: &str) -> (r: Option<Multiaddr>)
    ensures
        match r {
            Some(addr) => as_multiaddr(node@.child(key@)) == Some(multiaddr_hops(addr)),
            None => as_multiaddr(node@.child(key@)) is None,
        },
{
    match text_at(node, key) {
        Some(t) => multiaddr_parse(t.as_str()),
        None => None,
    }
}

/// `items` without the texts that occurred before.
pub fn unique_texts(items: Vec<String>) -> (r: Vec<String>)
    ensures
        names_of(r@) == unique(names_of(items@)),
{
    let ghost names = names_of(items@);
    let mut out: Vec<String> = Vec::new();
    let mut i: usize = 0;
    assert(names.take(0) =~= Seq::<Seq<char>>::empty());
    assert(names_of(out@) =~= Seq::<Seq<char>>::empty());
    while i < items.len()
        invariant
            i <= items.len(),
            names == names_of(items@),
            names_of(out@) == unique(names.take(i as int)),
        decreases items.len() - i,
    {
        let ghost before = names_of(out@);
        let mut found = false;
        let mut k: usize = 0;
        while k < out.len()
            invariant
                k <= out.len(),
                i < items.len(),
                before == names_of(out@),
                found <==> exists|m: int| 0 <= m < k && before[m] == items@[i as int]@,
            decreases out.len() - k,
        {
            if same_text(out[k].as_str(), items[i].as_str()) {
                assert(before[k as int] == items@[i as int]@);
                found = true;
            }
            k += 1;
        }
        proof {
            assert(names.take(i + 1).drop_last() =~= names.take(i as int));
            assert(names.take(i + 1).last() == items@[i as int]@);
            if found {
                let m = choose|m: int| 0 <= m < before.len() && before[m] == items@[i as int]@;
                assert(before.contains(items@[i as int]@));
            } else {
                assert(!before.contains(items@[i as int]@));
            }
        }
        if !found {
            out.push(items[i].clone());
            assert(names_of(out@) =~= before.push(items@[i as int]@));
        }
        i += 1;
    }
    assert(names.take(items.len() as int) =~= names);
    out
}

/// Reads the list of peers named `key`, each of them once.
pub fn peers_at(node: &Datum, key: &str) -> (r: Option<Vec<PeerAddress>>)
    ensures
        match r {
            Some(p) => as_peers(node@.child(key@)) == Some(peer_views(p@)),
            None => as_peers(node@.child(key@)) is None,
        },
{
    let texts = match texts_at(node, key) {
        Some(t) => t,
        None => {
            return None;
        },
    };
    let ghost names = names_of(texts@);
    let ghost all = Seq::new(names.len(), |i: int| peer_of(names[i])->Some_0);
    let mut out: Vec<PeerAddress> = Vec::new();
    let mut i: usize = 0;
    assert(all.take(0) =~= Seq::<(Seq<Hop>, Seq<u8>)>::empty());
    assert(peer_views(out@) =~= Seq::<(Seq<Hop>, Seq<u8>)>::empty());
    while i < texts.len()
        invariant
            i <= texts.len(),
            names == names_of(texts@),
            all == Seq::new(names.len(), |i: int| peer_of(names[i])->Some_0),
            as_texts(node@.child(key@)) == Some(names),
            forall|k: int| 0 <= k < i ==> peer_of(#[trigger] names[k]) is Some,
            peer_views(out@) == unique(all.take(i as int)),
        decreases texts.len() - i,
    {
        assert(names[i as int] == texts@[i as int]@);
        let peer = match PeerAddress::parse(texts[i].as_str()) {
            Ok(p) => p,
            Err(_) => {
                assert(peer_of(names[i as int]) is None);
                return None;
            },
        };
        assert(peer_of(names[i as int]) == Some(peer.view()));
        let ghost before = peer_views(out@);
        let mut found = false;
        let mut k: usize = 0;
        while k < out.len()
            invariant
                k <= out.len(),
                before == peer_views(out@),
                found <==> exists|m: int| 0 <= m < k && before[m] == peer.view(),
            decreases out.len() - k,
        {
            if out[k].same_as(&peer) {
                assert(before[k as int] == peer.view());
                found = true;
            }
            k += 1;
        }
        proof {
            assert(all.take(i + 1).drop_last() =~= all.take(i as int));
            assert(all.take(i + 1).last() == peer.view());
            if found {
                let m = choose|m: int| 0 <= m < before.len() && before[m] == peer.view();
                assert(before.contains(peer.view()));
            } else {
                assert(!before.contains(peer.view()));
            }
        }
        if !found {
            out.push(peer);
            assert(peer_views(out@) =~= before.push(peer.view()));
        }
        i += 1;
    }
    assert(all.take(texts.len() as int) =~= all);
    Some(out)
}

/// Reads the subscription filter named `key`.
pub fn filter_at(node: &Datum, key: &str) -> (r: Option<SubscriptionFilter>)
    ensures
        match r {
            Some(f) => is_filter(node@.child(key@)) && f.tree() == node@.child(key@)->Some_0,
            None => !is_filter(node@.child(key@)),
        },
{
    match node.get(key) {
        Some(v) => match v {
            Datum::Text(t) => SubscriptionFilter::from_pattern(t.clone()),
            Datum::Array(_) => match texts_of(v) {
                Some(topics) => {
                    proof {
                        let items = v@->Array_0;
                        let listed = text_list(topics@)->Array_0;
                        assert(as_texts(Some(v@)) == Some(names_of(topics@)));
                        assert(as_texts(Some(v@))->Some_0.len() == items.len());
                        assert(names_of(topics@).len() == topics@.len());
                        assert(listed.len() == items.len());
                        assert forall|i: int| 0 <= i < items.len() implies listed[i]
                            == items[i] by {
                            assert(items[i] is Text);
                            assert(names_of(topics@)[i] == items[i]->Text_0);
                            assert(as_texts(Some(v@))->Some_0[i] == items[i]->Text_0);
                        }
                        assert(listed =~= items);
                    }
                    Some(SubscriptionFilter::from_topics(topics))
                },
                None => None,
            },
            _ => None,
        },
        None => None,
    }
}

/// Reads the list of addresses of peers of the consensus engine named
/// `key`.
pub fn engine_addresses_at(node: &Datum, key: &str) -> (r: Option<Vec<String>>)
    ensures
        match r {
            Some(a) => as_engine_addresses(node@.child(key@)) == Some(names_of(a@)),
            None => as_engine_addresses(node@.child(key@)) is None,
        },
{
    let texts = match texts_at(node, key) {
        Some(t) => t,
        None => {
            return None;
        },
    };
    let ghost names = names_of(texts@);
    let mut out: Vec<String> = Vec::new();
    let mut i: usize = 0;
    while i < texts.len()
        invariant
            i <= texts.len(),
            names == names_of(texts@),
            as_texts(node@.child(key@)) == Some(names),
            out@.len() == i,
            forall|k: int|
                0 <= k < i ==> engine_address(#[trigger] names[k]) is Some && engine_address(
                    names[k],
                )->Some_0 == out@[k]@,
        decreases texts.len() - i,
    {
        assert(names[i as int] == texts@[i as int]@);
        match canonical(texts[i].as_str()) {
            Some(a) => {
                out.push(a);
            },
            None => {
                return None;
            },
        }
        i += 1;
    }
    assert(as_engine_addresses(node@.child(key@))->Some_0 =~= names_of(out@));
    Some(out)
}

/// The part named `key`, if it is a table.
pub fn section_at<'a>(node: &'a Datum, key: &str) -> (r: Option<&'a Datum>)
    ensures
        match r {
            Some(v) => section(node@, key@) == Some(v@),
            None => section(node@, key@) is None,
        },
{
    match node.get(key) {
        Some(v) => match v {
            Datum::Table(entries) => {
                proof {
                    crate::value::lemma_view_table(*entries);
                }
                Some(v)
            },
            _ => None,
        },
        None => None,
    }
}

/// The name `key` under `prefix`.
pub fn named(prefix: &str, key: &str) -> (r: String)
    ensures
        r@ == prefix@ + key@,
{
    let mut out = String::new();
    crate::text::append_str(&mut out, prefix);
    crate::text::append_str(&mut out, key);
    assert(out@ =~= prefix@ + key@);
    out
}

} // verus!
