//! A configuration is read back from the document it is written out as.

use vstd::prelude::*;
use crate::config::{
    Config, DiscoverPeer, IntentGossiper, Ledger, Matchmaker, RpcServer, Shell, Tendermint,
};
use crate::engine::engine_address;
use crate::filter::{regex_compiles, SubscriptionFilter};
use crate::leaf::{
    as_engine_addresses, as_peers, as_texts, peer_views, unique,
};
use crate::materialize::text_view;
use crate::merge_laws::distinct_names;
use crate::mode::lemma_token_round_trip;
use crate::ip6_laws::lemma_socket_round_trip;
use crate::peer::{
    multiaddr_hops, multiaddr_parsed, multiaddr_text, peer_of, PeerAddress,
};
use crate::timeout::lemma_timeout_round_trip;
use crate::tree::peer_list;
use crate::tree_laws::{
    lemma_discover, lemma_gossiper, lemma_ledger, lemma_matchmaker, lemma_rpc, lemma_shell,
    lemma_tendermint, lemma_tree_has_distinct_names,
};
use crate::value::{lemma_position_is, names_of, text_list, Node};

verus! {

/// In a table that names nothing twice, the entry at a place is the part
/// of its name.
pub proof fn lemma_child_at(table: Node, i: int)
    requires
        table is Table,
        distinct_names(table),
        0 <= i < table->Table_0.len(),
    ensures
        table.child(table->Table_0[i].key) == Some(table->Table_0[i].node),
{
    let entries = table->Table_0;
    assert forall|k: int| 0 <= k < i implies (#[trigger] entries[k]).key != entries[i].key by {}
    lemma_position_is(entries, entries[i].key, i);
}

/// A table has no part of a name that none of its entries has.
pub proof fn lemma_child_none(table: Node, key: Seq<char>)
    requires
        table is Table,
        forall|k: int| 0 <= k < table->Table_0.len() ==> (#[trigger] table->Table_0[k]).key != key,
    ensures
        table.child(key) is None,
{
    lemma_position_is(table->Table_0, key, table->Table_0.len() as int);
}

/// A list of texts is read as the texts it was made of.
pub proof fn lemma_texts_read_back(items: Seq<String>)
    ensures
        as_texts(Some(text_list(items))) == Some(names_of(items)),
{
    let listed = text_list(items)->Array_0;
    assert forall|i: int| 0 <= i < listed.len() implies (#[trigger] listed[i]) is Text by {}
    assert(as_texts(Some(text_list(items)))->Some_0 =~= names_of(items));
}

/// A list in which nothing occurs twice stays as it is when every item is
/// taken once.
pub proof fn lemma_unique_of_distinct<T>(s: Seq<T>)
    requires
        forall|i: int, j: int| 0 <= i < j < s.len() ==> s[i] != s[j],
    ensures
        unique(s) == s,
    decreases s.len(),
{
    if s.len() > 0 {
        let front = s.drop_last();
        assert forall|i: int, j: int| 0 <= i < j < front.len() implies front[i] != front[j] by {
            assert(front[i] == s[i] && front[j] == s[j]);
        }
        lemma_unique_of_distinct(front);
        if front.contains(s.last()) {
            let k = front.lemma_contains_to_index(s.last());
            assert(s[k] == s[s.len() - 1]);
        }
        assert(front.push(s.last()) =~= s);
    }
}

impl Tendermint {
    /// The settings are read back from their writings: the timeout is one
    /// of whole milliseconds, and the consensus engine's reader reads the
    /// address of every persistent peer back.
    pub open spec fn reads_back(&self) -> bool {
        &&& self.consensus_timeout_commit.whole_millis()
        &&& forall|i: int|
            0 <= i < self.p2p_persistent_peers@.len() ==> engine_address(
                (#[trigger] self.p2p_persistent_peers@[i])@,
            ) == Some(self.p2p_persistent_peers@[i]@)
    }
}

impl IntentGossiper {
    /// The readers of multiaddresses and of regular expressions read the
    /// settings back from their writings: the node's own address, every
    /// seed peer, and the regular expression of the filter where it is
    /// one; and no topic and no seed peer occurs twice.
    pub open spec fn reads_back(&self) -> bool {
        &&& multiaddr_parsed(multiaddr_text(multiaddr_hops(self.address))) == Some(
            multiaddr_hops(self.address),
        )
        &&& forall|i: int|
            0 <= i < self.seed_peers@.len() ==> peer_of((#[trigger] self.seed_peers@[i]).text())
                == Some(self.seed_peers@[i].view())
        &&& (self.subscription_filter matches SubscriptionFilter::RegexFilter(p)
            ==> regex_compiles(p@))
        &&& self.well_formed()
    }
}

impl Config {
    /// Every setting that is read by the reader of another library is
    /// read back from its own writing; the ledger is well-formed; and no
    /// topic and no seed peer occurs twice.
    pub open spec fn reads_back(&self) -> bool {
        &&& self.ledger.well_formed()
        &&& self.ledger.tendermint.reads_back()
        &&& self.intent_gossiper.reads_back()
    }
}

/// The discovery settings are read back from their table.
pub proof fn lemma_discover_is_read_back(d: DiscoverPeer, prefix: Seq<char>)
    ensures
        DiscoverPeer::failure(d.tree(), prefix) is None,
        d.reads(d.tree()),
{
    lemma_discover(d);
    lemma_child_at(d.tree(), 0);
    lemma_child_at(d.tree(), 1);
    lemma_child_at(d.tree(), 2);
}

/// The RPC settings are read back from their table.
pub proof fn lemma_rpc_is_read_back(r: RpcServer, prefix: Seq<char>)
    ensures
        RpcServer::failure(r.tree(), prefix) is None,
        r.reads(r.tree()),
{
    lemma_rpc(r);
    lemma_child_at(r.tree(), 0);
    lemma_socket_round_trip(r.address);
}

/// The matchmaker settings are read back from their table.
pub proof fn lemma_matchmaker_is_read_back(m: Matchmaker, prefix: Seq<char>)
    ensures
        Matchmaker::failure(m.tree(), prefix) is None,
        m.reads(m.tree()),
{
    lemma_matchmaker(m);
    let table = m.tree();
    let entries = table->Table_0;
    reveal_strlit("matchmaker_path");
    reveal_strlit("tx_code_path");
    assert("matchmaker_path"@.len() == 15);
    assert("tx_code_path"@.len() == 12);
    match m.matchmaker_path {
        Some(_) => {
            lemma_child_at(table, 0);
        },
        None => {
            lemma_child_none(table, "matchmaker_path"@);
        },
    }
    match m.tx_code_path {
        Some(_) => {
            lemma_child_at(table, entries.len() - 1);
        },
        None => {
            lemma_child_none(table, "tx_code_path"@);
        },
    }
}

/// The shell settings are read back from their table.
pub proof fn lemma_shell_is_read_back(s: Shell, prefix: Seq<char>)
    ensures
        Shell::failure(s.tree(), prefix) is None,
        s.reads(s.tree()),
{
    lemma_shell(s);
    lemma_socket_round_trip(s@.ledger_address);
    let table = s.tree();
    let entries = table->Table_0;
    reveal_strlit("base_dir");
    reveal_strlit("ledger_address");
    reveal_strlit("block_cache_bytes");
    reveal_strlit("vp_wasm_compilation_cache_bytes");
    reveal_strlit("tx_wasm_compilation_cache_bytes");
    reveal_strlit("db_dir");
    reveal_strlit("tendermint_dir");
    assert("base_dir"@.len() == 8);
    assert("ledger_address"@.len() == 14);
    assert("block_cache_bytes"@.len() == 17);
    assert("vp_wasm_compilation_cache_bytes"@.len() == 31);
    assert("tx_wasm_compilation_cache_bytes"@.len() == 31);
    assert("db_dir"@.len() == 6);
    assert("tendermint_dir"@.len() == 14);
    assert("ledger_address"@[0] != "tendermint_dir"@[0]);
    assert("vp_wasm_compilation_cache_bytes"@[0] != "tx_wasm_compilation_cache_bytes"@[0]);
    let b: int = if s@.block_cache_bytes is Some { 1 } else { 0 };
    let v: int = if s@.vp_wasm_compilation_cache_bytes is Some { 1 } else { 0 };
    let t: int = if s@.tx_wasm_compilation_cache_bytes is Some { 1 } else { 0 };
    assert(entries.len() == 4 + b + v + t);
    lemma_child_at(table, 0);
    lemma_child_at(table, 1);
    lemma_child_at(table, 2 + b + v + t);
    lemma_child_at(table, 3 + b + v + t);
    if s@.block_cache_bytes is Some {
        lemma_child_at(table, 2);
    } else {
        lemma_child_none(table, "block_cache_bytes"@);
    }
    if s@.vp_wasm_compilation_cache_bytes is Some {
        lemma_child_at(table, 2 + b);
    } else {
        lemma_child_none(table, "vp_wasm_compilation_cache_bytes"@);
    }
    if s@.tx_wasm_compilation_cache_bytes is Some {
        lemma_child_at(table, 2 + b + v);
    } else {
        lemma_child_none(table, "tx_wasm_compilation_cache_bytes"@);
    }
}

/// The consensus engine's settings are read back from their table, where
/// the engine's readers read them back.
pub proof fn lemma_tendermint_is_read_back(t: Tendermint, prefix: Seq<char>)
    requires
        t.reads_back(),
    ensures
        Tendermint::failure(t.tree(), prefix) is None,
        t.reads(t.tree()),
{
    lemma_tendermint(t);
    let table = t.tree();
    lemma_child_at(table, 0);
    lemma_child_at(table, 1);
    lemma_child_at(table, 2);
    lemma_child_at(table, 3);
    lemma_child_at(table, 4);
    lemma_child_at(table, 5);
    lemma_child_at(table, 6);
    lemma_child_at(table, 7);
    lemma_child_at(table, 8);
    lemma_child_at(table, 9);
    lemma_child_at(table, 10);
    lemma_socket_round_trip(t.rpc_address);
    lemma_socket_round_trip(t.p2p_address);
    lemma_socket_round_trip(t.instrumentation_prometheus_listen_addr);
    lemma_token_round_trip(t.tendermint_mode);
    lemma_timeout_round_trip(t.consensus_timeout_commit);
    lemma_texts_read_back(t.p2p_persistent_peers@);
    let names = names_of(t.p2p_persistent_peers@);
    assert forall|i: int| 0 <= i < names.len() implies engine_address(#[trigger] names[i]) == Some(
        names[i],
    ) by {
        assert(names[i] == t.p2p_persistent_peers@[i]@);
    }
    assert(as_engine_addresses(Some(text_list(t.p2p_persistent_peers@)))->Some_0 =~= names);
}

/// The ledger settings are read back from their table, where the
/// consensus engine's readers read them back.
pub proof fn lemma_ledger_is_read_back(l: Ledger, prefix: Seq<char>)
    requires
        l.well_formed(),
        l.tendermint.reads_back(),
    ensures
        Ledger::failure(l.tree(), prefix) is None,
        l.reads(l.tree()),
{
    lemma_ledger(l);
    let table = l.tree();
    lemma_child_at(table, 0);
    lemma_child_at(table, 1);
    lemma_child_at(table, 2);
    lemma_child_at(table, 3);
    lemma_shell_is_read_back(l.shell, prefix + "shell."@);
    lemma_tendermint_is_read_back(l.tendermint, prefix + "tendermint."@);
}

/// A list of seed peers is read as the peers it was made of, where the
/// reader of multiaddresses reads every one of them back and none occurs
/// twice.
pub proof fn lemma_peers_read_back(peers: Seq<PeerAddress>)
    requires
        forall|i: int|
            0 <= i < peers.len() ==> peer_of((#[trigger] peers[i]).text()) == Some(peers[i].view()),
        forall|i: int, j: int|
            0 <= i < j < peers.len() ==> (#[trigger] peers[i]).view() != (
            #[trigger] peers[j]).view(),
    ensures
        as_peers(Some(peer_list(peers))) == Some(peer_views(peers)),
{
    let listed = peer_list(peers)->Array_0;
    assert forall|i: int| 0 <= i < listed.len() implies (#[trigger] listed[i]) is Text by {}
    let texts = as_texts(Some(peer_list(peers)))->Some_0;
    assert(texts.len() == peers.len());
    assert forall|i: int| 0 <= i < texts.len() implies peer_of(#[trigger] texts[i]) == Some(
        peers[i].view(),
    ) by {
        assert(texts[i] == listed[i]->Text_0);
        assert(listed[i] == Node::Text(peers[i].text()));
    }
    let all = Seq::new(texts.len(), |i: int| peer_of(texts[i])->Some_0);
    assert(all =~= peer_views(peers));
    assert forall|i: int, j: int| 0 <= i < j < all.len() implies all[i] != all[j] by {
        assert(all[i] == peers[i].view());
        assert(all[j] == peers[j].view());
    }
    lemma_unique_of_distinct(all);
}

/// The gossip settings are read back from their table, where the readers
/// of multiaddresses and of regular expressions read them back.
pub proof fn lemma_gossiper_is_read_back(g: IntentGossiper, prefix: Seq<char>)
    requires
        g.reads_back(),
    ensures
        IntentGossiper::failure(g.tree(), prefix) is None,
        g.reads(g.tree()),
{
    lemma_gossiper(g);
    let table = g.tree();
    let entries = table->Table_0;
    let nested = g.nested_entries();
    reveal_strlit("address");
    reveal_strlit("topics");
    reveal_strlit("matchmakers_server_addr");
    reveal_strlit("subscription_filter");
    reveal_strlit("seed_peers");
    reveal_strlit("rpc");
    reveal_strlit("discover_peer");
    assert("address"@.len() == 7);
    assert("topics"@.len() == 6);
    assert("matchmakers_server_addr"@.len() == 23);
    assert("subscription_filter"@.len() == 19);
    assert("seed_peers"@.len() == 10);
    assert("rpc"@.len() == 3);
    assert("discover_peer"@.len() == 13);
    assert(entries.len() == 5 + nested.len());
    lemma_child_at(table, 0);
    lemma_child_at(table, 1);
    lemma_child_at(table, 2);
    lemma_child_at(table, 3);
    lemma_child_at(table, 4);
    lemma_socket_round_trip(g.matchmakers_server_addr);
    lemma_texts_read_back(g.topics@);
    let topics = names_of(g.topics@);
    assert forall|i: int, j: int| 0 <= i < j < topics.len() implies topics[i] != topics[j] by {
        assert(topics[i] == g.topics@[i]@ && topics[j] == g.topics@[j]@);
    }
    lemma_unique_of_distinct(topics);
    lemma_peers_read_back(g.seed_peers@);
    match g.subscription_filter {
        SubscriptionFilter::RegexFilter(p) => {},
        SubscriptionFilter::WhitelistFilter(t) => {
            lemma_texts_read_back(t@);
        },
    }
    match g.rpc {
        Some(rpc) => {
            assert(entries[5] == nested[0]);
            lemma_child_at(table, 5);
            lemma_rpc_is_read_back(rpc, prefix + "rpc."@);
        },
        None => {
            assert forall|k: int| 0 <= k < entries.len() implies (#[trigger] entries[k]).key
                != "rpc"@ by {
                if k >= 5 {
                    assert(entries[k] == nested[k - 5]);
                }
            }
            lemma_child_none(table, "rpc"@);
        },
    }
    match g.discover_peer {
        Some(d) => {
            assert(entries[entries.len() - 1] == nested[nested.len() - 1]);
            lemma_child_at(table, entries.len() - 1);
            lemma_discover_is_read_back(d, prefix + "discover_peer."@);
        },
        None => {
            assert forall|k: int| 0 <= k < entries.len() implies (#[trigger] entries[k]).key
                != "discover_peer"@ by {
                if k >= 5 {
                    assert(entries[k] == nested[k - 5]);
                }
            }
            lemma_child_none(table, "discover_peer"@);
        },
    }
}

/// A configuration is read back from the document it is written out as:
/// reading the document fails on no setting, and the configuration is
/// what the document says. This holds of every configuration whose
/// settings the readers of the other libraries read back from their
/// writings, and in which no topic and no seed peer occurs twice.
pub proof fn lemma_document_is_read_back(c: Config)
    requires
        c.reads_back(),
    ensures
        Config::failure(c.tree()) is None,
        c.reads(c.tree()),
{
    lemma_tree_has_distinct_names(c);
    let table = c.tree();
    lemma_child_at(table, 0);
    lemma_child_at(table, 1);
    lemma_child_at(table, 2);
    lemma_child_at(table, 3);
    lemma_ledger_is_read_back(c.ledger, "ledger."@);
    lemma_gossiper_is_read_back(c.intent_gossiper, "intent_gossiper."@);
    lemma_matchmaker_is_read_back(c.matchmaker, "matchmaker."@);
}

impl Config {
    /// Two configurations have the same settings.
    pub open spec fn agrees(&self, other: Config) -> bool {
        let (a, b) = (self.ledger, other.ledger);
        let (g, h) = (self.intent_gossiper, other.intent_gossiper);
        &&& self.wasm_dir@ == other.wasm_dir@
        &&& a.genesis_time@ == b.genesis_time@
        &&& a.chain_id@ == b.chain_id@
        &&& a.shell@ == b.shell@
        &&& a.tendermint.rpc_address == b.tendermint.rpc_address
        &&& a.tendermint.p2p_address == b.tendermint.p2p_address
        &&& names_of(a.tendermint.p2p_persistent_peers@) == names_of(
            b.tendermint.p2p_persistent_peers@,
        )
        &&& a.tendermint.p2p_pex == b.tendermint.p2p_pex
        &&& a.tendermint.p2p_allow_duplicate_ip == b.tendermint.p2p_allow_duplicate_ip
        &&& a.tendermint.p2p_addr_book_strict == b.tendermint.p2p_addr_book_strict
        &&& a.tendermint.consensus_timeout_commit == b.tendermint.consensus_timeout_commit
        &&& a.tendermint.tendermint_mode == b.tendermint.tendermint_mode
        &&& a.tendermint.instrumentation_prometheus == b.tendermint.instrumentation_prometheus
        &&& a.tendermint.instrumentation_prometheus_listen_addr
            == b.tendermint.instrumentation_prometheus_listen_addr
        &&& a.tendermint.instrumentation_namespace@ == b.tendermint.instrumentation_namespace@
        &&& multiaddr_hops(g.address) == multiaddr_hops(h.address)
        &&& names_of(g.topics@) == names_of(h.topics@)
        &&& g.matchmakers_server_addr == h.matchmakers_server_addr
        &&& g.subscription_filter.tree() == h.subscription_filter.tree()
        &&& peer_views(g.seed_peers@) == peer_views(h.seed_peers@)
        &&& g.rpc == h.rpc
        &&& g.discover_peer == h.discover_peer
        &&& text_view(self.matchmaker.matchmaker_path) == text_view(other.matchmaker.matchmaker_path)
        &&& text_view(self.matchmaker.tx_code_path) == text_view(other.matchmaker.tx_code_path)
    }
}

/// A document says one thing only: two configurations that are what the
/// same document says have the same settings.
pub proof fn lemma_reading_is_determined(a: Config, b: Config, doc: Node)
    requires
        a.reads(doc),
        b.reads(doc),
    ensures
        a.agrees(b),
{
}

/// Reading back what was written gives the same settings: a
/// configuration that is what the document of another one says has the
/// settings of that one, where the readers of the other libraries read its
/// settings back from their writings.
pub proof fn lemma_round_trip(written: Config, read: Config)
    requires
        written.reads_back(),
        read.reads(written.tree()),
    ensures
        read.agrees(written),
{
    lemma_document_is_read_back(written);
    lemma_reading_is_determined(read, written, written.tree());
}

} // verus!
