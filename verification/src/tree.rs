//! The typed configuration written out as a document.

use vstd::prelude::*;
use crate::config::{
    Config, DiscoverPeer, IntentGossiper, Ledger, Matchmaker, RpcServer, Shell, Tendermint,
};
use crate::filter::SubscriptionFilter;
use crate::peer::{encoded, multiaddr_hops, multiaddr_text, multiaddr_to_text, PeerAddress};
use crate::value::{
    entries_of, lemma_view_array, lemma_view_table, nodes_of, push_entry, text_list, Field, Node,
    Datum,
};

verus! {

/// The entry `key = node`.
pub open spec fn entry(key: Seq<char>, node: Node) -> Field {
    Field { key, node }
}

/// The entry `key = node` where there is a node, no entry otherwise.
pub open spec fn optional(key: Seq<char>, node: Option<Node>) -> Seq<Field> {
    match node {
        Some(n) => seq![Field { key, node: n }],
        None => Seq::empty(),
    }
}

/// A count as a value.
pub open spec fn count(n: Option<u64>) -> Option<Node> {
    match n {
        Some(n) => Some(Node::Integer(n as int)),
        None => None,
    }
}

/// A text as a value, where there is one.
pub open spec fn text_of(s: Option<String>) -> Option<Node> {
    match s {
        Some(s) => Some(Node::Text(s@)),
        None => None,
    }
}

/// The list of the writings of `peers`.
pub open spec fn peer_list(peers: Seq<PeerAddress>) -> Node {
    Node::Array(Seq::new(peers.len(), |i: int| Node::Text(peers[i].text())))
}

fn push_optional(entries: &mut Vec<(String, Datum)>, key: &str, value: Option<Datum>)
    ensures
        entries_of(final(entries)@) == entries_of(old(entries)@) + optional(
            key@,
            match value {
                Some(v) => Some(v@),
                None => None,
            },
        ),
{
    match value {
        Some(v) => {
            push_entry(entries, key, v);
            assert(entries_of(entries@) =~= entries_of(old(entries)@) + seq![
                Field { key: key@, node: v@ },
            ]);
        },
        None => {
            assert(entries_of(entries@) =~= entries_of(old(entries)@) + Seq::<Field>::empty());
        },
    }
}

fn table(entries: Vec<(String, Datum)>) -> (r: Datum)
    ensures
        r@ == Node::Table(entries_of(entries@)),
{
    proof {
        lemma_view_table(entries);
    }
    Datum::Table(entries)
}

fn count_value(n: Option<u64>) -> (r: Option<Datum>)
    ensures
        match r {
            Some(v) => count(n) == Some(v@),
            None => count(n) is None,
        },
{
    match n {
        Some(n) => Some(Datum::Integer(n as i128)),
        None => None,
    }
}

fn optional_text(s: &Option<String>) -> (r: Option<Datum>)
    ensures
        match r {
            Some(v) => text_of(*s) == Some(v@),
            None => text_of(*s) is None,
        },
{
    match s {
        Some(s) => Some(Datum::Text(s.clone())),
        None => None,
    }
}

impl PeerAddress {
    /// The text of the single multiaddress that stands for this peer.
    pub open spec fn text(&self) -> Seq<char> {
        multiaddr_text(encoded(self.view().0, self.view().1))
    }
}

impl DiscoverPeer {
    /// The discovery settings as a table.
    pub open spec fn tree(&self) -> Node {
        Node::Table(
            seq![
                entry("max_discovery_peers"@, Node::Integer(self.max_discovery_peers as int)),
                entry("kademlia"@, Node::Boolean(self.kademlia)),
                entry("mdns"@, Node::Boolean(self.mdns)),
            ],
        )
    }

    /// Writes the discovery settings out as a table.
    pub fn to_tree(&self) -> (r: Datum)
        ensures
            r@ == self.tree(),
    {
        let mut entries: Vec<(String, Datum)> = Vec::new();
        push_entry(
            &mut entries,
            "max_discovery_peers",
            Datum::Integer(self.max_discovery_peers as i128),
        );
        push_entry(&mut entries, "kademlia", Datum::Boolean(self.kademlia));
        push_entry(&mut entries, "mdns", Datum::Boolean(self.mdns));
        assert(entries_of(entries@) =~= self.tree()->Table_0);
        table(entries)
    }
}

impl RpcServer {
    /// The RPC settings as a table.
    pub open spec fn tree(&self) -> Node {
        Node::Table(seq![entry("address"@, Node::Text(self.address.text()))])
    }

    /// Writes the RPC settings out as a table.
    pub fn to_tree(&self) -> (r: Datum)
        ensures
            r@ == self.tree(),
    {
        let mut entries: Vec<(String, Datum)> = Vec::new();
        push_entry(&mut entries, "address", Datum::Text(self.address.to_text()));
        assert(entries_of(entries@) =~= self.tree()->Table_0);
        table(entries)
    }
}

impl Matchmaker {
    /// The matchmaker settings as a table: a path that is not set has no
    /// entry.
    pub open spec fn tree(&self) -> Node {
        Node::Table(
            optional("matchmaker_path"@, text_of(self.matchmaker_path)) + optional(
                "tx_code_path"@,
                text_of(self.tx_code_path),
            ),
        )
    }

    /// Writes the matchmaker settings out as a table.
    pub fn to_tree(&self) -> (r: Datum)
        ensures
            r@ == self.tree(),
    {
        let mut entries: Vec<(String, Datum)> = Vec::new();
        assert(entries_of(entries@) =~= Seq::<Field>::empty());
        push_optional(&mut entries, "matchmaker_path", optional_text(&self.matchmaker_path));
        push_optional(&mut entries, "tx_code_path", optional_text(&self.tx_code_path));
        assert(entries_of(entries@) =~= self.tree()->Table_0);
        table(entries)
    }
}

impl SubscriptionFilter {
    /// The filter as a value: a regular expression is a text, a list of
    /// topics is a list of texts.
    pub open spec fn tree(&self) -> Node {
        match self {
            SubscriptionFilter::RegexFilter(p) => Node::Text(p@),
            SubscriptionFilter::WhitelistFilter(t) => text_list(t@),
        }
    }

    /// Writes the filter out as a value.
    pub fn to_tree(&self) -> (r: Datum)
        ensures
            r@ == self.tree(),
    {
        match self {
            SubscriptionFilter::RegexFilter(p) => Datum::Text(p.clone()),
            SubscriptionFilter::WhitelistFilter(t) => Datum::texts(t),
        }
    }
}

impl Shell {
    /// The shell settings as a table: a cache size that is not set has no
    /// entry.
    pub open spec fn tree(&self) -> Node {
        Node::Table(
            seq![
                entry("base_dir"@, Node::Text(self@.base_dir)),
                entry("ledger_address"@, Node::Text(self@.ledger_address.text())),
            ] + optional("block_cache_bytes"@, count(self@.block_cache_bytes)) + optional(
                "vp_wasm_compilation_cache_bytes"@,
                count(self@.vp_wasm_compilation_cache_bytes),
            ) + optional(
                "tx_wasm_compilation_cache_bytes"@,
                count(self@.tx_wasm_compilation_cache_bytes),
            ) + seq![
                entry("db_dir"@, Node::Text(self@.db_dir)),
                entry("tendermint_dir"@, Node::Text(self@.tendermint_dir)),
            ],
        )
    }

    /// Writes the shell settings out as a table.
    pub fn to_tree(&self) -> (r: Datum)
        ensures
            r@ == self.tree(),
    {
        let mut entries: Vec<(String, Datum)> = Vec::new();
        let (block, vp, tx) = self.cache_sizes();
        push_entry(&mut entries, "base_dir", Datum::text(self.base_dir_text()));
        push_entry(&mut entries, "ledger_address", Datum::Text(self.address().to_text()));
        assert(entries_of(entries@) =~= seq![
            entry("base_dir"@, Node::Text(self@.base_dir)),
            entry("ledger_address"@, Node::Text(self@.ledger_address.text())),
        ]);
        push_optional(&mut entries, "block_cache_bytes", count_value(block));
        push_optional(
            &mut entries,
            "vp_wasm_compilation_cache_bytes",
            count_value(vp),
        );
        push_optional(
            &mut entries,
            "tx_wasm_compilation_cache_bytes",
            count_value(tx),
        );
        let ghost before = entries_of(entries@);
        push_entry(&mut entries, "db_dir", Datum::text(self.db_dir_name()));
        push_entry(&mut entries, "tendermint_dir", Datum::text(self.tendermint_dir_name()));
        assert(entries_of(entries@) =~= before + seq![
            entry("db_dir"@, Node::Text(self@.db_dir)),
            entry("tendermint_dir"@, Node::Text(self@.tendermint_dir)),
        ]);
        table(entries)
    }
}

impl Tendermint {
    /// The consensus engine's settings as a table.
    pub open spec fn tree(&self) -> Node {
        Node::Table(
            seq![
                entry("rpc_address"@, Node::Text(self.rpc_address.text())),
                entry("p2p_address"@, Node::Text(self.p2p_address.text())),
                entry("p2p_persistent_peers"@, text_list(self.p2p_persistent_peers@)),
                entry("p2p_pex"@, Node::Boolean(self.p2p_pex)),
                entry("p2p_allow_duplicate_ip"@, Node::Boolean(self.p2p_allow_duplicate_ip)),
                entry("p2p_addr_book_strict"@, Node::Boolean(self.p2p_addr_book_strict)),
                entry("consensus_timeout_commit"@, Node::Text(self.consensus_timeout_commit.text())),
                entry("tendermint_mode"@, Node::Text(self.tendermint_mode.token())),
                entry("instrumentation_prometheus"@, Node::Boolean(self.instrumentation_prometheus)),
                entry(
                    "instrumentation_prometheus_listen_addr"@,
                    Node::Text(self.instrumentation_prometheus_listen_addr.text()),
                ),
                entry("instrumentation_namespace"@, Node::Text(self.instrumentation_namespace@)),
            ],
        )
    }

    /// Writes the consensus engine's settings out as a table.
    pub fn to_tree(&self) -> (r: Datum)
        ensures
            r@ == self.tree(),
    {
        let mut entries: Vec<(String, Datum)> = Vec::new();
        push_entry(&mut entries, "rpc_address", Datum::Text(self.rpc_address.to_text()));
        push_entry(&mut entries, "p2p_address", Datum::Text(self.p2p_address.to_text()));
        push_entry(&mut entries, "p2p_persistent_peers", Datum::texts(&self.p2p_persistent_peers));
        push_entry(&mut entries, "p2p_pex", Datum::Boolean(self.p2p_pex));
        push_entry(&mut entries, "p2p_allow_duplicate_ip", Datum::Boolean(self.p2p_allow_duplicate_ip));
        push_entry(&mut entries, "p2p_addr_book_strict", Datum::Boolean(self.p2p_addr_book_strict));
        push_entry(
            &mut entries,
            "consensus_timeout_commit",
            Datum::Text(self.consensus_timeout_commit.to_text()),
        );
        push_entry(&mut entries, "tendermint_mode", Datum::text(self.tendermint_mode.to_str()));
        push_entry(
            &mut entries,
            "instrumentation_prometheus",
            Datum::Boolean(self.instrumentation_prometheus),
        );
        push_entry(
            &mut entries,
            "instrumentation_prometheus_listen_addr",
            Datum::Text(self.instrumentation_prometheus_listen_addr.to_text()),
        );
        push_entry(
            &mut entries,
            "instrumentation_namespace",
            Datum::Text(self.instrumentation_namespace.clone()),
        );
        assert(entries_of(entries@) =~= self.tree()->Table_0);
        table(entries)
    }
}

impl Ledger {
    /// The ledger settings as a table.
    pub open spec fn tree(&self) -> Node {
        Node::Table(
            seq![
                entry("genesis_time"@, Node::Text(self.genesis_time@)),
                entry("chain_id"@, Node::Text(self.chain_id@)),
                entry("shell"@, self.shell.tree()),
                entry("tendermint"@, self.tendermint.tree()),
            ],
        )
    }

    /// Writes the ledger settings out as a table.
    pub fn to_tree(&self) -> (r: Datum)
        ensures
            r@ == self.tree(),
    {
        let mut entries: Vec<(String, Datum)> = Vec::new();
        push_entry(&mut entries, "genesis_time", Datum::Text(self.genesis_time.clone()));
        push_entry(&mut entries, "chain_id", Datum::Text(self.chain_id.clone()));
        push_entry(&mut entries, "shell", self.shell.to_tree());
        push_entry(&mut entries, "tendermint", self.tendermint.to_tree());
        assert(entries_of(entries@) =~= self.tree()->Table_0);
        table(entries)
    }
}

fn peers_value(peers: &Vec<PeerAddress>) -> (r: Datum)
    ensures
        r@ == peer_list(peers@),
{
    let mut out: Vec<Datum> = Vec::new();
    let mut i: usize = 0;
    while i < peers.len()
        invariant
            i <= peers.len(),
            out@.len() == i,
            forall|k: int| 0 <= k < i ==> (#[trigger] out@[k])@ == Node::Text(peers@[k].text()),
        decreases peers.len() - i,
    {
        out.push(Datum::Text(peers[i].to_text()));
        i += 1;
    }
    proof {
        lemma_view_array(out);
        assert(nodes_of(out@) =~= peer_list(peers@)->Array_0);
    }
    Datum::Array(out)
}

impl IntentGossiper {
    /// What comes after the plain values in the table of the gossip
    /// settings: the RPC server and the discovery settings, where set.
    pub open spec fn nested_entries(&self) -> Seq<Field> {
        optional(
            "rpc"@,
            match self.rpc {
                Some(rpc) => Some(rpc.tree()),
                None => None,
            },
        ) + optional(
            "discover_peer"@,
            match self.discover_peer {
                Some(d) => Some(d.tree()),
                None => None,
            },
        )
    }

    /// The gossip settings as a table.
    pub open spec fn tree(&self) -> Node {
        Node::Table(
            seq![
                entry("address"@, Node::Text(multiaddr_text(multiaddr_hops(self.address)))),
                entry("topics"@, text_list(self.topics@)),
                entry("matchmakers_server_addr"@, Node::Text(self.matchmakers_server_addr.text())),
                entry("subscription_filter"@, self.subscription_filter.tree()),
                entry("seed_peers"@, peer_list(self.seed_peers@)),
            ] + self.nested_entries(),
        )
    }

    /// Writes the gossip settings out as a table.
    pub fn to_tree(&self) -> (r: Datum)
        ensures
            r@ == self.tree(),
    {
        let mut entries: Vec<(String, Datum)> = Vec::new();
        push_entry(&mut entries, "address", Datum::Text(multiaddr_to_text(&self.address)));
        push_entry(&mut entries, "topics", Datum::texts(&self.topics));
        push_entry(
            &mut entries,
            "matchmakers_server_addr",
            Datum::Text(self.matchmakers_server_addr.to_text()),
        );
        push_entry(&mut entries, "subscription_filter", self.subscription_filter.to_tree());
        push_entry(&mut entries, "seed_peers", peers_value(&self.seed_peers));
        let ghost plain = entries_of(entries@);
        assert(plain =~= seq![
            entry("address"@, Node::Text(multiaddr_text(multiaddr_hops(self.address)))),
            entry("topics"@, text_list(self.topics@)),
            entry("matchmakers_server_addr"@, Node::Text(self.matchmakers_server_addr.text())),
            entry("subscription_filter"@, self.subscription_filter.tree()),
            entry("seed_peers"@, peer_list(self.seed_peers@)),
        ]);
        let rpc = match &self.rpc {
            Some(rpc) => Some(rpc.to_tree()),
            None => None,
        };
        push_optional(&mut entries, "rpc", rpc);
        let discover = match &self.discover_peer {
            Some(d) => Some(d.to_tree()),
            None => None,
        };
        push_optional(&mut entries, "discover_peer", discover);
        assert(entries_of(entries@) =~= plain + self.nested_entries());
        table(entries)
    }
}

impl Config {
    /// The whole configuration as a document.
    pub open spec fn tree(&self) -> Node {
        Node::Table(
            seq![
                entry("wasm_dir"@, Node::Text(self.wasm_dir@)),
                entry("ledger"@, self.ledger.tree()),
                entry("intent_gossiper"@, self.intent_gossiper.tree()),
                entry("matchmaker"@, self.matchmaker.tree()),
            ],
        )
    }

    /// Writes the whole configuration out as a document.
    pub fn to_tree(&self) -> (r: Datum)
        ensures
            r@ == self.tree(),
    {
        let mut entries: Vec<(String, Datum)> = Vec::new();
        push_entry(&mut entries, "wasm_dir", Datum::Text(self.wasm_dir.clone()));
        push_entry(&mut entries, "ledger", self.ledger.to_tree());
        push_entry(&mut entries, "intent_gossiper", self.intent_gossiper.to_tree());
        push_entry(&mut entries, "matchmaker", self.matchmaker.to_tree());
        assert(entries_of(entries@) =~= self.tree()->Table_0);
        table(entries)
    }
}

} // verus!
