//! What holds of every document that a typed configuration is written out
//! as.

use vstd::prelude::*;
use crate::config::{
    Config, DiscoverPeer, IntentGossiper, Ledger, Matchmaker, RpcServer, Shell, Tendermint,
};
use crate::merge_laws::{distinct_names, lemma_merged_with_itself};
use crate::value::{merged, Node};

verus! {

/// A value that is written on one line: a scalar, or a list of texts.
pub open spec fn plain(node: Node) -> bool {
    match node {
        Node::Boolean(_) => true,
        Node::Integer(_) => true,
        Node::Text(_) => true,
        Node::Array(items) => forall|i: int| 0 <= i < items.len() ==> (#[trigger] items[i]) is Text,
        Node::Table(_) => false,
    }
}

/// A table of plain values only.
pub open spec fn flat(node: Node) -> bool {
    node matches Node::Table(entries) && forall|i: int|
        0 <= i < entries.len() ==> plain((#[trigger] entries[i]).node)
}

/// A plain value can be written out, is not nested, and names nothing
/// twice.
pub proof fn lemma_plain(node: Node)
    requires
        plain(node),
    ensures
        node.ordered(),
        !node.is_nested(),
        distinct_names(node),
{
    match node {
        Node::Array(items) => {
            assert forall|i: int| 0 <= i < items.len() implies (#[trigger] items[i]).ordered() by {
                assert(items[i] is Text);
            }
        },
        _ => {},
    }
}

/// A table of plain values can be written out, and is nested.
pub proof fn lemma_flat(node: Node)
    requires
        flat(node),
    ensures
        node.ordered(),
        node.is_nested(),
{
    let entries = node->Table_0;
    assert forall|i: int| 0 <= i < entries.len() implies (#[trigger] entries[i]).node.ordered()
        && !entries[i].node.is_nested() by {
        lemma_plain(entries[i].node);
    }
}

/// A table of plain values under different names names nothing twice.
pub proof fn lemma_flat_distinct(node: Node)
    requires
        flat(node),
        forall|i: int, j: int|
            0 <= i < j < node->Table_0.len() ==> (#[trigger] node->Table_0[i]).key != (
            #[trigger] node->Table_0[j]).key,
    ensures
        distinct_names(node),
{
    let entries = node->Table_0;
    assert forall|i: int| 0 <= i < entries.len() implies distinct_names(
        (#[trigger] entries[i]).node,
    ) by {
        lemma_plain(entries[i].node);
    }
}

/// The table of the discovery settings is flat and names nothing twice.
pub proof fn lemma_discover(d: DiscoverPeer)
    ensures
        flat(d.tree()),
        distinct_names(d.tree()),
{
    reveal_strlit("max_discovery_peers");
    assert("max_discovery_peers"@.len() == 19);
    reveal_strlit("kademlia");
    assert("kademlia"@.len() == 8);
    reveal_strlit("mdns");
    assert("mdns"@.len() == 4);
    lemma_flat_distinct(d.tree());
}

/// The table of the RPC settings is flat and names nothing twice.
pub proof fn lemma_rpc(r: RpcServer)
    ensures
        flat(r.tree()),
        distinct_names(r.tree()),
{
    assert(r.tree()->Table_0.len() == 1);
    lemma_flat_distinct(r.tree());
}

/// The table of the matchmaker settings is flat and names nothing twice.
pub proof fn lemma_matchmaker(m: Matchmaker)
    ensures
        flat(m.tree()),
        distinct_names(m.tree()),
{
    reveal_strlit("matchmaker_path");
    assert("matchmaker_path"@.len() == 15);
    reveal_strlit("tx_code_path");
    assert("tx_code_path"@.len() == 12);
    lemma_flat_distinct(m.tree());
}

/// The table of the shell settings is flat and names nothing twice.
pub proof fn lemma_shell(s: Shell)
    ensures
        flat(s.tree()),
        distinct_names(s.tree()),
{
    reveal_strlit("base_dir");
    assert("base_dir"@.len() == 8);
    reveal_strlit("ledger_address");
    assert("ledger_address"@.len() == 14);
    reveal_strlit("block_cache_bytes");
    assert("block_cache_bytes"@.len() == 17);
    reveal_strlit("vp_wasm_compilation_cache_bytes");
    assert("vp_wasm_compilation_cache_bytes"@.len() == 31);
    reveal_strlit("tx_wasm_compilation_cache_bytes");
    assert("tx_wasm_compilation_cache_bytes"@.len() == 31);
    reveal_strlit("db_dir");
    assert("db_dir"@.len() == 6);
    reveal_strlit("tendermint_dir");
    assert("tendermint_dir"@.len() == 14);
    assert("ledger_address"@[0] != "tendermint_dir"@[0]);
    assert("vp_wasm_compilation_cache_bytes"@[0] != "tx_wasm_compilation_cache_bytes"@[0]);
    let entries = s.tree()->Table_0;
    assert forall|i: int| 0 <= i < entries.len() implies plain((#[trigger] entries[i]).node) by {}
    lemma_flat_distinct(s.tree());
}

/// The table of the consensus engine's settings is flat and names
/// nothing twice.
pub proof fn lemma_tendermint(t: Tendermint)
    ensures
        flat(t.tree()),
        distinct_names(t.tree()),
{
    reveal_strlit("rpc_address");
    assert("rpc_address"@.len() == 11);
    reveal_strlit("p2p_address");
    assert("p2p_address"@.len() == 11);
    reveal_strlit("p2p_persistent_peers");
    assert("p2p_persistent_peers"@.len() == 20);
    reveal_strlit("p2p_pex");
    assert("p2p_pex"@.len() == 7);
    reveal_strlit("p2p_allow_duplicate_ip");
    assert("p2p_allow_duplicate_ip"@.len() == 22);
    reveal_strlit("p2p_addr_book_strict");
    assert("p2p_addr_book_strict"@.len() == 20);
    reveal_strlit("consensus_timeout_commit");
    assert("consensus_timeout_commit"@.len() == 24);
    reveal_strlit("tendermint_mode");
    assert("tendermint_mode"@.len() == 15);
    reveal_strlit("instrumentation_prometheus");
    assert("instrumentation_prometheus"@.len() == 26);
    reveal_strlit("instrumentation_prometheus_listen_addr");
    assert("instrumentation_prometheus_listen_addr"@.len() == 38);
    reveal_strlit("instrumentation_namespace");
    assert("instrumentation_namespace"@.len() == 25);
    assert("rpc_address"@[0] != "p2p_address"@[0]);
    assert("p2p_persistent_peers"@[4] != "p2p_addr_book_strict"@[4]);
    lemma_flat_distinct(t.tree());
}

/// The table of the ledger settings can be written out and names nothing
/// twice.
pub proof fn lemma_ledger(l: Ledger)
    ensures
        l.tree().ordered(),
        l.tree().is_nested(),
        distinct_names(l.tree()),
{
    reveal_strlit("genesis_time");
    assert("genesis_time"@.len() == 12);
    reveal_strlit("chain_id");
    assert("chain_id"@.len() == 8);
    reveal_strlit("shell");
    assert("shell"@.len() == 5);
    reveal_strlit("tendermint");
    assert("tendermint"@.len() == 10);
    lemma_shell(l.shell);
    lemma_tendermint(l.tendermint);
    lemma_flat(l.shell.tree());
    lemma_flat(l.tendermint.tree());
    let entries = l.tree()->Table_0;
    assert forall|i: int| 0 <= i < entries.len() implies (#[trigger] entries[i]).node.ordered()
        && distinct_names(entries[i].node) by {}
}

/// The table of the gossip settings can be written out and names nothing
/// twice.
pub proof fn lemma_gossiper(g: IntentGossiper)
    ensures
        g.tree().ordered(),
        g.tree().is_nested(),
        distinct_names(g.tree()),
{
    reveal_strlit("address");
    assert("address"@.len() == 7);
    reveal_strlit("topics");
    assert("topics"@.len() == 6);
    reveal_strlit("matchmakers_server_addr");
    assert("matchmakers_server_addr"@.len() == 23);
    reveal_strlit("subscription_filter");
    assert("subscription_filter"@.len() == 19);
    reveal_strlit("seed_peers");
    assert("seed_peers"@.len() == 10);
    reveal_strlit("rpc");
    assert("rpc"@.len() == 3);
    reveal_strlit("discover_peer");
    assert("discover_peer"@.len() == 13);
    let entries = g.tree()->Table_0;
    let nested = g.nested_entries();
    assert(entries.len() == 5 + nested.len());
    assert forall|i: int| 0 <= i < 5 implies plain((#[trigger] entries[i]).node) by {}
    assert forall|i: int| 0 <= i < 5 implies (#[trigger] entries[i]).node.ordered()
        && !entries[i].node.is_nested() && distinct_names(entries[i].node) by {
        lemma_plain(entries[i].node);
    }
    assert forall|i: int| 5 <= i < entries.len() implies (#[trigger] entries[i]).node.ordered()
        && entries[i].node.is_nested() && distinct_names(entries[i].node) by {
        assert(entries[i] == nested[i - 5]);
        if g.rpc is Some {
            lemma_rpc(g.rpc->Some_0);
            lemma_flat(g.rpc->Some_0.tree());
        }
        if g.discover_peer is Some {
            lemma_discover(g.discover_peer->Some_0);
            lemma_flat(g.discover_peer->Some_0.tree());
        }
    }
    assert forall|i: int, j: int| 0 <= i < j < entries.len() implies (#[trigger] entries[i]).key
        != (#[trigger] entries[j]).key by {
        if j >= 5 {
            assert(entries[j] == nested[j - 5]);
        }
        if i >= 5 {
            assert(entries[i] == nested[i - 5]);
        }
    }
}

/// The document of a configuration can always be written out table by
/// table: in none of its tables does a plain value follow a nested one.
pub proof fn lemma_tree_is_ordered(c: Config)
    ensures
        c.tree().ordered(),
{
    lemma_ledger(c.ledger);
    lemma_gossiper(c.intent_gossiper);
    lemma_matchmaker(c.matchmaker);
    lemma_flat(c.matchmaker.tree());
    let entries = c.tree()->Table_0;
    assert forall|i: int| 0 <= i < entries.len() implies (#[trigger] entries[i]).node.ordered()
        by {}
}

/// No table in the document of a configuration names a part twice.
pub proof fn lemma_tree_has_distinct_names(c: Config)
    ensures
        distinct_names(c.tree()),
{
    reveal_strlit("wasm_dir");
    assert("wasm_dir"@.len() == 8);
    reveal_strlit("ledger");
    assert("ledger"@.len() == 6);
    reveal_strlit("intent_gossiper");
    assert("intent_gossiper"@.len() == 15);
    reveal_strlit("matchmaker");
    assert("matchmaker"@.len() == 10);
    lemma_ledger(c.ledger);
    lemma_gossiper(c.intent_gossiper);
    lemma_matchmaker(c.matchmaker);
    let entries = c.tree()->Table_0;
    assert forall|i: int| 0 <= i < entries.len() implies distinct_names(
        (#[trigger] entries[i]).node,
    ) by {}
}

/// The document of a configuration laid over itself is that document:
/// reading back what was just generated changes nothing.
pub proof fn lemma_tree_over_itself(c: Config)
    ensures
        merged(c.tree(), c.tree()) == c.tree(),
{
    lemma_tree_has_distinct_names(c);
    lemma_merged_with_itself(c.tree());
}

} // verus!
