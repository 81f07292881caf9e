//! The typed configuration read out of a document.

use vstd::prelude::*;
use crate::config::{
    Config, DiscoverPeer, IntentGossiper, Ledger, Matchmaker, RpcServer, Shell, Tendermint,
};
use crate::error::Error;
use crate::leaf::{
    as_count, as_engine_addresses, as_flag, as_mode, as_multiaddr, as_name, as_peers,
    as_socket, as_text, as_time, name_at, time_at,
    as_texts, as_timeout, count_at, engine_addresses_at, filter_at, flag_at, is_filter,
    lemma_unique, mode_at, multiaddr_at, named, optional_count_at, optional_text_at,
    peer_views, peers_at, section,
    section_at, socket_at, text_at, texts_at, timeout_at, unique, unique_texts, when_present,
};
use crate::peer::{multiaddr_hops, peer_of};
use crate::value::{names_of, Node, Datum};

verus! {

/// The text of an optional string.
pub open spec fn text_view(s: Option<String>) -> Option<Seq<char>> {
    match s {
        Some(s) => Some(s@),
        None => None,
    }
}

impl DiscoverPeer {
    /// The name of the first setting that a table fails to give, each name
    /// written after `prefix`; nothing where the table gives them all.
    pub open spec fn failure(node: Node, prefix: Seq<char>) -> Option<Seq<char>> {
        if as_count(node.child("max_discovery_peers"@)) is None {
            Some(prefix + "max_discovery_peers"@)
        } else if as_flag(node.child("kademlia"@)) is None {
            Some(prefix + "kademlia"@)
        } else if as_flag(node.child("mdns"@)) is None {
            Some(prefix + "mdns"@)
        } else {
            None
        }
    }

    /// These settings are what the table says.
    pub open spec fn reads(&self, node: Node) -> bool {
        &&& as_count(node.child("max_discovery_peers"@)) == Some(self.max_discovery_peers)
        &&& as_flag(node.child("kademlia"@)) == Some(self.kademlia)
        &&& as_flag(node.child("mdns"@)) == Some(self.mdns)
    }

    /// Reads the discovery settings from a table; a setting that is
    /// missing or malformed is named in the error.
    pub fn from_tree(node: &Datum, prefix: &str) -> (r: Result<DiscoverPeer, String>)
        ensures
            match r {
                Ok(d) => DiscoverPeer::failure(node@, prefix@) is None && d.reads(node@),
                Err(name) => DiscoverPeer::failure(node@, prefix@) == Some(name@),
            },
    {
        let max_discovery_peers = match count_at(node, "max_discovery_peers") {
            Some(n) => n,
            None => {
                return Err(named(prefix, "max_discovery_peers"));
            },
        };
        let kademlia = match flag_at(node, "kademlia") {
            Some(b) => b,
            None => {
                return Err(named(prefix, "kademlia"));
            },
        };
        let mdns = match flag_at(node, "mdns") {
            Some(b) => b,
            None => {
                return Err(named(prefix, "mdns"));
            },
        };
        Ok(DiscoverPeer { max_discovery_peers, kademlia, mdns })
    }
}

impl RpcServer {
    /// The name of the first setting that a table fails to give.
    pub open spec fn failure(node: Node, prefix: Seq<char>) -> Option<Seq<char>> {
        if as_socket(node.child("address"@)) is None {
            Some(prefix + "address"@)
        } else {
            None
        }
    }

    /// These settings are what the table says.
    pub open spec fn reads(&self, node: Node) -> bool {
        as_socket(node.child("address"@)) == Some(self.address)
    }

    /// Reads the RPC settings from a table.
    pub fn from_tree(node: &Datum, prefix: &str) -> (r: Result<RpcServer, String>)
        ensures
            match r {
                Ok(s) => RpcServer::failure(node@, prefix@) is None && s.reads(node@),
                Err(name) => RpcServer::failure(node@, prefix@) == Some(name@),
            },
    {
        match socket_at(node, "address") {
            Some(address) => Ok(RpcServer { address }),
            None => Err(named(prefix, "address")),
        }
    }
}

impl Matchmaker {
    /// The name of the first setting that a table gives in a wrong form.
    pub open spec fn failure(node: Node, prefix: Seq<char>) -> Option<Seq<char>> {
        if when_present(node.child("matchmaker_path"@), as_text(node.child("matchmaker_path"@)))
            is None {
            Some(prefix + "matchmaker_path"@)
        } else if when_present(node.child("tx_code_path"@), as_text(node.child("tx_code_path"@)))
            is None {
            Some(prefix + "tx_code_path"@)
        } else {
            None
        }
    }

    /// These settings are what the table says.
    pub open spec fn reads(&self, node: Node) -> bool {
        &&& when_present(node.child("matchmaker_path"@), as_text(node.child("matchmaker_path"@)))
            == Some(text_view(self.matchmaker_path))
        &&& when_present(node.child("tx_code_path"@), as_text(node.child("tx_code_path"@)))
            == Some(text_view(self.tx_code_path))
    }

    /// Reads the matchmaker settings from a table.
    pub fn from_tree(node: &Datum, prefix: &str) -> (r: Result<Matchmaker, String>)
        ensures
            match r {
                Ok(m) => Matchmaker::failure(node@, prefix@) is None && m.reads(node@),
                Err(name) => Matchmaker::failure(node@, prefix@) == Some(name@),
            },
    {
        let matchmaker_path = match optional_text_at(node, "matchmaker_path") {
            Some(p) => p,
            None => {
                return Err(named(prefix, "matchmaker_path"));
            },
        };
        let tx_code_path = match optional_text_at(node, "tx_code_path") {
            Some(p) => p,
            None => {
                return Err(named(prefix, "tx_code_path"));
            },
        };
        Ok(Matchmaker { matchmaker_path, tx_code_path })
    }
}

impl Shell {
    /// The name of the first setting that a table fails to give.
    pub open spec fn failure(node: Node, prefix: Seq<char>) -> Option<Seq<char>> {
        if as_text(node.child("base_dir"@)) is None {
            Some(prefix + "base_dir"@)
        } else if as_socket(node.child("ledger_address"@)) is None {
            Some(prefix + "ledger_address"@)
        } else if when_present(
            node.child("block_cache_bytes"@),
            as_count(node.child("block_cache_bytes"@)),
        ) is None {
            Some(prefix + "block_cache_bytes"@)
        } else if when_present(
            node.child("vp_wasm_compilation_cache_bytes"@),
            as_count(node.child("vp_wasm_compilation_cache_bytes"@)),
        ) is None {
            Some(prefix + "vp_wasm_compilation_cache_bytes"@)
        } else if when_present(
            node.child("tx_wasm_compilation_cache_bytes"@),
            as_count(node.child("tx_wasm_compilation_cache_bytes"@)),
        ) is None {
            Some(prefix + "tx_wasm_compilation_cache_bytes"@)
        } else if as_text(node.child("db_dir"@)) is None {
            Some(prefix + "db_dir"@)
        } else if as_text(node.child("tendermint_dir"@)) is None {
            Some(prefix + "tendermint_dir"@)
        } else {
            None
        }
    }

    /// These settings are what the table says.
    pub open spec fn reads(&self, node: Node) -> bool {
        &&& as_text(node.child("base_dir"@)) == Some(self@.base_dir)
        &&& as_socket(node.child("ledger_address"@)) == Some(self@.ledger_address)
        &&& when_present(node.child("block_cache_bytes"@), as_count(node.child("block_cache_bytes"@)))
            == Some(self@.block_cache_bytes)
        &&& when_present(
            node.child("vp_wasm_compilation_cache_bytes"@),
            as_count(node.child("vp_wasm_compilation_cache_bytes"@)),
        ) == Some(self@.vp_wasm_compilation_cache_bytes)
        &&& when_present(
            node.child("tx_wasm_compilation_cache_bytes"@),
            as_count(node.child("tx_wasm_compilation_cache_bytes"@)),
        ) == Some(self@.tx_wasm_compilation_cache_bytes)
        &&& as_text(node.child("db_dir"@)) == Some(self@.db_dir)
        &&& as_text(node.child("tendermint_dir"@)) == Some(self@.tendermint_dir)
    }

    /// Reads the shell settings from a table.
    pub fn from_tree(node: &Datum, prefix: &str) -> (r: Result<Shell, String>)
        ensures
            match r {
                Ok(s) => Shell::failure(node@, prefix@) is None && s.reads(node@),
                Err(name) => Shell::failure(node@, prefix@) == Some(name@),
            },
    {
        let base_dir = match text_at(node, "base_dir") {
            Some(t) => t,
            None => {
                return Err(named(prefix, "base_dir"));
            },
        };
        let ledger_address = match socket_at(node, "ledger_address") {
            Some(a) => a,
            None => {
                return Err(named(prefix, "ledger_address"));
            },
        };
        let block_cache_bytes = match optional_count_at(node, "block_cache_bytes") {
            Some(n) => n,
            None => {
                return Err(named(prefix, "block_cache_bytes"));
            },
        };
        let vp_wasm_compilation_cache_bytes = match optional_count_at(
            node,
            "vp_wasm_compilation_cache_bytes",
        ) {
            Some(n) => n,
            None => {
                return Err(named(prefix, "vp_wasm_compilation_cache_bytes"));
            },
        };
        let tx_wasm_compilation_cache_bytes = match optional_count_at(
            node,
            "tx_wasm_compilation_cache_bytes",
        ) {
            Some(n) => n,
            None => {
                return Err(named(prefix, "tx_wasm_compilation_cache_bytes"));
            },
        };
        let db_dir = match text_at(node, "db_dir") {
            Some(t) => t,
            None => {
                return Err(named(prefix, "db_dir"));
            },
        };
        let tendermint_dir = match text_at(node, "tendermint_dir") {
            Some(t) => t,
            None => {
                return Err(named(prefix, "tendermint_dir"));
            },
        };
        Ok(
            Shell::from_parts(
                base_dir,
                ledger_address,
                block_cache_bytes,
                vp_wasm_compilation_cache_bytes,
                tx_wasm_compilation_cache_bytes,
                db_dir,
                tendermint_dir,
            ),
        )
    }
}

impl Tendermint {
    /// The name of the first setting that a table fails to give.
    pub open spec fn failure(node: Node, prefix: Seq<char>) -> Option<Seq<char>> {
        if as_socket(node.child("rpc_address"@)) is None {
            Some(prefix + "rpc_address"@)
        } else if as_socket(node.child("p2p_address"@)) is None {
            Some(prefix + "p2p_address"@)
        } else if as_engine_addresses(node.child("p2p_persistent_peers"@)) is None {
            Some(prefix + "p2p_persistent_peers"@)
        } else if as_flag(node.child("p2p_pex"@)) is None {
            Some(prefix + "p2p_pex"@)
        } else if as_flag(node.child("p2p_allow_duplicate_ip"@)) is None {
            Some(prefix + "p2p_allow_duplicate_ip"@)
        } else if as_flag(node.child("p2p_addr_book_strict"@)) is None {
            Some(prefix + "p2p_addr_book_strict"@)
        } else if as_timeout(node.child("consensus_timeout_commit"@)) is None {
            Some(prefix + "consensus_timeout_commit"@)
        } else if as_mode(node.child("tendermint_mode"@)) is None {
            Some(prefix + "tendermint_mode"@)
        } else if as_flag(node.child("instrumentation_prometheus"@)) is None {
            Some(prefix + "instrumentation_prometheus"@)
        } else if as_socket(node.child("instrumentation_prometheus_listen_addr"@)) is None {
            Some(prefix + "instrumentation_prometheus_listen_addr"@)
        } else if as_text(node.child("instrumentation_namespace"@)) is None {
            Some(prefix + "instrumentation_namespace"@)
        } else {
            None
        }
    }

    /// These settings are what the table says.
    pub open spec fn reads(&self, node: Node) -> bool {
        &&& as_socket(node.child("rpc_address"@)) == Some(self.rpc_address)
        &&& as_socket(node.child("p2p_address"@)) == Some(self.p2p_address)
        &&& as_engine_addresses(node.child("p2p_persistent_peers"@)) == Some(
            names_of(self.p2p_persistent_peers@),
        )
        &&& as_flag(node.child("p2p_pex"@)) == Some(self.p2p_pex)
        &&& as_flag(node.child("p2p_allow_duplicate_ip"@)) == Some(self.p2p_allow_duplicate_ip)
        &&& as_flag(node.child("p2p_addr_book_strict"@)) == Some(self.p2p_addr_book_strict)
        &&& as_timeout(node.child("consensus_timeout_commit"@)) == Some(
            self.consensus_timeout_commit,
        )
        &&& as_mode(node.child("tendermint_mode"@)) == Some(self.tendermint_mode)
        &&& as_flag(node.child("instrumentation_prometheus"@)) == Some(
            self.instrumentation_prometheus,
        )
        &&& as_socket(node.child("instrumentation_prometheus_listen_addr"@)) == Some(
            self.instrumentation_prometheus_listen_addr,
        )
        &&& as_text(node.child("instrumentation_namespace"@)) == Some(
            self.instrumentation_namespace@,
        )
    }

    /// Reads the consensus engine's settings from a table.
    pub fn from_tree(node: &Datum, prefix: &str) -> (r: Result<Tendermint, String>)
        ensures
            match r {
                Ok(t) => Tendermint::failure(node@, prefix@) is None && t.reads(node@),
                Err(name) => Tendermint::failure(node@, prefix@) == Some(name@),
            },
    {
        let rpc_address = match socket_at(node, "rpc_address") {
            Some(a) => a,
            None => {
                return Err(named(prefix, "rpc_address"));
            },
        };
        let p2p_address = match socket_at(node, "p2p_address") {
            Some(a) => a,
            None => {
                return Err(named(prefix, "p2p_address"));
            },
        };
        let p2p_persistent_peers = match engine_addresses_at(node, "p2p_persistent_peers") {
            Some(p) => p,
            None => {
                return Err(named(prefix, "p2p_persistent_peers"));
            },
        };
        let p2p_pex = match flag_at(node, "p2p_pex") {
            Some(b) => b,
            None => {
                return Err(named(prefix, "p2p_pex"));
            },
        };
        let p2p_allow_duplicate_ip = match flag_at(node, "p2p_allow_duplicate_ip") {
            Some(b) => b,
            None => {
                return Err(named(prefix, "p2p_allow_duplicate_ip"));
            },
        };
        let p2p_addr_book_strict = match flag_at(node, "p2p_addr_book_strict") {
            Some(b) => b,
            None => {
                return Err(named(prefix, "p2p_addr_book_strict"));
            },
        };
        let consensus_timeout_commit = match timeout_at(node, "consensus_timeout_commit") {
            Some(t) => t,
            None => {
                return Err(named(prefix, "consensus_timeout_commit"));
            },
        };
        let tendermint_mode = match mode_at(node, "tendermint_mode") {
            Some(m) => m,
            None => {
                return Err(named(prefix, "tendermint_mode"));
            },
        };
        let instrumentation_prometheus = match flag_at(node, "instrumentation_prometheus") {
            Some(b) => b,
            None => {
                return Err(named(prefix, "instrumentation_prometheus"));
            },
        };
        let instrumentation_prometheus_listen_addr = match socket_at(
            node,
            "instrumentation_prometheus_listen_addr",
        ) {
            Some(a) => a,
            None => {
                return Err(named(prefix, "instrumentation_prometheus_listen_addr"));
            },
        };
        let instrumentation_namespace = match text_at(node, "instrumentation_namespace") {
            Some(t) => t,
            None => {
                return Err(named(prefix, "instrumentation_namespace"));
            },
        };
        Ok(
            Tendermint {
                rpc_address,
                p2p_address,
                p2p_persistent_peers,
                p2p_pex,
                p2p_allow_duplicate_ip,
                p2p_addr_book_strict,
                consensus_timeout_commit,
                tendermint_mode,
                instrumentation_prometheus,
                instrumentation_prometheus_listen_addr,
                instrumentation_namespace,
            },
        )
    }
}

impl Ledger {
    /// The name of the first setting that a table fails to give.
    pub open spec fn failure(node: Node, prefix: Seq<char>) -> Option<Seq<char>> {
        if as_time(node.child("genesis_time"@)) is None {
            Some(prefix + "genesis_time"@)
        } else if as_name(node.child("chain_id"@)) is None {
            Some(prefix + "chain_id"@)
        } else if section(node, "shell"@) is None {
            Some(prefix + "shell"@)
        } else if Shell::failure(section(node, "shell"@)->Some_0, prefix + "shell."@) is Some {
            Shell::failure(section(node, "shell"@)->Some_0, prefix + "shell."@)
        } else if section(node, "tendermint"@) is None {
            Some(prefix + "tendermint"@)
        } else {
            Tendermint::failure(section(node, "tendermint"@)->Some_0, prefix + "tendermint."@)
        }
    }

    /// These settings are what the table says.
    pub open spec fn reads(&self, node: Node) -> bool {
        &&& as_time(node.child("genesis_time"@)) == Some(self.genesis_time@)
        &&& as_name(node.child("chain_id"@)) == Some(self.chain_id@)
        &&& section(node, "shell"@) is Some
        &&& self.shell.reads(section(node, "shell"@)->Some_0)
        &&& section(node, "tendermint"@) is Some
        &&& self.tendermint.reads(section(node, "tendermint"@)->Some_0)
    }

    /// Reads the ledger settings from a table. A chain without a name and
    /// a time of genesis that is no point in time are refused.
    pub fn from_tree(node: &Datum, prefix: &str) -> (r: Result<Ledger, String>)
        ensures
            match r {
                Ok(l) => Ledger::failure(node@, prefix@) is None && l.reads(node@)
                    && l.well_formed(),
                Err(name) => Ledger::failure(node@, prefix@) == Some(name@),
            },
    {
        let genesis_time = match time_at(node, "genesis_time") {
            Some(t) => t,
            None => {
                return Err(named(prefix, "genesis_time"));
            },
        };
        let chain_id = match name_at(node, "chain_id") {
            Some(t) => t,
            None => {
                return Err(named(prefix, "chain_id"));
            },
        };
        let shell = match section_at(node, "shell") {
            Some(s) => {
                let inner = named(prefix, "shell.");
                match Shell::from_tree(s, inner.as_str()) {
                    Ok(shell) => shell,
                    Err(name) => {
                        return Err(name);
                    },
                }
            },
            None => {
                return Err(named(prefix, "shell"));
            },
        };
        let tendermint = match section_at(node, "tendermint") {
            Some(t) => {
                let inner = named(prefix, "tendermint.");
                match Tendermint::from_tree(t, inner.as_str()) {
                    Ok(tendermint) => tendermint,
                    Err(name) => {
                        return Err(name);
                    },
                }
            },
            None => {
                return Err(named(prefix, "tendermint"));
            },
        };
        Ok(Ledger { genesis_time, chain_id, shell, tendermint })
    }
}

impl IntentGossiper {
    /// The name of the first nested setting that a table gives in a wrong
    /// form: the RPC server and the discovery settings may be left out.
    pub open spec fn nested_failure(node: Node, prefix: Seq<char>) -> Option<Seq<char>> {
        if node.child("rpc"@) is Some && section(node, "rpc"@) is None {
            Some(prefix + "rpc"@)
        } else if node.child("rpc"@) is Some && RpcServer::failure(
            section(node, "rpc"@)->Some_0,
            prefix + "rpc."@,
        ) is Some {
            RpcServer::failure(section(node, "rpc"@)->Some_0, prefix + "rpc."@)
        } else if node.child("discover_peer"@) is Some && section(node, "discover_peer"@) is None {
            Some(prefix + "discover_peer"@)
        } else if node.child("discover_peer"@) is Some {
            DiscoverPeer::failure(section(node, "discover_peer"@)->Some_0, prefix + "discover_peer."@)
        } else {
            None
        }
    }

    /// The name of the first setting that a table fails to give.
    pub open spec fn failure(node: Node, prefix: Seq<char>) -> Option<Seq<char>> {
        if as_multiaddr(node.child("address"@)) is None {
            Some(prefix + "address"@)
        } else if as_texts(node.child("topics"@)) is None {
            Some(prefix + "topics"@)
        } else if as_socket(node.child("matchmakers_server_addr"@)) is None {
            Some(prefix + "matchmakers_server_addr"@)
        } else if !is_filter(node.child("subscription_filter"@)) {
            Some(prefix + "subscription_filter"@)
        } else if as_peers(node.child("seed_peers"@)) is None {
            Some(prefix + "seed_peers"@)
        } else {
            IntentGossiper::nested_failure(node, prefix)
        }
    }

    /// These settings are what the table says: topics and seed peers are
    /// taken once each.
    pub open spec fn reads(&self, node: Node) -> bool {
        &&& as_multiaddr(node.child("address"@)) == Some(multiaddr_hops(self.address))
        &&& as_texts(node.child("topics"@)) is Some
        &&& names_of(self.topics@) == unique(as_texts(node.child("topics"@))->Some_0)
        &&& as_socket(node.child("matchmakers_server_addr"@)) == Some(self.matchmakers_server_addr)
        &&& node.child("subscription_filter"@) == Some(self.subscription_filter.tree())
        &&& as_peers(node.child("seed_peers"@)) == Some(peer_views(self.seed_peers@))
        &&& match self.rpc {
            Some(rpc) => section(node, "rpc"@) is Some && rpc.reads(section(node, "rpc"@)->Some_0),
            None => node.child("rpc"@) is None,
        }
        &&& match self.discover_peer {
            Some(d) => section(node, "discover_peer"@) is Some && d.reads(
                section(node, "discover_peer"@)->Some_0,
            ),
            None => node.child("discover_peer"@) is None,
        }
    }

    /// Reads the gossip settings from a table.
    pub fn from_tree(node: &Datum, prefix: &str) -> (r: Result<IntentGossiper, String>)
        ensures
            match r {
                Ok(g) => IntentGossiper::failure(node@, prefix@) is None && g.reads(node@)
                    && g.well_formed(),
                Err(name) => IntentGossiper::failure(node@, prefix@) == Some(name@),
            },
    {
        let address = match multiaddr_at(node, "address") {
            Some(a) => a,
            None => {
                return Err(named(prefix, "address"));
            },
        };
        let topics = match texts_at(node, "topics") {
            Some(t) => unique_texts(t),
            None => {
                return Err(named(prefix, "topics"));
            },
        };
        let matchmakers_server_addr = match socket_at(node, "matchmakers_server_addr") {
            Some(a) => a,
            None => {
                return Err(named(prefix, "matchmakers_server_addr"));
            },
        };
        let subscription_filter = match filter_at(node, "subscription_filter") {
            Some(f) => f,
            None => {
                return Err(named(prefix, "subscription_filter"));
            },
        };
        let seed_peers = match peers_at(node, "seed_peers") {
            Some(p) => p,
            None => {
                return Err(named(prefix, "seed_peers"));
            },
        };
        let rpc = match node.get("rpc") {
            Some(_) => match section_at(node, "rpc") {
                Some(s) => {
                    let inner = named(prefix, "rpc.");
                    match RpcServer::from_tree(s, inner.as_str()) {
                        Ok(rpc) => Some(rpc),
                        Err(name) => {
                            return Err(name);
                        },
                    }
                },
                None => {
                    return Err(named(prefix, "rpc"));
                },
            },
            None => None,
        };
        let discover_peer = match node.get("discover_peer") {
            Some(_) => match section_at(node, "discover_peer") {
                Some(s) => {
                    let inner = named(prefix, "discover_peer.");
                    match DiscoverPeer::from_tree(s, inner.as_str()) {
                        Ok(d) => Some(d),
                        Err(name) => {
                            return Err(name);
                        },
                    }
                },
                None => {
                    return Err(named(prefix, "discover_peer"));
                },
            },
            None => None,
        };
        proof {
            lemma_unique(as_texts(node@.child("topics"@))->Some_0);
            let listed = as_texts(node@.child("seed_peers"@))->Some_0;
            lemma_unique(Seq::new(listed.len(), |i: int| peer_of(listed[i])->Some_0));
            assert forall|i: int, j: int| 0 <= i < j < topics@.len() implies (
            #[trigger] topics@[i])@ != (#[trigger] topics@[j])@ by {
                assert(names_of(topics@)[i] == topics@[i]@);
                assert(names_of(topics@)[j] == topics@[j]@);
            }
            assert forall|i: int, j: int| 0 <= i < j < seed_peers@.len() implies (
            #[trigger] seed_peers@[i]).view() != (#[trigger] seed_peers@[j]).view() by {
                assert(peer_views(seed_peers@)[i] == seed_peers@[i].view());
                assert(peer_views(seed_peers@)[j] == seed_peers@[j].view());
            }
        }
        Ok(
            IntentGossiper {
                address,
                topics,
                matchmakers_server_addr,
                subscription_filter,
                seed_peers,
                rpc,
                discover_peer,
            },
        )
    }
}

impl Config {
    /// The name of the first setting that a document fails to give, with
    /// the names of the tables it lies in before it and dots between them;
    /// nothing where the document gives every setting.
    pub open spec fn failure(node: Node) -> Option<Seq<char>> {
        if as_text(node.child("wasm_dir"@)) is None {
            Some("wasm_dir"@)
        } else if section(node, "ledger"@) is None {
            Some("ledger"@)
        } else if Ledger::failure(section(node, "ledger"@)->Some_0, "ledger."@) is Some {
            Ledger::failure(section(node, "ledger"@)->Some_0, "ledger."@)
        } else if section(node, "intent_gossiper"@) is None {
            Some("intent_gossiper"@)
        } else if IntentGossiper::failure(
            section(node, "intent_gossiper"@)->Some_0,
            "intent_gossiper."@,
        ) is Some {
            IntentGossiper::failure(section(node, "intent_gossiper"@)->Some_0, "intent_gossiper."@)
        } else if section(node, "matchmaker"@) is None {
            Some("matchmaker"@)
        } else {
            Matchmaker::failure(section(node, "matchmaker"@)->Some_0, "matchmaker."@)
        }
    }

    /// This configuration is what the document says.
    pub open spec fn reads(&self, node: Node) -> bool {
        &&& as_text(node.child("wasm_dir"@)) == Some(self.wasm_dir@)
        &&& section(node, "ledger"@) is Some
        &&& self.ledger.reads(section(node, "ledger"@)->Some_0)
        &&& section(node, "intent_gossiper"@) is Some
        &&& self.intent_gossiper.reads(section(node, "intent_gossiper"@)->Some_0)
        &&& section(node, "matchmaker"@) is Some
        &&& self.matchmaker.reads(section(node, "matchmaker"@)->Some_0)
    }

    /// Reads a configuration from a document. Every setting has to be
    /// there in the form that its kind asks for, but for those that may be
    /// left out; names that the configuration does not know are passed
    /// over. The error names the first setting that fails.
    pub fn from_tree(node: &Datum) -> (r: Result<Config, Error>)
        ensures
            match r {
                Ok(c) => Config::failure(node@) is None && c.reads(node@)
                    && c.ledger.well_formed() && c.intent_gossiper.well_formed(),
                Err(e) => e matches Error::DeserializationError(name) && Config::failure(node@)
                    == Some(name@),
            },
    {
        let wasm_dir = match text_at(node, "wasm_dir") {
            Some(t) => t,
            None => {
                return Err(Error::DeserializationError("wasm_dir".to_owned()));
            },
        };
        let ledger = match section_at(node, "ledger") {
            Some(s) => match Ledger::from_tree(s, "ledger.") {
                Ok(l) => l,
                Err(name) => {
                    return Err(Error::DeserializationError(name));
                },
            },
            None => {
                return Err(Error::DeserializationError("ledger".to_owned()));
            },
        };
        let intent_gossiper = match section_at(node, "intent_gossiper") {
            Some(s) => match IntentGossiper::from_tree(s, "intent_gossiper.") {
                Ok(g) => g,
                Err(name) => {
                    return Err(Error::DeserializationError(name));
                },
            },
            None => {
                return Err(Error::DeserializationError("intent_gossiper".to_owned()));
            },
        };
        let matchmaker = match section_at(node, "matchmaker") {
            Some(s) => match Matchmaker::from_tree(s, "matchmaker.") {
                Ok(m) => m,
                Err(name) => {
                    return Err(Error::DeserializationError(name));
                },
            },
            None => {
                return Err(Error::DeserializationError("matchmaker".to_owned()));
            },
        };
        Ok(Config { wasm_dir, ledger, intent_gossiper, matchmaker })
    }
}

} // verus!
