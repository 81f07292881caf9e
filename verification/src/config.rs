//! The typed configuration of a node: its defaults and the places on disk
//! that follow from it.

use vstd::prelude::*;
use libp2p::multiaddr::Multiaddr;
use crate::filter::SubscriptionFilter;
use crate::mode::TendermintMode;
use crate::net::{Host, SocketAddress};
use crate::path::{join, joined};
use crate::peer::{multiaddr_hops, multiaddr_ip4_tcp, Hop, PeerAddress};
use crate::time::{is_rfc3339, lemma_epoch_is_rfc3339};
use crate::timeout::Timeout;

verus! {

/// Base directory contains global config and chain directories.
pub const DEFAULT_BASE_DIR: &'static str = ".anoma";

/// Default WASM dir. WASM dirs are nested in chain dirs.
pub const DEFAULT_WASM_DIR: &'static str = "wasm";

/// The WASM checksums file holds the hashes of built WASMs. It is inside
/// the WASM dir.
pub const DEFAULT_WASM_CHECKSUMS_FILE: &'static str = "checksums.json";

/// Chain-specific configuration file. Nested in chain dirs.
pub const FILENAME: &'static str = "config.toml";

/// Chain-specific directory of the consensus engine. Nested in chain dirs.
pub const TENDERMINT_DIR: &'static str = "tendermint";

/// Chain-specific database directory. Nested in chain dirs.
pub const DB_DIR: &'static str = "db";

/// The whole configuration of a node for one chain.
#[derive(Clone, Debug, PartialEq, Eq)]
pub struct Config {
    pub wasm_dir: String,
    pub ledger: Ledger,
    pub intent_gossiper: IntentGossiper,
    pub matchmaker: Matchmaker,
}

/// Chain-level and node-level settings of the ledger.
#[derive(Clone, Debug, PartialEq, Eq)]
pub struct Ledger {
    pub genesis_time: String,
    pub chain_id: String,
    pub shell: Shell,
    pub tendermint: Tendermint,
}

/// Where the node keeps its files, where it listens, and how much memory
/// its caches may take.
#[derive(Clone, Debug, PartialEq, Eq)]
pub struct Shell {
    pub base_dir: String,
    pub ledger_address: SocketAddress,
    /// Block cache maximum size in bytes. When not set, a third of the
    /// available memory is meant.
    pub block_cache_bytes: Option<u64>,
    /// VP WASM compilation cache maximum size in bytes. When not set, a
    /// sixth of the available memory is meant.
    pub vp_wasm_compilation_cache_bytes: Option<u64>,
    /// Tx WASM compilation cache maximum size in bytes. When not set, a
    /// sixth of the available memory is meant.
    pub tx_wasm_compilation_cache_bytes: Option<u64>,
    /// The name of the database directory inside the chain directory;
    /// [`Ledger::db_dir`] gives the whole path.
    db_dir: String,
    /// The name of the consensus engine's directory inside the chain
    /// directory; [`Ledger::tendermint_dir`] gives the whole path.
    tendermint_dir: String,
}

/// The mathematical reading of a [`Shell`].
pub struct ShellView {
    pub base_dir: Seq<char>,
    pub ledger_address: SocketAddress,
    pub block_cache_bytes: Option<u64>,
    pub vp_wasm_compilation_cache_bytes: Option<u64>,
    pub tx_wasm_compilation_cache_bytes: Option<u64>,
    pub db_dir: Seq<char>,
    pub tendermint_dir: Seq<char>,
}

impl View for Shell {
    type V = ShellView;

    closed spec fn view(&self) -> ShellView {
        ShellView {
            base_dir: self.base_dir@,
            ledger_address: self.ledger_address,
            block_cache_bytes: self.block_cache_bytes,
            vp_wasm_compilation_cache_bytes: self.vp_wasm_compilation_cache_bytes,
            tx_wasm_compilation_cache_bytes: self.tx_wasm_compilation_cache_bytes,
            db_dir: self.db_dir@,
            tendermint_dir: self.tendermint_dir@,
        }
    }
}

/// Settings handed to the consensus engine.
#[derive(Clone, Debug, PartialEq, Eq)]
pub struct Tendermint {
    pub rpc_address: SocketAddress,
    pub p2p_address: SocketAddress,
    /// The persistent peers' addresses, each with its node ID.
    pub p2p_persistent_peers: Vec<String>,
    /// Turns the peer exchange reactor on or off. A validator will want it
    /// off.
    pub p2p_pex: bool,
    /// Lifts the guard against peers that connect from the same IP.
    pub p2p_allow_duplicate_ip: bool,
    /// `true` for strict address routability rules, `false` for private or
    /// local networks.
    pub p2p_addr_book_strict: bool,
    /// How long to wait after committing a block before starting on the
    /// next height.
    pub consensus_timeout_commit: Timeout,
    pub tendermint_mode: TendermintMode,
    pub instrumentation_prometheus: bool,
    pub instrumentation_prometheus_listen_addr: SocketAddress,
    pub instrumentation_namespace: String,
}

/// Settings of the intent gossip overlay. The plain values come first:
/// written out as a table, no plain value may follow a nested one.
#[derive(Clone, Debug, PartialEq, Eq)]
pub struct IntentGossiper {
    pub address: Multiaddr,
    /// The topics, none of them twice.
    pub topics: Vec<String>,
    /// Where matchmakers connect to receive intents.
    pub matchmakers_server_addr: SocketAddress,
    pub subscription_filter: SubscriptionFilter,
    /// The peers to bootstrap from, none of them twice.
    pub seed_peers: Vec<PeerAddress>,
    pub rpc: Option<RpcServer>,
    pub discover_peer: Option<DiscoverPeer>,
}

/// The RPC server of the gossip node.
#[derive(Clone, Copy, Debug, PartialEq, Eq, Structural)]
pub struct RpcServer {
    pub address: SocketAddress,
}

/// Paths of the matchmaker's program and of the transaction code it sends.
#[derive(Clone, Debug, PartialEq, Eq)]
pub struct Matchmaker {
    pub matchmaker_path: Option<String>,
    pub tx_code_path: Option<String>,
}

/// How peers are discovered.
#[derive(Clone, Copy, Debug, PartialEq, Eq, Structural)]
pub struct DiscoverPeer {
    pub max_discovery_peers: u64,
    /// Remote peer discovery through Kademlia, on by default.
    pub kademlia: bool,
    /// Local network discovery through mDNS, off by default.
    pub mdns: bool,
}

/// The address `127.0.0.1:port`.
pub open spec fn localhost(port: u16) -> SocketAddress {
    SocketAddress { host: Host::V4 { a: 127, b: 0, c: 0, d: 1 }, port }
}

impl Default for DiscoverPeer {
    fn default() -> (r: DiscoverPeer)
        ensures
            r == (DiscoverPeer { max_discovery_peers: 16, kademlia: true, mdns: false }),
    {
        DiscoverPeer { max_discovery_peers: 16, kademlia: true, mdns: false }
    }
}

impl Default for RpcServer {
    fn default() -> (r: RpcServer)
        ensures
            r == (RpcServer { address: localhost(26660) }),
    {
        RpcServer { address: SocketAddress::new(127, 0, 0, 1, 26660) }
    }
}

impl Default for Matchmaker {
    fn default() -> (r: Matchmaker)
        ensures
            r.matchmaker_path is None,
            r.tx_code_path is None,
    {
        Matchmaker { matchmaker_path: None, tx_code_path: None }
    }
}

impl Shell {
    /// The settings a fresh node starts from, for a given base directory.
    pub open spec fn is_default(&self, base_dir: Seq<char>) -> bool {
        self@ == (ShellView {
            base_dir,
            ledger_address: localhost(26658),
            block_cache_bytes: None,
            vp_wasm_compilation_cache_bytes: None,
            tx_wasm_compilation_cache_bytes: None,
            db_dir: "db"@,
            tendermint_dir: "tendermint"@,
        })
    }

    /// The shell settings made of their parts.
    pub fn from_parts(
        base_dir: String,
        ledger_address: SocketAddress,
        block_cache_bytes: Option<u64>,
        vp_wasm_compilation_cache_bytes: Option<u64>,
        tx_wasm_compilation_cache_bytes: Option<u64>,
        db_dir: String,
        tendermint_dir: String,
    ) -> (r: Shell)
        ensures
            r@ == (ShellView {
                base_dir: base_dir@,
                ledger_address,
                block_cache_bytes,
                vp_wasm_compilation_cache_bytes,
                tx_wasm_compilation_cache_bytes,
                db_dir: db_dir@,
                tendermint_dir: tendermint_dir@,
            }),
    {
        Shell {
            base_dir,
            ledger_address,
            block_cache_bytes,
            vp_wasm_compilation_cache_bytes,
            tx_wasm_compilation_cache_bytes,
            db_dir,
            tendermint_dir,
        }
    }

    /// The same settings with another base directory.
    pub fn with_base_dir(self, base_dir: String) -> (r: Shell)
        ensures
            r@ == (ShellView { base_dir: base_dir@, ..self@ }),
    {
        Shell { base_dir, ..self }
    }

    /// The base directory.
    pub fn base_dir_text(&self) -> (r: &str)
        ensures
            r@ == self@.base_dir,
    {
        self.base_dir.as_str()
    }

    /// Where the ledger listens.
    pub fn address(&self) -> (r: SocketAddress)
        ensures
            r == self@.ledger_address,
    {
        self.ledger_address
    }

    /// The sizes of the caches that are set: of the block cache, of the
    /// VP WASM compilation cache and of the Tx WASM compilation cache.
    pub fn cache_sizes(&self) -> (r: (Option<u64>, Option<u64>, Option<u64>))
        ensures
            r.0 == self@.block_cache_bytes,
            r.1 == self@.vp_wasm_compilation_cache_bytes,
            r.2 == self@.tx_wasm_compilation_cache_bytes,
    {
        (
            self.block_cache_bytes,
            self.vp_wasm_compilation_cache_bytes,
            self.tx_wasm_compilation_cache_bytes,
        )
    }

    /// The name of the database directory inside the chain directory.
    pub fn db_dir_name(&self) -> (r: &str)
        ensures
            r@ == self@.db_dir,
    {
        self.db_dir.as_str()
    }

    /// The name of the consensus engine's directory inside the chain
    /// directory.
    pub fn tendermint_dir_name(&self) -> (r: &str)
        ensures
            r@ == self@.tendermint_dir,
    {
        self.tendermint_dir.as_str()
    }

    /// The directory of the database of the chain `chain_id`.
    pub fn db_dir(&self, chain_id: &str) -> (r: String)
        ensures
            r@ == joined(joined(self@.base_dir, chain_id@), self@.db_dir),
    {
        let chain_dir = join(self.base_dir.as_str(), chain_id);
        join(chain_dir.as_str(), self.db_dir.as_str())
    }

    /// The directory of the consensus engine for the chain `chain_id`.
    pub fn tendermint_dir(&self, chain_id: &str) -> (r: String)
        ensures
            r@ == joined(joined(self@.base_dir, chain_id@), self@.tendermint_dir),
    {
        let chain_dir = join(self.base_dir.as_str(), chain_id);
        join(chain_dir.as_str(), self.tendermint_dir.as_str())
    }
}

impl Tendermint {
    /// The settings a fresh node starts from, for a given mode.
    pub open spec fn is_default(&self, mode: TendermintMode) -> bool {
        &&& self.rpc_address == localhost(26657)
        &&& self.p2p_address == localhost(26656)
        &&& self.p2p_persistent_peers@.len() == 0
        &&& self.p2p_pex
        &&& !self.p2p_allow_duplicate_ip
        &&& self.p2p_addr_book_strict
        &&& self.consensus_timeout_commit == (Timeout { secs: 1, nanos: 0 })
        &&& self.tendermint_mode == mode
        &&& !self.instrumentation_prometheus
        &&& self.instrumentation_prometheus_listen_addr == localhost(26661)
        &&& self.instrumentation_namespace@ == "anoman_tm"@
    }
}

impl Ledger {
    /// The settings a fresh node starts from.
    pub open spec fn is_default(
        &self,
        base_dir: Seq<char>,
        chain_id: Seq<char>,
        mode: TendermintMode,
    ) -> bool {
        &&& self.genesis_time@ == "1970-01-01T00:00:00Z"@
        &&& self.chain_id@ == chain_id
        &&& self.shell.is_default(base_dir)
        &&& self.tendermint.is_default(mode)
    }

    /// The chain has a name, and the time of its genesis is a point in
    /// time as RFC 3339 writes it.
    pub open spec fn well_formed(&self) -> bool {
        self.chain_id@.len() > 0 && is_rfc3339(self.genesis_time@)
    }

    /// The ledger settings a fresh node starts from, for a chain that has
    /// a name.
    pub fn new(base_dir: &str, chain_id: String, mode: TendermintMode) -> (r: Ledger)
        requires
            chain_id@.len() > 0,
        ensures
            r.is_default(base_dir@, chain_id@, mode),
            r.well_formed(),
    {
        proof {
            lemma_epoch_is_rfc3339();
        }
        Ledger {
            genesis_time: "1970-01-01T00:00:00Z".to_owned(),
            chain_id,
            shell: Shell {
                base_dir: base_dir.to_owned(),
                ledger_address: SocketAddress::new(127, 0, 0, 1, 26658),
                block_cache_bytes: None,
                vp_wasm_compilation_cache_bytes: None,
                tx_wasm_compilation_cache_bytes: None,
                db_dir: DB_DIR.to_owned(),
                tendermint_dir: TENDERMINT_DIR.to_owned(),
            },
            tendermint: Tendermint {
                rpc_address: SocketAddress::new(127, 0, 0, 1, 26657),
                p2p_address: SocketAddress::new(127, 0, 0, 1, 26656),
                p2p_persistent_peers: Vec::new(),
                p2p_pex: true,
                p2p_allow_duplicate_ip: false,
                p2p_addr_book_strict: true,
                consensus_timeout_commit: Timeout::one_second(),
                tendermint_mode: mode,
                instrumentation_prometheus: false,
                instrumentation_prometheus_listen_addr: SocketAddress::new(127, 0, 0, 1, 26661),
                instrumentation_namespace: "anoman_tm".to_owned(),
            },
        }
    }

    /// The directory of the chain: the chain's name under the base
    /// directory.
    pub fn chain_dir(&self) -> (r: String)
        ensures
            r@ == joined(self.shell@.base_dir, self.chain_id@),
    {
        join(self.shell.base_dir.as_str(), self.chain_id.as_str())
    }

    /// The directory of the database.
    pub fn db_dir(&self) -> (r: String)
        ensures
            r@ == joined(joined(self.shell@.base_dir, self.chain_id@), self.shell@.db_dir),
    {
        self.shell.db_dir(self.chain_id.as_str())
    }

    /// The directory of the consensus engine.
    pub fn tendermint_dir(&self) -> (r: String)
        ensures
            r@ == joined(
                joined(self.shell@.base_dir, self.chain_id@),
                self.shell@.tendermint_dir,
            ),
    {
        self.shell.tendermint_dir(self.chain_id.as_str())
    }
}

impl IntentGossiper {
    /// The settings a fresh node starts from.
    pub open spec fn is_default(&self) -> bool {
        &&& multiaddr_hops(self.address) == seq![Hop::Ip4(0, 0, 0, 0), Hop::Tcp(26659)]
        &&& self.topics@.len() == 1
        &&& self.topics@[0]@ == "asset_v0"@
        &&& self.matchmakers_server_addr == localhost(26661)
        &&& self.subscription_filter.is_regex("asset_v\\d{1,2}"@)
        &&& self.seed_peers@.len() == 0
        &&& self.rpc is None
        &&& self.discover_peer == Some(
            DiscoverPeer { max_discovery_peers: 16, kademlia: true, mdns: false },
        )
    }

    /// No topic and no seed peer occurs twice.
    pub open spec fn well_formed(&self) -> bool {
        &&& forall|i: int, j: int|
            0 <= i < j < self.topics@.len() ==> (#[trigger] self.topics@[i])@ != (
            #[trigger] self.topics@[j])@
        &&& forall|i: int, j: int|
            0 <= i < j < self.seed_peers@.len() ==> (#[trigger] self.seed_peers@[i]).view() != (
            #[trigger] self.seed_peers@[j]).view()
    }

    /// Takes over the given addresses and leaves the rest as it is: a
    /// given multiaddress becomes the node's own address, a given socket
    /// address becomes that of its RPC server.
    pub fn update(&mut self, addr: Option<Multiaddr>, rpc: Option<SocketAddress>)
        ensures
            final(self).address == (match addr {
                Some(a) => a,
                None => old(self).address,
            }),
            final(self).rpc == (match rpc {
                Some(address) => Some(RpcServer { address }),
                None => old(self).rpc,
            }),
            final(self).topics == old(self).topics,
            final(self).matchmakers_server_addr == old(self).matchmakers_server_addr,
            final(self).subscription_filter == old(self).subscription_filter,
            final(self).seed_peers == old(self).seed_peers,
            final(self).discover_peer == old(self).discover_peer,
            old(self).well_formed() ==> final(self).well_formed(),
    {
        if let Some(addr) = addr {
            self.address = addr;
        }
        if let Some(address) = rpc {
            self.rpc = Some(RpcServer { address });
        }
    }
}

impl Default for IntentGossiper {
    /// The settings a fresh node starts from. The filter is handed to the
    /// regular-expression engine as it is made; it is the same pattern
    /// whatever the engine says of it.
    fn default() -> (r: IntentGossiper)
        ensures
            r.is_default(),
            r.well_formed(),
    {
        let mut topics: Vec<String> = Vec::new();
        topics.push("asset_v0".to_owned());
        let subscription_filter = match SubscriptionFilter::from_pattern(
            "asset_v\\d{1,2}".to_owned(),
        ) {
            Some(filter) => filter,
            None => SubscriptionFilter::RegexFilter("asset_v\\d{1,2}".to_owned()),
        };
        IntentGossiper {
            address: multiaddr_ip4_tcp(0, 0, 0, 0, 26659),
            topics,
            matchmakers_server_addr: SocketAddress::new(127, 0, 0, 1, 26661),
            subscription_filter,
            seed_peers: Vec::new(),
            rpc: None,
            discover_peer: Some(DiscoverPeer::default()),
        }
    }
}

impl Config {
    /// The configuration a fresh node starts from.
    pub open spec fn is_default(
        &self,
        base_dir: Seq<char>,
        chain_id: Seq<char>,
        mode: TendermintMode,
    ) -> bool {
        &&& self.wasm_dir@ == "wasm"@
        &&& self.ledger.is_default(base_dir, chain_id, mode)
        &&& self.ledger.well_formed()
        &&& self.intent_gossiper.is_default()
        &&& self.intent_gossiper.well_formed()
        &&& self.matchmaker.matchmaker_path is None
        &&& self.matchmaker.tx_code_path is None
    }

    /// The configuration a fresh node starts from, for a chain that has a
    /// name.
    pub fn new(base_dir: &str, chain_id: String, mode: TendermintMode) -> (r: Config)
        requires
            chain_id@.len() > 0,
        ensures
            r.is_default(base_dir@, chain_id@, mode),
    {
        Config {
            wasm_dir: DEFAULT_WASM_DIR.to_owned(),
            ledger: Ledger::new(base_dir, chain_id, mode),
            intent_gossiper: IntentGossiper::default(),
            matchmaker: Matchmaker::default(),
        }
    }

    /// Where the configuration file of a chain is: `config.toml` in the
    /// directory of the chain's name under the base directory.
    pub fn file_path(base_dir: &str, chain_id: &str) -> (r: String)
        ensures
            r@ == joined(joined(base_dir@, chain_id@), "config.toml"@),
    {
        let chain_dir = join(base_dir, chain_id);
        join(chain_dir.as_str(), FILENAME)
    }
}

/// The path of a chain's configuration file written out: for a base
/// directory that does not end in a separator and a chain name that neither
/// starts nor ends with one, the base directory, the chain's name and the
/// file's name with one `/` between each two.
pub proof fn lemma_file_path_plain(base_dir: Seq<char>, chain_id: Seq<char>)
    requires
        base_dir.len() > 0,
        base_dir.last() != '/',
        chain_id.len() > 0,
        chain_id[0] != '/',
        chain_id.last() != '/',
    ensures
        joined(joined(base_dir, chain_id), "config.toml"@) == base_dir + seq!['/'] + chain_id
            + seq!['/'] + "config.toml"@,
{
    reveal_strlit("config.toml");
    let chain = joined(base_dir, chain_id);
    assert(chain =~= base_dir + seq!['/'] + chain_id);
    assert(chain.last() == chain_id.last());
    assert("config.toml"@[0] == 'c');
}

/// The configuration files of one chain under two different base
/// directories are different files, for a chain name that does not start
/// with a `/` and base directories that do not end in one.
pub proof fn lemma_file_path_tells_base_dirs_apart(
    first: Seq<char>,
    second: Seq<char>,
    chain_id: Seq<char>,
)
    requires
        first != second,
        first.len() > 0,
        first.last() != '/',
        second.len() > 0,
        second.last() != '/',
        chain_id.len() > 0,
        chain_id[0] != '/',
    ensures
        joined(joined(first, chain_id), "config.toml"@) != joined(
            joined(second, chain_id),
            "config.toml"@,
        ),
{
    reveal_strlit("config.toml");
    assert("config.toml"@[0] == 'c');
    let file = if chain_id.last() != '/' {
        seq!['/'] + "config.toml"@
    } else {
        "config.toml"@
    };
    let back = seq!['/'] + chain_id + file;
    let a = joined(joined(first, chain_id), "config.toml"@);
    let b = joined(joined(second, chain_id), "config.toml"@);
    let chain_a = joined(first, chain_id);
    let chain_b = joined(second, chain_id);
    assert(chain_a =~= first + seq!['/'] + chain_id);
    assert(chain_b =~= second + seq!['/'] + chain_id);
    assert(chain_a.last() == chain_id.last());
    assert(chain_b.last() == chain_id.last());
    assert(a =~= first + back);
    assert(b =~= second + back);
    if a == b {
        assert(a.len() == first.len() + back.len());
        assert(b.len() == second.len() + back.len());
        assert forall|i: int| 0 <= i < first.len() implies first[i] == second[i] by {
            assert(a[i] == first[i]);
            assert(b[i] == second[i]);
        }
        assert(first =~= second);
    }
}

} // verus!
