use anoma_config::config::{
    Config, DiscoverPeer, IntentGossiper, Ledger, Matchmaker, RpcServer, Shell, DB_DIR,
    DEFAULT_BASE_DIR, DEFAULT_WASM_CHECKSUMS_FILE, DEFAULT_WASM_DIR, FILENAME, TENDERMINT_DIR,
};
use anoma_config::filter::SubscriptionFilter;
use anoma_config::mode::TendermintMode;
use anoma_config::net::SocketAddress;
use anoma_config::timeout::Timeout;
use libp2p::multiaddr::Multiaddr;

#[test]
fn the_constants_name_the_files_and_directories() {
    assert_eq!(DEFAULT_BASE_DIR, ".anoma");
    assert_eq!(DEFAULT_WASM_DIR, "wasm");
    assert_eq!(DEFAULT_WASM_CHECKSUMS_FILE, "checksums.json");
    assert_eq!(FILENAME, "config.toml");
    assert_eq!(TENDERMINT_DIR, "tendermint");
    assert_eq!(DB_DIR, "db");
}

#[test]
fn the_default_ledger_settings() {
    let l = Ledger::new("/base", "chain-1".to_string(), TendermintMode::Validator);
    assert_eq!(l.genesis_time, "1970-01-01T00:00:00Z");
    assert_eq!(l.chain_id, "chain-1");
    assert_eq!(l.shell.base_dir, "/base");
    assert_eq!(l.shell.ledger_address, SocketAddress::new(127, 0, 0, 1, 26658));
    assert_eq!(l.shell.block_cache_bytes, None);
    assert_eq!(l.shell.vp_wasm_compilation_cache_bytes, None);
    assert_eq!(l.shell.tx_wasm_compilation_cache_bytes, None);
    assert_eq!(l.shell.db_dir_name(), "db");
    assert_eq!(l.shell.tendermint_dir_name(), "tendermint");
    let t = &l.tendermint;
    assert_eq!(t.rpc_address, SocketAddress::new(127, 0, 0, 1, 26657));
    assert_eq!(t.p2p_address, SocketAddress::new(127, 0, 0, 1, 26656));
    assert!(t.p2p_persistent_peers.is_empty());
    assert!(t.p2p_pex);
    assert!(!t.p2p_allow_duplicate_ip);
    assert!(t.p2p_addr_book_strict);
    assert_eq!(t.consensus_timeout_commit, Timeout { secs: 1, nanos: 0 });
    assert_eq!(t.tendermint_mode, TendermintMode::Validator);
    assert!(!t.instrumentation_prometheus);
    assert_eq!(
        t.instrumentation_prometheus_listen_addr,
        SocketAddress::new(127, 0, 0, 1, 26661)
    );
    assert_eq!(t.instrumentation_namespace, "anoman_tm");
}

#[test]
fn the_default_gossip_settings() {
    let g = IntentGossiper::default();
    assert_eq!(g.address, "/ip4/0.0.0.0/tcp/26659".parse::<Multiaddr>().unwrap());
    assert_eq!(g.topics, vec!["asset_v0".to_string()]);
    assert_eq!(g.matchmakers_server_addr, SocketAddress::new(127, 0, 0, 1, 26661));
    assert_eq!(
        g.subscription_filter,
        SubscriptionFilter::RegexFilter("asset_v\\d{1,2}".to_string())
    );
    assert!(g.seed_peers.is_empty());
    assert_eq!(g.rpc, None);
    assert_eq!(
        g.discover_peer,
        Some(DiscoverPeer { max_discovery_peers: 16, kademlia: true, mdns: false })
    );
}

#[test]
fn the_other_defaults() {
    assert_eq!(
        DiscoverPeer::default(),
        DiscoverPeer { max_discovery_peers: 16, kademlia: true, mdns: false }
    );
    assert_eq!(RpcServer::default().address, SocketAddress::new(127, 0, 0, 1, 26660));
    assert_eq!(
        Matchmaker::default(),
        Matchmaker { matchmaker_path: None, tx_code_path: None }
    );
}

#[test]
fn the_default_configuration_is_made_of_the_defaults() {
    let c = Config::new("base", "e2e-test.0123".to_string(), TendermintMode::Seed);
    assert_eq!(c.wasm_dir, "wasm");
    assert_eq!(c.ledger, Ledger::new("base", "e2e-test.0123".to_string(), TendermintMode::Seed));
    assert_eq!(c.intent_gossiper, IntentGossiper::default());
    assert_eq!(c.matchmaker, Matchmaker::default());
}

#[test]
fn the_directories_of_a_chain_lie_under_its_name() {
    let mut l = Ledger::new("/base", "chain-1".to_string(), TendermintMode::Full);
    assert_eq!(l.chain_dir(), "/base/chain-1");
    assert_eq!(l.db_dir(), "/base/chain-1/db");
    assert_eq!(l.tendermint_dir(), "/base/chain-1/tendermint");
    assert_eq!(l.shell.db_dir("other"), "/base/other/db");
    assert_eq!(l.shell.tendermint_dir("other"), "/base/other/tendermint");
    l.shell = Shell::from_parts(
        "rel/".to_string(),
        SocketAddress::new(1, 2, 3, 4, 5),
        Some(1),
        None,
        Some(3),
        "/abs/db".to_string(),
        "tm".to_string(),
    );
    assert_eq!(l.shell.base_dir_text(), "rel/");
    assert_eq!(l.shell.address(), SocketAddress::new(1, 2, 3, 4, 5));
    assert_eq!(l.shell.cache_sizes(), (Some(1), None, Some(3)));
    assert_eq!(l.tendermint_dir(), "rel/chain-1/tm");
    assert_eq!(l.shell.clone().with_base_dir("/x".to_string()).db_dir("c"), "/abs/db");
    assert_eq!(l.shell.clone().with_base_dir("/x".to_string()).tendermint_dir("c"), "/x/c/tm");
    assert_eq!(l.chain_dir(), "rel/chain-1");
    assert_eq!(l.db_dir(), "/abs/db");
    assert_eq!(Config::file_path("/base", "chain-1"), "/base/chain-1/config.toml");
    assert_eq!(Config::file_path("", "c"), "c/config.toml");
}

#[test]
fn update_takes_over_what_is_given() {
    let mut g = IntentGossiper::default();
    let before = g.clone();
    g.update(None, None);
    assert_eq!(g, before);
    let addr = "/ip4/10.0.0.1/tcp/1".parse::<Multiaddr>().unwrap();
    g.update(Some(addr.clone()), None);
    assert_eq!(g.address, addr);
    assert_eq!(g.rpc, None);
    let rpc = SocketAddress::new(1, 2, 3, 4, 5);
    g.update(None, Some(rpc));
    assert_eq!(g.address, addr);
    assert_eq!(g.rpc, Some(RpcServer { address: rpc }));
    assert_eq!(g.topics, before.topics);
    assert_eq!(g.subscription_filter, before.subscription_filter);
    assert_eq!(g.discover_peer, before.discover_peer);
}

#[test]
fn the_configuration_file_is_under_the_base_directory_and_the_chain() {
    assert_eq!(Config::file_path("/a", "chain"), "/a/chain/config.toml");
    assert_eq!(Config::file_path("/b", "chain"), "/b/chain/config.toml");
    assert_ne!(Config::file_path("/a", "chain"), Config::file_path("/b", "chain"));
    assert_ne!(Config::file_path("/a", "chain"), Config::file_path("/a/chain", "chain"));
    assert_eq!(Config::file_path("/a/", "chain"), "/a/chain/config.toml");
    assert_eq!(Config::file_path("/a", "chain/"), "/a/chain/config.toml");
    assert_eq!(Config::file_path("/a", "/chain"), "/chain/config.toml");
    assert_eq!(Config::file_path("/b", "/chain"), "/chain/config.toml");
}
