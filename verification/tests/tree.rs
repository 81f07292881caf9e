use anoma_config::config::{Config, DiscoverPeer, IntentGossiper, RpcServer};
use anoma_config::document::{parse_document, write_document};
use anoma_config::error::Error;
use anoma_config::filter::SubscriptionFilter;
use anoma_config::mode::TendermintMode;
use anoma_config::net::SocketAddress;
use anoma_config::peer::PeerAddress;
use anoma_config::timeout::Timeout;
use anoma_config::value::Datum;

const PEER: &str = "/ip4/1.2.3.4/tcp/26656/p2p/12D3KooWDpJ7As7BWAwRMfu1VU2WCqNjvq387JEYKDBj4kx6nXTN";

fn path(names: &[&str]) -> Vec<String> {
    names.iter().map(|s| s.to_string()).collect()
}

fn text(s: &str) -> Datum {
    Datum::Text(s.to_string())
}

fn set(doc: &Datum, names: &[&str], leaf: Datum) -> Datum {
    doc.merge(&Datum::single(&path(names), 0, leaf))
}

fn full_config() -> Config {
    let mut c = Config::new("/base", "chain".to_string(), TendermintMode::Validator);
    c.ledger.shell.block_cache_bytes = Some(1 << 40);
    c.ledger.shell.tx_wasm_compilation_cache_bytes = Some(u64::MAX);
    c.ledger.tendermint.p2p_persistent_peers =
        vec!["tcp://0123456789abcdef0123456789abcdef01234567@10.0.0.1:26656".to_string()];
    c.ledger.tendermint.consensus_timeout_commit = Timeout { secs: 0, nanos: 250_000_000 };
    c.intent_gossiper.topics = vec!["a".to_string(), "b".to_string()];
    c.intent_gossiper.subscription_filter =
        SubscriptionFilter::WhitelistFilter(vec!["a".to_string()]);
    c.intent_gossiper.seed_peers = vec![PeerAddress::parse(PEER).unwrap()];
    c.intent_gossiper.rpc = Some(RpcServer { address: SocketAddress::new(1, 2, 3, 4, 5) });
    c.intent_gossiper.discover_peer = None;
    c.matchmaker.matchmaker_path = Some("libmm.so".to_string());
    c.matchmaker.tx_code_path = Some("wasm/tx.wasm".to_string());
    c
}

#[test]
fn the_default_document_holds_the_defaults_in_their_writings() {
    let doc = Config::new("/base", "chain".to_string(), TendermintMode::Full).to_tree();
    let at = |names: &[&str]| doc.lookup(&path(names)).cloned();
    assert_eq!(at(&["wasm_dir"]), Some(text("wasm")));
    assert_eq!(at(&["ledger", "genesis_time"]), Some(text("1970-01-01T00:00:00Z")));
    assert_eq!(at(&["ledger", "chain_id"]), Some(text("chain")));
    assert_eq!(at(&["ledger", "shell", "base_dir"]), Some(text("/base")));
    assert_eq!(at(&["ledger", "shell", "ledger_address"]), Some(text("127.0.0.1:26658")));
    assert_eq!(at(&["ledger", "shell", "block_cache_bytes"]), None);
    assert_eq!(at(&["ledger", "shell", "db_dir"]), Some(text("db")));
    assert_eq!(at(&["ledger", "tendermint", "p2p_pex"]), Some(Datum::Boolean(true)));
    assert_eq!(at(&["ledger", "tendermint", "p2p_persistent_peers"]), Some(Datum::Array(vec![])));
    assert_eq!(at(&["ledger", "tendermint", "consensus_timeout_commit"]), Some(text("1000ms")));
    assert_eq!(at(&["ledger", "tendermint", "tendermint_mode"]), Some(text("full")));
    assert_eq!(at(&["intent_gossiper", "address"]), Some(text("/ip4/0.0.0.0/tcp/26659")));
    assert_eq!(at(&["intent_gossiper", "topics"]), Some(Datum::Array(vec![text("asset_v0")])));
    assert_eq!(at(&["intent_gossiper", "subscription_filter"]), Some(text("asset_v\\d{1,2}")));
    assert_eq!(at(&["intent_gossiper", "rpc"]), None);
    assert_eq!(
        at(&["intent_gossiper", "discover_peer", "max_discovery_peers"]),
        Some(Datum::Integer(16))
    );
    assert_eq!(at(&["matchmaker"]), Some(Datum::Table(vec![])));
}

#[test]
fn the_entries_stand_in_the_order_of_the_settings() {
    let doc = full_config().to_tree();
    let names = |v: &Datum| match v {
        Datum::Table(entries) => entries.iter().map(|(k, _)| k.clone()).collect::<Vec<_>>(),
        _ => vec![],
    };
    assert_eq!(names(&doc), ["wasm_dir", "ledger", "intent_gossiper", "matchmaker"]);
    assert_eq!(
        names(doc.lookup(&path(&["ledger", "shell"])).unwrap()),
        [
            "base_dir",
            "ledger_address",
            "block_cache_bytes",
            "tx_wasm_compilation_cache_bytes",
            "db_dir",
            "tendermint_dir"
        ]
    );
    assert_eq!(
        names(doc.lookup(&path(&["intent_gossiper"])).unwrap()),
        ["address", "topics", "matchmakers_server_addr", "subscription_filter", "seed_peers", "rpc"]
    );
    assert!(doc.is_ordered());
    assert_eq!(doc.merge(&doc), doc);
}

#[test]
fn default_round_trip() {
    for chain_id in ["chain", "e2e-test.6b8d1a4c", "a.b c"] {
        for mode in [TendermintMode::Full, TendermintMode::Validator, TendermintMode::Seed] {
            let c = Config::new("/base/dir", chain_id.to_string(), mode);
            assert_eq!(Config::from_tree(&c.to_tree()), Ok(c.clone()));
            let written = write_document(&c.to_tree()).unwrap();
            let read = parse_document(&written).unwrap();
            assert_eq!(Config::from_tree(&read), Ok(c.clone()));
            assert_eq!(written, toml::to_string(&written.parse::<toml::Value>().unwrap()).unwrap());
            assert_eq!(read, c.to_tree());
        }
    }
}

#[test]
fn a_configuration_with_everything_set_is_read_back() {
    let c = full_config();
    let mut doc = c.to_tree();
    assert_eq!(Config::from_tree(&doc), Ok(c.clone()));
    doc = set(&doc, &["ledger", "shell", "tx_wasm_compilation_cache_bytes"], Datum::Integer(7));
    let written = write_document(&doc).unwrap();
    let read = parse_document(&written).unwrap();
    let mut want = c;
    want.ledger.shell.tx_wasm_compilation_cache_bytes = Some(7);
    assert_eq!(Config::from_tree(&read), Ok(want));
}

#[test]
fn the_written_document_keeps_plain_values_before_tables() {
    let doc = full_config().to_tree();
    let doc = set(&doc, &["ledger", "shell", "tx_wasm_compilation_cache_bytes"], Datum::Integer(7));
    let written = write_document(&doc).unwrap();
    let wasm_dir = written.find("wasm_dir = ").unwrap();
    let ledger = written.find("[ledger]").unwrap();
    let shell = written.find("[ledger.shell]").unwrap();
    let gossiper = written.find("[intent_gossiper]").unwrap();
    let rpc = written.find("[intent_gossiper.rpc]").unwrap();
    let address = written.find("address = \"/ip4/0.0.0.0/tcp/26659\"").unwrap();
    assert!(wasm_dir < ledger && ledger < shell && shell < gossiper);
    assert!(gossiper < address && address < rpc);
}

#[test]
fn subscription_filter_parse() {
    let doc = Config::new("b", "c".to_string(), TendermintMode::Full).to_tree();
    let with = |leaf: Datum| {
        Config::from_tree(&set(&doc, &["intent_gossiper", "subscription_filter"], leaf))
            .map(|c| c.intent_gossiper.subscription_filter)
    };
    assert_eq!(with(text("a.*")), Ok(SubscriptionFilter::RegexFilter("a.*".to_string())));
    assert_eq!(
        with(Datum::Array(vec![text("a"), text("(")])),
        Ok(SubscriptionFilter::WhitelistFilter(vec!["a".to_string(), "(".to_string()]))
    );
    assert_eq!(
        with(Datum::Array(vec![])),
        Ok(SubscriptionFilter::WhitelistFilter(vec![]))
    );
    let failure = Err(Error::DeserializationError("intent_gossiper.subscription_filter".to_string()));
    assert_eq!(with(text("(")), failure);
    assert_eq!(with(Datum::Integer(1)), failure);
    assert_eq!(with(Datum::Array(vec![text("a"), Datum::Integer(1)])), failure);
    let filter = SubscriptionFilter::WhitelistFilter(vec!["x".to_string()]);
    assert_eq!(filter.to_tree(), Datum::Array(vec![text("x")]));
    assert_eq!(SubscriptionFilter::RegexFilter("x".to_string()).to_tree(), text("x"));
}

#[test]
fn settings_given_as_texts_are_read_as_what_they_stand_for() {
    let doc = Config::new("b", "c".to_string(), TendermintMode::Full).to_tree();
    let doc = set(&doc, &["ledger", "tendermint", "p2p_pex"], text("false"));
    let doc = set(&doc, &["ledger", "shell", "block_cache_bytes"], text("1024"));
    let doc = set(&doc, &["ledger", "tendermint", "consensus_timeout_commit"], text("5s"));
    let doc = set(&doc, &["ledger", "tendermint", "tendermint_mode"], text("seed"));
    let doc = set(&doc, &["intent_gossiper", "discover_peer", "mdns"], text("true"));
    let c = Config::from_tree(&doc).unwrap();
    assert!(!c.ledger.tendermint.p2p_pex);
    assert_eq!(c.ledger.shell.block_cache_bytes, Some(1024));
    assert_eq!(c.ledger.tendermint.consensus_timeout_commit, Timeout { secs: 5, nanos: 0 });
    assert_eq!(c.ledger.tendermint.tendermint_mode, TendermintMode::Seed);
    assert_eq!(
        c.intent_gossiper.discover_peer,
        Some(DiscoverPeer { max_discovery_peers: 16, kademlia: true, mdns: true })
    );
}

#[test]
fn topics_and_seed_peers_are_taken_once_each() {
    let doc = Config::new("b", "c".to_string(), TendermintMode::Full).to_tree();
    let doc = set(
        &doc,
        &["intent_gossiper", "topics"],
        Datum::Array(vec![text("b"), text("a"), text("b"), text("c"), text("a")]),
    );
    let doc = set(
        &doc,
        &["intent_gossiper", "seed_peers"],
        Datum::Array(vec![text(PEER), text(PEER)]),
    );
    let g: IntentGossiper = Config::from_tree(&doc).unwrap().intent_gossiper;
    assert_eq!(g.topics, ["b", "a", "c"]);
    assert_eq!(g.seed_peers, vec![PeerAddress::parse(PEER).unwrap()]);
}

#[test]
fn persistent_peers_are_kept_as_the_consensus_engine_writes_them() {
    let doc = Config::new("b", "c".to_string(), TendermintMode::Full).to_tree();
    let doc = set(
        &doc,
        &["ledger", "tendermint", "p2p_persistent_peers"],
        Datum::Array(vec![text("10.0.0.1:26656"), text("tcp://example.com:1")]),
    );
    let c = Config::from_tree(&doc).unwrap();
    assert_eq!(
        c.ledger.tendermint.p2p_persistent_peers,
        ["tcp://10.0.0.1:26656", "tcp://example.com:1"]
    );
}

#[test]
fn the_first_setting_that_fails_is_named() {
    let doc = Config::new("b", "c".to_string(), TendermintMode::Full).to_tree();
    let failure = |doc: &Datum| match Config::from_tree(doc) {
        Err(Error::DeserializationError(name)) => name,
        other => panic!("{:?}", other),
    };
    assert_eq!(failure(&Datum::Integer(1)), "wasm_dir");
    assert_eq!(failure(&Datum::Table(vec![])), "wasm_dir");
    assert_eq!(failure(&set(&doc, &["ledger"], text("x"))), "ledger");
    assert_eq!(failure(&set(&doc, &["ledger", "shell"], Datum::Array(vec![]))), "ledger.shell");
    assert_eq!(
        failure(&set(&doc, &["ledger", "shell", "ledger_address"], text("localhost:1"))),
        "ledger.shell.ledger_address"
    );
    assert_eq!(
        failure(&set(&doc, &["ledger", "shell", "block_cache_bytes"], Datum::Integer(-1))),
        "ledger.shell.block_cache_bytes"
    );
    assert_eq!(
        failure(&set(&doc, &["ledger", "tendermint", "p2p_persistent_peers"],
            Datum::Array(vec![text("http://x:1")]))),
        "ledger.tendermint.p2p_persistent_peers"
    );
    assert_eq!(
        failure(&set(&doc, &["ledger", "tendermint", "p2p_pex"], text("yes"))),
        "ledger.tendermint.p2p_pex"
    );
    assert_eq!(
        failure(&set(&doc, &["ledger", "tendermint", "consensus_timeout_commit"], text("1"))),
        "ledger.tendermint.consensus_timeout_commit"
    );
    assert_eq!(
        failure(&set(&doc, &["ledger", "tendermint", "tendermint_mode"], text("Full"))),
        "ledger.tendermint.tendermint_mode"
    );
    assert_eq!(
        failure(&set(&doc, &["intent_gossiper", "address"], text("0.0.0.0:1"))),
        "intent_gossiper.address"
    );
    assert_eq!(
        failure(&set(&doc, &["intent_gossiper", "seed_peers"],
            Datum::Array(vec![text("/ip4/1.2.3.4/tcp/26656")]))),
        "intent_gossiper.seed_peers"
    );
    assert_eq!(
        failure(&set(&doc, &["intent_gossiper", "rpc"], text("1.2.3.4:5"))),
        "intent_gossiper.rpc"
    );
    assert_eq!(
        failure(&set(&doc, &["intent_gossiper", "rpc"], Datum::Table(vec![]))),
        "intent_gossiper.rpc.address"
    );
    assert_eq!(
        failure(&set(&doc, &["intent_gossiper", "discover_peer", "kademlia"], Datum::Integer(1))),
        "intent_gossiper.discover_peer.kademlia"
    );
    assert_eq!(
        failure(&set(&doc, &["matchmaker", "tx_code_path"], Datum::Boolean(true))),
        "matchmaker.tx_code_path"
    );
    assert_eq!(
        failure(&set(&set(&doc, &["wasm_dir"], Datum::Integer(1)), &["ledger"], text("x"))),
        "wasm_dir"
    );
}

#[test]
fn names_that_the_configuration_does_not_know_are_passed_over() {
    let c = Config::new("b", "c".to_string(), TendermintMode::Full);
    let doc = set(&c.to_tree(), &["ledger", "shell", "unknown"], Datum::Integer(1));
    let doc = set(&doc, &["extra", "table"], text("x"));
    assert_eq!(Config::from_tree(&doc), Ok(c));
}
