use anoma_config::config::Config;
use anoma_config::error::{Error, VALUE_AFTER_TABLE_ERROR_MSG};
use anoma_config::mode::TendermintMode;
use anoma_config::net::SocketAddress;
use anoma_config::document::{check_writable, parse_document, write_document, Refusal};
use anoma_config::store::Read;
use anoma_config::value::Datum;

fn path(names: &[&str]) -> Vec<String> {
    names.iter().map(|s| s.to_string()).collect()
}

fn text(s: &str) -> Datum {
    Datum::Text(s.to_string())
}

fn var(name: &str, value: &str) -> (String, String) {
    (name.to_string(), value.to_string())
}

fn ledger_address(file: Option<&Datum>, vars: &Vec<(String, String)>) -> SocketAddress {
    Config::read_layers("base", "chain", None, file, vars)
        .unwrap()
        .config
        .ledger
        .shell
        .ledger_address
}

#[test]
fn merge_precedence() {
    let file = Datum::single(&path(&["ledger", "shell", "ledger_address"]), 0, text("1.2.3.4:1000"));
    let env = vec![var("ANOMA__LEDGER__SHELL__LEDGER_ADDRESS", "5.6.7.8:2000")];
    let none = vec![];
    assert_eq!(ledger_address(Some(&file), &env), SocketAddress::new(5, 6, 7, 8, 2000));
    assert_eq!(ledger_address(Some(&file), &none), SocketAddress::new(1, 2, 3, 4, 1000));
    assert_eq!(
        ledger_address(Some(&Datum::Table(vec![])), &none),
        SocketAddress::new(127, 0, 0, 1, 26658)
    );
    assert_eq!(
        ledger_address(Some(&Datum::Table(vec![])), &env),
        SocketAddress::new(5, 6, 7, 8, 2000)
    );
}

#[test]
fn idempotent_generation() {
    let (config, plan) =
        Config::generate("base", "chain", TendermintMode::Validator, false, true).unwrap();
    let read = Config::read(
        "base",
        "chain",
        Some(TendermintMode::Validator),
        Some(&plan.text),
        &vec![],
    );
    assert_eq!(read, Ok(Read { config, generated: false }));
}

#[test]
fn missing_file_generation() {
    let vars = vec![var("ANOMA__LEDGER__TENDERMINT__P2P_PEX", "false")];
    let read = Config::read_layers("base", "chain", Some(TendermintMode::Seed), None, &vars);
    assert_eq!(
        read,
        Ok(Read {
            config: Config::new("base", "chain".to_string(), TendermintMode::Seed),
            generated: true
        })
    );
    let read = Config::read_layers("base", "chain", None, None, &vec![]).unwrap();
    assert_eq!(read.config, Config::new("base", "chain".to_string(), TendermintMode::Full));
}

#[test]
fn replace_guard() {
    let c = Config::new("base", "chain".to_string(), TendermintMode::Full);
    let refusal = Refusal {
        error: Error::AlreadyExistingConfig("base/chain/config.toml".to_string()),
        note: None,
    };
    assert_eq!(c.write("base", "chain", true, false), Err(refusal.clone()));
    assert_eq!(
        Config::generate("base", "chain", TendermintMode::Full, true, false),
        Err(refusal)
    );
}

#[test]
fn duplicate_write() {
    let (config, plan) =
        Config::generate("/tmp/x", "chain", TendermintMode::Full, false, true).unwrap();
    assert_eq!(plan.dir, "/tmp/x/chain");
    assert_eq!(plan.path, "/tmp/x/chain/config.toml");
    assert_eq!(parse_document(&plan.text), Ok(config.to_tree()));
    assert_eq!(Ok(plan.text.clone()), write_document(&config.to_tree()));
    assert_eq!(
        config.write("/tmp/x", "chain", true, false),
        Err(Refusal {
            error: Error::AlreadyExistingConfig("/tmp/x/chain/config.toml".to_string()),
            note: None
        })
    );
    assert_eq!(config.write("/tmp/x", "chain", true, true), Ok(plan));
    assert!(config.write("/tmp/x", "chain", false, false).is_ok());
}

#[test]
fn env_override() {
    let (_, plan) = Config::generate("base", "chain", TendermintMode::Full, false, true).unwrap();
    let vars = vec![var("HOME", "/root"), var("ANOMA__LEDGER__TENDERMINT__P2P_PEX", "false")];
    let read = Config::read("base", "chain", None, Some(&plan.text), &vars).unwrap();
    assert!(!read.generated);
    assert!(!read.config.ledger.tendermint.p2p_pex);
    let mut want = Config::new("base", "chain".to_string(), TendermintMode::Full);
    want.ledger.tendermint.p2p_pex = false;
    assert_eq!(read.config, want);
}

#[test]
fn a_malformed_setting_fails_the_reading() {
    let vars = vec![var("ANOMA__LEDGER__TENDERMINT__P2P_PEX", "maybe")];
    assert_eq!(
        Config::read_layers("base", "chain", None, Some(&Datum::Table(vec![])), &vars),
        Err(Error::DeserializationError("ledger.tendermint.p2p_pex".to_string()))
    );
    let file = Datum::single(&path(&["ledger"]), 0, Datum::Integer(1));
    assert_eq!(
        Config::read_layers("base", "chain", None, Some(&file), &vec![]),
        Err(Error::DeserializationError("ledger".to_string()))
    );
}

#[test]
fn the_mode_of_the_file_wins_over_the_mode_asked_for() {
    let (_, plan) = Config::generate("base", "chain", TendermintMode::Seed, false, true).unwrap();
    let read = Config::read(
        "base",
        "chain",
        Some(TendermintMode::Validator),
        Some(&plan.text),
        &vec![],
    )
    .unwrap();
    assert_eq!(read.config.ledger.tendermint.tendermint_mode, TendermintMode::Seed);
}

#[test]
fn loading_says_where_the_configuration_was_loaded_from() {
    let mut moved = Config::new("/old/place", "chain".to_string(), TendermintMode::Full);
    moved.ledger.tendermint.p2p_pex = false;
    let loaded = Config::load("/new/place", Ok(moved.clone())).unwrap();
    assert_eq!(loaded.ledger.shell.base_dir, "/new/place");
    let mut want = moved;
    want.ledger.shell.base_dir = "/new/place".to_string();
    assert_eq!(loaded, want);
}

#[test]
fn a_failed_load_is_put_in_words() {
    assert_eq!(
        Config::load("/base", Err(Error::DeserializationError("wasm_dir".to_string()))),
        Err("Tried to read config in /base but failed with: Error while deserializing config: \
             wasm_dir"
            .to_string())
    );
}

#[test]
fn field_ordering_invariant() {
    let broken = Datum::Table(vec![
        ("nested".to_string(), Datum::Table(vec![("i".to_string(), Datum::Integer(1))])),
        ("simple".to_string(), Datum::Integer(1)),
    ]);
    assert_eq!(
        check_writable(&broken),
        Err(Refusal {
            error: Error::TomlError("values must be emitted before tables".to_string()),
            note: Some(VALUE_AFTER_TABLE_ERROR_MSG),
        })
    );
    assert_eq!(write_document(&broken), check_writable(&broken).map(|_| String::new()));
    let theirs = toml::ser::Error::ValueAfterTable.to_string();
    assert_eq!(theirs, "values must be emitted before tables");
    let c = Config::new("base", "chain".to_string(), TendermintMode::Full);
    assert_eq!(check_writable(&c.to_tree()), Ok(()));
    assert!(VALUE_AFTER_TABLE_ERROR_MSG.contains("nested structure is followed\n by simple fields"));
}

#[test]
fn every_error_is_put_in_words() {
    let cases = [
        (Error::ReadError("x".to_string()), "Error while reading config: x"),
        (Error::DeserializationError("x".to_string()), "Error while deserializing config: x"),
        (Error::TomlError("x".to_string()), "Error while serializing to toml: x"),
        (Error::WriteError("x".to_string()), "Error while writing config: x"),
        (Error::AlreadyExistingConfig("p".to_string()), "A config file already exists in p"),
        (
            Error::BadBootstrapPeerFormat("p".to_string()),
            "Bootstrap peer p is not valid. Format needs to be \
             {protocol}/{ip}/tcp/{port}/p2p/{peerid}",
        ),
    ];
    for (error, text) in cases {
        assert_eq!(error.to_text(), text);
    }
}

#[test]
fn a_file_that_is_no_toml_fails_the_reading() {
    let theirs = "ledger = [".parse::<toml::Value>().unwrap_err().to_string();
    assert_eq!(
        Config::read("base", "chain", None, Some("ledger = ["), &vec![]),
        Err(Error::ReadError(theirs))
    );
    assert!(matches!(
        Config::read("base", "chain", None, Some("a = 1\na = 2"), &vec![]),
        Err(Error::ReadError(_))
    ));
}

#[test]
fn a_file_is_laid_over_the_defaults_key_by_key() {
    let file = "[ledger.shell]\nledger_address = \"1.2.3.4:1000\"\n\n[intent_gossiper]\n\
                subscription_filter = [\"asset_v0\", \"asset_v1\"]\n";
    let read = Config::read("base", "chain", None, Some(file), &vec![]).unwrap();
    let mut want = Config::new("base", "chain".to_string(), TendermintMode::Full);
    want.ledger.shell.ledger_address = SocketAddress::new(1, 2, 3, 4, 1000);
    want.intent_gossiper.subscription_filter = anoma_config::filter::SubscriptionFilter::WhitelistFilter(
        vec!["asset_v0".to_string(), "asset_v1".to_string()],
    );
    assert_eq!(read, Read { config: want, generated: false });
    let empty = Config::read("base", "chain", None, Some(""), &vec![]).unwrap();
    assert_eq!(empty.config, Config::new("base", "chain".to_string(), TendermintMode::Full));
}

#[test]
fn a_ledger_without_a_name_or_a_time_is_refused() {
    let failure = |file: &str| match Config::read("base", "chain", None, Some(file), &vec![]) {
        Err(Error::DeserializationError(name)) => name,
        other => panic!("{:?}", other),
    };
    assert_eq!(failure("[ledger]\nchain_id = \"\""), "ledger.chain_id");
    assert_eq!(failure("[ledger]\ngenesis_time = \"yesterday\""), "ledger.genesis_time");
    assert_eq!(failure("[ledger]\ngenesis_time = \"1970-02-30T00:00:00Z\""), "ledger.genesis_time");
    let ok = Config::read(
        "base",
        "chain",
        None,
        Some("[ledger]\ngenesis_time = \"2021-09-30T10:00:00.5+02:00\"\nchain_id = \"other\""),
        &vec![],
    )
    .unwrap();
    assert_eq!(ok.config.ledger.genesis_time, "2021-09-30T10:00:00.5+02:00");
    assert_eq!(ok.config.ledger.chain_id, "other");
}

#[test]
fn a_configuration_that_toml_cannot_hold_is_not_written() {
    let mut c = Config::new("base", "chain".to_string(), TendermintMode::Full);
    c.ledger.shell.block_cache_bytes = Some(u64::MAX);
    assert_eq!(
        c.write("base", "chain", false, false),
        Err(Refusal {
            error: Error::TomlError(
                "the document holds an integer beyond 64 bits or a table that names a part twice"
                    .to_string()
            ),
            note: None
        })
    );
    c.ledger.shell.block_cache_bytes = Some(i64::MAX as u64);
    assert!(c.write("base", "chain", false, false).is_ok());
}
