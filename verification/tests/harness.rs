use anoma_config::harness::command::{
    artifacts, command_line, failed_at_start, keep_temp, launcher, log_path, run_cmd,
    spawn_failure, start_failure, Artifacts, Bin, Network, Test, TestDir, Who, APPS_PACKAGE, ENV_VAR_DEBUG,
    ENV_VAR_KEEP_TEMP, ENV_VAR_USE_PREBUILT_BINARIES,
};
use anoma_config::harness::constants::{ALBERT, TX_TRANSFER_WASM, VP_ALWAYS_FALSE_WASM, XAN};
use anoma_config::harness::genesis::{
    add_validators, find_validator, validator_alias, GenesisConfig, ValidatorConfig,
};
use anoma_config::harness::network::{
    copy_wasm_to_chain_dir, derived_chain_id, init_network, network_files, wallet_move,
    wasm_files, CHAIN_ID_PATTERN, SINGLE_NODE_NET_GENESIS,
};
use anoma_config::harness::session::{
    exited_with_success, reader_step, trim_text, AbortSignal, AnomaCmd, Exit, Farewell,
    ReaderAction, Seen,
};
use anoma_config::value::Datum;

fn strings(v: &[&str]) -> Vec<String> {
    v.iter().map(|s| s.to_string()).collect()
}

fn validator_0(address: &str) -> ValidatorConfig {
    ValidatorConfig {
        intent_gossip_seed: None,
        matchmaker_account: Some("matchmaker".to_string()),
        matchmaker_code: Some("wasm/mm.wasm".to_string()),
        matchmaker_tx: Some("wasm/tx.wasm".to_string()),
        net_address: Some(address.to_string()),
        other: Datum::Table(vec![("tokens".to_string(), Datum::Integer(200000))]),
    }
}

fn genesis(address: &str) -> GenesisConfig {
    GenesisConfig {
        validator: vec![("validator-0".to_string(), validator_0(address))],
        other: Datum::Table(vec![("genesis_time".to_string(), Datum::Text("now".to_string()))]),
    }
}

fn test_in(dir: &str) -> Test {
    Test {
        working_dir: "/repo".to_string(),
        test_dir: TestDir::new(dir.to_string(), false),
        net: Network { chain_id: "e2e-test.abc".to_string() },
        genesis: genesis("127.0.0.1:27656"),
    }
}

#[test]
fn validator_multiplication() {
    let g = add_validators(2, genesis("127.0.0.1:26656"));
    let aliases: Vec<&str> = g.validator.iter().map(|(a, _)| a.as_str()).collect();
    assert_eq!(aliases, ["validator-0", "validator-1", "validator-2"]);
    let first = &g.validator[0].1;
    assert_eq!(first.intent_gossip_seed, Some(true));
    assert_eq!(first.matchmaker_account, None);
    assert_eq!(first.matchmaker_code, None);
    assert_eq!(first.matchmaker_tx, None);
    assert_eq!(first.net_address.as_deref(), Some("127.0.0.1:26656"));
    assert_eq!(first.other, validator_0("x").other);
    for (k, port) in [(1usize, "127.0.0.1:26662"), (2, "127.0.0.1:26668")] {
        let mut want = validator_0(port);
        want.intent_gossip_seed = None;
        assert_eq!(g.validator[k].1, want);
    }
    assert_eq!(g.other, genesis("x").other);
}

#[test]
fn add_two_validators() {
    let g = add_validators(2, genesis("127.0.0.1:26656"));
    let ports: Vec<String> = g
        .validator
        .iter()
        .map(|(_, v)| v.net_address.clone().unwrap().rsplit(':').next().unwrap().to_string())
        .collect();
    assert_eq!(ports, ["26656", "26662", "26668"]);
}

#[test]
fn adding_no_validator_still_makes_the_first_one_the_seed() {
    let g = add_validators(0, genesis("10.1.2.3:1"));
    assert_eq!(g.validator.len(), 1);
    assert_eq!(g.validator[0].1.intent_gossip_seed, Some(true));
    assert_eq!(g.validator[0].1.matchmaker_tx, None);
}

#[test]
fn a_validator_that_is_there_already_is_replaced_in_its_place() {
    let mut g = genesis("10.0.0.1:100");
    g.validator.insert(0, ("validator-2".to_string(), validator_0("9.9.9.9:9")));
    g.validator.push(("other".to_string(), validator_0("8.8.8.8:8")));
    let g = add_validators(3, g);
    let seen: Vec<(String, String)> = g
        .validator
        .iter()
        .map(|(a, v)| (a.clone(), v.net_address.clone().unwrap()))
        .collect();
    let want: Vec<(String, String)> = [
        ("validator-2", "10.0.0.1:112"),
        ("validator-0", "10.0.0.1:100"),
        ("other", "8.8.8.8:8"),
        ("validator-1", "10.0.0.1:106"),
        ("validator-3", "10.0.0.1:118"),
    ]
    .iter()
    .map(|(a, b)| (a.to_string(), b.to_string()))
    .collect();
    assert_eq!(seen, want);
}

#[test]
fn validators_can_be_added_where_the_first_one_says_where_it_listens() {
    assert!(genesis("127.0.0.1:26656").can_add_validators(255));
    assert!(genesis("127.0.0.1:64005").can_add_validators(255));
    assert!(!genesis("127.0.0.1:64006").can_add_validators(255));
    assert!(genesis("127.0.0.1:65535").can_add_validators(0));
    assert!(!genesis("127.0.0.1:65535").can_add_validators(1));
    assert!(!genesis("localhost:26656").can_add_validators(1));
    let mut g = genesis("127.0.0.1:26656");
    g.validator[0].1.net_address = None;
    assert!(!g.can_add_validators(1));
    g.validator[0].0 = "validator-1".to_string();
    assert!(!g.can_add_validators(1));
    assert_eq!(find_validator(&g.validator, "validator-1"), 0);
    assert_eq!(find_validator(&g.validator, "validator-0"), 1);
    assert_eq!(validator_alias(0), "validator-0");
    assert_eq!(validator_alias(12), "validator-12");
}

#[test]
fn the_names_of_the_programs_and_the_modes() {
    assert_eq!(Bin::Node.to_str(), "namadan");
    assert_eq!(Bin::Client.to_str(), "namadac");
    assert_eq!(Bin::Wallet.to_str(), "namadaw");
    assert_eq!(Who::NonValidator.to_mode(), "full");
    assert_eq!(Who::Validator(3).to_mode(), "validator");
    assert_eq!(APPS_PACKAGE, "namada_apps");
    assert_eq!(ENV_VAR_DEBUG, "ANOMA_E2E_DEBUG");
    assert_eq!(ENV_VAR_KEEP_TEMP, "ANOMA_E2E_KEEP_TEMP");
    assert_eq!(ENV_VAR_USE_PREBUILT_BINARIES, "ANOMA_E2E_USE_PREBUILT_BINARIES");
    assert_eq!(SINGLE_NODE_NET_GENESIS, "genesis/e2e-tests-single-node.toml");
}

#[test]
fn temporary_files_are_kept_unless_the_variable_says_false() {
    assert!(!keep_temp(None));
    assert!(!keep_temp(Some("false")));
    assert!(!keep_temp(Some("FALSE")));
    assert!(!keep_temp(Some("False")));
    assert!(keep_temp(Some("true")));
    assert!(keep_temp(Some("")));
    assert!(keep_temp(Some("0")));
    assert!(keep_temp(Some("false ")));
}

#[test]
fn the_programs_come_from_release_builds_by_default() {
    assert_eq!(artifacts(None, None), Artifacts::Release);
    assert_eq!(artifacts(Some("false"), None), Artifacts::Release);
    assert_eq!(artifacts(Some("1"), None), Artifacts::Release);
    assert_eq!(artifacts(Some("true"), None), Artifacts::Debug);
    assert_eq!(artifacts(Some("TRUE"), None), Artifacts::Debug);
    assert_eq!(artifacts(Some("true"), Some("/bin")), Artifacts::Prebuilt("/bin".to_string()));
    assert_eq!(artifacts(None, Some("")), Artifacts::Prebuilt("".to_string()));
}

#[test]
fn a_program_is_started_prebuilt_or_through_cargo() {
    assert_eq!(
        launcher(&Artifacts::Prebuilt("/opt/bin".to_string()), "/repo/Cargo.toml", Bin::Node),
        ("/opt/bin/namadan".to_string(), vec![])
    );
    assert_eq!(
        launcher(&Artifacts::Release, "/repo/Cargo.toml", Bin::Client),
        (
            "cargo".to_string(),
            strings(&[
                "run",
                "--manifest-path",
                "/repo/Cargo.toml",
                "--package",
                "namada_apps",
                "--bin",
                "namadac",
                "--release",
                "--"
            ])
        )
    );
    assert_eq!(
        launcher(&Artifacts::Debug, "m", Bin::Wallet),
        (
            "cargo".to_string(),
            strings(&["run", "--manifest-path", "m", "--package", "namada_apps", "--bin", "namadaw", "--"])
        )
    );
}

#[test]
fn a_test_directory_tells_when_it_is_kept() {
    let kept = TestDir::new("/tmp/x".to_string(), true);
    assert_eq!(kept, TestDir::Retained("/tmp/x".to_string()));
    assert_eq!(kept.path(), "/tmp/x");
    assert_eq!(kept.notice(), Some("Keeping test directory at: \"/tmp/x\"".to_string()));
    let gone = TestDir::new("/tmp/y".to_string(), false);
    assert_eq!(gone, TestDir::Temporary("/tmp/y".to_string()));
    assert_eq!(gone.path(), "/tmp/y");
    assert_eq!(gone.notice(), None);
}

#[test]
fn the_base_directory_depends_on_who_runs_the_command() {
    let t = test_in("/tmp/t");
    assert_eq!(t.get_base_dir(&Who::NonValidator), "/tmp/t");
    assert_eq!(
        t.get_base_dir(&Who::Validator(0)),
        "/tmp/t/e2e-test.abc/setup/validator-0/.anoma"
    );
    assert_eq!(
        t.get_base_dir(&Who::Validator(17)),
        "/tmp/t/e2e-test.abc/setup/validator-17/.anoma"
    );
}

#[test]
fn a_command_gets_the_base_directory_and_the_mode_first() {
    let c = run_cmd(
        Bin::Node,
        &strings(&["ledger", "run"]),
        Some(40),
        "/repo",
        "/tmp/t",
        "full",
        "tests/x.rs:10".to_string(),
    );
    assert_eq!(c.bin, Bin::Node);
    assert_eq!(c.manifest_path, "/repo/Cargo.toml");
    assert_eq!(c.current_dir, "/repo");
    assert_eq!(c.base_dir, "/tmp/t");
    assert_eq!(c.args, ["--base-dir", "/tmp/t", "--mode", "full", "ledger", "run"]);
    let env: Vec<(&str, &str)> = c.env.iter().map(|(k, v)| (k.as_str(), v.as_str())).collect();
    assert_eq!(
        env,
        [("ANOMA_LOG", "info"), ("TM_LOG_LEVEL", "info"), ("ANOMA_LOG_COLOR", "false")]
    );
    assert_eq!(c.timeout_sec, Some(40));
    assert_eq!(c.loc, "tests/x.rs:10");
    let none = run_cmd(Bin::Wallet, &vec![], None, "w", "b", "validator", "".to_string());
    assert_eq!(none.args, ["--base-dir", "b", "--mode", "validator"]);
    assert_eq!(none.timeout_sec, None);
}

#[test]
fn a_test_runs_commands_on_its_own_directories() {
    let t = test_in("/tmp/t");
    let c = t.run_cmd(Bin::Client, &strings(&["balance"]), None, "here".to_string());
    assert_eq!(c.args, ["--base-dir", "/tmp/t", "--mode", "full", "balance"]);
    assert_eq!(c.current_dir, "/repo");
    let c = t.run_cmd_as(Who::Validator(1), Bin::Node, &strings(&["ledger"]), Some(1), "l".to_string());
    assert_eq!(
        c.args,
        [
            "--base-dir",
            "/tmp/t/e2e-test.abc/setup/validator-1/.anoma",
            "--mode",
            "validator",
            "ledger"
        ]
    );
    assert_eq!(c.bin, Bin::Node);
    assert_eq!(c.timeout_sec, Some(1));
}

#[test]
fn the_command_line_is_shown_with_single_spaces() {
    assert_eq!(command_line("cargo", &strings(&["run", "--", "x y"])), "cargo run -- x y");
    assert_eq!(command_line("namadan", &strings(&["a"])), "namadan a");
    assert_eq!(command_line("namadan", &vec![]), "namadan ");
    assert_eq!(command_line("p", &strings(&["", ""])), "p  ");
}

#[test]
fn the_log_file_is_named_after_time_program_and_a_random_number() {
    assert_eq!(
        log_path("/tmp/t", 1651234567890123, Bin::Node, 42),
        "/tmp/t/logs/1651234567890123-namadan-42.log"
    );
    assert_eq!(log_path("b/", 0, Bin::Client, u64::MAX), "b/logs/0-namadac-18446744073709551615.log");
}

#[test]
fn only_a_node_that_exited_with_an_error_has_failed_at_its_start() {
    assert!(failed_at_start(Bin::Node, Some(1)));
    assert!(failed_at_start(Bin::Node, Some(-1)));
    assert!(!failed_at_start(Bin::Node, Some(0)));
    assert!(!failed_at_start(Bin::Node, None));
    assert!(!failed_at_start(Bin::Client, Some(1)));
    assert!(!failed_at_start(Bin::Wallet, Some(1)));
}

#[test]
fn failures_to_run_name_the_command_and_the_place() {
    assert_eq!(
        spawn_failure("namadan x", "t.rs:1", "not found"),
        "\n\nFailed to run: namadan x\nLocation: t.rs:1\nError: not found"
    );
    assert_eq!(
        start_failure("namadan x", "t.rs:1", Ok("boom".to_string())),
        "\n\nFailed to run: namadan x\nLocation: t.rs:1 \n\nOutput: boom"
    );
    assert_eq!(
        start_failure("namadan x", "t.rs:1", Err("eof".to_string())),
        "\n\nFailed to run: namadan x\nLocation: t.rs:1 \n\nOutput: No output found, error: eof"
    );
}

#[test]
fn the_files_of_a_network() {
    let f = network_files("/repo", "/tmp/t");
    assert_eq!(f.genesis_source, "/repo/genesis/e2e-tests-single-node.toml");
    assert_eq!(f.genesis_file, "/tmp/t/e2e-test-genesis-src.toml");
    assert_eq!(f.checksums, "/repo/wasm/checksums.json");
    assert_eq!(
        wallet_move("/tmp/t/chain"),
        (
            "/tmp/t/chain/setup/other/wallet.toml".to_string(),
            "/tmp/t/chain/wallet.toml".to_string()
        )
    );
}

#[test]
fn the_call_that_initialises_a_network() {
    let c = init_network("/repo", "/tmp/t", "/tmp/t/g.toml", "/repo/wasm/checksums.json", None, "l".to_string());
    assert_eq!(c.bin, Bin::Client);
    assert_eq!(c.timeout_sec, Some(5));
    assert_eq!(c.current_dir, "/repo");
    assert_eq!(
        c.args,
        [
            "--base-dir",
            "/tmp/t",
            "--mode",
            "validator",
            "utils",
            "init-network",
            "--unsafe-dont-encrypt",
            "--genesis-path",
            "/tmp/t/g.toml",
            "--chain-prefix",
            "e2e-test",
            "--localhost",
            "--dont-archive",
            "--allow-duplicate-ip",
            "--wasm-checksums-path",
            "/repo/wasm/checksums.json",
        ]
    );
    let c = init_network("/repo", "/tmp/t", "g", "c", Some("2s"), "l".to_string());
    assert_eq!(c.args.len(), 18);
    assert_eq!(c.args[16..], ["--consensus-timeout-commit", "2s"]);
}

#[test]
fn the_name_of_the_chain_is_read_from_the_line_that_announces_it() {
    assert_eq!(
        derived_chain_id("Derived chain ID: e2e-test.6b8d1a4c0e7f\n"),
        Some("e2e-test.6b8d1a4c0e7f".to_string())
    );
    assert_eq!(
        derived_chain_id("  Derived chain ID:   e2e-test.x  \r\n"),
        Some("e2e-test.x".to_string())
    );
    assert_eq!(
        derived_chain_id("x Derived chain ID: a Derived chain ID: b"),
        Some("a Derived chain ID: b".to_string())
    );
    assert_eq!(derived_chain_id("Derived chain ID: \n"), None);
    assert_eq!(derived_chain_id("Derived chain ID:  \n x"), Some("x".to_string()));
    assert_eq!(derived_chain_id("Derived chain id: x"), None);
    assert_eq!(derived_chain_id(""), None);
    let re = regex::Regex::new(CHAIN_ID_PATTERN).unwrap();
    let out = "Building...\nDerived chain ID: e2e-test.abc\nDone\n";
    let matched = re.find(out).unwrap().as_str();
    assert_eq!(derived_chain_id(matched), Some("e2e-test.abc".to_string()));
    assert!(regex::Regex::new("^e2e-test\\..+").unwrap().is_match("e2e-test.abc"));
}

#[test]
fn wasm_programs_are_told_by_their_extension() {
    let files = strings(&[
        "/repo/wasm/tx_transfer.wasm",
        "/repo/wasm/checksums.json",
        "/repo/wasm/.wasm",
        "/repo/wasm/vp_user.abc.wasm",
        "/repo/wasm/readme.wasm.md",
        "plain.wasm",
        "/repo/wasm/upper.WASM",
        "/repo/wasm.d/noext",
        "/repo/wasm/..wasm",
    ]);
    assert_eq!(
        wasm_files(&files),
        ["tx_transfer.wasm", "vp_user.abc.wasm", "plain.wasm", "..wasm"]
    );
    for f in &files {
        let p = std::path::Path::new(f);
        let theirs = p.extension().and_then(|e| e.to_str()) == Some("wasm");
        assert_eq!(wasm_files(&vec![f.clone()]).len() == 1, theirs, "{}", f);
    }
    assert!(wasm_files(&vec![]).is_empty());
}

#[test]
fn wasm_programs_are_copied_to_the_chain_and_to_every_validator() {
    let plan = copy_wasm_to_chain_dir(
        "/repo",
        "/tmp/t/chain",
        "chain",
        &strings(&["validator-0", "validator-1"]),
        &strings(&["a.wasm", "b.wasm"]),
    )
    .unwrap();
    let want: Vec<(String, String)> = [
        ("/repo/wasm/a.wasm", "/tmp/t/chain/wasm/a.wasm"),
        ("/repo/wasm/b.wasm", "/tmp/t/chain/wasm/b.wasm"),
        ("/repo/wasm/a.wasm", "/tmp/t/chain/setup/validator-0/.anoma/chain/wasm/a.wasm"),
        ("/repo/wasm/b.wasm", "/tmp/t/chain/setup/validator-0/.anoma/chain/wasm/b.wasm"),
        ("/repo/wasm/a.wasm", "/tmp/t/chain/setup/validator-1/.anoma/chain/wasm/a.wasm"),
        ("/repo/wasm/b.wasm", "/tmp/t/chain/setup/validator-1/.anoma/chain/wasm/b.wasm"),
    ]
    .iter()
    .map(|(a, b)| (a.to_string(), b.to_string()))
    .collect();
    assert_eq!(plan, want);
    let plan = copy_wasm_to_chain_dir("/repo", "/c", "id", &vec![], &strings(&["a.wasm"]));
    assert_eq!(plan, Ok(vec![("/repo/wasm/a.wasm".to_string(), "/c/wasm/a.wasm".to_string())]));
}

#[test]
fn without_wasm_programs_there_is_nothing_to_copy() {
    assert_eq!(
        copy_wasm_to_chain_dir("/repo", "/c", "id", &strings(&["validator-0"]), &vec![]),
        Err("No WASM files found in /repo/wasm. Please build or download them them first."
            .to_string())
    );
}

fn cmd() -> AnomaCmd {
    AnomaCmd {
        cmd_str: "namadan ledger".to_string(),
        log_path: "/tmp/t/logs/1-namadan-2.log".to_string(),
        loc: "tests/x.rs:10".to_string(),
    }
}

const SHOWN: &str = "namadan ledger\nLogs: /tmp/t/logs/1-namadan-2.log\nLocation: tests/x.rs:10";

fn found(before: &str, matched: &str) -> Seen {
    Seen::Match { before: Ok(before.to_string()), matched: Ok(matched.to_string()) }
}

#[test]
fn a_command_is_shown_with_its_logs_and_its_place() {
    assert_eq!(cmd().to_text(), SHOWN);
}

#[test]
fn waiting_for_a_text() {
    assert_eq!(cmd().exp_string("ready", found("starting\n", "ready")), Ok("starting\n".to_string()));
    assert_eq!(
        cmd().exp_string("ready", Seen::Nothing),
        Err(format!("Expected needle not found\nCommand: {}\n Needle: ready", SHOWN))
    );
    assert_eq!(
        cmd().exp_string("ready", Seen::Failed("timed out".to_string())),
        Err(format!("timed out\nCommand: {}\n Needle: ready", SHOWN))
    );
    let bad = Seen::Match { before: Err("invalid utf-8".to_string()), matched: Ok("r".to_string()) };
    assert_eq!(
        cmd().exp_string("ready", bad),
        Err(format!("Error: invalid utf-8\nCommand: {}", SHOWN))
    );
}

#[test]
fn expect_timeout() {
    let report = cmd()
        .exp_string("never", Seen::Failed("Reached a timeout for expect type of command".to_string()))
        .unwrap_err();
    assert!(report.contains("tests/x.rs:10"));
    assert!(report.contains("namadan ledger"));
    assert!(report.contains("never"));
}

#[test]
fn waiting_for_a_pattern() {
    assert_eq!(
        cmd().exp_regex("a.*", found("x", "abc")),
        Ok(("x".to_string(), "abc".to_string()))
    );
    assert_eq!(
        cmd().exp_regex("a.*", Seen::Nothing),
        Err(format!("Expected regex not found: a.*\nCommand: {}", SHOWN))
    );
    assert_eq!(
        cmd().exp_regex("a.*", Seen::Failed("eof".to_string())),
        Err(format!("Error: eof\nCommand: {}", SHOWN))
    );
    let bad_before = Seen::Match { before: Err("b".to_string()), matched: Err("m".to_string()) };
    assert_eq!(cmd().exp_regex("a.*", bad_before), Err(format!("Error: b\nCommand: {}", SHOWN)));
    let bad_match = Seen::Match { before: Ok("x".to_string()), matched: Err("m".to_string()) };
    assert_eq!(cmd().exp_regex("a.*", bad_match), Err(format!("Error: m\nCommand: {}", SHOWN)));
}

#[test]
fn waiting_for_the_end() {
    assert_eq!(cmd().exp_eof(found("rest", "")), Ok("rest".to_string()));
    assert_eq!(cmd().exp_eof(Seen::Nothing), Err(format!("Expected EOF\nCommand: {}", SHOWN)));
    assert_eq!(
        cmd().exp_eof(Seen::Failed("io".to_string())),
        Err(format!("Error: io\nCommand: {}", SHOWN))
    );
    assert_eq!(cmd().send_failure("broken pipe"), format!("Error: broken pipe\nCommand: {}", SHOWN));
}

#[test]
fn letting_a_command_go() {
    assert_eq!(
        cmd().farewell(Err("timeout".to_string())),
        Farewell::Unfinished { cmd: "namadan ledger".to_string(), error: "timeout".to_string() }
    );
    assert_eq!(
        cmd().farewell(Ok("\n  some output \n".to_string())),
        Farewell::Unread { cmd: "namadan ledger".to_string(), output: "some output".to_string() }
    );
    assert_eq!(
        cmd().farewell(Ok(" \r\n\t".to_string())),
        Farewell::Clean { cmd: "namadan ledger".to_string() }
    );
    assert_eq!(cmd().farewell(Ok("".to_string())), Farewell::Clean { cmd: "namadan ledger".to_string() });
    assert_eq!(trim_text("  a b \n"), "a b");
}

#[test]
fn success_is_an_exit_with_zero() {
    assert!(exited_with_success(Exit::Exited(0)));
    assert!(!exited_with_success(Exit::Exited(1)));
    assert!(!exited_with_success(Exit::Exited(-1)));
    assert!(!exited_with_success(Exit::Other));
}

#[test]
fn the_reader_in_the_background_stops_when_told_or_left_alone() {
    assert_eq!(reader_step(AbortSignal::Abort), ReaderAction::Finish);
    assert_eq!(reader_step(AbortSignal::Disconnected), ReaderAction::Finish);
    assert_eq!(reader_step(AbortSignal::Empty), ReaderAction::Probe);
}

#[test]
fn a_genesis_document_is_read_from_its_tree_and_written_back() {
    let entry = |k: &str, v: Datum| (k.to_string(), v);
    let text = |s: &str| Datum::Text(s.to_string());
    let doc = Datum::Table(vec![
        entry("genesis_time", text("2021-09-30T10:00:00Z")),
        entry(
            "validator",
            Datum::Table(vec![entry(
                "validator-0",
                Datum::Table(vec![
                    entry("tokens", Datum::Integer(200000)),
                    entry("net_address", text("127.0.0.1:27656")),
                    entry("matchmaker_account", text("matchmaker")),
                    entry("intent_gossip_seed", Datum::Boolean(false)),
                    entry("keys", Datum::Table(vec![entry("consensus", text("k"))])),
                ]),
            )]),
        ),
        entry("token", Datum::Table(vec![entry("XAN", Datum::Table(vec![]))])),
    ]);
    let g = GenesisConfig::from_tree(&doc).unwrap();
    assert_eq!(
        g.other,
        Datum::Table(vec![
            entry("genesis_time", text("2021-09-30T10:00:00Z")),
            entry("token", Datum::Table(vec![entry("XAN", Datum::Table(vec![]))])),
        ])
    );
    assert_eq!(g.validator.len(), 1);
    assert_eq!(g.validator[0].0, "validator-0");
    let v = &g.validator[0].1;
    assert_eq!(v.intent_gossip_seed, Some(false));
    assert_eq!(v.matchmaker_account.as_deref(), Some("matchmaker"));
    assert_eq!(v.matchmaker_code, None);
    assert_eq!(v.matchmaker_tx, None);
    assert_eq!(v.net_address.as_deref(), Some("127.0.0.1:27656"));
    assert_eq!(
        v.other,
        Datum::Table(vec![
            entry("tokens", Datum::Integer(200000)),
            entry("keys", Datum::Table(vec![entry("consensus", text("k"))])),
        ])
    );
    let written = g.to_tree();
    assert_eq!(
        written,
        Datum::Table(vec![
            entry("genesis_time", text("2021-09-30T10:00:00Z")),
            entry("token", Datum::Table(vec![entry("XAN", Datum::Table(vec![]))])),
            entry(
                "validator",
                Datum::Table(vec![entry(
                    "validator-0",
                    Datum::Table(vec![
                        entry("intent_gossip_seed", Datum::Boolean(false)),
                        entry("matchmaker_account", text("matchmaker")),
                        entry("net_address", text("127.0.0.1:27656")),
                        entry("tokens", Datum::Integer(200000)),
                        entry("keys", Datum::Table(vec![entry("consensus", text("k"))])),
                    ]),
                )]),
            ),
        ])
    );
    assert_eq!(GenesisConfig::from_tree(&written), Some(g.clone()));
    let more = add_validators(1, g);
    let again = GenesisConfig::from_tree(&more.to_tree()).unwrap();
    assert_eq!(again, more);
    assert!(more.to_tree().is_ordered());
}

#[test]
fn what_is_no_genesis_document_is_not_read() {
    let entry = |k: &str, v: Datum| (k.to_string(), v);
    assert_eq!(GenesisConfig::from_tree(&Datum::Integer(1)), None);
    assert_eq!(GenesisConfig::from_tree(&Datum::Table(vec![])), None);
    let bad_validators = Datum::Table(vec![entry("validator", Datum::Array(vec![]))]);
    assert_eq!(GenesisConfig::from_tree(&bad_validators), None);
    let bad_entry = Datum::Table(vec![entry(
        "validator",
        Datum::Table(vec![entry("validator-0", Datum::Integer(1))]),
    )]);
    assert_eq!(GenesisConfig::from_tree(&bad_entry), None);
    let bad_address = Datum::Table(vec![entry(
        "validator",
        Datum::Table(vec![entry(
            "validator-0",
            Datum::Table(vec![entry("net_address", Datum::Integer(1))]),
        )]),
    )]);
    assert_eq!(GenesisConfig::from_tree(&bad_address), None);
    let none = Datum::Table(vec![entry("validator", Datum::Table(vec![]))]);
    assert_eq!(
        GenesisConfig::from_tree(&none),
        Some(GenesisConfig { validator: vec![], other: Datum::Table(vec![]) })
    );
    assert_eq!(ValidatorConfig::from_tree(&Datum::Table(vec![])).unwrap().net_address, None);
}

#[test]
fn the_names_that_tests_refer_to() {
    assert_eq!(ALBERT, "Albert");
    assert_eq!(XAN, "XAN");
    assert_eq!(TX_TRANSFER_WASM, "wasm/tx_transfer.wasm");
    assert_eq!(VP_ALWAYS_FALSE_WASM, "wasm_for_tests/vp_always_false.wasm");
}

#[test]
fn every_validator_has_a_configuration_file_of_its_own() {
    let t = test_in("/tmp/t");
    let files: Vec<String> = (0..=2u64)
        .map(|k| {
            anoma_config::config::Config::file_path(
                &t.get_base_dir(&Who::Validator(k)),
                "e2e-test.abc",
            )
        })
        .collect();
    assert_eq!(
        files,
        vec![
            "/tmp/t/e2e-test.abc/setup/validator-0/.anoma/e2e-test.abc/config.toml",
            "/tmp/t/e2e-test.abc/setup/validator-1/.anoma/e2e-test.abc/config.toml",
            "/tmp/t/e2e-test.abc/setup/validator-2/.anoma/e2e-test.abc/config.toml",
        ]
    );
    for j in 0..40u64 {
        for k in 0..j {
            assert_ne!(
                anoma_config::config::Config::file_path(&t.get_base_dir(&Who::Validator(j)), "c"),
                anoma_config::config::Config::file_path(&t.get_base_dir(&Who::Validator(k)), "c")
            );
        }
    }
}
