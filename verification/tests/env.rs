use anoma_config::env::{layer, setting_of};
use anoma_config::value::Datum;

fn names(v: &[&str]) -> Option<Vec<String>> {
    Some(v.iter().map(|s| s.to_string()).collect())
}

fn table(entries: Vec<(&str, Datum)>) -> Datum {
    Datum::Table(entries.into_iter().map(|(k, v)| (k.to_string(), v)).collect())
}

fn var(name: &str, value: &str) -> (String, String) {
    (name.to_string(), value.to_string())
}

#[test]
fn a_variable_names_a_setting_by_its_path() {
    assert_eq!(
        setting_of("ANOMA__LEDGER__SHELL__LEDGER_ADDRESS"),
        names(&["ledger", "shell", "ledger_address"])
    );
    assert_eq!(
        setting_of("ANOMA__LEDGER__TENDERMINT__P2P_PEX"),
        names(&["ledger", "tendermint", "p2p_pex"])
    );
    assert_eq!(setting_of("anoma__Wasm_Dir"), names(&["wasm_dir"]));
    assert_eq!(setting_of("ANOMA__A___B"), names(&["a", "_b"]));
    assert_eq!(setting_of("ANOMA__A_B_C"), names(&["a_b_c"]));
}

#[test]
fn other_variables_name_no_setting() {
    for name in [
        "",
        "ANOMA",
        "ANOMA_",
        "ANOMA__",
        "ANOMA_LOG",
        "ANOMA_E2E_DEBUG",
        "ANOMA__LEDGER__",
        "ANOMA____X",
        "ANOMA__A____B",
        "XANOMA__A",
        "PATH",
        "TENDERMINT",
    ] {
        assert_eq!(setting_of(name), None, "{:?}", name);
    }
}

#[test]
fn the_layers_are_laid_over_each_other_in_their_order() {
    let defaults = table(vec![
        ("a", Datum::Integer(1)),
        ("t", table(vec![("x", Datum::Text("d".to_string())), ("y", Datum::Boolean(true))])),
    ]);
    let file = table(vec![("t", table(vec![("x", Datum::Text("f".to_string()))]))]);
    let none: Vec<(String, String)> = vec![];
    assert_eq!(
        layer(&defaults, &file, &none),
        table(vec![
            ("a", Datum::Integer(1)),
            ("t", table(vec![("x", Datum::Text("f".to_string())), ("y", Datum::Boolean(true))])),
        ])
    );
    let vars = vec![
        var("PATH", "/bin"),
        var("ANOMA__T__X", "e1"),
        var("ANOMA__T__Y", "false"),
        var("anoma__t__x", "e2"),
        var("ANOMA__NEW__LEAF", "n"),
    ];
    assert_eq!(
        layer(&defaults, &file, &vars),
        table(vec![
            ("a", Datum::Integer(1)),
            (
                "t",
                table(vec![
                    ("x", Datum::Text("e2".to_string())),
                    ("y", Datum::Text("false".to_string())),
                ])
            ),
            ("new", table(vec![("leaf", Datum::Text("n".to_string()))])),
        ])
    );
}
