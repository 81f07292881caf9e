use anoma_config::value::Datum;

fn text(s: &str) -> Datum {
    Datum::Text(s.to_string())
}

fn table(entries: Vec<(&str, Datum)>) -> Datum {
    Datum::Table(entries.into_iter().map(|(k, v)| (k.to_string(), v)).collect())
}

fn path(names: &[&str]) -> Vec<String> {
    names.iter().map(|s| s.to_string()).collect()
}

#[test]
fn copy_gives_an_equal_tree() {
    let doc = table(vec![
        ("a", Datum::Integer(1)),
        ("b", Datum::Array(vec![text("x"), Datum::Boolean(true)])),
        ("c", table(vec![("d", table(vec![]))])),
    ]);
    assert_eq!(doc.copy(), doc);
}

#[test]
fn get_finds_the_first_entry_of_a_name() {
    let doc = table(vec![("a", Datum::Integer(1)), ("b", text("x")), ("a", Datum::Integer(2))]);
    assert_eq!(doc.get("a"), Some(&Datum::Integer(1)));
    assert_eq!(doc.get("b"), Some(&text("x")));
    assert_eq!(doc.get("c"), None);
    assert_eq!(text("x").get("a"), None);
}

#[test]
fn lookup_follows_a_path_through_tables() {
    let doc = table(vec![("ledger", table(vec![("shell", table(vec![("x", Datum::Integer(3))]))]))]);
    assert_eq!(doc.lookup(&path(&["ledger", "shell", "x"])), Some(&Datum::Integer(3)));
    assert_eq!(doc.lookup(&path(&[])), Some(&doc));
    assert_eq!(doc.lookup(&path(&["ledger", "x"])), None);
    assert_eq!(doc.lookup(&path(&["ledger", "shell", "x", "y"])), None);
}

#[test]
fn merge_lays_tables_over_tables_name_by_name() {
    let base = table(vec![
        ("a", Datum::Integer(1)),
        ("t", table(vec![("x", text("old")), ("y", text("kept"))])),
        ("z", Datum::Boolean(false)),
    ]);
    let over = table(vec![
        ("new", text("n")),
        ("t", table(vec![("x", text("new")), ("w", Datum::Integer(9))])),
        ("a", Datum::Integer(2)),
    ]);
    assert_eq!(
        base.merge(&over),
        table(vec![
            ("a", Datum::Integer(2)),
            ("t", table(vec![("x", text("new")), ("y", text("kept")), ("w", Datum::Integer(9))])),
            ("z", Datum::Boolean(false)),
            ("new", text("n")),
        ])
    );
}

#[test]
fn merge_replaces_what_is_no_table() {
    let t = table(vec![("x", Datum::Integer(1))]);
    assert_eq!(t.merge(&Datum::Integer(5)), Datum::Integer(5));
    assert_eq!(Datum::Integer(5).merge(&t), t);
    let list = Datum::Array(vec![text("a"), text("b")]);
    assert_eq!(list.merge(&Datum::Array(vec![text("c")])), Datum::Array(vec![text("c")]));
    assert_eq!(t.merge(&table(vec![])), t);
    assert_eq!(table(vec![]).merge(&t), t);
}

#[test]
fn merging_a_document_with_itself_changes_nothing() {
    let doc = table(vec![
        ("a", Datum::Integer(1)),
        ("t", table(vec![("x", text("old")), ("y", Datum::Array(vec![text("k")]))])),
    ]);
    assert_eq!(doc.merge(&doc), doc);
}

#[test]
fn single_nests_one_table_per_name() {
    assert_eq!(
        Datum::single(&path(&["a", "b", "c"]), 0, Datum::Integer(1)),
        table(vec![("a", table(vec![("b", table(vec![("c", Datum::Integer(1))]))]))])
    );
    assert_eq!(
        Datum::single(&path(&["a", "b", "c"]), 2, Datum::Integer(1)),
        table(vec![("c", Datum::Integer(1))])
    );
    assert_eq!(Datum::single(&path(&["a"]), 1, Datum::Integer(1)), Datum::Integer(1));
}

#[test]
fn plain_values_have_to_come_before_nested_ones() {
    let good = table(vec![
        ("simple", Datum::Integer(1)),
        ("list", Datum::Array(vec![text("a")])),
        ("nested", table(vec![("i", Datum::Integer(1))])),
        ("tables", Datum::Array(vec![table(vec![])])),
    ]);
    assert!(good.is_ordered());
    let broken = table(vec![
        ("nested", table(vec![("i", Datum::Integer(1))])),
        ("simple", Datum::Integer(1)),
    ]);
    assert!(!broken.is_ordered());
    let deep = table(vec![("a", Datum::Integer(1)), ("b", table(vec![("c", broken)]))]);
    assert!(!deep.is_ordered());
    let in_list = Datum::Array(vec![table(vec![
        ("t", table(vec![])),
        ("v", Datum::Boolean(true)),
    ])]);
    assert!(!in_list.is_ordered());
    assert!(Datum::Integer(1).is_ordered());
    assert!(table(vec![]).is_nested());
    assert!(!Datum::Array(vec![]).is_nested());
    assert!(!Datum::Array(vec![text("a"), table(vec![])]).is_nested());
}

#[test]
fn texts_are_made_into_values() {
    assert_eq!(Datum::text("x"), text("x"));
    assert_eq!(
        Datum::texts(&vec!["a".to_string(), "b".to_string()]),
        Datum::Array(vec![text("a"), text("b")])
    );
}
