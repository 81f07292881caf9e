use anoma_config::document::{parse_document, write_document, Refusal};
use anoma_config::error::Error;
use anoma_config::value::Datum;

fn text(s: &str) -> Datum {
    Datum::Text(s.to_string())
}

fn table(entries: Vec<(&str, Datum)>) -> Datum {
    Datum::Table(entries.into_iter().map(|(k, v)| (k.to_string(), v)).collect())
}

#[test]
fn a_toml_text_is_read_into_a_document() {
    let doc = parse_document(
        "b = true\na = -7\ns = \"x\"\nl = [\"p\", \"q\"]\n\n[t]\nz = 1\ny = 2\n\n[t.u]\n",
    );
    assert_eq!(
        doc,
        Ok(table(vec![
            ("b", Datum::Boolean(true)),
            ("a", Datum::Integer(-7)),
            ("s", text("x")),
            ("l", Datum::Array(vec![text("p"), text("q")])),
            (
                "t",
                table(vec![("z", Datum::Integer(1)), ("y", Datum::Integer(2)), ("u", table(vec![]))])
            ),
        ]))
    );
    assert_eq!(parse_document(""), Ok(table(vec![])));
}

#[test]
fn numbers_with_a_fraction_and_dates_come_over_as_text() {
    assert_eq!(
        parse_document("f = 1.5\nd = 1979-05-27T07:32:00Z"),
        Ok(table(vec![("f", text("1.5")), ("d", text("1979-05-27T07:32:00Z"))]))
    );
}

#[test]
fn what_is_no_toml_is_a_read_error_with_the_readers_message() {
    for bad in ["a = ", "[t", "a = 1\na = 2", "just words"] {
        let theirs = bad.parse::<toml::Value>().unwrap_err().to_string();
        assert_eq!(parse_document(bad), Err(Error::ReadError(theirs)), "{:?}", bad);
    }
}

#[test]
fn a_document_is_written_out_as_toml() {
    let doc = table(vec![
        ("s", text("x")),
        ("n", Datum::Integer(i64::MIN as i128)),
        ("t", table(vec![("b", Datum::Boolean(false))])),
    ]);
    let written = write_document(&doc).unwrap();
    assert_eq!(written, "s = \"x\"\nn = -9223372036854775808\n\n[t]\nb = false\n");
    assert_eq!(parse_document(&written), Ok(doc));
}

#[test]
fn a_document_that_toml_cannot_hold_is_not_written() {
    let unfit = Refusal {
        error: Error::TomlError(
            "the document holds an integer beyond 64 bits or a table that names a part twice"
                .to_string(),
        ),
        note: None,
    };
    let big = table(vec![("n", Datum::Integer(i64::MAX as i128 + 1))]);
    assert_eq!(write_document(&big), Err(unfit.clone()));
    let small = table(vec![("l", Datum::Array(vec![Datum::Integer(i64::MIN as i128 - 1)]))]);
    assert_eq!(write_document(&small), Err(unfit.clone()));
    let twice = table(vec![("t", table(vec![("a", text("x")), ("b", text("y")), ("a", text("z"))]))]);
    assert_eq!(write_document(&twice), Err(unfit));
    assert!(!big.fits() && !twice.fits());
    assert!(table(vec![("n", Datum::Integer(i64::MAX as i128))]).fits());
}

#[test]
fn the_writer_decides_on_what_toml_can_hold() {
    let mixed = toml::Value::Array(vec![toml::Value::Integer(1), toml::Value::String("x".to_string())]);
    let mut theirs = toml::value::Table::new();
    theirs.insert("l".to_string(), mixed);
    let ours = table(vec![("l", Datum::Array(vec![Datum::Integer(1), text("x")]))]);
    match toml::to_string(&toml::Value::Table(theirs)) {
        Ok(written) => assert_eq!(write_document(&ours), Ok(written)),
        Err(e) => assert_eq!(
            write_document(&ours),
            Err(Refusal { error: Error::TomlError(e.to_string()), note: None })
        ),
    }
    assert_eq!(write_document(&Datum::Integer(1)), toml::to_string(&toml::Value::Integer(1)).map_err(
        |e| Refusal { error: Error::TomlError(e.to_string()), note: None }
    ));
}

#[test]
fn a_plain_value_after_a_table_is_not_written() {
    let refusal = Refusal {
        error: Error::TomlError(toml::ser::Error::ValueAfterTable.to_string()),
        note: Some(anoma_config::error::VALUE_AFTER_TABLE_ERROR_MSG),
    };
    let broken = table(vec![("t", table(vec![("b", Datum::Boolean(false))])), ("s", text("x"))]);
    assert!(!broken.is_ordered());
    assert_eq!(write_document(&broken), Err(refusal.clone()));
    let deeper = table(vec![("s", text("x")), ("t", table(vec![("u", table(vec![])), ("n", Datum::Integer(1))]))]);
    assert_eq!(write_document(&deeper), Err(refusal.clone()));
    let tables = table(vec![
        ("l", Datum::Array(vec![table(vec![("a", Datum::Integer(1))])])),
        ("n", Datum::Integer(1)),
    ]);
    assert_eq!(write_document(&tables), Err(refusal.clone()));
    let both = table(vec![("t", table(vec![])), ("n", Datum::Integer(i64::MAX as i128 + 1))]);
    assert_eq!(write_document(&both), Err(refusal));
    let mended = table(vec![("s", text("x")), ("t", table(vec![("b", Datum::Boolean(false))]))]);
    assert!(mended.is_ordered());
    assert_eq!(write_document(&mended), Ok("s = \"x\"\n\n[t]\nb = false\n".to_string()));
}
