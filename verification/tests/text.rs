use anoma_config::text::{
    decimal_string, find_last, find_text, from_chars, lower_chars, parse_number, same_text,
    to_chars, trim_range,
};

#[test]
fn characters_go_to_a_vector_and_back() {
    let v = to_chars("héllo, wörld");
    assert_eq!(v.len(), 12);
    assert_eq!(v[1], 'é');
    assert_eq!(from_chars(&v), "héllo, wörld");
    assert_eq!(from_chars(&to_chars("")), "");
}

#[test]
fn same_text_compares_characters() {
    assert!(same_text("abc", "abc"));
    assert!(!same_text("abc", "abd"));
    assert!(!same_text("abc", "ab"));
    assert!(same_text("", ""));
}

#[test]
fn lower_chars_touches_ascii_letters_only() {
    assert_eq!(
        from_chars(&lower_chars(&to_chars("ANOMA__Ledger_Ä9"))),
        "anoma__ledger_Ä9"
    );
}

#[test]
fn numbers_are_written_in_decimal() {
    assert_eq!(decimal_string(0), "0");
    assert_eq!(decimal_string(7), "7");
    assert_eq!(decimal_string(10), "10");
    assert_eq!(decimal_string(26658), "26658");
    assert_eq!(
        decimal_string(u128::MAX),
        "340282366920938463463374607431768211455"
    );
}

#[test]
fn numbers_are_read_within_their_bound() {
    let v = to_chars("x65535y");
    assert_eq!(parse_number(&v, 1, 6, 65535), Some(65535));
    assert_eq!(parse_number(&v, 1, 6, 65534), None);
    assert_eq!(parse_number(&v, 1, 1, 65535), None);
    assert_eq!(parse_number(&v, 0, 6, 65535), None);
    let zeros = to_chars("0007");
    assert_eq!(parse_number(&zeros, 0, 4, 255), Some(7));
    let big = to_chars("18446744073709551616");
    assert_eq!(parse_number(&big, 0, big.len(), u64::MAX), None);
    let max = to_chars("18446744073709551615");
    assert_eq!(parse_number(&max, 0, max.len(), u64::MAX), Some(u64::MAX));
}

#[test]
fn trimming_agrees_with_the_standard_library() {
    for text in [
        "",
        " ",
        "a",
        "  a b  ",
        "\t\n x \r\n",
        "\u{a0}x\u{3000}",
        "\u{2003}Derived chain ID: e2e-test.abc \n",
        "   ",
        "x\u{200b}",
    ] {
        let v = to_chars(text);
        let (a, b) = trim_range(&v, 0, v.len());
        let got: String = v[a..b].iter().collect();
        assert_eq!(got, text.trim(), "{:?}", text);
    }
}

#[test]
fn searching_finds_the_first_and_the_last() {
    let v = to_chars("abc--abc--abc");
    let pat = to_chars("abc");
    assert_eq!(find_text(&v, 0, v.len(), &pat), Some(0));
    assert_eq!(find_text(&v, 1, v.len(), &pat), Some(5));
    assert_eq!(find_text(&v, 11, v.len(), &pat), None);
    assert_eq!(find_text(&v, 0, v.len(), &to_chars("x")), None);
    assert_eq!(find_text(&v, 3, v.len(), &to_chars("")), Some(3));
    assert_eq!(find_last(&v, 0, v.len(), '-'), Some(9));
    assert_eq!(find_last(&v, 0, 3, '-'), None);
    assert_eq!(find_last(&v, 0, 4, '-'), Some(3));
}
