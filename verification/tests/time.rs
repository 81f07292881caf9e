use anoma_config::time::rfc3339;

#[test]
fn points_in_time_are_told_by_their_writing() {
    for text in [
        "1970-01-01T00:00:00Z",
        "2021-09-30T10:00:00Z",
        "2021-09-30t10:00:00z",
        "2021-09-30T10:00:00.5Z",
        "2021-09-30T10:00:00.123456789+02:00",
        "2021-09-30T23:59:60-23:59",
        "2020-02-29T00:00:00Z",
        "2000-02-29T00:00:00Z",
        "0000-01-31T00:00:00+00:00",
    ] {
        assert!(rfc3339(text), "{}", text);
    }
}

#[test]
fn other_texts_are_no_points_in_time() {
    for text in [
        "",
        "yesterday",
        "1970-01-01",
        "1970-01-01T00:00:00",
        "1970-01-01 00:00:00Z",
        "1970-01-01T00:00:00.Z",
        "1970-01-01T00:00:00ZZ",
        "1970-01-01T00:00:00+0200",
        "1970-01-01T00:00:00+24:00",
        "1970-01-01T00:00:00+02:60",
        "1970-01-01T24:00:00Z",
        "1970-01-01T00:60:00Z",
        "1970-01-01T00:00:61Z",
        "1970-00-01T00:00:00Z",
        "1970-13-01T00:00:00Z",
        "1970-01-00T00:00:00Z",
        "1970-01-32T00:00:00Z",
        "1970-04-31T00:00:00Z",
        "1970-02-29T00:00:00Z",
        "1900-02-29T00:00:00Z",
        "70-01-01T00:00:00Z",
        "1970-1-01T00:00:00Z",
        "1970/01/01T00:00:00Z",
        " 1970-01-01T00:00:00Z",
        "1970-01-01T00:00:00Z ",
        "1970-01-01T00:00:0\u{661}Z",
    ] {
        assert!(!rfc3339(text), "{:?}", text);
    }
}
