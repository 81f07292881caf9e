use anoma_config::timeout::Timeout;
use std::time::Duration;

#[test]
fn seconds_and_milliseconds_are_read() {
    assert_eq!(Timeout::parse("1s"), Some(Timeout { secs: 1, nanos: 0 }));
    assert_eq!(Timeout::parse("123s"), Some(Timeout { secs: 123, nanos: 0 }));
    assert_eq!(Timeout::parse("0s"), Some(Timeout { secs: 0, nanos: 0 }));
    assert_eq!(
        Timeout::parse("300ms"),
        Some(Timeout { secs: 0, nanos: 300_000_000 })
    );
    assert_eq!(
        Timeout::parse("1500ms"),
        Some(Timeout { secs: 1, nanos: 500_000_000 })
    );
    assert_eq!(
        Timeout::parse("18446744073709551615s"),
        Some(Timeout { secs: u64::MAX, nanos: 0 })
    );
}

#[test]
fn other_texts_are_no_timeouts() {
    for text in [
        "", "s", "ms", "+s", "+ms", "1", "1m", "1h", "abc", "1.5s", "18446744073709551616s", "-1s",
        "++1s", "1 s", " 1s", "1S", "1Ms", "\u{ff11}s", "1\u{b5}s", "\u{e9}1s", "1s\u{e9}",
        "18446744073709551616ms",
    ] {
        assert_eq!(Timeout::parse(text), None, "{:?}", text);
    }
}

#[test]
fn a_plus_and_zeros_may_stand_before_the_number() {
    assert_eq!(Timeout::parse("+5s"), Some(Timeout { secs: 5, nanos: 0 }));
    assert_eq!(Timeout::parse("+0007ms"), Some(Timeout { secs: 0, nanos: 7_000_000 }));
    assert_eq!(Timeout::parse("000s"), Some(Timeout { secs: 0, nanos: 0 }));
    assert_eq!(
        Timeout::parse("18446744073709551615ms"),
        Some(Timeout { secs: 18446744073709551, nanos: 615_000_000 })
    );
}

#[test]
fn the_default_timeout_is_one_second() {
    assert_eq!(Timeout::one_second(), Timeout { secs: 1, nanos: 0 });
}

#[test]
fn timeouts_are_written_in_milliseconds() {
    assert_eq!(Timeout { secs: 1, nanos: 0 }.to_text(), "1000ms");
    assert_eq!(Timeout { secs: 0, nanos: 1_999_999 }.to_text(), "1ms");
    assert_eq!(Timeout { secs: 2, nanos: 500_000_000 }.to_text(), "2500ms");
    assert_eq!(
        Timeout { secs: u64::MAX, nanos: 999_999_999 }.to_text(),
        "18446744073709551615999ms"
    );
}

#[test]
fn timeouts_are_written_as_the_consensus_engine_writes_them() {
    for (secs, nanos) in [(1u64, 0u32), (0, 5_000_000), (77, 123_000_000), (3, 999)] {
        let theirs = tendermint::Timeout::from(Duration::new(secs, nanos));
        assert_eq!(Timeout { secs, nanos }.to_text(), theirs.to_string());
    }
}

#[test]
fn a_written_timeout_of_whole_milliseconds_is_read_back() {
    for t in [
        Timeout { secs: 1, nanos: 0 },
        Timeout { secs: 0, nanos: 7_000_000 },
        Timeout { secs: 86_400, nanos: 250_000_000 },
    ] {
        assert_eq!(Timeout::parse(&t.to_text()), Some(t));
    }
}
