use anoma_config::path::join;
use std::path::Path;

#[test]
fn join_puts_one_separator_between_the_parts() {
    assert_eq!(join(".anoma", "chain"), ".anoma/chain");
    assert_eq!(join("/tmp/x/", "chain"), "/tmp/x/chain");
    assert_eq!(join("", "chain"), "chain");
    assert_eq!(join("a", ""), "a/");
    assert_eq!(join("a", "/abs"), "/abs");
}

#[test]
fn join_agrees_with_the_standard_library() {
    for base in ["", "/", "a", "a/", "/a/b", "a//", ".anoma", "/tmp/.tmpX"] {
        for part in ["", "b", "/b", "b/c", "config.toml", "wasm/checksums.json", "é"] {
            let want = Path::new(base).join(part);
            assert_eq!(join(base, part), want.to_str().unwrap(), "{:?} {:?}", base, part);
        }
    }
}
