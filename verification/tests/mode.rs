use anoma_config::mode::TendermintMode;

#[test]
fn modes_have_lower_case_tokens() {
    assert_eq!(TendermintMode::Full.to_str(), "full");
    assert_eq!(TendermintMode::Validator.to_str(), "validator");
    assert_eq!(TendermintMode::Seed.to_str(), "seed");
}

#[test]
fn tokens_are_read_back() {
    for mode in [TendermintMode::Full, TendermintMode::Validator, TendermintMode::Seed] {
        assert_eq!(TendermintMode::parse(mode.to_str()), Some(mode));
        assert_eq!(TendermintMode::from(mode.to_str().to_string()), mode);
    }
}

#[test]
fn other_tokens_name_no_mode() {
    for token in ["", "Full", "FULL", "full ", "validators", "seedy", "light"] {
        assert_eq!(TendermintMode::parse(token), None, "{:?}", token);
    }
}
