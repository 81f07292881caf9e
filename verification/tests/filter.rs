use anoma_config::filter::SubscriptionFilter;

#[test]
fn a_pattern_that_compiles_is_a_regex_filter() {
    assert_eq!(
        SubscriptionFilter::from_pattern("asset_v\\d{1,2}".to_string()),
        Some(SubscriptionFilter::RegexFilter("asset_v\\d{1,2}".to_string()))
    );
    assert_eq!(
        SubscriptionFilter::from_pattern("".to_string()),
        Some(SubscriptionFilter::RegexFilter("".to_string()))
    );
}

#[test]
fn a_pattern_that_does_not_compile_is_no_filter() {
    for pattern in ["(", "a{2,1}", "[z-a]", "\\"] {
        assert_eq!(SubscriptionFilter::from_pattern(pattern.to_string()), None, "{}", pattern);
    }
}

#[test]
fn a_list_of_topics_is_a_whitelist_filter() {
    let topics = vec!["a".to_string(), "(".to_string()];
    assert_eq!(
        SubscriptionFilter::from_topics(topics.clone()),
        SubscriptionFilter::WhitelistFilter(topics)
    );
}
