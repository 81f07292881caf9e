//! Which gossip topics a node subscribes to.

use vstd::prelude::*;

verus! {

/// Whether the regular-expression engine accepts `pattern`.
pub uninterp spec fn regex_compiles(pattern: Seq<char>) -> bool;

/// Compiles `pattern` with `regex::Regex::new` and says whether that
/// succeeded. The answer depends on the pattern alone.
#[verifier::external_body]
fn pattern_compiles(pattern: &str) -> (r: bool)
    ensures
        r == regex_compiles(pattern@),
{
    regex::Regex::new(pattern).is_ok()
}

/// A filter on topic names: a regular expression that a topic has to
/// match, or the list of the topics that pass.
#[derive(Clone, Debug, PartialEq, Eq)]
pub enum SubscriptionFilter {
    RegexFilter(String),
    WhitelistFilter(Vec<String>),
}

impl SubscriptionFilter {
    /// This filter is the regular expression `pattern`.
    pub open spec fn is_regex(&self, pattern: Seq<char>) -> bool {
        self matches SubscriptionFilter::RegexFilter(p) && p@ == pattern
    }

    /// This filter is the list `topics`.
    pub open spec fn is_whitelist(&self, topics: Seq<String>) -> bool {
        self matches SubscriptionFilter::WhitelistFilter(t) && t@ == topics
    }

    /// The filter that a single string stands for: the regular expression
    /// it writes, if the engine accepts it.
    pub fn from_pattern(pattern: String) -> (r: Option<SubscriptionFilter>)
        ensures
            regex_compiles(pattern@) ==> r is Some && r->Some_0.is_regex(pattern@),
            !regex_compiles(pattern@) ==> r is None,
    {
        if pattern_compiles(pattern.as_str()) {
            Some(SubscriptionFilter::RegexFilter(pattern))
        } else {
            None
        }
    }

    /// The filter that a list of strings stands for: the list itself.
    pub fn from_topics(topics: Vec<String>) -> (r: SubscriptionFilter)
        ensures
            r.is_whitelist(topics@),
    {
        SubscriptionFilter::WhitelistFilter(topics)
    }
}

} // verus!
