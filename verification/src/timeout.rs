//! Consensus timeouts, read from their `<n>s` / `<n>ms` writing.

use vstd::prelude::*;
use crate::text::{
    append_decimal, append_str, bounded_number, decimal, digits_value, is_digit, lemma_decimal,
};

verus! {

/// A span of time: whole seconds and the nanoseconds beyond them.
#[derive(Clone, Copy, Debug, PartialEq, Eq, Structural)]
pub struct Timeout {
    pub secs: u64,
    pub nanos: u32,
}

/// The number that a text writes for a reader of unsigned 64-bit numbers:
/// ASCII digits, at least one, with or without a `+` before them, and
/// worth no more than the largest such number.
pub open spec fn unsigned(text: Seq<char>) -> Option<nat> {
    if text.len() > 0 && text[0] == '+' {
        bounded_number(text.skip(1), u64::MAX as nat)
    } else {
        bounded_number(text, u64::MAX as nat)
    }
}

/// The timeout that a text writes, as seconds and the nanoseconds beyond
/// them: a number and `s` for seconds, a number and `ms` for
/// milliseconds. Any other text writes none.
pub open spec fn timeout_of(text: Seq<char>) -> Option<(u64, u32)> {
    let n = text.len() as int;
    if n < 2 || text[n - 1] != 's' {
        None
    } else if text[n - 2] == 'm' {
        match unsigned(text.take(n - 2)) {
            Some(v) => Some(((v / 1000) as u64, ((v % 1000) * 1_000_000) as u32)),
            None => None,
        }
    } else if is_digit(text[n - 2]) {
        match unsigned(text.take(n - 1)) {
            Some(v) => Some((v as u64, 0u32)),
            None => None,
        }
    } else {
        None
    }
}

/// Reads a timeout with `tendermint::Timeout::from_str` and hands back its
/// seconds and sub-second nanoseconds. That reader takes a text that ends
/// in `s`; where an `m` stands before the `s` the unit is milliseconds,
/// where a digit stands there it is seconds, and what stands before the
/// unit is read as an unsigned 64-bit number. It refuses every other
/// text, and with it every text that holds a character outside ASCII.
#[verifier::external_body]
fn read_timeout(text: &str) -> (r: Option<(u64, u32)>)
    ensures
        r == timeout_of(text@),
{
    text.parse::<tendermint::Timeout>().ok().map(|t| (t.as_secs(), t.subsec_nanos()))
}

impl Timeout {
    /// The whole span in milliseconds, fractions dropped.
    pub open spec fn millis(&self) -> nat {
        (self.secs as nat) * 1000 + (self.nanos as nat) / 1_000_000
    }

    /// The writing of the span: its milliseconds in decimal and `ms`.
    pub open spec fn text(&self) -> Seq<char> {
        decimal(self.millis()) + seq!['m', 's']
    }

    /// The span is a whole number of milliseconds, no more than a 64-bit
    /// number of them, and its nanoseconds stay below a second.
    pub open spec fn whole_millis(&self) -> bool {
        &&& self.nanos < 1_000_000_000
        &&& self.nanos % 1_000_000 == 0
        &&& self.millis() <= u64::MAX
    }

    /// Reads a timeout; `None` where the text writes none.
    pub fn parse(text: &str) -> (r: Option<Timeout>)
        ensures
            r == match timeout_of(text@) {
                Some((secs, nanos)) => Some(Timeout { secs, nanos }),
                None => None,
            },
    {
        match read_timeout(text) {
            Some((secs, nanos)) => Some(Timeout { secs, nanos }),
            None => None,
        }
    }

    /// Writes the timeout out in milliseconds.
    pub fn to_text(&self) -> (r: String)
        ensures
            r@ == self.text(),
    {
        let ms: u128 = (self.secs as u128) * 1000 + (self.nanos as u128) / 1_000_000;
        let mut out = String::new();
        append_decimal(&mut out, ms);
        append_str(&mut out, "ms");
        proof {
            reveal_strlit("ms");
            assert("ms"@ =~= seq!['m', 's']);
            assert(out@ =~= self.text());
        }
        out
    }

    /// One second, read from its writing `1s`.
    pub fn one_second() -> (r: Timeout)
        ensures
            r == (Timeout { secs: 1, nanos: 0 }),
    {
        proof {
            reveal_strlit("1s");
            let t = "1s"@;
            assert(t.len() == 2 && t[0] == '1' && t[1] == 's');
            let digits = t.take(1);
            assert(digits =~= seq!['1']);
            assert(digits.drop_last() =~= Seq::<char>::empty());
            assert(digits_value(digits.drop_last()) == 0);
            assert(digits_value(digits) == 1);
            assert(is_digit(digits[0]));
            assert(timeout_of(t) == Some((1u64, 0u32)));
        }
        match Timeout::parse("1s") {
            Some(t) => t,
            None => Timeout { secs: 1, nanos: 0 },
        }
    }
}

/// A timeout of whole milliseconds is read back from its own writing.
pub proof fn lemma_timeout_round_trip(t: Timeout)
    requires
        t.whole_millis(),
    ensures
        timeout_of(t.text()) == Some((t.secs, t.nanos)),
{
    let ms = t.millis();
    let digits = decimal(ms);
    let text = t.text();
    lemma_decimal(ms);
    let n = text.len() as int;
    assert(text[n - 1] == 's');
    assert(text[n - 2] == 'm');
    assert(text.take(n - 2) =~= digits);
    assert(is_digit(digits[0]));
    assert(unsigned(digits) == Some(ms));
    assert(ms / 1000 == t.secs);
    assert((ms % 1000) * 1_000_000 == t.nanos);
}

} // verus!
