//! The role a node plays towards the consensus engine.

use vstd::prelude::*;
use crate::text::same_text;

verus! {

/// How the consensus engine is run: as a full node, a validator or a seed.
#[derive(Clone, Copy, Debug, PartialEq, Eq, Structural)]
pub enum TendermintMode {
    Full,
    Validator,
    Seed,
}

/// The mode that a token names, if it names one.
pub open spec fn mode_of_token(token: Seq<char>) -> Option<TendermintMode> {
    if token == "full"@ {
        Some(TendermintMode::Full)
    } else if token == "validator"@ {
        Some(TendermintMode::Validator)
    } else if token == "seed"@ {
        Some(TendermintMode::Seed)
    } else {
        None
    }
}

impl TendermintMode {
    /// The lower-case token that stands for this mode in files and on
    /// command lines.
    pub open spec fn token(&self) -> Seq<char> {
        match *self {
            TendermintMode::Full => "full"@,
            TendermintMode::Validator => "validator"@,
            TendermintMode::Seed => "seed"@,
        }
    }

    /// The token of this mode.
    pub fn to_str(&self) -> (r: &str)
        ensures
            r@ == self.token(),
    {
        match *self {
            TendermintMode::Full => "full",
            TendermintMode::Validator => "validator",
            TendermintMode::Seed => "seed",
        }
    }

    /// Reads a mode token; any text but the three tokens gives `None`.
    pub fn parse(token: &str) -> (r: Option<TendermintMode>)
        ensures
            r == mode_of_token(token@),
    {
        if same_text(token, "full") {
            Some(TendermintMode::Full)
        } else if same_text(token, "validator") {
            Some(TendermintMode::Validator)
        } else if same_text(token, "seed") {
            Some(TendermintMode::Seed)
        } else {
            None
        }
    }

    /// The mode named by `mode`, which has to be one of the three tokens.
    pub fn from(mode: String) -> (r: TendermintMode)
        requires
            mode_of_token(mode@) is Some,
        ensures
            Some(r) == mode_of_token(mode@),
    {
        match TendermintMode::parse(mode.as_str()) {
            Some(m) => m,
            None => TendermintMode::Full,
        }
    }
}

/// Every mode is read back from its own token.
pub proof fn lemma_token_round_trip(mode: TendermintMode)
    ensures
        mode_of_token(mode.token()) == Some(mode),
{
    reveal_strlit("full");
    reveal_strlit("validator");
    reveal_strlit("seed");
    assert("full"@.len() == 4);
    assert("validator"@.len() == 9);
    assert("seed"@[0] == 's');
    assert("full"@[0] == 'f');
}

} // verus!
