//! Names that the tests of a network refer to.

use vstd::prelude::*;

verus! {

/// Aliases of the addresses of users.
pub const ALBERT: &'static str = "Albert";

pub const ALBERT_KEY: &'static str = "Albert-key";

pub const BERTHA: &'static str = "Bertha";

pub const BERTHA_KEY: &'static str = "Bertha-key";

pub const CHRISTEL: &'static str = "Christel";

pub const CHRISTEL_KEY: &'static str = "Christel-key";

pub const DAEWON: &'static str = "Daewon";

pub const MATCHMAKER_KEY: &'static str = "matchmaker-key";

/// Aliases of native validity predicates.
pub const GOVERNANCE_ADDRESS: &'static str = "governance";

/// Addresses of fungible tokens.
pub const XAN: &'static str = "XAN";

pub const BTC: &'static str = "BTC";

pub const ETH: &'static str = "ETH";

pub const DOT: &'static str = "DOT";

/// Bite-sized tokens.
pub const SCHNITZEL: &'static str = "Schnitzel";

pub const APFEL: &'static str = "Apfel";

pub const KARTOFFEL: &'static str = "Kartoffel";

/// Paths of the WASM programs that the tests use, under the working
/// directory.
pub const TX_TRANSFER_WASM: &'static str = "wasm/tx_transfer.wasm";

pub const VP_USER_WASM: &'static str = "wasm/vp_user.wasm";

pub const TX_NO_OP_WASM: &'static str = "wasm_for_tests/tx_no_op.wasm";

pub const TX_INIT_PROPOSAL: &'static str = "wasm_for_tests/tx_init_proposal.wasm";

pub const TX_WRITE_STORAGE_KEY_WASM: &'static str = "wasm_for_tests/tx_write_storage_key.wasm";

pub const VP_ALWAYS_TRUE_WASM: &'static str = "wasm_for_tests/vp_always_true.wasm";

pub const VP_ALWAYS_FALSE_WASM: &'static str = "wasm_for_tests/vp_always_false.wasm";

pub const TX_MINT_TOKENS_WASM: &'static str = "wasm_for_tests/tx_mint_tokens.wasm";

pub const TX_PROPOSAL_CODE: &'static str = "wasm_for_tests/tx_proposal_code.wasm";

} // verus!
