//! Network classes and protocol families of configured chains.

use vstd::prelude::*;
use crate::text::{chars_of, contains_chars, has_infix};

verus! {

/// The class a chain belongs to; it partitions all configured chains.
#[allow(non_camel_case_types)]
#[derive(Clone, Copy, Debug, PartialEq, Eq, Structural)]
pub enum NetworkType {
    MAINNET,
    TESTNET,
    LOCALNET,
}

/// The wire dialect a chain speaks.
#[allow(non_camel_case_types)]
#[derive(Clone, Copy, Debug, PartialEq, Eq, Structural)]
pub enum SupportedChains {
    ETHEREUM,
    ARBITRUM,
    SOLANA,
    STARKNET,
    BITCOIN,
}

/// The family of a chain identifier: the first of "arbitrum", "solana",
/// "starknet", "bitcoin" that occurs in it decides, and Ethereum-style is the
/// default.
pub open spec fn family_of(id: Seq<char>) -> SupportedChains {
    if has_infix(id, "arbitrum"@) {
        SupportedChains::ARBITRUM
    } else if has_infix(id, "solana"@) {
        SupportedChains::SOLANA
    } else if has_infix(id, "starknet"@) {
        SupportedChains::STARKNET
    } else if has_infix(id, "bitcoin"@) {
        SupportedChains::BITCOIN
    } else {
        SupportedChains::ETHEREUM
    }
}

/// Whether `marker` occurs in the identifier `id`.
fn mentions(id: &Vec<char>, marker: &str) -> (r: bool)
    ensures
        r == has_infix(id@, marker@),
{
    let pat = chars_of(marker);
    contains_chars(id, &pat)
}

/// Classifies a chain identifier by substring, in the precedence
/// ARBITRUM, SOLANA, STARKNET, BITCOIN, then ETHEREUM.
pub fn classify(chain: &str) -> (r: SupportedChains)
    ensures
        r == family_of(chain@),
{
    let id = chars_of(chain);
    if mentions(&id, "arbitrum") {
        SupportedChains::ARBITRUM
    } else if mentions(&id, "solana") {
        SupportedChains::SOLANA
    } else if mentions(&id, "starknet") {
        SupportedChains::STARKNET
    } else if mentions(&id, "bitcoin") {
        SupportedChains::BITCOIN
    } else {
        SupportedChains::ETHEREUM
    }
}

} // verus!
