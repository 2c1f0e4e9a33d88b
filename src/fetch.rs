//! What is asked of an endpoint, and how its answer becomes a height.

use vstd::prelude::*;
use crate::chain::{NetworkType, SupportedChains};
use crate::json::{json_member, json_string, json_unsigned, member_text, string_text, unsigned_text};
use crate::number::{decimal_height, hex_height, parse_decimal_height, parse_hex_height};
use crate::text::chars_of;

verus! {

/// The request a height is fetched with, and how its answer is read.
#[allow(non_camel_case_types)]
#[derive(Clone, Copy, Debug, PartialEq, Eq, Structural)]
pub enum FetchKind {
    /// `eth_blockNumber`; `result` holds the height as hexadecimal text.
    EthereumBlockNumber,
    /// `eth_getBlockByNumber` of the latest block; `result.l1BlockNumber`
    /// holds the anchoring L1 height as hexadecimal text.
    ArbitrumL1BlockNumber,
    /// `getSlot` at confirmed commitment; `result` is an unsigned integer.
    SolanaSlot,
    /// `starknet_blockNumber`; `result` is an unsigned integer.
    StarknetBlockNumber,
    /// A plain GET of `<endpoint>/blocks/tip/height`; the body is decimal text.
    BitcoinTipHeight,
}

/// How a chain of family `family` in class `class` is asked for its height:
/// Arbitrum on a local network has no L1 anchor and is asked as Ethereum is.
pub open spec fn kind_of(family: SupportedChains, class: NetworkType) -> FetchKind {
    match family {
        SupportedChains::ETHEREUM => FetchKind::EthereumBlockNumber,
        SupportedChains::ARBITRUM => if class == NetworkType::LOCALNET {
            FetchKind::EthereumBlockNumber
        } else {
            FetchKind::ArbitrumL1BlockNumber
        },
        SupportedChains::SOLANA => FetchKind::SolanaSlot,
        SupportedChains::STARKNET => FetchKind::StarknetBlockNumber,
        SupportedChains::BITCOIN => FetchKind::BitcoinTipHeight,
    }
}

/// Picks the request for a chain of family `family` in class `class`.
pub fn fetch_kind(family: SupportedChains, class: NetworkType) -> (r: FetchKind)
    ensures
        r == kind_of(family, class),
{
    match family {
        SupportedChains::ETHEREUM => FetchKind::EthereumBlockNumber,
        SupportedChains::ARBITRUM => if class == NetworkType::LOCALNET {
            FetchKind::EthereumBlockNumber
        } else {
            FetchKind::ArbitrumL1BlockNumber
        },
        SupportedChains::SOLANA => FetchKind::SolanaSlot,
        SupportedChains::STARKNET => FetchKind::StarknetBlockNumber,
        SupportedChains::BITCOIN => FetchKind::BitcoinTipHeight,
    }
}

/// The JSON-RPC body posted for `kind`; `None` for the REST request.
pub open spec fn payload_of(kind: FetchKind) -> Option<Seq<char>> {
    match kind {
        FetchKind::EthereumBlockNumber => Some(
            "{\"jsonrpc\":\"2.0\",\"id\":1,\"method\":\"eth_blockNumber\",\"params\":[]}"@,
        ),
        FetchKind::ArbitrumL1BlockNumber => Some(
            "{\"jsonrpc\":\"2.0\",\"id\":1,\"method\":\"eth_getBlockByNumber\",\"params\":[\"latest\",false]}"@,
        ),
        FetchKind::SolanaSlot => Some(
            "{\"jsonrpc\":\"2.0\",\"id\":1,\"method\":\"getSlot\",\"params\":[{\"commitment\":\"confirmed\"}]}"@,
        ),
        FetchKind::StarknetBlockNumber => Some(
            "{\"jsonrpc\":\"2.0\",\"id\":1,\"method\":\"starknet_blockNumber\",\"params\":[]}"@,
        ),
        FetchKind::BitcoinTipHeight => None,
    }
}

/// The JSON-RPC body to post for `kind`, or `None` where a plain GET is made.
pub fn rpc_payload(kind: FetchKind) -> (r: Option<&'static str>)
    ensures
        match r {
            Some(t) => payload_of(kind) == Some(t@),
            None => payload_of(kind) is None,
        },
{
    match kind {
        FetchKind::EthereumBlockNumber => Some(
            "{\"jsonrpc\":\"2.0\",\"id\":1,\"method\":\"eth_blockNumber\",\"params\":[]}",
        ),
        FetchKind::ArbitrumL1BlockNumber => Some(
            "{\"jsonrpc\":\"2.0\",\"id\":1,\"method\":\"eth_getBlockByNumber\",\"params\":[\"latest\",false]}",
        ),
        FetchKind::SolanaSlot => Some(
            "{\"jsonrpc\":\"2.0\",\"id\":1,\"method\":\"getSlot\",\"params\":[{\"commitment\":\"confirmed\"}]}",
        ),
        FetchKind::StarknetBlockNumber => Some(
            "{\"jsonrpc\":\"2.0\",\"id\":1,\"method\":\"starknet_blockNumber\",\"params\":[]}",
        ),
        FetchKind::BitcoinTipHeight => None,
    }
}

/// The address of a Bitcoin endpoint's tip height: `<endpoint>/blocks/tip/height`.
pub fn tip_height_url(endpoint: &str) -> (r: String)
    ensures
        r@ == endpoint@ + "/blocks/tip/height"@,
{
    let base = String::from_str(endpoint);
    base.concat("/blocks/tip/height")
}

/// The height that `text` writes as a JSON string of hexadecimal digits.
pub open spec fn hex_string_height(text: Option<Seq<char>>) -> Option<u64> {
    match text {
        Some(t) => match json_string(t) {
            Some(s) => hex_height(s),
            None => None,
        },
        None => None,
    }
}

/// The height in an answer `body` to a request of kind `kind`.
pub open spec fn height_in(kind: FetchKind, body: Seq<char>) -> Option<u64> {
    match kind {
        FetchKind::EthereumBlockNumber => hex_string_height(json_member(body, "result"@)),
        FetchKind::ArbitrumL1BlockNumber => match json_member(body, "result"@) {
            Some(r) => hex_string_height(json_member(r, "l1BlockNumber"@)),
            None => None,
        },
        FetchKind::SolanaSlot | FetchKind::StarknetBlockNumber => match json_member(
            body,
            "result"@,
        ) {
            Some(r) => json_unsigned(r),
            None => None,
        },
        FetchKind::BitcoinTipHeight => decimal_height(body),
    }
}

/// Reads the height out of an optional JSON text holding a string of
/// hexadecimal digits.
pub fn hex_string_text_height(text: Option<String>) -> (r: Option<u64>)
    ensures
        r == hex_string_height(crate::json::opt_text(text)),
{
    match text {
        Some(t) => match string_text(t.as_str()) {
            Some(s) => {
                let cs = chars_of(s.as_str());
                parse_hex_height(&cs)
            },
            None => None,
        },
        None => None,
    }
}

/// Reads the height out of the answer `body` to a request of kind `kind`.
pub fn decode_height(kind: FetchKind, body: &str) -> (r: Option<u64>)
    ensures
        r == height_in(kind, body@),
{
    match kind {
        FetchKind::EthereumBlockNumber => hex_string_text_height(member_text(body, "result")),
        FetchKind::ArbitrumL1BlockNumber => match member_text(body, "result") {
            Some(res) => hex_string_text_height(member_text(res.as_str(), "l1BlockNumber")),
            None => None,
        },
        FetchKind::SolanaSlot | FetchKind::StarknetBlockNumber => match member_text(
            body,
            "result",
        ) {
            Some(res) => unsigned_text(res.as_str()),
            None => None,
        },
        FetchKind::BitcoinTipHeight => {
            let cs = chars_of(body);
            parse_decimal_height(&cs)
        },
    }
}

/// Why one attempt at one endpoint gave no height.
#[derive(Clone, Copy, Debug, PartialEq, Eq, Structural)]
pub enum FetchErrorKind {
    /// The connection could not be made or broke off.
    Transport,
    /// No answer came within the time allowed.
    Timeout,
    /// The answer's status was outside 200 to 299.
    HttpStatus(u16),
    /// The answer's body held no height where one was expected.
    Decode,
}

/// A failed attempt, with the chain and endpoint it was made for.
#[derive(Clone, Debug)]
pub struct FetchError {
    pub kind: FetchErrorKind,
    pub chain: String,
    pub endpoint: String,
}

/// What came back from one request, as the transport saw it.
#[derive(Clone, Debug)]
pub enum HttpOutcome {
    Transport,
    Timeout,
    Response { status: u16, body: String },
}

/// The result of one attempt: the height, or why there is none.
pub open spec fn attempt_result(kind: FetchKind, outcome: HttpOutcome) -> Result<u64, FetchErrorKind> {
    match outcome {
        HttpOutcome::Transport => Err(FetchErrorKind::Transport),
        HttpOutcome::Timeout => Err(FetchErrorKind::Timeout),
        HttpOutcome::Response { status, body } => if status < 200 || status > 299 {
            Err(FetchErrorKind::HttpStatus(status))
        } else {
            match height_in(kind, body@) {
                Some(h) => Ok(h),
                None => Err(FetchErrorKind::Decode),
            }
        },
    }
}

/// Turns what came back from a request of kind `kind` into a height or a
/// failure that names `chain` and `endpoint`.
pub fn interpret(kind: FetchKind, outcome: &HttpOutcome, chain: &str, endpoint: &str) -> (r: Result<
    u64,
    FetchError,
>)
    ensures
        match (r, attempt_result(kind, *outcome)) {
            (Ok(h), Ok(g)) => h == g,
            (Err(e), Err(k)) => e.kind == k && e.chain@ == chain@ && e.endpoint@ == endpoint@,
            _ => false,
        },
{
    let failure = match outcome {
        HttpOutcome::Transport => FetchErrorKind::Transport,
        HttpOutcome::Timeout => FetchErrorKind::Timeout,
        HttpOutcome::Response { status, body } => {
            if *status < 200 || *status > 299 {
                FetchErrorKind::HttpStatus(*status)
            } else {
                match decode_height(kind, body.as_str()) {
                    Some(h) => {
                        return Ok(h);
                    },
                    None => FetchErrorKind::Decode,
                }
            }
        },
    };
    Err(FetchError { kind: failure, chain: String::from_str(chain), endpoint: String::from_str(endpoint) })
}

} // verus!
