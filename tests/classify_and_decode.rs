use blockheights::chain::{classify, NetworkType, SupportedChains};
use blockheights::fetch::{
    decode_height, fetch_kind, interpret, rpc_payload, tip_height_url, FetchErrorKind, FetchKind,
    HttpOutcome,
};
use blockheights::number::{parse_decimal_height, parse_hex_height};

fn chars(s: &str) -> Vec<char> {
    s.chars().collect()
}

#[test]
fn classify_arbitrum_sepolia() {
    assert_eq!(classify("arbitrum-sepolia"), SupportedChains::ARBITRUM);
}

#[test]
fn classify_solana_devnet() {
    assert_eq!(classify("solana-devnet"), SupportedChains::SOLANA);
}

#[test]
fn classify_ethereum_mainnet_falls_through() {
    assert_eq!(classify("ethereum-mainnet"), SupportedChains::ETHEREUM);
}

#[test]
fn classify_other_families() {
    assert_eq!(classify("starknet-sepolia"), SupportedChains::STARKNET);
    assert_eq!(classify("bitcoin-testnet"), SupportedChains::BITCOIN);
    assert_eq!(classify(""), SupportedChains::ETHEREUM);
    assert_eq!(classify("base-sepolia"), SupportedChains::ETHEREUM);
}

#[test]
fn classify_precedence_on_ambiguous_identifiers() {
    assert_eq!(classify("solana-starknet"), SupportedChains::SOLANA);
    assert_eq!(classify("starknet-solana"), SupportedChains::SOLANA);
    assert_eq!(classify("bitcoin-arbitrum"), SupportedChains::ARBITRUM);
    assert_eq!(classify("starknet-bitcoin"), SupportedChains::STARKNET);
}

#[test]
fn ethereum_response_decodes_hex_result() {
    let h = decode_height(FetchKind::EthereumBlockNumber, "{\"result\":\"0x1a2b\"}");
    assert_eq!(h, Some(6699));
}

#[test]
fn ethereum_response_without_string_result_fails() {
    assert_eq!(decode_height(FetchKind::EthereumBlockNumber, "{\"result\":6699}"), None);
    assert_eq!(decode_height(FetchKind::EthereumBlockNumber, "{\"error\":\"x\"}"), None);
    assert_eq!(decode_height(FetchKind::EthereumBlockNumber, "not json"), None);
    assert_eq!(decode_height(FetchKind::EthereumBlockNumber, "{\"result\":\"0xzz\"}"), None);
}

#[test]
fn arbitrum_response_reads_l1_block_number() {
    let body = "{\"jsonrpc\":\"2.0\",\"id\":1,\"result\":{\"number\":\"0x99\",\"l1BlockNumber\":\"0x10\"}}";
    assert_eq!(decode_height(FetchKind::ArbitrumL1BlockNumber, body), Some(16));
    assert_eq!(decode_height(FetchKind::ArbitrumL1BlockNumber, "{\"result\":{\"number\":\"0x99\"}}"), None);
}

#[test]
fn solana_and_starknet_read_unsigned_result() {
    assert_eq!(decode_height(FetchKind::SolanaSlot, "{\"result\":123456}"), Some(123456));
    assert_eq!(decode_height(FetchKind::StarknetBlockNumber, "{\"result\": 42}"), Some(42));
    assert_eq!(decode_height(FetchKind::StarknetBlockNumber, "{\"result\":\"42\"}"), None);
    assert_eq!(decode_height(FetchKind::SolanaSlot, "{\"result\":-1}"), None);
    assert_eq!(decode_height(FetchKind::SolanaSlot, "{\"result\":1.5}"), None);
}

#[test]
fn bitcoin_body_is_decimal_text() {
    assert_eq!(decode_height(FetchKind::BitcoinTipHeight, "12345"), Some(12345));
    assert_eq!(decode_height(FetchKind::BitcoinTipHeight, "12a45"), None);
    assert_eq!(decode_height(FetchKind::BitcoinTipHeight, ""), None);
}

#[test]
fn hex_text_edge_cases() {
    assert_eq!(parse_hex_height(&chars("0x1a2b")), Some(6699));
    assert_eq!(parse_hex_height(&chars("1A2B")), Some(6699));
    assert_eq!(parse_hex_height(&chars("0x0x1f")), Some(31));
    assert_eq!(parse_hex_height(&chars("0x")), None);
    assert_eq!(parse_hex_height(&chars("")), None);
    assert_eq!(parse_hex_height(&chars("+ff")), Some(255));
    assert_eq!(parse_hex_height(&chars("0xffffffffffffffff")), Some(u64::MAX));
    assert_eq!(parse_hex_height(&chars("0x10000000000000000")), None);
    assert_eq!(parse_hex_height(&chars("-1")), None);
}

#[test]
fn decimal_text_edge_cases() {
    assert_eq!(parse_decimal_height(&chars("18446744073709551615")), Some(u64::MAX));
    assert_eq!(parse_decimal_height(&chars("18446744073709551616")), None);
    assert_eq!(parse_decimal_height(&chars("+7")), Some(7));
    assert_eq!(parse_decimal_height(&chars("+")), None);
    assert_eq!(parse_decimal_height(&chars("12 ")), None);
}

#[test]
fn request_kind_per_family_and_class() {
    assert_eq!(
        fetch_kind(SupportedChains::ARBITRUM, NetworkType::LOCALNET),
        FetchKind::EthereumBlockNumber
    );
    assert_eq!(
        fetch_kind(SupportedChains::ARBITRUM, NetworkType::MAINNET),
        FetchKind::ArbitrumL1BlockNumber
    );
    assert_eq!(fetch_kind(SupportedChains::SOLANA, NetworkType::TESTNET), FetchKind::SolanaSlot);
    assert_eq!(
        fetch_kind(SupportedChains::STARKNET, NetworkType::LOCALNET),
        FetchKind::StarknetBlockNumber
    );
    assert_eq!(
        fetch_kind(SupportedChains::BITCOIN, NetworkType::MAINNET),
        FetchKind::BitcoinTipHeight
    );
    assert_eq!(
        fetch_kind(SupportedChains::ETHEREUM, NetworkType::TESTNET),
        FetchKind::EthereumBlockNumber
    );
}

#[test]
fn request_payloads_are_exact() {
    assert_eq!(
        rpc_payload(FetchKind::EthereumBlockNumber),
        Some("{\"jsonrpc\":\"2.0\",\"id\":1,\"method\":\"eth_blockNumber\",\"params\":[]}")
    );
    assert_eq!(
        rpc_payload(FetchKind::ArbitrumL1BlockNumber),
        Some("{\"jsonrpc\":\"2.0\",\"id\":1,\"method\":\"eth_getBlockByNumber\",\"params\":[\"latest\",false]}")
    );
    assert_eq!(
        rpc_payload(FetchKind::SolanaSlot),
        Some("{\"jsonrpc\":\"2.0\",\"id\":1,\"method\":\"getSlot\",\"params\":[{\"commitment\":\"confirmed\"}]}")
    );
    assert_eq!(
        rpc_payload(FetchKind::StarknetBlockNumber),
        Some("{\"jsonrpc\":\"2.0\",\"id\":1,\"method\":\"starknet_blockNumber\",\"params\":[]}")
    );
    assert_eq!(rpc_payload(FetchKind::BitcoinTipHeight), None);
}

#[test]
fn bitcoin_tip_height_address() {
    assert_eq!(
        tip_height_url("https://mempool.space/api"),
        "https://mempool.space/api/blocks/tip/height"
    );
    assert_eq!(tip_height_url(""), "/blocks/tip/height");
}

#[test]
fn attempt_outcomes_map_to_errors() {
    let ok = HttpOutcome::Response { status: 200, body: String::from("{\"result\":\"0x10\"}") };
    assert_eq!(interpret(FetchKind::EthereumBlockNumber, &ok, "ethereum", "http://a").unwrap(), 16);

    let bad_status = HttpOutcome::Response { status: 503, body: String::from("{\"result\":\"0x10\"}") };
    let e = interpret(FetchKind::EthereumBlockNumber, &bad_status, "ethereum", "http://a").unwrap_err();
    assert_eq!(e.kind, FetchErrorKind::HttpStatus(503));
    assert_eq!(e.chain, "ethereum");
    assert_eq!(e.endpoint, "http://a");

    let garbled = HttpOutcome::Response { status: 200, body: String::from("oops") };
    let e = interpret(FetchKind::BitcoinTipHeight, &garbled, "bitcoin", "http://b").unwrap_err();
    assert_eq!(e.kind, FetchErrorKind::Decode);

    let e = interpret(FetchKind::SolanaSlot, &HttpOutcome::Transport, "solana", "http://c").unwrap_err();
    assert_eq!(e.kind, FetchErrorKind::Transport);
    let e = interpret(FetchKind::SolanaSlot, &HttpOutcome::Timeout, "solana", "http://c").unwrap_err();
    assert_eq!(e.kind, FetchErrorKind::Timeout);
}
