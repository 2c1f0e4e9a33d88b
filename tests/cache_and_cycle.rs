use blockheights::api::{ApiResponse, Pagination};
use blockheights::assets::AssetsCache;
use blockheights::cache::{chain_configs, BlockNumbers, ChainConfig, ConfigError};
use blockheights::chain::NetworkType;
use blockheights::fetch::{FetchError, FetchErrorKind, FetchKind};
use blockheights::models::{default_disabled, Network};
use blockheights::resolve::ResolveStep;
use blockheights::scheduler::{Scheduler, SchedulerAction, SchedulerEvent, SchedulerState};

fn entry(id: &str, class: NetworkType, rpcs: &[&str]) -> ChainConfig {
    ChainConfig {
        identifier: String::from(id),
        network_type: class,
        rpcs: rpcs.iter().map(|s| String::from(*s)).collect(),
    }
}

fn sample() -> BlockNumbers {
    BlockNumbers::new(vec![
        entry("ethereum", NetworkType::MAINNET, &["http://e1", "http://e2"]),
        entry("arbitrum_sepolia", NetworkType::TESTNET, &["http://a1"]),
        entry("bitcoin", NetworkType::MAINNET, &["http://b1"]),
        entry("arbitrum_localnet", NetworkType::LOCALNET, &["http://l1"]),
    ])
    .unwrap()
}

fn failure() -> Result<u64, FetchError> {
    Err(FetchError {
        kind: FetchErrorKind::Timeout,
        chain: String::from("ethereum"),
        endpoint: String::from("http://e1"),
    })
}

fn network(class: NetworkType, name: &str, disabled: Option<bool>) -> Network {
    Network {
        chain_id: String::from("1"),
        network_logo: String::from("logo"),
        explorer: String::from("explorer"),
        network_type: class,
        name: String::from(name),
        asset_config: Vec::new(),
        rpcs: vec![String::from("http://rpc")],
        disabled,
    }
}

#[test]
fn new_cache_starts_every_chain_at_zero() {
    let b = sample();
    let main = b.get_snapshot(NetworkType::MAINNET);
    assert_eq!(main.len(), 2);
    assert_eq!(main.get("ethereum"), Some(0));
    assert_eq!(main.get("bitcoin"), Some(0));
    assert_eq!(main.get("arbitrum_sepolia"), None);
    assert_eq!(b.get_snapshot(NetworkType::TESTNET).get("arbitrum_sepolia"), Some(0));
    assert_eq!(b.get_snapshot(NetworkType::LOCALNET).get("arbitrum_localnet"), Some(0));
}

#[test]
fn config_with_empty_endpoints_is_refused() {
    let r = BlockNumbers::new(vec![
        entry("ethereum", NetworkType::MAINNET, &["http://e1"]),
        entry("solana", NetworkType::MAINNET, &[]),
    ]);
    match r {
        Err(ConfigError::EmptyEndpoints { index, identifier }) => {
            assert_eq!(index, 1);
            assert_eq!(identifier, "solana");
        }
        _ => panic!("expected an empty endpoint list to be refused"),
    }
}

#[test]
fn config_with_duplicate_identifier_is_refused() {
    let r = BlockNumbers::new(vec![
        entry("ethereum", NetworkType::MAINNET, &["http://e1"]),
        entry("solana", NetworkType::TESTNET, &["http://s1"]),
        entry("ethereum", NetworkType::TESTNET, &["http://e2"]),
    ]);
    match r {
        Err(ConfigError::DuplicateIdentifier { index, identifier }) => {
            assert_eq!(index, 2);
            assert_eq!(identifier, "ethereum");
        }
        _ => panic!("expected a repeated identifier to be refused"),
    }
}

#[test]
fn endpoints_are_looked_up_by_identifier() {
    let b = sample();
    let e = b.endpoints_for("ethereum").unwrap();
    assert_eq!(e, &vec![String::from("http://e1"), String::from("http://e2")]);
    assert!(b.endpoints_for("dogecoin").is_none());
    assert_eq!(b.get_chain_type("arbitrum_sepolia"), blockheights::chain::SupportedChains::ARBITRUM);
}

#[test]
fn resolution_stops_at_first_success() {
    let b = sample();
    let mut r = b.resolver(NetworkType::MAINNET, 0);
    assert_eq!(r.kind(), FetchKind::EthereumBlockNumber);
    match r.next_step() {
        ResolveStep::Fetch { index, endpoint } => {
            assert_eq!(index, 0);
            assert_eq!(endpoint, "http://e1");
        }
        ResolveStep::Done(_) => panic!("nothing tried yet"),
    }
    r.record(&failure());
    match r.next_step() {
        ResolveStep::Fetch { index, endpoint } => {
            assert_eq!(index, 1);
            assert_eq!(endpoint, "http://e2");
        }
        ResolveStep::Done(_) => panic!("one endpoint left"),
    }
    r.record(&Ok(77));
    match r.next_step() {
        ResolveStep::Done(h) => assert_eq!(h, Some(77)),
        ResolveStep::Fetch { .. } => panic!("a success ends the resolution"),
    }
}

#[test]
fn resolution_with_every_endpoint_failing_has_no_height() {
    let b = sample();
    let mut r = b.resolver(NetworkType::MAINNET, 0);
    r.record(&failure());
    r.record(&failure());
    match r.next_step() {
        ResolveStep::Done(h) => assert_eq!(h, None),
        ResolveStep::Fetch { .. } => panic!("no endpoint left"),
    }
}

#[test]
fn arbitrum_on_localnet_is_asked_as_ethereum() {
    let b = sample();
    assert_eq!(b.resolver(NetworkType::LOCALNET, 0).kind(), FetchKind::EthereumBlockNumber);
    assert_eq!(b.resolver(NetworkType::TESTNET, 0).kind(), FetchKind::ArbitrumL1BlockNumber);
    assert_eq!(b.resolver(NetworkType::MAINNET, 1).kind(), FetchKind::BitcoinTipHeight);
}

#[test]
fn failed_chain_keeps_previous_height() {
    let mut b = sample();
    b.update_block_numbers(NetworkType::MAINNET, &vec![Some(100), Some(800_000)]);
    b.update_block_numbers(NetworkType::MAINNET, &vec![None, Some(800_001)]);
    let main = b.get_snapshot(NetworkType::MAINNET);
    assert_eq!(main.get("ethereum"), Some(100));
    assert_eq!(main.get("bitcoin"), Some(800_001));
}

#[test]
fn replacement_touches_one_class_and_keeps_every_chain() {
    let mut b = sample();
    b.update_block_numbers(NetworkType::TESTNET, &vec![Some(5)]);
    assert_eq!(b.get_snapshot(NetworkType::TESTNET).get("arbitrum_sepolia"), Some(5));
    let main = b.get_snapshot(NetworkType::MAINNET).entries();
    assert_eq!(main, vec![(String::from("ethereum"), 0), (String::from("bitcoin"), 0)]);
    let (m, t, l) = b.get_all_snapshots();
    assert_eq!(m.len() + t.len() + l.len(), 4);
}

#[test]
fn block_numbers_answer_holds_the_classes_asked_for() {
    let mut b = sample();
    b.update_block_numbers(NetworkType::LOCALNET, &vec![Some(9)]);
    let one = b.block_numbers_response(Some(NetworkType::LOCALNET));
    assert!(one.mainnet.is_none());
    assert!(one.testnet.is_none());
    assert_eq!(one.localnet, Some(vec![(String::from("arbitrum_localnet"), 9)]));
    let all = b.block_numbers_response(None);
    assert_eq!(all.mainnet.unwrap().len(), 2);
    assert_eq!(all.testnet.unwrap().len(), 1);
    assert_eq!(all.localnet.unwrap().len(), 1);
}

#[test]
fn scheduler_serves_only_after_first_refresh() {
    let (mut s, first) = Scheduler::new();
    assert_eq!(first, SchedulerAction::RefreshAll);
    assert!(!s.serving());
    assert_eq!(s.on_event(SchedulerEvent::Tick), SchedulerAction::Wait);
    assert!(!s.serving());
    assert_eq!(s.on_event(SchedulerEvent::CycleFinished), SchedulerAction::Wait);
    assert!(s.serving());
    assert_eq!(s.on_event(SchedulerEvent::Tick), SchedulerAction::RefreshAll);
    assert_eq!(s.state(), SchedulerState::Refreshing);
    assert_eq!(s.on_event(SchedulerEvent::Tick), SchedulerAction::Wait);
    assert_eq!(s.on_event(SchedulerEvent::CycleFinished), SchedulerAction::Wait);
    assert_eq!(s.state(), SchedulerState::Idle);
    assert_eq!(s.on_event(SchedulerEvent::Cancel), SchedulerAction::Halt);
    assert_eq!(s.on_event(SchedulerEvent::Tick), SchedulerAction::Halt);
    assert_eq!(s.state(), SchedulerState::Stopped);
}

#[test]
fn assets_are_sorted_by_class() {
    let cache = AssetsCache::new(vec![
        (String::from("ethereum"), network(NetworkType::MAINNET, "Ethereum", None)),
        (String::from("sepolia"), network(NetworkType::TESTNET, "Sepolia", Some(true))),
        (String::from("base"), network(NetworkType::MAINNET, "Base", Some(false))),
    ]);
    assert_eq!(cache.mainnet_assets.len(), 2);
    assert_eq!(cache.mainnet_assets[0].identifier, "ethereum");
    assert!(!cache.mainnet_assets[0].disabled);
    assert_eq!(cache.mainnet_assets[1].name, "Base");
    assert_eq!(cache.testnet_assets.len(), 1);
    assert!(cache.testnet_assets[0].disabled);
    assert!(cache.localnet_assets.is_empty());
}

#[test]
fn chain_entries_follow_the_network_config() {
    let config = vec![(String::from("solana"), network(NetworkType::TESTNET, "Solana", None))];
    let entries = chain_configs(&config);
    assert_eq!(entries.len(), 1);
    assert_eq!(entries[0].identifier, "solana");
    assert_eq!(entries[0].network_type, NetworkType::TESTNET);
    assert_eq!(entries[0].rpcs, vec![String::from("http://rpc")]);
}

#[test]
fn defaults_and_answer_shapes() {
    assert_eq!(default_disabled(), Some(false));
    let ok = ApiResponse::ok(3u8);
    assert_eq!(ok.status, "Ok");
    assert_eq!(ok.result, 3);
    let err = ApiResponse::error("bad");
    assert_eq!(err.status, "Error");
    let p = Pagination { page: None, per_page: Some(25) };
    assert_eq!(p.resolved(), (1, 25));
    let p = Pagination { page: Some(3), per_page: None };
    assert_eq!(p.resolved(), (3, 10));
}

#[test]
fn never_fetched_chains_are_told_apart_from_height_zero() {
    let mut b = sample();
    assert!(!b.get_snapshot(NetworkType::MAINNET).fetched_at(0));
    b.update_block_numbers(NetworkType::MAINNET, &vec![None, Some(0)]);
    let main = b.get_snapshot(NetworkType::MAINNET);
    assert!(!main.fetched_at(0));
    assert!(main.fetched_at(1));
    assert_eq!(main.height_at(1), 0);
    b.update_block_numbers(NetworkType::MAINNET, &vec![None, None]);
    assert!(b.get_snapshot(NetworkType::MAINNET).fetched_at(1));
}

#[test]
fn known_entries_carry_the_never_fetched_case() {
    let mut b = sample();
    b.update_block_numbers(NetworkType::MAINNET, &vec![Some(0), None]);
    let main = b.get_snapshot(NetworkType::MAINNET).known_entries();
    assert_eq!(
        main,
        vec![(String::from("ethereum"), Some(0)), (String::from("bitcoin"), None)]
    );
}
