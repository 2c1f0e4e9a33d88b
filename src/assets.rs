//! The network descriptions served per class, built once from the configuration.

use vstd::prelude::*;
use crate::chain::NetworkType;
use crate::models::{Asset, Network};

verus! {

/// The description of a network as it is served.
#[derive(Clone, Debug)]
pub struct NetworkResponse {
    pub chain_id: String,
    pub network_logo: String,
    pub explorer: String,
    pub network_type: NetworkType,
    pub name: String,
    pub asset_config: Vec<Asset>,
    pub identifier: String,
    pub disabled: bool,
}

/// Network descriptions, one per network.
#[derive(Debug)]
pub struct AssetData {
    pub networks: Vec<NetworkResponse>,
}

/// The served description of the network `n` configured under `id`; a
/// network that does not say whether it is disabled is not.
pub open spec fn response_of(id: String, n: Network) -> NetworkResponse {
    NetworkResponse {
        chain_id: n.chain_id,
        network_logo: n.network_logo,
        explorer: n.explorer,
        network_type: n.network_type,
        name: n.name,
        asset_config: n.asset_config,
        identifier: id,
        disabled: match n.disabled {
            Some(d) => d,
            None => false,
        },
    }
}

/// The served descriptions of the networks of `cfg` in class `class`, in order.
pub open spec fn class_responses(cfg: Seq<(String, Network)>, class: NetworkType) -> Seq<
    NetworkResponse,
>
    decreases cfg.len(),
{
    if cfg.len() == 0 {
        Seq::empty()
    } else if cfg.last().1.network_type == class {
        class_responses(cfg.drop_last(), class).push(response_of(cfg.last().0, cfg.last().1))
    } else {
        class_responses(cfg.drop_last(), class)
    }
}

/// The network descriptions of each class.
#[derive(Debug)]
pub struct AssetsCache {
    pub testnet_assets: Vec<NetworkResponse>,
    pub mainnet_assets: Vec<NetworkResponse>,
    pub localnet_assets: Vec<NetworkResponse>,
}

impl AssetsCache {
    /// Sorts the configured networks by class, each into its served description,
    /// keeping configuration order within a class.
    pub fn new(config: Vec<(String, Network)>) -> (r: AssetsCache)
        ensures
            r.mainnet_assets@ == class_responses(config@, NetworkType::MAINNET),
            r.testnet_assets@ == class_responses(config@, NetworkType::TESTNET),
            r.localnet_assets@ == class_responses(config@, NetworkType::LOCALNET),
    {
        let ghost cfg = config@;
        let mut mainnet_assets: Vec<NetworkResponse> = Vec::new();
        let mut testnet_assets: Vec<NetworkResponse> = Vec::new();
        let mut localnet_assets: Vec<NetworkResponse> = Vec::new();
        for entry in it: config.into_iter()
            invariant
                it.seq() == cfg,
                mainnet_assets@ == class_responses(cfg.take(it.index() as int), NetworkType::MAINNET),
                testnet_assets@ == class_responses(cfg.take(it.index() as int), NetworkType::TESTNET),
                localnet_assets@ == class_responses(
                    cfg.take(it.index() as int),
                    NetworkType::LOCALNET,
                ),
        {
            let ghost k = it.index() as int;
            let ghost before = cfg.take(k);
            let ghost after = cfg.take(k + 1);
            proof {
                assert(after.drop_last() =~= before);
                assert(after.last() == entry);
            }
            let (identifier, network) = entry;
            let class = network.network_type;
            let disabled = match network.disabled {
                Some(d) => d,
                None => false,
            };
            let data = NetworkResponse {
                chain_id: network.chain_id,
                network_logo: network.network_logo,
                explorer: network.explorer,
                network_type: network.network_type,
                name: network.name,
                asset_config: network.asset_config,
                identifier,
                disabled,
            };
            match class {
                NetworkType::TESTNET => testnet_assets.push(data),
                NetworkType::MAINNET => mainnet_assets.push(data),
                NetworkType::LOCALNET => localnet_assets.push(data),
            }
        }
        proof {
            assert(cfg.take(cfg.len() as int) =~= cfg);
        }
        AssetsCache { testnet_assets, mainnet_assets, localnet_assets }
    }
}

} // verus!
