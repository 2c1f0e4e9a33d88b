//! The configuration records of networks and their assets.

use vstd::prelude::*;
use crate::chain::NetworkType;

verus! {

/// An asset offered on a network.
#[derive(Clone, Debug)]
pub struct Asset {
    pub name: String,
    pub decimals: u8,
    pub symbol: String,
    pub logo: String,
    pub token_address: String,
    pub atomic_swap_address: String,
    pub min_amount: String,
    pub max_amount: String,
    pub disabled: Option<bool>,
}

/// The configuration of one network.
#[derive(Clone, Debug)]
pub struct Network {
    pub chain_id: String,
    pub network_logo: String,
    pub explorer: String,
    pub network_type: NetworkType,
    pub name: String,
    pub asset_config: Vec<Asset>,
    pub rpcs: Vec<String>,
    pub disabled: Option<bool>,
}

/// The `disabled` flag of a record that does not set it.
pub fn default_disabled() -> (r: Option<bool>)
    ensures
        r == Some(false),
{
    Some(false)
}

/// The endpoints of one network.
#[derive(Debug)]
pub struct NetworkRpc {
    pub rpc: Vec<String>,
}

/// Endpoints per network, for each class that is present.
#[derive(Debug)]
pub struct BlockchainConfig {
    pub mainnet: Option<std::collections::HashMap<String, NetworkRpc>>,
    pub testnet: Option<std::collections::HashMap<String, NetworkRpc>>,
    pub localnet: Option<std::collections::HashMap<String, NetworkRpc>>,
}

/// One network per class, for each class that is present.
#[derive(Debug)]
pub struct ConfigData {
    pub mainnet: Option<Network>,
    pub testnet: Option<Network>,
    pub localnet: Option<Network>,
}

} // verus!
