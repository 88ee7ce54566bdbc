//! The settings of the wallet program and their defaults.

use vstd::prelude::*;
use vstd::string::{StrSliceExecFns, StringExecFns};
use crate::primitives::ProtocolError;

verus! {

/// All settings.
#[derive(Debug)]
pub struct Config {
    pub wallet_path: String,
    pub network: NetworkConfig,
    pub zcash: ZcashConfig,
    pub namada: NamadaConfig,
    pub logging: LoggingConfig,
}

/// Where the two networks are reached.
#[derive(Debug)]
pub struct NetworkConfig {
    pub zcash_rpc_url: String,
    pub namada_rpc_url: String,
    pub zcash_network: String,
    pub namada_chain_id: String,
    pub timeout_seconds: u64,
}

/// The node of the source chain.
#[derive(Debug)]
pub struct ZcashConfig {
    pub data_dir: String,
    pub rpc_user: Option<String>,
    pub rpc_password: Option<String>,
    pub rpc_port: u16,
    pub confirmations: u32,
}

/// The node of the destination chain.
#[derive(Debug)]
pub struct NamadaConfig {
    pub rpc_url: String,
    pub chain_id: String,
    pub gas_price: u64,
    pub gas_limit: u64,
}

/// What is logged, and where.
#[derive(Debug)]
pub struct LoggingConfig {
    pub level: String,
    pub file: Option<String>,
}

/// The path of the entry `name` of the directory `dir`: the directory, a
/// slash unless the directory is empty or ends with one, and the name.
pub open spec fn entry_path(dir: Seq<char>, name: Seq<char>) -> Seq<char> {
    if dir.len() == 0 || dir.last() == '/' {
        dir + name
    } else {
        dir + "/"@ + name
    }
}

/// The path of the entry `name` of the directory `dir`.
pub fn entry_of(dir: &str, name: &str) -> (path: String)
    ensures
        path@ == entry_path(dir@, name@),
{
    let length = dir.unicode_len();
    let mut path = dir.to_owned();
    if length > 0 && dir.get_char(length - 1) != '/' {
        path.append("/");
    }
    path.append(name);
    path
}

impl Config {
    /// Whether `self` holds the defaults for the configuration directory
    /// `dir`: local nodes, the test network, and the wallet, the node data
    /// and the log inside that directory.
    pub open spec fn is_default_for(self, dir: Seq<char>) -> bool {
        &&& self.wallet_path@ == entry_path(dir, "wallet.db"@)
        &&& self.network.zcash_rpc_url@ == "http://localhost:8232"@
        &&& self.network.namada_rpc_url@ == "http://localhost:26657"@
        &&& self.network.zcash_network@ == "testnet"@
        &&& self.network.namada_chain_id@ == "shielded-airdrop-test"@
        &&& self.network.timeout_seconds == 30
        &&& self.zcash.data_dir@ == entry_path(dir, "zcash"@)
        &&& self.zcash.rpc_user is None
        &&& self.zcash.rpc_password is None
        &&& self.zcash.rpc_port == 8232
        &&& self.zcash.confirmations == 10
        &&& self.namada.rpc_url@ == "http://localhost:26657"@
        &&& self.namada.chain_id@ == "shielded-airdrop-test"@
        &&& self.namada.gas_price == 1000
        &&& self.namada.gas_limit == 1000000
        &&& self.logging.level@ == "info"@
        &&& self.logging.file matches Some(file)
        &&& file@ == entry_path(dir, "wallet.log"@)
    }

    /// The default settings for the configuration directory `config_dir`.
    /// Never fails.
    pub fn default(config_dir: &str) -> (made: Result<Self, ProtocolError>)
        ensures
            made matches Ok(config) && config.is_default_for(config_dir@),
    {
        Ok(
            Config {
                wallet_path: entry_of(config_dir, "wallet.db"),
                network: NetworkConfig {
                    zcash_rpc_url: "http://localhost:8232".to_owned(),
                    namada_rpc_url: "http://localhost:26657".to_owned(),
                    zcash_network: "testnet".to_owned(),
                    namada_chain_id: "shielded-airdrop-test".to_owned(),
                    timeout_seconds: 30,
                },
                zcash: ZcashConfig {
                    data_dir: entry_of(config_dir, "zcash"),
                    rpc_user: None,
                    rpc_password: None,
                    rpc_port: 8232,
                    confirmations: 10,
                },
                namada: NamadaConfig {
                    rpc_url: "http://localhost:26657".to_owned(),
                    chain_id: "shielded-airdrop-test".to_owned(),
                    gas_price: 1000,
                    gas_limit: 1000000,
                },
                logging: LoggingConfig {
                    level: "info".to_owned(),
                    file: Some(entry_of(config_dir, "wallet.log")),
                },
            },
        )
    }

    /// Whether the source chain is the main network.
    pub fn is_mainnet(&self) -> (mainnet: bool)
        ensures
            mainnet == (self.network.zcash_network@ == "mainnet"@),
    {
        self.network.zcash_network == "mainnet".to_owned()
    }

    /// Whether the source chain is the test network.
    pub fn is_testnet(&self) -> (testnet: bool)
        ensures
            testnet == (self.network.zcash_network@ == "testnet"@),
    {
        self.network.zcash_network == "testnet".to_owned()
    }
}

} // verus!
