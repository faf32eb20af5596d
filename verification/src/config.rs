//! Configuration values and where they live on disk; reading and writing
//! the file is the caller's concern.
use vstd::prelude::*;

verus! {

use vstd::string::StringExecFns;

/// Why loading or saving the configuration failed.
#[derive(Debug)]
pub enum ConfigError {
    Io(String),
    Parse(String),
}

/// How to reach the network.
#[derive(Debug)]
pub struct NetworkConfig {
    pub testnet: String,
    pub custom_interface: Option<String>,
}

impl Default for NetworkConfig {
    fn default() -> (r: Self)
        ensures
            r.testnet@ == "amsterdam.connect.reticulum.network:4965"@,
            r.custom_interface is None,
    {
        NetworkConfig {
            testnet: String::from_str("amsterdam.connect.reticulum.network:4965"),
            custom_interface: None,
        }
    }
}

/// Whether this client also serves pages, and from where.
#[derive(Debug)]
pub struct NodeConfig {
    pub enabled: bool,
    pub pages_path: String,
}

impl Default for NodeConfig {
    fn default() -> (r: Self)
        ensures
            !r.enabled,
            r.pages_path@ == "pages"@,
    {
        NodeConfig { enabled: false, pages_path: String::from_str("pages") }
    }
}

/// The whole configuration.
#[derive(Debug)]
pub struct Config {
    pub network: NetworkConfig,
    pub node: NodeConfig,
}

impl Default for Config {
    fn default() -> (r: Self)
        ensures
            r.network.testnet@ == "amsterdam.connect.reticulum.network:4965"@,
            r.network.custom_interface is None,
            !r.node.enabled,
            r.node.pages_path@ == "pages"@,
    {
        Config { network: NetworkConfig::default(), node: NodeConfig::default() }
    }
}

impl Config {
    /// Where this client keeps its state.
    pub fn data_dir() -> (r: String)
        ensures
            r@ == ".nomad"@,
    {
        String::from_str(".nomad")
    }

    /// Where the configuration file lives.
    pub fn config_path() -> (r: String)
        ensures
            r@ == ".nomad/config.toml"@,
    {
        String::from_str(".nomad/config.toml")
    }
}

} // verus!
