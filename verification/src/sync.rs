use vstd::prelude::*;
use crate::hash::H256;
use crate::uint::U256;

verus! {

/// How the node synchronises with its peers.
#[derive(Clone, Copy, Debug)]
pub struct SyncConfig {
    /// How many blocks to download ahead at most.
    pub max_download_ahead_blocks: usize,
    /// The id of the network.
    pub network_id: U256,
    /// The block at which a fork is checked: its number and hash.
    pub fork_block: Option<(u64, H256)>,
    /// Whether to synchronise from a snapshot.
    pub warp_sync: bool,
}

impl Default for SyncConfig {
    fn default() -> (r: SyncConfig)
        ensures
            r.max_download_ahead_blocks == 20000,
            r.network_id == U256::from_u64_spec(1),
            r.fork_block.is_none(),
            r.warp_sync,
    {
        SyncConfig {
            max_download_ahead_blocks: 20000,
            network_id: U256::from_u64(1),
            fork_block: None,
            warp_sync: true,
        }
    }
}

/// How the node takes part in the network.
#[derive(Debug)]
pub struct NetworkConfiguration {
    /// Where general network settings are kept; nothing is kept without it.
    pub config_path: Option<String>,
    /// Where the settings of this network are kept; nothing is kept without it.
    pub net_config_path: Option<String>,
    /// The address to listen at; every address without it.
    pub listen_address: Option<String>,
    /// The address to tell the peers; found out without it.
    pub public_address: Option<String>,
    /// The port for UDP; that of TCP without it.
    pub udp_port: Option<u16>,
    /// Whether to map the port through the router.
    pub nat_enabled: bool,
    /// Whether to look for peers.
    pub discovery_enabled: bool,
    /// The nodes to start from.
    pub boot_nodes: Vec<String>,
    /// The node key to use in place of the default one.
    pub use_secret: Option<H256>,
    /// The largest number of peers to keep.
    pub max_peers: u32,
    /// The smallest number of peers to keep.
    pub min_peers: u32,
    /// The nodes that always have a place.
    pub reserved_nodes: Vec<String>,
    /// Whether other nodes than the reserved ones may connect.
    pub allow_non_reserved: bool,
}

impl NetworkConfiguration {
    /// Whether everything but the address to listen at has its default value.
    pub open spec fn is_default_but_listen(&self) -> bool {
        &&& self.config_path.is_none()
        &&& self.net_config_path.is_none()
        &&& self.public_address.is_none()
        &&& self.udp_port.is_none()
        &&& self.nat_enabled
        &&& self.discovery_enabled
        &&& self.boot_nodes@.len() == 0
        &&& self.use_secret.is_none()
        &&& self.max_peers == 50
        &&& self.min_peers == 25
        &&& self.reserved_nodes@.len() == 0
        &&& self.allow_non_reserved
    }

    /// The default settings: listen at every address.
    pub fn new() -> (r: NetworkConfiguration)
        ensures
            r.is_default_but_listen(),
            r.listen_address.is_none(),
    {
        NetworkConfiguration {
            config_path: None,
            net_config_path: None,
            listen_address: None,
            public_address: None,
            udp_port: None,
            nat_enabled: true,
            discovery_enabled: true,
            boot_nodes: Vec::new(),
            use_secret: None,
            max_peers: 50,
            min_peers: 25,
            reserved_nodes: Vec::new(),
            allow_non_reserved: true,
        }
    }

    /// The default settings, but listening at this machine alone, at any port.
    pub fn new_local() -> (r: NetworkConfiguration)
        ensures
            r.is_default_but_listen(),
            r.listen_address.is_some(),
            r.listen_address.unwrap()@ == "127.0.0.1:0"@,
    {
        let mut config = NetworkConfiguration::new();
        config.listen_address = Some("127.0.0.1:0".to_owned());
        config
    }
}

/// Something that manages the node's part in the network.
pub trait ManageNetwork {
    /// Lets other nodes than the reserved ones connect.
    fn accept_unreserved_peers(&self);

    /// Lets the reserved nodes alone connect.
    fn deny_unreserved_peers(&self);

    /// Takes a node out of the reserved ones.
    fn remove_reserved_peer(&self, peer: String) -> Result<(), String>;

    /// Adds a node to the reserved ones.
    fn add_reserved_peer(&self, peer: String) -> Result<(), String>;

    /// Starts the network.
    fn start_network(&self);

    /// Stops the network.
    fn stop_network(&self);

    /// The settings in use.
    fn network_config(&self) -> NetworkConfiguration;
}

/// The settings of the synchronisation service.
#[derive(Debug)]
pub struct ServiceConfiguration {
    pub sync: SyncConfig,
    pub net: NetworkConfiguration,
    pub io_path: String,
}

} // verus!
