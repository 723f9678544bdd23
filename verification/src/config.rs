use vstd::prelude::*;

verus! {

/// How the node operates. Part of the settings file.
#[derive(Debug, PartialEq)]
pub struct Operating {
    pub mode: Option<String>,
    pub mode_timeout: Option<u64>,
    pub mode_alarm: Option<u64>,
    pub chain: Option<String>,
    pub db_path: Option<String>,
    pub keys_path: Option<String>,
    pub identity: Option<String>,
}

impl Operating {
    /// The part with nothing set.
    pub open spec fn unset() -> Operating {
        Operating {
            mode: None,
            mode_timeout: None,
            mode_alarm: None,
            chain: None,
            db_path: None,
            keys_path: None,
            identity: None,
        }
    }
}

impl Default for Operating {
    fn default() -> (r: Operating)
        ensures
            r == Operating::unset(),
    {
        Operating {
            mode: None,
            mode_timeout: None,
            mode_alarm: None,
            chain: None,
            db_path: None,
            keys_path: None,
            identity: None,
        }
    }
}

/// Which accounts are unlocked, and how keys are kept. Part of the settings file.
#[derive(Debug, PartialEq)]
pub struct Account {
    pub unlock: Option<Vec<String>>,
    pub password: Option<Vec<String>>,
    pub keys_iterations: Option<u32>,
}

impl Account {
    /// The part with nothing set.
    pub open spec fn unset() -> Account {
        Account {
            unlock: None,
            password: None,
            keys_iterations: None,
        }
    }
}

impl Default for Account {
    fn default() -> (r: Account)
        ensures
            r == Account::unset(),
    {
        Account {
            unlock: None,
            password: None,
            keys_iterations: None,
        }
    }
}

/// The trusted signer. Part of the settings file.
#[derive(Debug, PartialEq)]
pub struct Signer {
    pub force: Option<bool>,
    pub disable: Option<bool>,
    pub port: Option<u16>,
    pub interface: Option<String>,
    pub path: Option<String>,
}

impl Signer {
    /// The part with nothing set.
    pub open spec fn unset() -> Signer {
        Signer {
            force: None,
            disable: None,
            port: None,
            interface: None,
            path: None,
        }
    }
}

impl Default for Signer {
    fn default() -> (r: Signer)
        ensures
            r == Signer::unset(),
    {
        Signer {
            force: None,
            disable: None,
            port: None,
            interface: None,
            path: None,
        }
    }
}

/// The node's part in the network. Part of the settings file.
#[derive(Debug, PartialEq)]
pub struct Network {
    pub disable: Option<bool>,
    pub warp: Option<bool>,
    pub port: Option<u16>,
    pub min_peers: Option<u16>,
    pub max_peers: Option<u16>,
    pub nat: Option<String>,
    pub id: Option<String>,
    pub bootnodes: Option<Vec<String>>,
    pub discovery: Option<bool>,
    pub node_key: Option<String>,
    pub reserved_peers: Option<String>,
    pub reserved_only: Option<bool>,
}

impl Network {
    /// The part with nothing set.
    pub open spec fn unset() -> Network {
        Network {
            disable: None,
            warp: None,
            port: None,
            min_peers: None,
            max_peers: None,
            nat: None,
            id: None,
            bootnodes: None,
            discovery: None,
            node_key: None,
            reserved_peers: None,
            reserved_only: None,
        }
    }
}

impl Default for Network {
    fn default() -> (r: Network)
        ensures
            r == Network::unset(),
    {
        Network {
            disable: None,
            warp: None,
            port: None,
            min_peers: None,
            max_peers: None,
            nat: None,
            id: None,
            bootnodes: None,
            discovery: None,
            node_key: None,
            reserved_peers: None,
            reserved_only: None,
        }
    }
}

/// The JSON-RPC server over HTTP. Part of the settings file.
#[derive(Debug, PartialEq)]
pub struct Rpc {
    pub disable: Option<bool>,
    pub port: Option<u16>,
    pub interface: Option<String>,
    pub cors: Option<String>,
    pub apis: Option<Vec<String>>,
    pub hosts: Option<Vec<String>>,
}

impl Rpc {
    /// The part with nothing set.
    pub open spec fn unset() -> Rpc {
        Rpc {
            disable: None,
            port: None,
            interface: None,
            cors: None,
            apis: None,
            hosts: None,
        }
    }
}

impl Default for Rpc {
    fn default() -> (r: Rpc)
        ensures
            r == Rpc::unset(),
    {
        Rpc {
            disable: None,
            port: None,
            interface: None,
            cors: None,
            apis: None,
            hosts: None,
        }
    }
}

/// The JSON-RPC server over IPC. Part of the settings file.
#[derive(Debug, PartialEq)]
pub struct Ipc {
    pub disable: Option<bool>,
    pub path: Option<String>,
    pub apis: Option<Vec<String>>,
}

impl Ipc {
    /// The part with nothing set.
    pub open spec fn unset() -> Ipc {
        Ipc {
            disable: None,
            path: None,
            apis: None,
        }
    }
}

impl Default for Ipc {
    fn default() -> (r: Ipc)
        ensures
            r == Ipc::unset(),
    {
        Ipc {
            disable: None,
            path: None,
            apis: None,
        }
    }
}

/// The server of decentralised applications. Part of the settings file.
#[derive(Debug, PartialEq)]
pub struct Dapps {
    pub disable: Option<bool>,
    pub port: Option<u16>,
    pub interface: Option<String>,
    pub hosts: Option<Vec<String>>,
    pub path: Option<String>,
    pub user: Option<String>,
    pub pass: Option<String>,
}

impl Dapps {
    /// The part with nothing set.
    pub open spec fn unset() -> Dapps {
        Dapps {
            disable: None,
            port: None,
            interface: None,
            hosts: None,
            path: None,
            user: None,
            pass: None,
        }
    }
}

impl Default for Dapps {
    fn default() -> (r: Dapps)
        ensures
            r == Dapps::unset(),
    {
        Dapps {
            disable: None,
            port: None,
            interface: None,
            hosts: None,
            path: None,
            user: None,
            pass: None,
        }
    }
}

/// Sealing and the transaction queue. Part of the settings file.
#[derive(Debug, PartialEq)]
pub struct Mining {
    pub author: Option<String>,
    pub force_sealing: Option<bool>,
    pub reseal_on_txs: Option<String>,
    pub reseal_min_period: Option<u64>,
    pub work_queue_size: Option<usize>,
    pub tx_gas_limit: Option<String>,
    pub relay_set: Option<String>,
    pub usd_per_tx: Option<String>,
    pub usd_per_eth: Option<String>,
    pub price_update_period: Option<String>,
    pub gas_floor_target: Option<String>,
    pub gas_cap: Option<String>,
    pub extra_data: Option<String>,
    pub tx_queue_size: Option<usize>,
    pub remove_solved: Option<bool>,
    pub notify_work: Option<Vec<String>>,
}

impl Mining {
    /// The part with nothing set.
    pub open spec fn unset() -> Mining {
        Mining {
            author: None,
            force_sealing: None,
            reseal_on_txs: None,
            reseal_min_period: None,
            work_queue_size: None,
            tx_gas_limit: None,
            relay_set: None,
            usd_per_tx: None,
            usd_per_eth: None,
            price_update_period: None,
            gas_floor_target: None,
            gas_cap: None,
            extra_data: None,
            tx_queue_size: None,
            remove_solved: None,
            notify_work: None,
        }
    }
}

impl Default for Mining {
    fn default() -> (r: Mining)
        ensures
            r == Mining::unset(),
    {
        Mining {
            author: None,
            force_sealing: None,
            reseal_on_txs: None,
            reseal_min_period: None,
            work_queue_size: None,
            tx_gas_limit: None,
            relay_set: None,
            usd_per_tx: None,
            usd_per_eth: None,
            price_update_period: None,
            gas_floor_target: None,
            gas_cap: None,
            extra_data: None,
            tx_queue_size: None,
            remove_solved: None,
            notify_work: None,
        }
    }
}

/// What the node keeps, and how much memory it takes. Part of the settings file.
#[derive(Debug, PartialEq)]
pub struct Footprint {
    pub tracing: Option<String>,
    pub pruning: Option<String>,
    pub fast_and_loose: Option<bool>,
    pub cache_size: Option<u32>,
    pub cache_size_db: Option<u32>,
    pub cache_size_blocks: Option<u32>,
    pub cache_size_queue: Option<u32>,
    pub db_compaction: Option<String>,
    pub fat_db: Option<bool>,
}

impl Footprint {
    /// The part with nothing set.
    pub open spec fn unset() -> Footprint {
        Footprint {
            tracing: None,
            pruning: None,
            fast_and_loose: None,
            cache_size: None,
            cache_size_db: None,
            cache_size_blocks: None,
            cache_size_queue: None,
            db_compaction: None,
            fat_db: None,
        }
    }
}

impl Default for Footprint {
    fn default() -> (r: Footprint)
        ensures
            r == Footprint::unset(),
    {
        Footprint {
            tracing: None,
            pruning: None,
            fast_and_loose: None,
            cache_size: None,
            cache_size_db: None,
            cache_size_blocks: None,
            cache_size_queue: None,
            db_compaction: None,
            fat_db: None,
        }
    }
}

/// Periodic snapshots. Part of the settings file.
#[derive(Debug, PartialEq)]
pub struct Snapshots {
    pub disable_periodic: Option<bool>,
}

impl Snapshots {
    /// The part with nothing set.
    pub open spec fn unset() -> Snapshots {
        Snapshots {
            disable_periodic: None,
        }
    }
}

impl Default for Snapshots {
    fn default() -> (r: Snapshots)
        ensures
            r == Snapshots::unset(),
    {
        Snapshots {
            disable_periodic: None,
        }
    }
}

/// The virtual machine. Part of the settings file.
#[derive(Debug, PartialEq)]
pub struct VM {
    pub jit: Option<bool>,
}

impl VM {
    /// The part with nothing set.
    pub open spec fn unset() -> VM {
        VM {
            jit: None,
        }
    }
}

impl Default for VM {
    fn default() -> (r: VM)
        ensures
            r == VM::unset(),
    {
        VM {
            jit: None,
        }
    }
}

/// Logging and colours. Part of the settings file.
#[derive(Debug, PartialEq)]
pub struct Misc {
    pub logging: Option<String>,
    pub log_file: Option<String>,
    pub color: Option<bool>,
}

impl Misc {
    /// The part with nothing set.
    pub open spec fn unset() -> Misc {
        Misc {
            logging: None,
            log_file: None,
            color: None,
        }
    }
}

impl Default for Misc {
    fn default() -> (r: Misc)
        ensures
            r == Misc::unset(),
    {
        Misc {
            logging: None,
            log_file: None,
            color: None,
        }
    }
}

/// The settings file: one part for each group of options, each optional.
#[derive(Debug, PartialEq)]
pub struct Config {
    pub parity: Option<Operating>,
    pub account: Option<Account>,
    pub signer: Option<Signer>,
    pub network: Option<Network>,
    pub rpc: Option<Rpc>,
    pub ipc: Option<Ipc>,
    pub dapps: Option<Dapps>,
    pub mining: Option<Mining>,
    pub footprint: Option<Footprint>,
    pub snapshots: Option<Snapshots>,
    pub vm: Option<VM>,
    pub misc: Option<Misc>,
}

impl Config {
    /// The settings with no part set.
    pub open spec fn unset() -> Config {
        Config {
            parity: None,
            account: None,
            signer: None,
            network: None,
            rpc: None,
            ipc: None,
            dapps: None,
            mining: None,
            footprint: None,
            snapshots: None,
            vm: None,
            misc: None,
        }
    }

    /// The part `parity`, or one with nothing set.
    pub open spec fn parity_part(self) -> Operating {
        match self.parity {
            Some(p) => p,
            None => Operating::unset(),
        }
    }

    /// The part `account`, or one with nothing set.
    pub open spec fn account_part(self) -> Account {
        match self.account {
            Some(p) => p,
            None => Account::unset(),
        }
    }

    /// The part `signer`, or one with nothing set.
    pub open spec fn signer_part(self) -> Signer {
        match self.signer {
            Some(p) => p,
            None => Signer::unset(),
        }
    }

    /// The part `network`, or one with nothing set.
    pub open spec fn network_part(self) -> Network {
        match self.network {
            Some(p) => p,
            None => Network::unset(),
        }
    }

    /// The part `rpc`, or one with nothing set.
    pub open spec fn rpc_part(self) -> Rpc {
        match self.rpc {
            Some(p) => p,
            None => Rpc::unset(),
        }
    }

    /// The part `ipc`, or one with nothing set.
    pub open spec fn ipc_part(self) -> Ipc {
        match self.ipc {
            Some(p) => p,
            None => Ipc::unset(),
        }
    }

    /// The part `dapps`, or one with nothing set.
    pub open spec fn dapps_part(self) -> Dapps {
        match self.dapps {
            Some(p) => p,
            None => Dapps::unset(),
        }
    }

    /// The part `mining`, or one with nothing set.
    pub open spec fn mining_part(self) -> Mining {
        match self.mining {
            Some(p) => p,
            None => Mining::unset(),
        }
    }

    /// The part `footprint`, or one with nothing set.
    pub open spec fn footprint_part(self) -> Footprint {
        match self.footprint {
            Some(p) => p,
            None => Footprint::unset(),
        }
    }

    /// The part `snapshots`, or one with nothing set.
    pub open spec fn snapshots_part(self) -> Snapshots {
        match self.snapshots {
            Some(p) => p,
            None => Snapshots::unset(),
        }
    }

    /// The part `vm`, or one with nothing set.
    pub open spec fn vm_part(self) -> VM {
        match self.vm {
            Some(p) => p,
            None => VM::unset(),
        }
    }

    /// The part `misc`, or one with nothing set.
    pub open spec fn misc_part(self) -> Misc {
        match self.misc {
            Some(p) => p,
            None => Misc::unset(),
        }
    }

}

impl Default for Config {
    fn default() -> (r: Config)
        ensures
            r == Config::unset(),
    {
        Config {
            parity: None,
            account: None,
            signer: None,
            network: None,
            rpc: None,
            ipc: None,
            dapps: None,
            mining: None,
            footprint: None,
            snapshots: None,
            vm: None,
            misc: None,
        }
    }
}

} // verus!
