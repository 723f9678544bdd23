use vstd::prelude::*;
use crate::config::{
    Account, Config, Dapps, Footprint, Ipc, Mining, Misc, Network, Operating, Rpc, Signer,
    Snapshots, VM,
};

verus! {

/// The commands and options of the program, as the command line parser reads them.
pub const USAGE: &'static str = "Parity. Ethereum Client.\n\
\n\
Usage:\n\
  parity [options]\n\
  parity ui [options]\n\
  parity daemon <pid-file> [options]\n\
  parity account (new | list ) [options]\n\
  parity account import <path>... [options]\n\
  parity wallet import <path> --password FILE [options]\n\
  parity import [ <file> ] [options]\n\
  parity export [ <file> ] [options]\n\
  parity signer new-token [options]\n\
  parity snapshot <file> [options]\n\
  parity restore [ <file> ] [options]\n\
\n\
Options:\n\
  --mode MODE                  How the node runs: active, passive or dark (default: active).\n\
  --mode-timeout SECS          How long to stay active after the last use, in passive mode (default: 300).\n\
  --mode-alarm SECS            How long to sleep between wake-ups, in passive mode (default: 3600).\n\
  --chain CHAIN                The chain to run on: a name or a file (default: homestead).\n\
  --db-path PATH               Where the databases are kept (default: $HOME/.parity).\n\
  --keys-path PATH             Where the keys are kept (default: $HOME/.parity/keys).\n\
  --identity NAME              The name of this node.\n\
  --unlock ACCOUNTS            Accounts to unlock for the session, separated by commas.\n\
  --password FILE              A file with a password for unlocking.\n\
  --keys-iterations NUM        Rounds of key derivation for new keys (default: 10240).\n\
  --force-signer               Run the trusted signer even where it is off by default.\n\
  --no-signer                  Do not run the trusted signer.\n\
  --signer-port PORT           The port of the trusted signer (default: 8180).\n\
  --signer-interface IP        The address that the trusted signer listens at (default: local).\n\
  --signer-path PATH           Where the trusted signer keeps its tokens (default: $HOME/.parity/signer).\n\
  --signer-no-validation       Do not check the origin of requests to the signer.\n\
  --no-network                 Do not take part in the network.\n\
  --warp                       Synchronise from a snapshot.\n\
  --port PORT                  The port to listen at (default: 30303).\n\
  --min-peers NUM              Keep at least this many peers (default: 25).\n\
  --max-peers NUM              Keep at most this many peers (default: 50).\n\
  --nat METHOD                 How to find the public address: any, none, upnp or extip:IP (default: any).\n\
  --network-id INDEX           The id of the network, in place of that of the chain.\n\
  --bootnodes NODES            Nodes to start from, separated by commas.\n\
  --no-discovery               Do not look for new peers.\n\
  --node-key KEY               The node key, as hex or as a phrase.\n\
  --reserved-peers FILE        A file with the nodes that always have a place.\n\
  --reserved-only              Connect to the reserved nodes alone.\n\
  --no-jsonrpc                 Do not serve JSON-RPC over HTTP.\n\
  --jsonrpc-port PORT          The port of the JSON-RPC server (default: 8545).\n\
  --jsonrpc-interface IP       The address that the JSON-RPC server listens at (default: local).\n\
  --jsonrpc-cors URL           The origin allowed by the JSON-RPC server.\n\
  --jsonrpc-apis APIS          The APIs served over HTTP, separated by commas (default: web3,eth,net,ethcore,personal,traces,rpc).\n\
  --jsonrpc-hosts HOSTS        The host names accepted over HTTP, separated by commas (default: none).\n\
  --no-ipc                     Do not serve JSON-RPC over IPC.\n\
  --ipc-path PATH              The path of the IPC socket (default: $HOME/.parity/jsonrpc.ipc).\n\
  --ipc-apis APIS              The APIs served over IPC, separated by commas (default: web3,eth,net,ethcore,personal,traces,rpc).\n\
  --no-dapps                   Do not serve decentralised applications.\n\
  --dapps-port PORT            The port of the application server (default: 8080).\n\
  --dapps-interface IP         The address that the application server listens at (default: local).\n\
  --dapps-hosts HOSTS          The host names accepted by the application server (default: none).\n\
  --dapps-path PATH            Where applications are kept (default: $HOME/.parity/dapps).\n\
  --dapps-user USERNAME        The user name for the application server.\n\
  --dapps-pass PASSWORD        The password for the application server.\n\
  --author ADDRESS             The address that sealing rewards go to.\n\
  --force-sealing              Seal blocks even without transactions.\n\
  --reseal-on-txs SET          Which new transactions cause a new pending block: none, own, ext or all (default: own).\n\
  --reseal-min-period MS       The least time between two pending blocks (default: 2000).\n\
  --work-queue-size ITEMS      How many recent pending blocks are kept for late answers (default: 20).\n\
  --tx-gas-limit GAS           The most gas a transaction may use to be mined.\n\
  --relay-set SET              How well transactions are checked before they are passed on: cheap, strict or lenient (default: cheap).\n\
  --usd-per-tx USD             The price of a plain transaction, for the least gas price (default: 0).\n\
  --usd-per-eth SOURCE         The price of ether: a number or auto (default: auto).\n\
  --price-update-period T      How often the gas price is set anew (default: hourly).\n\
  --gas-floor-target GAS       The gas limit that sealing steers to from below (default: 4700000).\n\
  --gas-cap GAS                The gas limit that sealing does not go beyond (default: 6283184).\n\
  --extra-data STRING          The extra data of sealed blocks.\n\
  --tx-queue-size LIMIT        How many transactions wait in the queue at most (default: 1024).\n\
  --remove-solved              Forget a pending block once an answer for it came.\n\
  --notify-work URLS           Where new work is announced, separated by commas.\n\
  --tracing BOOL               Whether traces of transactions are kept: on, off or auto (default: auto).\n\
  --pruning METHOD             How old state is dropped: archive, fast or auto (default: auto).\n\
  --cache-size-db MB           Memory for the database (default: 64).\n\
  --cache-size-blocks MB       Memory for blocks (default: 8).\n\
  --cache-size-queue MB        Memory for the import queue (default: 50).\n\
  --cache-size MB              Memory for all caches together.\n\
  --fast-and-loose             Do without the write-ahead log of the database.\n\
  --db-compaction TYPE         How the database is compacted: ssd or hdd (default: ssd).\n\
  --fat-db                     Keep what is needed to list accounts and storage keys.\n\
  --from BLOCK                 The first block to export (default: 1).\n\
  --to BLOCK                   The last block to export (default: latest).\n\
  --format FORMAT              The format of the exported file: hex or binary.\n\
  --at BLOCK                   The block to take the snapshot at (default: latest).\n\
  --no-periodic-snapshot       Take no snapshots while running.\n\
  --jitvm                      Use the compiling virtual machine.\n\
  --config CONFIG              The file with the settings (default: $HOME/.parity/config.toml).\n\
  --logging LOGGING            What to log, and how much.\n\
  --log-file FILENAME          A file to log to as well.\n\
  --no-color                   No colours in the log.\n\
  --geth                       Behave as Geth does.\n\
  --testnet                    Run on the test network.\n\
  --import-geth-keys           Take over the keys of Geth.\n\
  --datadir PATH               As --db-path.\n\
  --networkid INDEX            As --network-id.\n\
  --peers NUM                  As --min-peers.\n\
  --nodekey KEY                As --node-key.\n\
  --nodiscover                 As --no-discovery.\n\
  --jsonrpc                    Without effect.\n\
  --jsonrpc-off                As --no-jsonrpc.\n\
  --webapp                     Without effect.\n\
  --dapps-off                  As --no-dapps.\n\
  --rpc                        Without effect.\n\
  --rpcaddr IP                 As --jsonrpc-interface.\n\
  --rpcport PORT               As --jsonrpc-port.\n\
  --rpcapi APIS                As --jsonrpc-apis.\n\
  --rpccorsdomain URL          As --jsonrpc-cors.\n\
  --ipcdisable                 As --no-ipc.\n\
  --ipc-off                    As --no-ipc.\n\
  --ipcapi APIS                As --ipc-apis.\n\
  --ipcpath PATH               As --ipc-path.\n\
  --gasprice WEI               The least gas price, in wei.\n\
  --etherbase ADDRESS          As --author.\n\
  --extradata STRING           As --extra-data.\n\
  --cache MB                   As --cache-size.\n\
  --version                    Show the version.\n\
  --no-config                  Read no file with settings.\n\
  -h, --help                   Show this text.\n\
";

/// The command line as it was read: the commands and arguments, the options
/// that no settings file can set, and for every other option its value where
/// the command line gives one.
#[derive(Debug, PartialEq)]
pub struct RawArgs {
    pub cmd_daemon: bool,
    pub cmd_wallet: bool,
    pub cmd_account: bool,
    pub cmd_new: bool,
    pub cmd_list: bool,
    pub cmd_export: bool,
    pub cmd_import: bool,
    pub cmd_signer: bool,
    pub cmd_new_token: bool,
    pub cmd_snapshot: bool,
    pub cmd_restore: bool,
    pub cmd_ui: bool,
    pub arg_pid_file: String,
    pub arg_file: Option<String>,
    pub arg_path: Vec<String>,
    pub flag_geth: bool,
    pub flag_testnet: bool,
    pub flag_import_geth_keys: bool,
    pub flag_datadir: Option<String>,
    pub flag_networkid: Option<String>,
    pub flag_peers: Option<u16>,
    pub flag_nodekey: Option<String>,
    pub flag_nodiscover: bool,
    pub flag_jsonrpc: bool,
    pub flag_jsonrpc_off: bool,
    pub flag_webapp: bool,
    pub flag_dapps_off: bool,
    pub flag_rpc: bool,
    pub flag_rpcaddr: Option<String>,
    pub flag_rpcport: Option<u16>,
    pub flag_rpcapi: Option<String>,
    pub flag_rpccorsdomain: Option<String>,
    pub flag_ipcdisable: bool,
    pub flag_ipc_off: bool,
    pub flag_ipcapi: Option<String>,
    pub flag_ipcpath: Option<String>,
    pub flag_gasprice: Option<String>,
    pub flag_etherbase: Option<String>,
    pub flag_extradata: Option<String>,
    pub flag_cache: Option<u32>,
    pub flag_version: bool,
    pub flag_no_config: bool,
    pub flag_mode: Option<String>,
    pub flag_mode_timeout: Option<u64>,
    pub flag_mode_alarm: Option<u64>,
    pub flag_chain: Option<String>,
    pub flag_db_path: Option<String>,
    pub flag_keys_path: Option<String>,
    pub flag_identity: Option<String>,
    pub flag_unlock: Option<String>,
    pub flag_password: Option<Vec<String>>,
    pub flag_keys_iterations: Option<u32>,
    pub flag_force_signer: Option<bool>,
    pub flag_no_signer: Option<bool>,
    pub flag_signer_port: Option<u16>,
    pub flag_signer_interface: Option<String>,
    pub flag_signer_path: Option<String>,
    pub flag_signer_no_validation: Option<bool>,
    pub flag_no_network: Option<bool>,
    pub flag_warp: Option<bool>,
    pub flag_port: Option<u16>,
    pub flag_min_peers: Option<u16>,
    pub flag_max_peers: Option<u16>,
    pub flag_nat: Option<String>,
    pub flag_network_id: Option<String>,
    pub flag_bootnodes: Option<String>,
    pub flag_no_discovery: Option<bool>,
    pub flag_node_key: Option<String>,
    pub flag_reserved_peers: Option<String>,
    pub flag_reserved_only: Option<bool>,
    pub flag_no_jsonrpc: Option<bool>,
    pub flag_jsonrpc_port: Option<u16>,
    pub flag_jsonrpc_interface: Option<String>,
    pub flag_jsonrpc_cors: Option<String>,
    pub flag_jsonrpc_apis: Option<String>,
    pub flag_jsonrpc_hosts: Option<String>,
    pub flag_no_ipc: Option<bool>,
    pub flag_ipc_path: Option<String>,
    pub flag_ipc_apis: Option<String>,
    pub flag_no_dapps: Option<bool>,
    pub flag_dapps_port: Option<u16>,
    pub flag_dapps_interface: Option<String>,
    pub flag_dapps_hosts: Option<String>,
    pub flag_dapps_path: Option<String>,
    pub flag_dapps_user: Option<String>,
    pub flag_dapps_pass: Option<String>,
    pub flag_author: Option<String>,
    pub flag_force_sealing: Option<bool>,
    pub flag_reseal_on_txs: Option<String>,
    pub flag_reseal_min_period: Option<u64>,
    pub flag_work_queue_size: Option<usize>,
    pub flag_tx_gas_limit: Option<String>,
    pub flag_relay_set: Option<String>,
    pub flag_usd_per_tx: Option<String>,
    pub flag_usd_per_eth: Option<String>,
    pub flag_price_update_period: Option<String>,
    pub flag_gas_floor_target: Option<String>,
    pub flag_gas_cap: Option<String>,
    pub flag_extra_data: Option<String>,
    pub flag_tx_queue_size: Option<usize>,
    pub flag_remove_solved: Option<bool>,
    pub flag_notify_work: Option<String>,
    pub flag_tracing: Option<String>,
    pub flag_pruning: Option<String>,
    pub flag_cache_size_db: Option<u32>,
    pub flag_cache_size_blocks: Option<u32>,
    pub flag_cache_size_queue: Option<u32>,
    pub flag_cache_size: Option<u32>,
    pub flag_fast_and_loose: Option<bool>,
    pub flag_db_compaction: Option<String>,
    pub flag_fat_db: Option<bool>,
    pub flag_from: Option<String>,
    pub flag_to: Option<String>,
    pub flag_format: Option<String>,
    pub flag_at: Option<String>,
    pub flag_no_periodic_snapshot: Option<bool>,
    pub flag_jitvm: Option<bool>,
    pub flag_config: Option<String>,
    pub flag_logging: Option<String>,
    pub flag_log_file: Option<String>,
    pub flag_no_color: Option<bool>,
}

/// The options in force: the command line first, then the settings file,
/// then the default.
#[derive(Debug, PartialEq)]
pub struct Args {
    pub cmd_daemon: bool,
    pub cmd_wallet: bool,
    pub cmd_account: bool,
    pub cmd_new: bool,
    pub cmd_list: bool,
    pub cmd_export: bool,
    pub cmd_import: bool,
    pub cmd_signer: bool,
    pub cmd_new_token: bool,
    pub cmd_snapshot: bool,
    pub cmd_restore: bool,
    pub cmd_ui: bool,
    pub arg_pid_file: String,
    pub arg_file: Option<String>,
    pub arg_path: Vec<String>,
    pub flag_geth: bool,
    pub flag_testnet: bool,
    pub flag_import_geth_keys: bool,
    pub flag_datadir: Option<String>,
    pub flag_networkid: Option<String>,
    pub flag_peers: Option<u16>,
    pub flag_nodekey: Option<String>,
    pub flag_nodiscover: bool,
    pub flag_jsonrpc: bool,
    pub flag_jsonrpc_off: bool,
    pub flag_webapp: bool,
    pub flag_dapps_off: bool,
    pub flag_rpc: bool,
    pub flag_rpcaddr: Option<String>,
    pub flag_rpcport: Option<u16>,
    pub flag_rpcapi: Option<String>,
    pub flag_rpccorsdomain: Option<String>,
    pub flag_ipcdisable: bool,
    pub flag_ipc_off: bool,
    pub flag_ipcapi: Option<String>,
    pub flag_ipcpath: Option<String>,
    pub flag_gasprice: Option<String>,
    pub flag_etherbase: Option<String>,
    pub flag_extradata: Option<String>,
    pub flag_cache: Option<u32>,
    pub flag_version: bool,
    pub flag_no_config: bool,
    pub flag_mode: String,
    pub flag_mode_timeout: u64,
    pub flag_mode_alarm: u64,
    pub flag_chain: String,
    pub flag_db_path: String,
    pub flag_keys_path: String,
    pub flag_identity: String,
    pub flag_unlock: Option<String>,
    pub flag_password: Vec<String>,
    pub flag_keys_iterations: u32,
    pub flag_force_signer: bool,
    pub flag_no_signer: bool,
    pub flag_signer_port: u16,
    pub flag_signer_interface: String,
    pub flag_signer_path: String,
    pub flag_signer_no_validation: bool,
    pub flag_no_network: bool,
    pub flag_warp: bool,
    pub flag_port: u16,
    pub flag_min_peers: u16,
    pub flag_max_peers: u16,
    pub flag_nat: String,
    pub flag_network_id: Option<String>,
    pub flag_bootnodes: Option<String>,
    pub flag_no_discovery: bool,
    pub flag_node_key: Option<String>,
    pub flag_reserved_peers: Option<String>,
    pub flag_reserved_only: bool,
    pub flag_no_jsonrpc: bool,
    pub flag_jsonrpc_port: u16,
    pub flag_jsonrpc_interface: String,
    pub flag_jsonrpc_cors: Option<String>,
    pub flag_jsonrpc_apis: String,
    pub flag_jsonrpc_hosts: String,
    pub flag_no_ipc: bool,
    pub flag_ipc_path: String,
    pub flag_ipc_apis: String,
    pub flag_no_dapps: bool,
    pub flag_dapps_port: u16,
    pub flag_dapps_interface: String,
    pub flag_dapps_hosts: String,
    pub flag_dapps_path: String,
    pub flag_dapps_user: Option<String>,
    pub flag_dapps_pass: Option<String>,
    pub flag_author: Option<String>,
    pub flag_force_sealing: bool,
    pub flag_reseal_on_txs: String,
    pub flag_reseal_min_period: u64,
    pub flag_work_queue_size: usize,
    pub flag_tx_gas_limit: Option<String>,
    pub flag_relay_set: String,
    pub flag_usd_per_tx: String,
    pub flag_usd_per_eth: String,
    pub flag_price_update_period: String,
    pub flag_gas_floor_target: String,
    pub flag_gas_cap: String,
    pub flag_extra_data: Option<String>,
    pub flag_tx_queue_size: usize,
    pub flag_remove_solved: bool,
    pub flag_notify_work: Option<String>,
    pub flag_tracing: String,
    pub flag_pruning: String,
    pub flag_cache_size_db: u32,
    pub flag_cache_size_blocks: u32,
    pub flag_cache_size_queue: u32,
    pub flag_cache_size: Option<u32>,
    pub flag_fast_and_loose: bool,
    pub flag_db_compaction: String,
    pub flag_fat_db: bool,
    pub flag_from: String,
    pub flag_to: String,
    pub flag_format: Option<String>,
    pub flag_at: String,
    pub flag_no_periodic_snapshot: bool,
    pub flag_jitvm: bool,
    pub flag_config: String,
    pub flag_logging: Option<String>,
    pub flag_log_file: Option<String>,
    pub flag_no_color: bool,
}

/// What went wrong while the options were put together.
#[derive(Debug, PartialEq)]
pub enum ArgsError {
    /// The command line does not fit the usage, or a number in it is none.
    Docopt(String),
    /// The settings file is no valid TOML.
    Parsing(Vec<String>),
    /// The settings file holds a value of the wrong kind.
    Decode(String),
    /// The settings file could not be read: its name and the reason.
    Config(String, String),
}

/// The map from commands, arguments and options to values that the command
/// line parser hands out.
#[verifier::external_type_specification]
#[verifier::external_body]
pub struct ExArgvMap(docopt::ArgvMap);

/// A value of the parser's map: a switch, a count, a single value that may
/// be missing, or a list.
pub enum ArgSpec {
    Switch(bool),
    Counted(u64),
    Plain(Option<Seq<char>>),
    List(Seq<Seq<char>>),
}

/// What a map of the command line parser holds.
pub uninterp spec fn argv_map(m: docopt::ArgvMap) -> Map<Seq<char>, ArgSpec>;

/// What the command line parser makes of a usage text and a command line,
/// where the command line fits the usage.
pub uninterp spec fn docopt_outcome(usage: Seq<char>, argv: Seq<Seq<char>>) -> Option<
    Map<Seq<char>, ArgSpec>,
>;

/// Whether a character is one of the ten digits.
pub open spec fn is_digit(c: char) -> bool {
    '0' <= c && c <= '9'
}

/// The number that a text of digits stands for; nothing where a character
/// is no digit. The empty text stands for zero.
pub open spec fn digits_value(s: Seq<char>) -> Option<nat>
    decreases s.len(),
{
    if s.len() == 0 {
        Some(0nat)
    } else {
        match digits_value(s.drop_last()) {
            Some(v) => if is_digit(s.last()) {
                Some((10 * v + (s.last() as nat - '0' as nat)) as nat)
            } else {
                None
            },
            None => None,
        }
    }
}

/// The number that a text stands for, as the standard library reads a `u64`:
/// a plus sign or none, then digits and at least one, no more than the type
/// holds; nothing else.
pub open spec fn decimal_u64(text: Seq<char>) -> Option<u64> {
    let digits = if text.len() > 0 && text[0] == '+' {
        text.skip(1)
    } else {
        text
    };
    if digits.len() == 0 {
        None
    } else {
        match digits_value(digits) {
            Some(v) => if v <= u64::MAX {
                Some(v as u64)
            } else {
                None
            },
            None => None,
        }
    }
}

/// A text is worth at least as much as any of its beginnings, where it is a
/// number at all; and it is none where a beginning is none.
pub proof fn lemma_digits_grow(s: Seq<char>, k: int)
    requires
        0 <= k <= s.len(),
    ensures
        match digits_value(s.take(k)) {
            Some(a) => digits_value(s).is_none() || digits_value(s).unwrap() >= a,
            None => digits_value(s).is_none(),
        },
    decreases s.len() - k,
{
    if k < s.len() {
        lemma_digits_grow(s, k + 1);
        assert(s.take(k + 1).drop_last() =~= s.take(k));
    } else {
        assert(s.take(k) =~= s);
    }
}

/// A text with a character that is no digit is no number.
pub proof fn lemma_digits_all(s: Seq<char>, j: int)
    requires
        0 <= j < s.len(),
        !is_digit(s[j]),
    ensures
        digits_value(s).is_none(),
    decreases s.len(),
{
    if j < s.len() - 1 {
        lemma_digits_all(s.drop_last(), j);
    }
}

/// The texts of a sequence of strings.
pub open spec fn strings(v: Seq<String>) -> Seq<Seq<char>> {
    v.map_values(|s: String| s@)
}

/// The texts of a sequence of string slices.
pub open spec fn texts(v: Seq<&str>) -> Seq<Seq<char>> {
    v.map_values(|s: &str| s@)
}

/// The text of a string that may be missing.
pub open spec fn opt_view(o: Option<String>) -> Option<Seq<char>> {
    match o {
        Some(s) => Some(s@),
        None => None,
    }
}

/// Whether a key counts as set: a switch that is on, a count above zero, a
/// value that is there, a list that is not empty.
pub open spec fn switch_of(m: Map<Seq<char>, ArgSpec>, key: Seq<char>) -> bool {
    if m.contains_key(key) {
        match m[key] {
            ArgSpec::Switch(b) => b,
            ArgSpec::Counted(n) => n > 0,
            ArgSpec::Plain(None) => false,
            ArgSpec::Plain(Some(_)) => true,
            ArgSpec::List(v) => v.len() > 0,
        }
    } else {
        false
    }
}

/// The single value under a key, where there is one.
pub open spec fn text_of(m: Map<Seq<char>, ArgSpec>, key: Seq<char>) -> Option<Seq<char>> {
    if m.contains_key(key) {
        match m[key] {
            ArgSpec::Plain(Some(s)) => Some(s),
            _ => None,
        }
    } else {
        None
    }
}

/// The values under a key: those of a list, the one of a single value.
pub open spec fn list_of(m: Map<Seq<char>, ArgSpec>, key: Seq<char>) -> Seq<Seq<char>> {
    if m.contains_key(key) {
        match m[key] {
            ArgSpec::Plain(Some(s)) => seq![s],
            ArgSpec::List(v) => v,
            _ => Seq::empty(),
        }
    } else {
        Seq::empty()
    }
}

/// The single value under a key, or the empty text.
pub open spec fn text_or_empty(m: Map<Seq<char>, ArgSpec>, key: Seq<char>) -> Seq<char> {
    match text_of(m, key) {
        Some(s) => s,
        None => Seq::empty(),
    }
}

/// The number under a key: none where the key has no value, an error where
/// the value is no number or exceeds `max`.
pub open spec fn number_of(m: Map<Seq<char>, ArgSpec>, key: Seq<char>, max: u64) -> Result<
    Option<u64>,
    (),
> {
    match text_of(m, key) {
        None => Ok(None),
        Some(s) => match decimal_u64(s) {
            Some(v) => if v <= max {
                Ok(Some(v))
            } else {
                Err(())
            },
            None => Err(()),
        },
    }
}

/// The values under a key as an option: none where there are none.
pub open spec fn some_list(m: Map<Seq<char>, ArgSpec>, key: Seq<char>) -> Option<Seq<Seq<char>>> {
    if list_of(m, key).len() > 0 {
        Some(list_of(m, key))
    } else {
        None
    }
}

/// The texts of a list of strings that may be missing.
pub open spec fn opt_strings(o: Option<Vec<String>>) -> Option<Seq<Seq<char>>> {
    match o {
        Some(v) => Some(strings(v@)),
        None => None,
    }
}

/// The parts joined, with `sep` between each two.
pub open spec fn join_spec(parts: Seq<Seq<char>>, sep: Seq<char>) -> Seq<char>
    decreases parts.len(),
{
    if parts.len() == 0 {
        Seq::empty()
    } else if parts.len() == 1 {
        parts[0]
    } else {
        join_spec(parts.drop_last(), sep) + sep + parts.last()
    }
}

/// A list that may be missing, joined with commas.
pub open spec fn joined_view(o: Option<Vec<String>>) -> Option<Seq<char>> {
    match o {
        Some(v) => Some(join_spec(strings(v@), ","@)),
        None => None,
    }
}

/// The first of the three that is there: command line, settings, default.
pub open spec fn pick_spec<T>(cli: Option<T>, config: Option<T>, default: T) -> T {
    match cli {
        Some(v) => v,
        None => match config {
            Some(v) => v,
            None => default,
        },
    }
}

/// The first of the two that is there: command line, settings.
pub open spec fn either_spec<T>(cli: Option<T>, config: Option<T>) -> Option<T> {
    match cli {
        Some(v) => Some(v),
        None => config,
    }
}

/// The opposite of a setting that may be missing.
pub open spec fn negated_spec(o: Option<bool>) -> Option<bool> {
    match o {
        Some(b) => Some(!b),
        None => None,
    }
}

/// `Docopt::new` with the usage text, `argv` with the command line, `parse`;
/// an error is handed on as the text that it displays. Only this library's
/// own usage text is handed to it.
#[verifier::external_body]
fn docopt_parse(usage: &str, argv: &[&str]) -> (r: Result<docopt::ArgvMap, String>)
    requires
        usage@ == USAGE@,
    ensures
        match r {
            Ok(m) => docopt_outcome(usage@, texts(argv@)) == Some(argv_map(m)),
            Err(_) => docopt_outcome(usage@, texts(argv@)).is_none(),
        },
{
    docopt::Docopt::new(usage).and_then(|d| d.argv(argv.iter()).parse()).map_err(
        |e| format!("{}", e),
    )
}

/// `ArgvMap::get_bool`.
#[verifier::external_body]
fn argv_switch(m: &docopt::ArgvMap, key: &str) -> (r: bool)
    ensures
        r == switch_of(argv_map(*m), key@),
{
    m.get_bool(key)
}

/// `ArgvMap::find`, of which the single value is taken where it is one.
#[verifier::external_body]
fn argv_text(m: &docopt::ArgvMap, key: &str) -> (r: Option<String>)
    ensures
        opt_view(r) == text_of(argv_map(*m), key@),
{
    match m.find(key) {
        Some(docopt::Value::Plain(Some(s))) => Some(s.clone()),
        _ => None,
    }
}

/// `ArgvMap::get_vec`.
#[verifier::external_body]
fn argv_list(m: &docopt::ArgvMap, key: &str) -> (r: Vec<String>)
    ensures
        strings(r@) == list_of(argv_map(*m), key@),
{
    m.get_vec(key).into_iter().map(|s| s.to_owned()).collect()
}

/// Reads a text as a number: see `decimal_u64`.
pub fn decimal(text: &str) -> (r: Option<u64>)
    ensures
        r == decimal_u64(text@),
{
    let ghost digits = if text@.len() > 0 && text@[0] == '+' {
        text@.skip(1)
    } else {
        text@
    };
    if !text.is_ascii() {
        proof {
            let j = choose|j: int| 0 <= j < text@.len() && !('\0' <= #[trigger] text@[j] <= '\u{7f}');
            if text@.len() > 0 && text@[0] == '+' {
                assert(j >= 1);
                assert(digits[j - 1] == text@[j]);
                lemma_digits_all(digits, j - 1);
            } else {
                lemma_digits_all(digits, j);
            }
        }
        return None;
    }
    let bytes = text.as_bytes();
    proof {
        vstd::string::is_ascii_spec_bytes(text);
        assert(bytes@.len() == text@.len());
        assert forall|j: int| 0 <= j < bytes@.len() implies bytes@[j] == text@[j] as u8 by {}
    }
    let n = bytes.len();
    let start: usize = if n > 0 && bytes[0] == 0x2b {
        1
    } else {
        0
    };
    proof {
        assert(start == 1 <==> (text@.len() > 0 && text@[0] == '+'));
        assert(digits.len() == n - start);
        assert forall|j: int| 0 <= j < digits.len() implies digits[j] == text@[j + start] by {}
    }
    if start == n {
        return None;
    }
    let mut v: u64 = 0;
    let mut i: usize = start;
    proof {
        assert(digits.take(0) =~= Seq::<char>::empty());
    }
    while i < n
        invariant
            start <= i <= n,
            n == bytes@.len(),
            n == text@.len(),
            digits.len() == n - start,
            digits.len() > 0,
            digits == (if text@.len() > 0 && text@[0] == '+' {
                text@.skip(1)
            } else {
                text@
            }),
            forall|j: int| 0 <= j < digits.len() ==> digits[j] == text@[j + start],
            forall|j: int| 0 <= j < n ==> bytes@[j] == text@[j] as u8,
            forall|j: int| 0 <= j < n ==> '\0' <= #[trigger] text@[j] <= '\u{7f}',
            digits_value(digits.take(i - start)) == Some(v as nat),
        decreases n - i,
    {
        let b = bytes[i];
        proof {
            assert(digits.take(i - start + 1).drop_last() =~= digits.take(i - start));
            assert(digits.take(i - start + 1).last() == text@[i as int]);
            assert('\0' <= text@[i as int] <= '\u{7f}');
            assert(b == text@[i as int] as u8);
            assert(is_digit(text@[i as int]) <==> (0x30 <= b && b <= 0x39));
            lemma_digits_grow(digits, i - start + 1);
        }
        if b < 0x30 || b > 0x39 {
            return None;
        }
        let d: u64 = (b - 0x30) as u64;
        proof {
            assert(d == text@[i as int] as nat - '0' as nat);
            assert(digits_value(digits.take(i - start + 1)) == Some((10 * v + d) as nat));
        }
        if v > (u64::MAX - d) / 10 {
            return None;
        }
        v = v * 10 + d;
        i = i + 1;
    }
    proof {
        assert(digits.take(digits.len() as int) =~= digits);
    }
    Some(v)
}

/// Joins strings with commas.
pub fn join_commas(parts: &Vec<String>) -> (r: String)
    ensures
        r@ == join_spec(strings(parts@), ","@),
{
    let mut r = String::new();
    let mut i: usize = 0;
    let ghost all = strings(parts@);
    proof {
        assert(all.take(0) =~= Seq::<Seq<char>>::empty());
    }
    while i < parts.len()
        invariant
            i <= parts@.len(),
            all == strings(parts@),
            all.len() == parts@.len(),
            r@ == join_spec(all.take(i as int), ","@),
        decreases parts@.len() - i,
    {
        proof {
            assert(all.take(i + 1).drop_last() =~= all.take(i as int));
            assert(all.take(i + 1).last() == parts@[i as int]@);
            if i == 0 {
                assert(r@ + parts@[i as int]@ =~= parts@[i as int]@);
            }
        }
        if i > 0 {
            r.append(",");
        }
        r.append(parts[i].as_str());
        i = i + 1;
    }
    proof {
        assert(all.take(all.len() as int) =~= all);
    }
    r
}

/// The first of the three that is there: command line, settings, default.
pub fn pick<T>(cli: Option<T>, config: Option<T>, default: T) -> (r: T)
    ensures
        r == pick_spec(cli, config, default),
{
    match cli {
        Some(v) => v,
        None => match config {
            Some(v) => v,
            None => default,
        },
    }
}

/// The first of the three texts that is there: command line, settings, default.
pub fn pick_text(cli: Option<String>, config: Option<String>, default: &str) -> (r: String)
    ensures
        r@ == pick_spec(opt_view(cli), opt_view(config), default@),
{
    match cli {
        Some(v) => v,
        None => match config {
            Some(v) => v,
            None => default.to_owned(),
        },
    }
}

/// The first of the two that is there: command line, settings.
pub fn either<T>(cli: Option<T>, config: Option<T>) -> (r: Option<T>)
    ensures
        r == either_spec(cli, config),
{
    match cli {
        Some(v) => Some(v),
        None => config,
    }
}

/// The opposite of a setting that may be missing.
pub fn negated(o: Option<bool>) -> (r: Option<bool>)
    ensures
        r == negated_spec(o),
{
    match o {
        Some(b) => Some(!b),
        None => None,
    }
}

/// A list that may be missing, joined with commas.
pub fn joined(o: Option<Vec<String>>) -> (r: Option<String>)
    ensures
        opt_view(r) == joined_view(o),
{
    match o {
        Some(v) => Some(join_commas(&v)),
        None => None,
    }
}

/// A switch as the command line gives it: set, or not given.
fn raw_switch(m: &docopt::ArgvMap, key: &str) -> (r: Option<bool>)
    ensures
        r == (if switch_of(argv_map(*m), key@) {
            Some(true)
        } else {
            None::<bool>
        }),
{
    if argv_switch(m, key) {
        Some(true)
    } else {
        None
    }
}

/// A list as the command line gives it: none where it is empty.
fn raw_list(m: &docopt::ArgvMap, key: &str) -> (r: Option<Vec<String>>)
    ensures
        opt_strings(r) == some_list(argv_map(*m), key@),
{
    let v = argv_list(m, key);
    if v.len() > 0 {
        Some(v)
    } else {
        None
    }
}

/// The number under a key: none where the key has no value, an error where
/// the value is no number or exceeds `max`.
fn raw_number(m: &docopt::ArgvMap, key: &str, max: u64) -> (r: Result<Option<u64>, ArgsError>)
    ensures
        match r {
            Ok(v) => number_of(argv_map(*m), key@, max) == Ok::<Option<u64>, ()>(v),
            Err(e) => number_of(argv_map(*m), key@, max).is_err() && e is Docopt,
        },
{
    match argv_text(m, key) {
        None => Ok(None),
        Some(s) => match decimal(s.as_str()) {
            Some(v) => {
                if v <= max {
                    Ok(Some(v))
                } else {
                    Err(ArgsError::Docopt(s))
                }
            },
            None => Err(ArgsError::Docopt(s)),
        },
    }
}

/// A number that is known to fit, as a `u16`.
fn as_u16(v: Option<u64>) -> (r: Option<u16>)
    requires
        v.is_some() ==> v.unwrap() <= 0xffff,
    ensures
        match r {
            Some(n) => v == Some(n as u64),
            None => v.is_none(),
        },
{
    match v {
        Some(n) => Some(n as u16),
        None => None,
    }
}

/// A number that is known to fit, as a `u32`.
fn as_u32(v: Option<u64>) -> (r: Option<u32>)
    requires
        v.is_some() ==> v.unwrap() <= 0xffff_ffff,
    ensures
        match r {
            Some(n) => v == Some(n as u64),
            None => v.is_none(),
        },
{
    match v {
        Some(n) => Some(n as u32),
        None => None,
    }
}

/// A number that is known to fit, as a `usize`.
fn as_usize(v: Option<u64>) -> (r: Option<usize>)
    requires
        v.is_some() ==> v.unwrap() <= 0xffff_ffff,
    ensures
        match r {
            Some(n) => v == Some(n as u64),
            None => v.is_none(),
        },
{
    match v {
        Some(n) => Some(n as usize),
        None => None,
    }
}

impl RawArgs {
    /// Whether every number that the parser's map gives for an option is one
    /// and fits the option.
    pub open spec fn numbers_fit(m: Map<Seq<char>, ArgSpec>) -> bool {
        &&& number_of(m, "--peers"@, 0xffff).is_ok()
        &&& number_of(m, "--rpcport"@, 0xffff).is_ok()
        &&& number_of(m, "--cache"@, 0xffff_ffff).is_ok()
        &&& number_of(m, "--mode-timeout"@, 0xffff_ffff_ffff_ffff).is_ok()
        &&& number_of(m, "--mode-alarm"@, 0xffff_ffff_ffff_ffff).is_ok()
        &&& number_of(m, "--keys-iterations"@, 0xffff_ffff).is_ok()
        &&& number_of(m, "--signer-port"@, 0xffff).is_ok()
        &&& number_of(m, "--port"@, 0xffff).is_ok()
        &&& number_of(m, "--min-peers"@, 0xffff).is_ok()
        &&& number_of(m, "--max-peers"@, 0xffff).is_ok()
        &&& number_of(m, "--jsonrpc-port"@, 0xffff).is_ok()
        &&& number_of(m, "--dapps-port"@, 0xffff).is_ok()
        &&& number_of(m, "--reseal-min-period"@, 0xffff_ffff_ffff_ffff).is_ok()
        &&& number_of(m, "--work-queue-size"@, 0xffff_ffff).is_ok()
        &&& number_of(m, "--tx-queue-size"@, 0xffff_ffff).is_ok()
        &&& number_of(m, "--cache-size-db"@, 0xffff_ffff).is_ok()
        &&& number_of(m, "--cache-size-blocks"@, 0xffff_ffff).is_ok()
        &&& number_of(m, "--cache-size-queue"@, 0xffff_ffff).is_ok()
        &&& number_of(m, "--cache-size"@, 0xffff_ffff).is_ok()
    }

    /// Whether `self` holds what the parser's map gives, key by key.
    pub open spec fn reads(self, m: Map<Seq<char>, ArgSpec>) -> bool {
        &&& self.cmd_daemon == switch_of(m, "daemon"@)
        &&& self.cmd_wallet == switch_of(m, "wallet"@)
        &&& self.cmd_account == switch_of(m, "account"@)
        &&& self.cmd_new == switch_of(m, "new"@)
        &&& self.cmd_list == switch_of(m, "list"@)
        &&& self.cmd_export == switch_of(m, "export"@)
        &&& self.cmd_import == switch_of(m, "import"@)
        &&& self.cmd_signer == switch_of(m, "signer"@)
        &&& self.cmd_new_token == switch_of(m, "new-token"@)
        &&& self.cmd_snapshot == switch_of(m, "snapshot"@)
        &&& self.cmd_restore == switch_of(m, "restore"@)
        &&& self.cmd_ui == switch_of(m, "ui"@)
        &&& self.arg_pid_file@ == text_or_empty(m, "<pid-file>"@)
        &&& opt_view(self.arg_file) == text_of(m, "<file>"@)
        &&& strings(self.arg_path@) == list_of(m, "<path>"@)
        &&& self.flag_geth == switch_of(m, "--geth"@)
        &&& self.flag_testnet == switch_of(m, "--testnet"@)
        &&& self.flag_import_geth_keys == switch_of(m, "--import-geth-keys"@)
        &&& opt_view(self.flag_datadir) == text_of(m, "--datadir"@)
        &&& opt_view(self.flag_networkid) == text_of(m, "--networkid"@)
        &&& (match self.flag_peers {
            Some(n) => number_of(m, "--peers"@, 0xffff) == Ok::<Option<u64>, ()>(Some(n as u64)),
            None => number_of(m, "--peers"@, 0xffff) == Ok::<Option<u64>, ()>(None),
        })
        &&& opt_view(self.flag_nodekey) == text_of(m, "--nodekey"@)
        &&& self.flag_nodiscover == switch_of(m, "--nodiscover"@)
        &&& self.flag_jsonrpc == switch_of(m, "--jsonrpc"@)
        &&& self.flag_jsonrpc_off == switch_of(m, "--jsonrpc-off"@)
        &&& self.flag_webapp == switch_of(m, "--webapp"@)
        &&& self.flag_dapps_off == switch_of(m, "--dapps-off"@)
        &&& self.flag_rpc == switch_of(m, "--rpc"@)
        &&& opt_view(self.flag_rpcaddr) == text_of(m, "--rpcaddr"@)
        &&& (match self.flag_rpcport {
            Some(n) => number_of(m, "--rpcport"@, 0xffff) == Ok::<Option<u64>, ()>(Some(n as u64)),
            None => number_of(m, "--rpcport"@, 0xffff) == Ok::<Option<u64>, ()>(None),
        })
        &&& opt_view(self.flag_rpcapi) == text_of(m, "--rpcapi"@)
        &&& opt_view(self.flag_rpccorsdomain) == text_of(m, "--rpccorsdomain"@)
        &&& self.flag_ipcdisable == switch_of(m, "--ipcdisable"@)
        &&& self.flag_ipc_off == switch_of(m, "--ipc-off"@)
        &&& opt_view(self.flag_ipcapi) == text_of(m, "--ipcapi"@)
        &&& opt_view(self.flag_ipcpath) == text_of(m, "--ipcpath"@)
        &&& opt_view(self.flag_gasprice) == text_of(m, "--gasprice"@)
        &&& opt_view(self.flag_etherbase) == text_of(m, "--etherbase"@)
        &&& opt_view(self.flag_extradata) == text_of(m, "--extradata"@)
        &&& (match self.flag_cache {
            Some(n) => number_of(m, "--cache"@, 0xffff_ffff) == Ok::<Option<u64>, ()>(Some(n as u64)),
            None => number_of(m, "--cache"@, 0xffff_ffff) == Ok::<Option<u64>, ()>(None),
        })
        &&& self.flag_version == switch_of(m, "--version"@)
        &&& self.flag_no_config == switch_of(m, "--no-config"@)
        &&& opt_view(self.flag_mode) == text_of(m, "--mode"@)
        &&& (match self.flag_mode_timeout {
            Some(n) => number_of(m, "--mode-timeout"@, 0xffff_ffff_ffff_ffff) == Ok::<Option<u64>, ()>(Some(n as u64)),
            None => number_of(m, "--mode-timeout"@, 0xffff_ffff_ffff_ffff) == Ok::<Option<u64>, ()>(None),
        })
        &&& (match self.flag_mode_alarm {
            Some(n) => number_of(m, "--mode-alarm"@, 0xffff_ffff_ffff_ffff) == Ok::<Option<u64>, ()>(Some(n as u64)),
            None => number_of(m, "--mode-alarm"@, 0xffff_ffff_ffff_ffff) == Ok::<Option<u64>, ()>(None),
        })
        &&& opt_view(self.flag_chain) == text_of(m, "--chain"@)
        &&& opt_view(self.flag_db_path) == text_of(m, "--db-path"@)
        &&& opt_view(self.flag_keys_path) == text_of(m, "--keys-path"@)
        &&& opt_view(self.flag_identity) == text_of(m, "--identity"@)
        &&& opt_view(self.flag_unlock) == text_of(m, "--unlock"@)
        &&& opt_strings(self.flag_password) == some_list(m, "--password"@)
        &&& (match self.flag_keys_iterations {
            Some(n) => number_of(m, "--keys-iterations"@, 0xffff_ffff) == Ok::<Option<u64>, ()>(Some(n as u64)),
            None => number_of(m, "--keys-iterations"@, 0xffff_ffff) == Ok::<Option<u64>, ()>(None),
        })
        &&& self.flag_force_signer == (if switch_of(m, "--force-signer"@) {
            Some(true)
        } else {
            None::<bool>
        })
        &&& self.flag_no_signer == (if switch_of(m, "--no-signer"@) {
            Some(true)
        } else {
            None::<bool>
        })
        &&& (match self.flag_signer_port {
            Some(n) => number_of(m, "--signer-port"@, 0xffff) == Ok::<Option<u64>, ()>(Some(n as u64)),
            None => number_of(m, "--signer-port"@, 0xffff) == Ok::<Option<u64>, ()>(None),
        })
        &&& opt_view(self.flag_signer_interface) == text_of(m, "--signer-interface"@)
        &&& opt_view(self.flag_signer_path) == text_of(m, "--signer-path"@)
        &&& self.flag_signer_no_validation == (if switch_of(m, "--signer-no-validation"@) {
            Some(true)
        } else {
            None::<bool>
        })
        &&& self.flag_no_network == (if switch_of(m, "--no-network"@) {
            Some(true)
        } else {
            None::<bool>
        })
        &&& self.flag_warp == (if switch_of(m, "--warp"@) {
            Some(true)
        } else {
            None::<bool>
        })
        &&& (match self.flag_port {
            Some(n) => number_of(m, "--port"@, 0xffff) == Ok::<Option<u64>, ()>(Some(n as u64)),
            None => number_of(m, "--port"@, 0xffff) == Ok::<Option<u64>, ()>(None),
        })
        &&& (match self.flag_min_peers {
            Some(n) => number_of(m, "--min-peers"@, 0xffff) == Ok::<Option<u64>, ()>(Some(n as u64)),
            None => number_of(m, "--min-peers"@, 0xffff) == Ok::<Option<u64>, ()>(None),
        })
        &&& (match self.flag_max_peers {
            Some(n) => number_of(m, "--max-peers"@, 0xffff) == Ok::<Option<u64>, ()>(Some(n as u64)),
            None => number_of(m, "--max-peers"@, 0xffff) == Ok::<Option<u64>, ()>(None),
        })
        &&& opt_view(self.flag_nat) == text_of(m, "--nat"@)
        &&& opt_view(self.flag_network_id) == text_of(m, "--network-id"@)
        &&& opt_view(self.flag_bootnodes) == text_of(m, "--bootnodes"@)
        &&& self.flag_no_discovery == (if switch_of(m, "--no-discovery"@) {
            Some(true)
        } else {
            None::<bool>
        })
        &&& opt_view(self.flag_node_key) == text_of(m, "--node-key"@)
        &&& opt_view(self.flag_reserved_peers) == text_of(m, "--reserved-peers"@)
        &&& self.flag_reserved_only == (if switch_of(m, "--reserved-only"@) {
            Some(true)
        } else {
            None::<bool>
        })
        &&& self.flag_no_jsonrpc == (if switch_of(m, "--no-jsonrpc"@) {
            Some(true)
        } else {
            None::<bool>
        })
        &&& (match self.flag_jsonrpc_port {
            Some(n) => number_of(m, "--jsonrpc-port"@, 0xffff) == Ok::<Option<u64>, ()>(Some(n as u64)),
            None => number_of(m, "--jsonrpc-port"@, 0xffff) == Ok::<Option<u64>, ()>(None),
        })
        &&& opt_view(self.flag_jsonrpc_interface) == text_of(m, "--jsonrpc-interface"@)
        &&& opt_view(self.flag_jsonrpc_cors) == text_of(m, "--jsonrpc-cors"@)
        &&& opt_view(self.flag_jsonrpc_apis) == text_of(m, "--jsonrpc-apis"@)
        &&& opt_view(self.flag_jsonrpc_hosts) == text_of(m, "--jsonrpc-hosts"@)
        &&& self.flag_no_ipc == (if switch_of(m, "--no-ipc"@) {
            Some(true)
        } else {
            None::<bool>
        })
        &&& opt_view(self.flag_ipc_path) == text_of(m, "--ipc-path"@)
        &&& opt_view(self.flag_ipc_apis) == text_of(m, "--ipc-apis"@)
        &&& self.flag_no_dapps == (if switch_of(m, "--no-dapps"@) {
            Some(true)
        } else {
            None::<bool>
        })
        &&& (match self.flag_dapps_port {
            Some(n) => number_of(m, "--dapps-port"@, 0xffff) == Ok::<Option<u64>, ()>(Some(n as u64)),
            None => number_of(m, "--dapps-port"@, 0xffff) == Ok::<Option<u64>, ()>(None),
        })
        &&& opt_view(self.flag_dapps_interface) == text_of(m, "--dapps-interface"@)
        &&& opt_view(self.flag_dapps_hosts) == text_of(m, "--dapps-hosts"@)
        &&& opt_view(self.flag_dapps_path) == text_of(m, "--dapps-path"@)
        &&& opt_view(self.flag_dapps_user) == text_of(m, "--dapps-user"@)
        &&& opt_view(self.flag_dapps_pass) == text_of(m, "--dapps-pass"@)
        &&& opt_view(self.flag_author) == text_of(m, "--author"@)
        &&& self.flag_force_sealing == (if switch_of(m, "--force-sealing"@) {
            Some(true)
        } else {
            None::<bool>
        })
        &&& opt_view(self.flag_reseal_on_txs) == text_of(m, "--reseal-on-txs"@)
        &&& (match self.flag_reseal_min_period {
            Some(n) => number_of(m, "--reseal-min-period"@, 0xffff_ffff_ffff_ffff) == Ok::<Option<u64>, ()>(Some(n as u64)),
            None => number_of(m, "--reseal-min-period"@, 0xffff_ffff_ffff_ffff) == Ok::<Option<u64>, ()>(None),
        })
        &&& (match self.flag_work_queue_size {
            Some(n) => number_of(m, "--work-queue-size"@, 0xffff_ffff) == Ok::<Option<u64>, ()>(Some(n as u64)),
            None => number_of(m, "--work-queue-size"@, 0xffff_ffff) == Ok::<Option<u64>, ()>(None),
        })
        &&& opt_view(self.flag_tx_gas_limit) == text_of(m, "--tx-gas-limit"@)
        &&& opt_view(self.flag_relay_set) == text_of(m, "--relay-set"@)
        &&& opt_view(self.flag_usd_per_tx) == text_of(m, "--usd-per-tx"@)
        &&& opt_view(self.flag_usd_per_eth) == text_of(m, "--usd-per-eth"@)
        &&& opt_view(self.flag_price_update_period) == text_of(m, "--price-update-period"@)
        &&& opt_view(self.flag_gas_floor_target) == text_of(m, "--gas-floor-target"@)
        &&& opt_view(self.flag_gas_cap) == text_of(m, "--gas-cap"@)
        &&& opt_view(self.flag_extra_data) == text_of(m, "--extra-data"@)
        &&& (match self.flag_tx_queue_size {
            Some(n) => number_of(m, "--tx-queue-size"@, 0xffff_ffff) == Ok::<Option<u64>, ()>(Some(n as u64)),
            None => number_of(m, "--tx-queue-size"@, 0xffff_ffff) == Ok::<Option<u64>, ()>(None),
        })
        &&& self.flag_remove_solved == (if switch_of(m, "--remove-solved"@) {
            Some(true)
        } else {
            None::<bool>
        })
        &&& opt_view(self.flag_notify_work) == text_of(m, "--notify-work"@)
        &&& opt_view(self.flag_tracing) == text_of(m, "--tracing"@)
        &&& opt_view(self.flag_pruning) == text_of(m, "--pruning"@)
        &&& (match self.flag_cache_size_db {
            Some(n) => number_of(m, "--cache-size-db"@, 0xffff_ffff) == Ok::<Option<u64>, ()>(Some(n as u64)),
            None => number_of(m, "--cache-size-db"@, 0xffff_ffff) == Ok::<Option<u64>, ()>(None),
        })
        &&& (match self.flag_cache_size_blocks {
            Some(n) => number_of(m, "--cache-size-blocks"@, 0xffff_ffff) == Ok::<Option<u64>, ()>(Some(n as u64)),
            None => number_of(m, "--cache-size-blocks"@, 0xffff_ffff) == Ok::<Option<u64>, ()>(None),
        })
        &&& (match self.flag_cache_size_queue {
            Some(n) => number_of(m, "--cache-size-queue"@, 0xffff_ffff) == Ok::<Option<u64>, ()>(Some(n as u64)),
            None => number_of(m, "--cache-size-queue"@, 0xffff_ffff) == Ok::<Option<u64>, ()>(None),
        })
        &&& (match self.flag_cache_size {
            Some(n) => number_of(m, "--cache-size"@, 0xffff_ffff) == Ok::<Option<u64>, ()>(Some(n as u64)),
            None => number_of(m, "--cache-size"@, 0xffff_ffff) == Ok::<Option<u64>, ()>(None),
        })
        &&& self.flag_fast_and_loose == (if switch_of(m, "--fast-and-loose"@) {
            Some(true)
        } else {
            None::<bool>
        })
        &&& opt_view(self.flag_db_compaction) == text_of(m, "--db-compaction"@)
        &&& self.flag_fat_db == (if switch_of(m, "--fat-db"@) {
            Some(true)
        } else {
            None::<bool>
        })
        &&& opt_view(self.flag_from) == text_of(m, "--from"@)
        &&& opt_view(self.flag_to) == text_of(m, "--to"@)
        &&& opt_view(self.flag_format) == text_of(m, "--format"@)
        &&& opt_view(self.flag_at) == text_of(m, "--at"@)
        &&& self.flag_no_periodic_snapshot == (if switch_of(m, "--no-periodic-snapshot"@) {
            Some(true)
        } else {
            None::<bool>
        })
        &&& self.flag_jitvm == (if switch_of(m, "--jitvm"@) {
            Some(true)
        } else {
            None::<bool>
        })
        &&& opt_view(self.flag_config) == text_of(m, "--config"@)
        &&& opt_view(self.flag_logging) == text_of(m, "--logging"@)
        &&& opt_view(self.flag_log_file) == text_of(m, "--log-file"@)
        &&& self.flag_no_color == (if switch_of(m, "--no-color"@) {
            Some(true)
        } else {
            None::<bool>
        })
    }

    /// Reads the commands, arguments and options out of the parser's map.
    /// Fails if and only if the value of an option that takes a number is no
    /// number, or one that does not fit the option.
    pub fn from_argv(m: &docopt::ArgvMap) -> (r: Result<RawArgs, ArgsError>)
        ensures
            r.is_ok() == RawArgs::numbers_fit(argv_map(*m)),
            r.is_ok() ==> r.unwrap().reads(argv_map(*m)),
            r.is_err() ==> r.unwrap_err() is Docopt,
    {
        let flag_peers = match raw_number(m, "--peers", 0xffff) {
            Ok(v) => as_u16(v),
            Err(e) => {
                return Err(e);
            },
        };
        let flag_rpcport = match raw_number(m, "--rpcport", 0xffff) {
            Ok(v) => as_u16(v),
            Err(e) => {
                return Err(e);
            },
        };
        let flag_cache = match raw_number(m, "--cache", 0xffff_ffff) {
            Ok(v) => as_u32(v),
            Err(e) => {
                return Err(e);
            },
        };
        let flag_mode_timeout = match raw_number(m, "--mode-timeout", 0xffff_ffff_ffff_ffff) {
            Ok(v) => v,
            Err(e) => {
                return Err(e);
            },
        };
        let flag_mode_alarm = match raw_number(m, "--mode-alarm", 0xffff_ffff_ffff_ffff) {
            Ok(v) => v,
            Err(e) => {
                return Err(e);
            },
        };
        let flag_keys_iterations = match raw_number(m, "--keys-iterations", 0xffff_ffff) {
            Ok(v) => as_u32(v),
            Err(e) => {
                return Err(e);
            },
        };
        let flag_signer_port = match raw_number(m, "--signer-port", 0xffff) {
            Ok(v) => as_u16(v),
            Err(e) => {
                return Err(e);
            },
        };
        let flag_port = match raw_number(m, "--port", 0xffff) {
            Ok(v) => as_u16(v),
            Err(e) => {
                return Err(e);
            },
        };
        let flag_min_peers = match raw_number(m, "--min-peers", 0xffff) {
            Ok(v) => as_u16(v),
            Err(e) => {
                return Err(e);
            },
        };
        let flag_max_peers = match raw_number(m, "--max-peers", 0xffff) {
            Ok(v) => as_u16(v),
            Err(e) => {
                return Err(e);
            },
        };
        let flag_jsonrpc_port = match raw_number(m, "--jsonrpc-port", 0xffff) {
            Ok(v) => as_u16(v),
            Err(e) => {
                return Err(e);
            },
        };
        let flag_dapps_port = match raw_number(m, "--dapps-port", 0xffff) {
            Ok(v) => as_u16(v),
            Err(e) => {
                return Err(e);
            },
        };
        let flag_reseal_min_period = match raw_number(m, "--reseal-min-period", 0xffff_ffff_ffff_ffff) {
            Ok(v) => v,
            Err(e) => {
                return Err(e);
            },
        };
        let flag_work_queue_size = match raw_number(m, "--work-queue-size", 0xffff_ffff) {
            Ok(v) => as_usize(v),
            Err(e) => {
                return Err(e);
            },
        };
        let flag_tx_queue_size = match raw_number(m, "--tx-queue-size", 0xffff_ffff) {
            Ok(v) => as_usize(v),
            Err(e) => {
                return Err(e);
            },
        };
        let flag_cache_size_db = match raw_number(m, "--cache-size-db", 0xffff_ffff) {
            Ok(v) => as_u32(v),
            Err(e) => {
                return Err(e);
            },
        };
        let flag_cache_size_blocks = match raw_number(m, "--cache-size-blocks", 0xffff_ffff) {
            Ok(v) => as_u32(v),
            Err(e) => {
                return Err(e);
            },
        };
        let flag_cache_size_queue = match raw_number(m, "--cache-size-queue", 0xffff_ffff) {
            Ok(v) => as_u32(v),
            Err(e) => {
                return Err(e);
            },
        };
        let flag_cache_size = match raw_number(m, "--cache-size", 0xffff_ffff) {
            Ok(v) => as_u32(v),
            Err(e) => {
                return Err(e);
            },
        };
        Ok(
            RawArgs {
                cmd_daemon: argv_switch(m, "daemon"),
                cmd_wallet: argv_switch(m, "wallet"),
                cmd_account: argv_switch(m, "account"),
                cmd_new: argv_switch(m, "new"),
                cmd_list: argv_switch(m, "list"),
                cmd_export: argv_switch(m, "export"),
                cmd_import: argv_switch(m, "import"),
                cmd_signer: argv_switch(m, "signer"),
                cmd_new_token: argv_switch(m, "new-token"),
                cmd_snapshot: argv_switch(m, "snapshot"),
                cmd_restore: argv_switch(m, "restore"),
                cmd_ui: argv_switch(m, "ui"),
                arg_pid_file: match argv_text(m, "<pid-file>") {
                    Some(s) => s,
                    None => String::new(),
                },
                arg_file: argv_text(m, "<file>"),
                arg_path: argv_list(m, "<path>"),
                flag_geth: argv_switch(m, "--geth"),
                flag_testnet: argv_switch(m, "--testnet"),
                flag_import_geth_keys: argv_switch(m, "--import-geth-keys"),
                flag_datadir: argv_text(m, "--datadir"),
                flag_networkid: argv_text(m, "--networkid"),
                flag_peers: flag_peers,
                flag_nodekey: argv_text(m, "--nodekey"),
                flag_nodiscover: argv_switch(m, "--nodiscover"),
                flag_jsonrpc: argv_switch(m, "--jsonrpc"),
                flag_jsonrpc_off: argv_switch(m, "--jsonrpc-off"),
                flag_webapp: argv_switch(m, "--webapp"),
                flag_dapps_off: argv_switch(m, "--dapps-off"),
                flag_rpc: argv_switch(m, "--rpc"),
                flag_rpcaddr: argv_text(m, "--rpcaddr"),
                flag_rpcport: flag_rpcport,
                flag_rpcapi: argv_text(m, "--rpcapi"),
                flag_rpccorsdomain: argv_text(m, "--rpccorsdomain"),
                flag_ipcdisable: argv_switch(m, "--ipcdisable"),
                flag_ipc_off: argv_switch(m, "--ipc-off"),
                flag_ipcapi: argv_text(m, "--ipcapi"),
                flag_ipcpath: argv_text(m, "--ipcpath"),
                flag_gasprice: argv_text(m, "--gasprice"),
                flag_etherbase: argv_text(m, "--etherbase"),
                flag_extradata: argv_text(m, "--extradata"),
                flag_cache: flag_cache,
                flag_version: argv_switch(m, "--version"),
                flag_no_config: argv_switch(m, "--no-config"),
                flag_mode: argv_text(m, "--mode"),
                flag_mode_timeout: flag_mode_timeout,
                flag_mode_alarm: flag_mode_alarm,
                flag_chain: argv_text(m, "--chain"),
                flag_db_path: argv_text(m, "--db-path"),
                flag_keys_path: argv_text(m, "--keys-path"),
                flag_identity: argv_text(m, "--identity"),
                flag_unlock: argv_text(m, "--unlock"),
                flag_password: raw_list(m, "--password"),
                flag_keys_iterations: flag_keys_iterations,
                flag_force_signer: raw_switch(m, "--force-signer"),
                flag_no_signer: raw_switch(m, "--no-signer"),
                flag_signer_port: flag_signer_port,
                flag_signer_interface: argv_text(m, "--signer-interface"),
                flag_signer_path: argv_text(m, "--signer-path"),
                flag_signer_no_validation: raw_switch(m, "--signer-no-validation"),
                flag_no_network: raw_switch(m, "--no-network"),
                flag_warp: raw_switch(m, "--warp"),
                flag_port: flag_port,
                flag_min_peers: flag_min_peers,
                flag_max_peers: flag_max_peers,
                flag_nat: argv_text(m, "--nat"),
                flag_network_id: argv_text(m, "--network-id"),
                flag_bootnodes: argv_text(m, "--bootnodes"),
                flag_no_discovery: raw_switch(m, "--no-discovery"),
                flag_node_key: argv_text(m, "--node-key"),
                flag_reserved_peers: argv_text(m, "--reserved-peers"),
                flag_reserved_only: raw_switch(m, "--reserved-only"),
                flag_no_jsonrpc: raw_switch(m, "--no-jsonrpc"),
                flag_jsonrpc_port: flag_jsonrpc_port,
                flag_jsonrpc_interface: argv_text(m, "--jsonrpc-interface"),
                flag_jsonrpc_cors: argv_text(m, "--jsonrpc-cors"),
                flag_jsonrpc_apis: argv_text(m, "--jsonrpc-apis"),
                flag_jsonrpc_hosts: argv_text(m, "--jsonrpc-hosts"),
                flag_no_ipc: raw_switch(m, "--no-ipc"),
                flag_ipc_path: argv_text(m, "--ipc-path"),
                flag_ipc_apis: argv_text(m, "--ipc-apis"),
                flag_no_dapps: raw_switch(m, "--no-dapps"),
                flag_dapps_port: flag_dapps_port,
                flag_dapps_interface: argv_text(m, "--dapps-interface"),
                flag_dapps_hosts: argv_text(m, "--dapps-hosts"),
                flag_dapps_path: argv_text(m, "--dapps-path"),
                flag_dapps_user: argv_text(m, "--dapps-user"),
                flag_dapps_pass: argv_text(m, "--dapps-pass"),
                flag_author: argv_text(m, "--author"),
                flag_force_sealing: raw_switch(m, "--force-sealing"),
                flag_reseal_on_txs: argv_text(m, "--reseal-on-txs"),
                flag_reseal_min_period: flag_reseal_min_period,
                flag_work_queue_size: flag_work_queue_size,
                flag_tx_gas_limit: argv_text(m, "--tx-gas-limit"),
                flag_relay_set: argv_text(m, "--relay-set"),
                flag_usd_per_tx: argv_text(m, "--usd-per-tx"),
                flag_usd_per_eth: argv_text(m, "--usd-per-eth"),
                flag_price_update_period: argv_text(m, "--price-update-period"),
                flag_gas_floor_target: argv_text(m, "--gas-floor-target"),
                flag_gas_cap: argv_text(m, "--gas-cap"),
                flag_extra_data: argv_text(m, "--extra-data"),
                flag_tx_queue_size: flag_tx_queue_size,
                flag_remove_solved: raw_switch(m, "--remove-solved"),
                flag_notify_work: argv_text(m, "--notify-work"),
                flag_tracing: argv_text(m, "--tracing"),
                flag_pruning: argv_text(m, "--pruning"),
                flag_cache_size_db: flag_cache_size_db,
                flag_cache_size_blocks: flag_cache_size_blocks,
                flag_cache_size_queue: flag_cache_size_queue,
                flag_cache_size: flag_cache_size,
                flag_fast_and_loose: raw_switch(m, "--fast-and-loose"),
                flag_db_compaction: argv_text(m, "--db-compaction"),
                flag_fat_db: raw_switch(m, "--fat-db"),
                flag_from: argv_text(m, "--from"),
                flag_to: argv_text(m, "--to"),
                flag_format: argv_text(m, "--format"),
                flag_at: argv_text(m, "--at"),
                flag_no_periodic_snapshot: raw_switch(m, "--no-periodic-snapshot"),
                flag_jitvm: raw_switch(m, "--jitvm"),
                flag_config: argv_text(m, "--config"),
                flag_logging: argv_text(m, "--logging"),
                flag_log_file: argv_text(m, "--log-file"),
                flag_no_color: raw_switch(m, "--no-color"),
            },
        )
    }

    /// Whether `args` is what `self` and the settings give together: for each
    /// option the command line first, then the settings, then the default.
    pub open spec fn merged(self, config: Config, args: Args) -> bool {
        &&& args.cmd_daemon == self.cmd_daemon
        &&& args.cmd_wallet == self.cmd_wallet
        &&& args.cmd_account == self.cmd_account
        &&& args.cmd_new == self.cmd_new
        &&& args.cmd_list == self.cmd_list
        &&& args.cmd_export == self.cmd_export
        &&& args.cmd_import == self.cmd_import
        &&& args.cmd_signer == self.cmd_signer
        &&& args.cmd_new_token == self.cmd_new_token
        &&& args.cmd_snapshot == self.cmd_snapshot
        &&& args.cmd_restore == self.cmd_restore
        &&& args.cmd_ui == self.cmd_ui
        &&& args.arg_pid_file == self.arg_pid_file
        &&& args.arg_file == self.arg_file
        &&& args.arg_path == self.arg_path
        &&& args.flag_geth == self.flag_geth
        &&& args.flag_testnet == self.flag_testnet
        &&& args.flag_import_geth_keys == self.flag_import_geth_keys
        &&& args.flag_datadir == self.flag_datadir
        &&& args.flag_networkid == self.flag_networkid
        &&& args.flag_peers == self.flag_peers
        &&& args.flag_nodekey == self.flag_nodekey
        &&& args.flag_nodiscover == self.flag_nodiscover
        &&& args.flag_jsonrpc == self.flag_jsonrpc
        &&& args.flag_jsonrpc_off == self.flag_jsonrpc_off
        &&& args.flag_webapp == self.flag_webapp
        &&& args.flag_dapps_off == self.flag_dapps_off
        &&& args.flag_rpc == self.flag_rpc
        &&& args.flag_rpcaddr == self.flag_rpcaddr
        &&& args.flag_rpcport == self.flag_rpcport
        &&& args.flag_rpcapi == self.flag_rpcapi
        &&& args.flag_rpccorsdomain == self.flag_rpccorsdomain
        &&& args.flag_ipcdisable == self.flag_ipcdisable
        &&& args.flag_ipc_off == self.flag_ipc_off
        &&& args.flag_ipcapi == self.flag_ipcapi
        &&& args.flag_ipcpath == self.flag_ipcpath
        &&& args.flag_gasprice == self.flag_gasprice
        &&& args.flag_etherbase == self.flag_etherbase
        &&& args.flag_extradata == self.flag_extradata
        &&& args.flag_cache == self.flag_cache
        &&& args.flag_version == self.flag_version
        &&& args.flag_no_config == self.flag_no_config
        &&& args.flag_mode@ == pick_spec(opt_view(self.flag_mode), opt_view(config.parity_part().mode), "active"@)
        &&& args.flag_mode_timeout == pick_spec(self.flag_mode_timeout, config.parity_part().mode_timeout, 300)
        &&& args.flag_mode_alarm == pick_spec(self.flag_mode_alarm, config.parity_part().mode_alarm, 3600)
        &&& args.flag_chain@ == pick_spec(opt_view(self.flag_chain), opt_view(config.parity_part().chain), "homestead"@)
        &&& args.flag_db_path@ == pick_spec(opt_view(self.flag_db_path), opt_view(config.parity_part().db_path), "$HOME/.parity"@)
        &&& args.flag_keys_path@ == pick_spec(opt_view(self.flag_keys_path), opt_view(config.parity_part().keys_path), "$HOME/.parity/keys"@)
        &&& args.flag_identity@ == pick_spec(opt_view(self.flag_identity), opt_view(config.parity_part().identity), ""@)
        &&& opt_view(args.flag_unlock) == either_spec(opt_view(self.flag_unlock), joined_view(config.account_part().unlock))
        &&& strings(args.flag_password@) == pick_spec(opt_strings(self.flag_password), opt_strings(config.account_part().password), Seq::empty())
        &&& args.flag_keys_iterations == pick_spec(self.flag_keys_iterations, config.account_part().keys_iterations, 10240)
        &&& args.flag_force_signer == pick_spec(self.flag_force_signer, config.signer_part().force, false)
        &&& args.flag_no_signer == pick_spec(self.flag_no_signer, config.signer_part().disable, false)
        &&& args.flag_signer_port == pick_spec(self.flag_signer_port, config.signer_part().port, 8180)
        &&& args.flag_signer_interface@ == pick_spec(opt_view(self.flag_signer_interface), opt_view(config.signer_part().interface), "local"@)
        &&& args.flag_signer_path@ == pick_spec(opt_view(self.flag_signer_path), opt_view(config.signer_part().path), "$HOME/.parity/signer"@)
        &&& args.flag_signer_no_validation == pick_spec(self.flag_signer_no_validation, None::<bool>, false)
        &&& args.flag_no_network == pick_spec(self.flag_no_network, config.network_part().disable, false)
        &&& args.flag_warp == pick_spec(self.flag_warp, config.network_part().warp, false)
        &&& args.flag_port == pick_spec(self.flag_port, config.network_part().port, 30303)
        &&& args.flag_min_peers == pick_spec(self.flag_min_peers, config.network_part().min_peers, 25)
        &&& args.flag_max_peers == pick_spec(self.flag_max_peers, config.network_part().max_peers, 50)
        &&& args.flag_nat@ == pick_spec(opt_view(self.flag_nat), opt_view(config.network_part().nat), "any"@)
        &&& opt_view(args.flag_network_id) == either_spec(opt_view(self.flag_network_id), opt_view(config.network_part().id))
        &&& opt_view(args.flag_bootnodes) == either_spec(opt_view(self.flag_bootnodes), joined_view(config.network_part().bootnodes))
        &&& args.flag_no_discovery == pick_spec(self.flag_no_discovery, negated_spec(config.network_part().discovery), false)
        &&& opt_view(args.flag_node_key) == either_spec(opt_view(self.flag_node_key), opt_view(config.network_part().node_key))
        &&& opt_view(args.flag_reserved_peers) == either_spec(opt_view(self.flag_reserved_peers), opt_view(config.network_part().reserved_peers))
        &&& args.flag_reserved_only == pick_spec(self.flag_reserved_only, config.network_part().reserved_only, false)
        &&& args.flag_no_jsonrpc == pick_spec(self.flag_no_jsonrpc, config.rpc_part().disable, false)
        &&& args.flag_jsonrpc_port == pick_spec(self.flag_jsonrpc_port, config.rpc_part().port, 8545)
        &&& args.flag_jsonrpc_interface@ == pick_spec(opt_view(self.flag_jsonrpc_interface), opt_view(config.rpc_part().interface), "local"@)
        &&& opt_view(args.flag_jsonrpc_cors) == either_spec(opt_view(self.flag_jsonrpc_cors), opt_view(config.rpc_part().cors))
        &&& args.flag_jsonrpc_apis@ == pick_spec(opt_view(self.flag_jsonrpc_apis), joined_view(config.rpc_part().apis), "web3,eth,net,ethcore,personal,traces,rpc"@)
        &&& args.flag_jsonrpc_hosts@ == pick_spec(opt_view(self.flag_jsonrpc_hosts), joined_view(config.rpc_part().hosts), "none"@)
        &&& args.flag_no_ipc == pick_spec(self.flag_no_ipc, config.ipc_part().disable, false)
        &&& args.flag_ipc_path@ == pick_spec(opt_view(self.flag_ipc_path), opt_view(config.ipc_part().path), "$HOME/.parity/jsonrpc.ipc"@)
        &&& args.flag_ipc_apis@ == pick_spec(opt_view(self.flag_ipc_apis), joined_view(config.ipc_part().apis), "web3,eth,net,ethcore,personal,traces,rpc"@)
        &&& args.flag_no_dapps == pick_spec(self.flag_no_dapps, config.dapps_part().disable, false)
        &&& args.flag_dapps_port == pick_spec(self.flag_dapps_port, config.dapps_part().port, 8080)
        &&& args.flag_dapps_interface@ == pick_spec(opt_view(self.flag_dapps_interface), opt_view(config.dapps_part().interface), "local"@)
        &&& args.flag_dapps_hosts@ == pick_spec(opt_view(self.flag_dapps_hosts), joined_view(config.dapps_part().hosts), "none"@)
        &&& args.flag_dapps_path@ == pick_spec(opt_view(self.flag_dapps_path), opt_view(config.dapps_part().path), "$HOME/.parity/dapps"@)
        &&& opt_view(args.flag_dapps_user) == either_spec(opt_view(self.flag_dapps_user), opt_view(config.dapps_part().user))
        &&& opt_view(args.flag_dapps_pass) == either_spec(opt_view(self.flag_dapps_pass), opt_view(config.dapps_part().pass))
        &&& opt_view(args.flag_author) == either_spec(opt_view(self.flag_author), opt_view(config.mining_part().author))
        &&& args.flag_force_sealing == pick_spec(self.flag_force_sealing, config.mining_part().force_sealing, false)
        &&& args.flag_reseal_on_txs@ == pick_spec(opt_view(self.flag_reseal_on_txs), opt_view(config.mining_part().reseal_on_txs), "own"@)
        &&& args.flag_reseal_min_period == pick_spec(self.flag_reseal_min_period, config.mining_part().reseal_min_period, 2000)
        &&& args.flag_work_queue_size == pick_spec(self.flag_work_queue_size, config.mining_part().work_queue_size, 20)
        &&& opt_view(args.flag_tx_gas_limit) == either_spec(opt_view(self.flag_tx_gas_limit), opt_view(config.mining_part().tx_gas_limit))
        &&& args.flag_relay_set@ == pick_spec(opt_view(self.flag_relay_set), opt_view(config.mining_part().relay_set), "cheap"@)
        &&& args.flag_usd_per_tx@ == pick_spec(opt_view(self.flag_usd_per_tx), opt_view(config.mining_part().usd_per_tx), "0"@)
        &&& args.flag_usd_per_eth@ == pick_spec(opt_view(self.flag_usd_per_eth), opt_view(config.mining_part().usd_per_eth), "auto"@)
        &&& args.flag_price_update_period@ == pick_spec(opt_view(self.flag_price_update_period), opt_view(config.mining_part().price_update_period), "hourly"@)
        &&& args.flag_gas_floor_target@ == pick_spec(opt_view(self.flag_gas_floor_target), opt_view(config.mining_part().gas_floor_target), "4700000"@)
        &&& args.flag_gas_cap@ == pick_spec(opt_view(self.flag_gas_cap), opt_view(config.mining_part().gas_cap), "6283184"@)
        &&& opt_view(args.flag_extra_data) == either_spec(opt_view(self.flag_extra_data), opt_view(config.mining_part().extra_data))
        &&& args.flag_tx_queue_size == pick_spec(self.flag_tx_queue_size, config.mining_part().tx_queue_size, 1024)
        &&& args.flag_remove_solved == pick_spec(self.flag_remove_solved, config.mining_part().remove_solved, false)
        &&& opt_view(args.flag_notify_work) == either_spec(opt_view(self.flag_notify_work), joined_view(config.mining_part().notify_work))
        &&& args.flag_tracing@ == pick_spec(opt_view(self.flag_tracing), opt_view(config.footprint_part().tracing), "auto"@)
        &&& args.flag_pruning@ == pick_spec(opt_view(self.flag_pruning), opt_view(config.footprint_part().pruning), "auto"@)
        &&& args.flag_cache_size_db == pick_spec(self.flag_cache_size_db, config.footprint_part().cache_size_db, 64)
        &&& args.flag_cache_size_blocks == pick_spec(self.flag_cache_size_blocks, config.footprint_part().cache_size_blocks, 8)
        &&& args.flag_cache_size_queue == pick_spec(self.flag_cache_size_queue, config.footprint_part().cache_size_queue, 50)
        &&& args.flag_cache_size == either_spec(self.flag_cache_size, config.footprint_part().cache_size)
        &&& args.flag_fast_and_loose == pick_spec(self.flag_fast_and_loose, config.footprint_part().fast_and_loose, false)
        &&& args.flag_db_compaction@ == pick_spec(opt_view(self.flag_db_compaction), opt_view(config.footprint_part().db_compaction), "ssd"@)
        &&& args.flag_fat_db == pick_spec(self.flag_fat_db, config.footprint_part().fat_db, false)
        &&& args.flag_from@ == pick_spec(opt_view(self.flag_from), None::<Seq<char>>, "1"@)
        &&& args.flag_to@ == pick_spec(opt_view(self.flag_to), None::<Seq<char>>, "latest"@)
        &&& opt_view(args.flag_format) == either_spec(opt_view(self.flag_format), None::<Seq<char>>)
        &&& args.flag_at@ == pick_spec(opt_view(self.flag_at), None::<Seq<char>>, "latest"@)
        &&& args.flag_no_periodic_snapshot == pick_spec(self.flag_no_periodic_snapshot, config.snapshots_part().disable_periodic, false)
        &&& args.flag_jitvm == pick_spec(self.flag_jitvm, config.vm_part().jit, false)
        &&& args.flag_config@ == pick_spec(opt_view(self.flag_config), None::<Seq<char>>, "$HOME/.parity/config.toml"@)
        &&& opt_view(args.flag_logging) == either_spec(opt_view(self.flag_logging), opt_view(config.misc_part().logging))
        &&& opt_view(args.flag_log_file) == either_spec(opt_view(self.flag_log_file), opt_view(config.misc_part().log_file))
        &&& args.flag_no_color == pick_spec(self.flag_no_color, negated_spec(config.misc_part().color), false)
    }

    /// Puts the options together: for each one the command line first, then
    /// the settings, then the default.
    pub fn into_args(self, config: Config) -> (r: Args)
        ensures
            self.merged(config, r),
    {
        let parity = match config.parity {
            Some(p) => p,
            None => Operating::default(),
        };
        let account = match config.account {
            Some(p) => p,
            None => Account::default(),
        };
        let signer = match config.signer {
            Some(p) => p,
            None => Signer::default(),
        };
        let network = match config.network {
            Some(p) => p,
            None => Network::default(),
        };
        let rpc = match config.rpc {
            Some(p) => p,
            None => Rpc::default(),
        };
        let ipc = match config.ipc {
            Some(p) => p,
            None => Ipc::default(),
        };
        let dapps = match config.dapps {
            Some(p) => p,
            None => Dapps::default(),
        };
        let mining = match config.mining {
            Some(p) => p,
            None => Mining::default(),
        };
        let footprint = match config.footprint {
            Some(p) => p,
            None => Footprint::default(),
        };
        let snapshots = match config.snapshots {
            Some(p) => p,
            None => Snapshots::default(),
        };
        let vm = match config.vm {
            Some(p) => p,
            None => VM::default(),
        };
        let misc = match config.misc {
            Some(p) => p,
            None => Misc::default(),
        };
        let flag_password = match self.flag_password {
            Some(v) => v,
            None => match account.password {
                Some(v) => v,
                None => Vec::new(),
            },
        };
        proof {
            assert(strings(Seq::<String>::empty()) =~= Seq::<Seq<char>>::empty());
        }
        Args {
            cmd_daemon: self.cmd_daemon,
            cmd_wallet: self.cmd_wallet,
            cmd_account: self.cmd_account,
            cmd_new: self.cmd_new,
            cmd_list: self.cmd_list,
            cmd_export: self.cmd_export,
            cmd_import: self.cmd_import,
            cmd_signer: self.cmd_signer,
            cmd_new_token: self.cmd_new_token,
            cmd_snapshot: self.cmd_snapshot,
            cmd_restore: self.cmd_restore,
            cmd_ui: self.cmd_ui,
            arg_pid_file: self.arg_pid_file,
            arg_file: self.arg_file,
            arg_path: self.arg_path,
            flag_geth: self.flag_geth,
            flag_testnet: self.flag_testnet,
            flag_import_geth_keys: self.flag_import_geth_keys,
            flag_datadir: self.flag_datadir,
            flag_networkid: self.flag_networkid,
            flag_peers: self.flag_peers,
            flag_nodekey: self.flag_nodekey,
            flag_nodiscover: self.flag_nodiscover,
            flag_jsonrpc: self.flag_jsonrpc,
            flag_jsonrpc_off: self.flag_jsonrpc_off,
            flag_webapp: self.flag_webapp,
            flag_dapps_off: self.flag_dapps_off,
            flag_rpc: self.flag_rpc,
            flag_rpcaddr: self.flag_rpcaddr,
            flag_rpcport: self.flag_rpcport,
            flag_rpcapi: self.flag_rpcapi,
            flag_rpccorsdomain: self.flag_rpccorsdomain,
            flag_ipcdisable: self.flag_ipcdisable,
            flag_ipc_off: self.flag_ipc_off,
            flag_ipcapi: self.flag_ipcapi,
            flag_ipcpath: self.flag_ipcpath,
            flag_gasprice: self.flag_gasprice,
            flag_etherbase: self.flag_etherbase,
            flag_extradata: self.flag_extradata,
            flag_cache: self.flag_cache,
            flag_version: self.flag_version,
            flag_no_config: self.flag_no_config,
            flag_mode: pick_text(self.flag_mode, parity.mode, "active"),
            flag_mode_timeout: pick(self.flag_mode_timeout, parity.mode_timeout, 300),
            flag_mode_alarm: pick(self.flag_mode_alarm, parity.mode_alarm, 3600),
            flag_chain: pick_text(self.flag_chain, parity.chain, "homestead"),
            flag_db_path: pick_text(self.flag_db_path, parity.db_path, "$HOME/.parity"),
            flag_keys_path: pick_text(self.flag_keys_path, parity.keys_path, "$HOME/.parity/keys"),
            flag_identity: pick_text(self.flag_identity, parity.identity, ""),
            flag_unlock: either_text(self.flag_unlock, joined(account.unlock)),
            flag_password: flag_password,
            flag_keys_iterations: pick(self.flag_keys_iterations, account.keys_iterations, 10240),
            flag_force_signer: pick(self.flag_force_signer, signer.force, false),
            flag_no_signer: pick(self.flag_no_signer, signer.disable, false),
            flag_signer_port: pick(self.flag_signer_port, signer.port, 8180),
            flag_signer_interface: pick_text(self.flag_signer_interface, signer.interface, "local"),
            flag_signer_path: pick_text(self.flag_signer_path, signer.path, "$HOME/.parity/signer"),
            flag_signer_no_validation: pick(self.flag_signer_no_validation, None, false),
            flag_no_network: pick(self.flag_no_network, network.disable, false),
            flag_warp: pick(self.flag_warp, network.warp, false),
            flag_port: pick(self.flag_port, network.port, 30303),
            flag_min_peers: pick(self.flag_min_peers, network.min_peers, 25),
            flag_max_peers: pick(self.flag_max_peers, network.max_peers, 50),
            flag_nat: pick_text(self.flag_nat, network.nat, "any"),
            flag_network_id: either_text(self.flag_network_id, network.id),
            flag_bootnodes: either_text(self.flag_bootnodes, joined(network.bootnodes)),
            flag_no_discovery: pick(self.flag_no_discovery, negated(network.discovery), false),
            flag_node_key: either_text(self.flag_node_key, network.node_key),
            flag_reserved_peers: either_text(self.flag_reserved_peers, network.reserved_peers),
            flag_reserved_only: pick(self.flag_reserved_only, network.reserved_only, false),
            flag_no_jsonrpc: pick(self.flag_no_jsonrpc, rpc.disable, false),
            flag_jsonrpc_port: pick(self.flag_jsonrpc_port, rpc.port, 8545),
            flag_jsonrpc_interface: pick_text(self.flag_jsonrpc_interface, rpc.interface, "local"),
            flag_jsonrpc_cors: either_text(self.flag_jsonrpc_cors, rpc.cors),
            flag_jsonrpc_apis: pick_text(self.flag_jsonrpc_apis, joined(rpc.apis), "web3,eth,net,ethcore,personal,traces,rpc"),
            flag_jsonrpc_hosts: pick_text(self.flag_jsonrpc_hosts, joined(rpc.hosts), "none"),
            flag_no_ipc: pick(self.flag_no_ipc, ipc.disable, false),
            flag_ipc_path: pick_text(self.flag_ipc_path, ipc.path, "$HOME/.parity/jsonrpc.ipc"),
            flag_ipc_apis: pick_text(self.flag_ipc_apis, joined(ipc.apis), "web3,eth,net,ethcore,personal,traces,rpc"),
            flag_no_dapps: pick(self.flag_no_dapps, dapps.disable, false),
            flag_dapps_port: pick(self.flag_dapps_port, dapps.port, 8080),
            flag_dapps_interface: pick_text(self.flag_dapps_interface, dapps.interface, "local"),
            flag_dapps_hosts: pick_text(self.flag_dapps_hosts, joined(dapps.hosts), "none"),
            flag_dapps_path: pick_text(self.flag_dapps_path, dapps.path, "$HOME/.parity/dapps"),
            flag_dapps_user: either_text(self.flag_dapps_user, dapps.user),
            flag_dapps_pass: either_text(self.flag_dapps_pass, dapps.pass),
            flag_author: either_text(self.flag_author, mining.author),
            flag_force_sealing: pick(self.flag_force_sealing, mining.force_sealing, false),
            flag_reseal_on_txs: pick_text(self.flag_reseal_on_txs, mining.reseal_on_txs, "own"),
            flag_reseal_min_period: pick(self.flag_reseal_min_period, mining.reseal_min_period, 2000),
            flag_work_queue_size: pick(self.flag_work_queue_size, mining.work_queue_size, 20),
            flag_tx_gas_limit: either_text(self.flag_tx_gas_limit, mining.tx_gas_limit),
            flag_relay_set: pick_text(self.flag_relay_set, mining.relay_set, "cheap"),
            flag_usd_per_tx: pick_text(self.flag_usd_per_tx, mining.usd_per_tx, "0"),
            flag_usd_per_eth: pick_text(self.flag_usd_per_eth, mining.usd_per_eth, "auto"),
            flag_price_update_period: pick_text(self.flag_price_update_period, mining.price_update_period, "hourly"),
            flag_gas_floor_target: pick_text(self.flag_gas_floor_target, mining.gas_floor_target, "4700000"),
            flag_gas_cap: pick_text(self.flag_gas_cap, mining.gas_cap, "6283184"),
            flag_extra_data: either_text(self.flag_extra_data, mining.extra_data),
            flag_tx_queue_size: pick(self.flag_tx_queue_size, mining.tx_queue_size, 1024),
            flag_remove_solved: pick(self.flag_remove_solved, mining.remove_solved, false),
            flag_notify_work: either_text(self.flag_notify_work, joined(mining.notify_work)),
            flag_tracing: pick_text(self.flag_tracing, footprint.tracing, "auto"),
            flag_pruning: pick_text(self.flag_pruning, footprint.pruning, "auto"),
            flag_cache_size_db: pick(self.flag_cache_size_db, footprint.cache_size_db, 64),
            flag_cache_size_blocks: pick(self.flag_cache_size_blocks, footprint.cache_size_blocks, 8),
            flag_cache_size_queue: pick(self.flag_cache_size_queue, footprint.cache_size_queue, 50),
            flag_cache_size: either(self.flag_cache_size, footprint.cache_size),
            flag_fast_and_loose: pick(self.flag_fast_and_loose, footprint.fast_and_loose, false),
            flag_db_compaction: pick_text(self.flag_db_compaction, footprint.db_compaction, "ssd"),
            flag_fat_db: pick(self.flag_fat_db, footprint.fat_db, false),
            flag_from: pick_text(self.flag_from, None, "1"),
            flag_to: pick_text(self.flag_to, None, "latest"),
            flag_format: either_text(self.flag_format, None),
            flag_at: pick_text(self.flag_at, None, "latest"),
            flag_no_periodic_snapshot: pick(self.flag_no_periodic_snapshot, snapshots.disable_periodic, false),
            flag_jitvm: pick(self.flag_jitvm, vm.jit, false),
            flag_config: pick_text(self.flag_config, None, "$HOME/.parity/config.toml"),
            flag_logging: either_text(self.flag_logging, misc.logging),
            flag_log_file: either_text(self.flag_log_file, misc.log_file),
            flag_no_color: pick(self.flag_no_color, negated(misc.color), false),
        }
    }
}

/// The first of the two texts that is there: command line, settings.
pub fn either_text(cli: Option<String>, config: Option<String>) -> (r: Option<String>)
    ensures
        opt_view(r) == either_spec(opt_view(cli), opt_view(config)),
{
    match cli {
        Some(v) => Some(v),
        None => config,
    }
}

impl Args {
    /// Reads a command line, whose first word is the name of the program, and
    /// puts the options together with the given settings. Fails if and only if
    /// the command line does not fit the usage or gives a number that is none.
    pub fn parse_with_config(command: &[&str], config: Config) -> (r: Result<Args, ArgsError>)
        ensures
            match docopt_outcome(USAGE@, texts(command@)) {
                None => r.is_err() && r.unwrap_err() is Docopt,
                Some(m) => {
                    &&& r.is_ok() == RawArgs::numbers_fit(m)
                    &&& r.is_err() ==> r.unwrap_err() is Docopt
                    &&& r.is_ok() ==> exists|raw: RawArgs| #[trigger]
                        raw.reads(m) && raw.merged(config, r.unwrap())
                },
            },
    {
        let map = match docopt_parse(USAGE, command) {
            Ok(m) => m,
            Err(e) => {
                return Err(ArgsError::Docopt(e));
            },
        };
        let raw = match RawArgs::from_argv(&map) {
            Ok(raw) => raw,
            Err(e) => {
                return Err(e);
            },
        };
        let ghost kept = raw;
        let args = raw.into_args(config);
        assert(kept.reads(argv_map(map)) && kept.merged(config, args));
        Ok(args)
    }

    /// Reads a command line and puts the options together without settings.
    pub fn parse_without_config(command: &[&str]) -> (r: Result<Args, ArgsError>)
        ensures
            match docopt_outcome(USAGE@, texts(command@)) {
                None => r.is_err() && r.unwrap_err() is Docopt,
                Some(m) => {
                    &&& r.is_ok() == RawArgs::numbers_fit(m)
                    &&& r.is_err() ==> r.unwrap_err() is Docopt
                    &&& r.is_ok() ==> exists|raw: RawArgs| #[trigger]
                        raw.reads(m) && raw.merged(Config::unset(), r.unwrap())
                },
            },
    {
        Args::parse_with_config(command, Config::default())
    }
}

} // verus!
