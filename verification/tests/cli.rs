//! Command line and settings.

use snapshot::cli::{Args, ArgsError};
use snapshot::config::{
    Account, Config, Dapps, Footprint, Ipc, Mining, Misc, Network, Operating, Rpc, Signer,
    Snapshots, VM,
};
use snapshot::config_toml::{is_shallow, TomlValue, MAX_MARKS};

const CONFIG_FULL: &str = r#"
[parity]
mode = "active"
mode_timeout = 300
mode_alarm = 3600
chain = "homestead"
db_path = "$HOME/.parity"
keys_path = "$HOME/.parity/keys"
identity = ""

[account]
unlock = ["0xdeadbeefcafe0000000000000000000000000000"]
password = ["~/.safe/password.file"]
keys_iterations = 10240

[signer]
force = false
disable = false
port = 8180
interface = "127.0.0.1"
path = "$HOME/.parity/signer"

[network]
disable = false
warp = true
port = 30303
min_peers = 25
max_peers = 50
nat = "any"
id = "0x1"
bootnodes = []
discovery = true

reserved_only = false
reserved_peers = "./path_to_file"

[rpc]
disable = false
port = 8545
interface = "local"
cors = "null"
apis = ["web3", "eth", "net", "personal", "ethcore", "traces", "rpc"]
hosts = ["none"]

[ipc]
disable = false
path = "$HOME/.parity/jsonrpc.ipc"
apis = ["web3", "eth", "net", "personal", "ethcore", "traces", "rpc"]

[dapps]
disable = false
port = 8080
interface = "local"
hosts = ["none"]
path = "$HOME/.parity/dapps"
# authorization:
user = "test_user"
pass = "test_pass"

[mining]
author = "0xdeadbeefcafe0000000000000000000000000001"
force_sealing = true
reseal_on_txs = "all"
reseal_min_period = 4000
work_queue_size = 20
relay_set = "cheap"
usd_per_tx = "0"
usd_per_eth = "auto"
price_update_period = "hourly"
gas_floor_target = "4700000"
gas_cap = "6283184"
tx_queue_size = 1024
tx_gas_limit = "6283184"
extra_data = "Parity"
remove_solved = false
notify_work = ["http://localhost:3001"]

[footprint]
tracing = "auto"
pruning = "auto"
cache_size_db = 64
cache_size_blocks = 8
cache_size_queue = 50
cache_size = 128 # takes the place of the three above
fast_and_loose = false
db_compaction = "ssd"
fat_db = false

[snapshots]
disable_periodic = false

[vm]
jit = false

[misc]
logging = "own_tx=trace"
log_file = "/var/log/parity.log"
color = true
"#;

const CONFIG_PARTIAL: &str = r#"
[parity]
mode = "dark"
mode_timeout = 15
mode_alarm = 10
chain = "./chain.json"

[account]
unlock = ["0x1", "0x2", "0x3"]
password = ["passwdfile path"]

[signer]
disable = true

[network]
disable = false
warp = false
discovery = true
nat = "any"
min_peers = 10
max_peers = 20

reserved_only = true
reserved_peers = "./path/to/reserved_peers"

[rpc]
disable = true
port = 8180

[ipc]
apis = ["rpc", "eth"]

[dapps]
port = 8080
user = "username"
pass = "password"

[mining]
author = "0xdeadbeefcafe0000000000000000000000000001"
force_sealing = true
reseal_on_txs = "all"
reseal_min_period = 4000
price_update_period = "hourly"
tx_queue_size = 2048

[footprint]
tracing = "on"
pruning = "fast"
cache_size_db = 128
cache_size_blocks = 16
cache_size_queue = 100
db_compaction = "ssd"
fat_db = true

[snapshots]
disable_periodic = true

[vm]
jit = false

[misc]
logging = "own_tx=trace"
log_file = "/var/log/parity.log"
color = true
"#;

const CONFIG_INVALID1: &str = r#"
[account
unlock = "0x1"
password = ["passwdfile path"]
"#;

const CONFIG_INVALID2: &str = r#"
[account]
unlock = "0x1"
passwd = []
"#;


#[test]
fn should_parse_args_and_include_config() {
    // given
    let mut config = Config::default();
    let mut operating = Operating::default();
    operating.chain = Some("morden".into());
    config.parity = Some(operating);

    // when
    let args = Args::parse_with_config(&["parity"], config).unwrap();

    // then
    assert_eq!(args.flag_chain, "morden".to_owned());
}

#[test]
fn should_not_use_config_if_cli_is_provided() {
    // given
    let mut config = Config::default();
    let mut operating = Operating::default();
    operating.chain = Some("morden".into());
    config.parity = Some(operating);

    // when
    let args = Args::parse_with_config(&["parity", "--chain", "xyz"], config).unwrap();

    // then
    assert_eq!(args.flag_chain, "xyz".to_owned());
}

#[test]
fn defaults_apply_without_config() {
    let args = Args::parse_without_config(&["parity"]).unwrap();
    assert_eq!(args.flag_chain, "homestead".to_owned());
    assert_eq!(args.flag_port, 30303u16);
    assert_eq!(args.flag_min_peers, 25u16);
    assert_eq!(args.flag_jsonrpc_apis, "web3,eth,net,ethcore,personal,traces,rpc".to_owned());
    assert_eq!(args.flag_unlock, None);
    assert!(!args.flag_warp);
    assert!(!args.cmd_snapshot);
    assert_eq!(args.flag_password, Vec::<String>::new());
}

#[test]
fn command_and_numbers_are_read() {
    let args = Args::parse_without_config(&["parity", "snapshot", "out.snap", "--port", "4000", "--warp"]).unwrap();
    assert!(args.cmd_snapshot);
    assert_eq!(args.arg_file, Some("out.snap".to_owned()));
    assert_eq!(args.flag_port, 4000u16);
    assert!(args.flag_warp);
}

#[test]
fn number_out_of_range_is_an_error() {
    match Args::parse_without_config(&["parity", "--port", "70000"]) {
        Err(ArgsError::Docopt(_)) => {}
        other => panic!("unexpected: {:?}", other.map(|a| a.flag_port)),
    }
    match Args::parse_without_config(&["parity", "--port", "abc"]) {
        Err(ArgsError::Docopt(_)) => {}
        other => panic!("unexpected: {:?}", other.map(|a| a.flag_port)),
    }
}

#[test]
fn unknown_option_is_an_error() {
    assert!(matches!(
        Args::parse_without_config(&["parity", "--no-such-option"]),
        Err(ArgsError::Docopt(_))
    ));
}

#[test]
fn config_lists_are_joined_and_switches_negated() {
    let mut config = Config::default();
    let mut network = snapshot::config::Network::default();
    network.bootnodes = Some(vec!["a".to_owned(), "b".to_owned(), "c".to_owned()]);
    network.discovery = Some(false);
    config.network = Some(network);
    let args = Args::parse_with_config(&["parity"], config).unwrap();
    assert_eq!(args.flag_bootnodes, Some("a,b,c".to_owned()));
    assert!(args.flag_no_discovery);
}

#[test]
fn should_parse_full_config() {
    // given
    let config = Args::parse_config(CONFIG_FULL).unwrap();

    // when
    let args = Args::parse_with_config(&["parity", "--chain", "xyz"], config).unwrap();

    // then
    assert_eq!(args, Args {
        // Commands
        cmd_daemon: false,
        cmd_wallet: false,
        cmd_account: false,
        cmd_new: false,
        cmd_list: false,
        cmd_export: false,
        cmd_import: false,
        cmd_signer: false,
        cmd_new_token: false,
        cmd_snapshot: false,
        cmd_restore: false,
        cmd_ui: false,

        // Arguments
        arg_pid_file: "".into(),
        arg_file: None,
        arg_path: vec![],

        // -- Operating Options
        flag_mode: "active".into(),
        flag_mode_timeout: 300u64,
        flag_mode_alarm: 3600u64,
        flag_chain: "xyz".into(),
        flag_db_path: "$HOME/.parity".into(),
        flag_keys_path: "$HOME/.parity/keys".into(),
        flag_identity: "".into(),

        // -- Account Options
        flag_unlock: Some("0xdeadbeefcafe0000000000000000000000000000".into()),
        flag_password: vec!["~/.safe/password.file".into()],
        flag_keys_iterations: 10240u32,

        flag_force_signer: false,
        flag_no_signer: false,
        flag_signer_port: 8180u16,
        flag_signer_interface: "127.0.0.1".into(),
        flag_signer_path: "$HOME/.parity/signer".into(),
        flag_signer_no_validation: false,

        // -- Networking Options
        flag_no_network: false,
        flag_warp: true,
        flag_port: 30303u16,
        flag_min_peers: 25u16,
        flag_max_peers: 50u16,
        flag_nat: "any".into(),
        flag_network_id: Some("0x1".into()),
        flag_bootnodes: Some("".into()),
        flag_no_discovery: false,
        flag_node_key: None,
        flag_reserved_peers: Some("./path_to_file".into()),
        flag_reserved_only: false,

        // -- API and Console Options
        // RPC
        flag_no_jsonrpc: false,
        flag_jsonrpc_port: 8545u16,
        flag_jsonrpc_interface: "local".into(),
        flag_jsonrpc_cors: Some("null".into()),
        flag_jsonrpc_apis: "web3,eth,net,personal,ethcore,traces,rpc".into(),
        flag_jsonrpc_hosts: "none".into(),

        // IPC
        flag_no_ipc: false,
        flag_ipc_path: "$HOME/.parity/jsonrpc.ipc".into(),
        flag_ipc_apis: "web3,eth,net,personal,ethcore,traces,rpc".into(),

        // DAPPS
        flag_no_dapps: false,
        flag_dapps_port: 8080u16,
        flag_dapps_interface: "local".into(),
        flag_dapps_hosts: "none".into(),
        flag_dapps_path: "$HOME/.parity/dapps".into(),
        flag_dapps_user: Some("test_user".into()),
        flag_dapps_pass: Some("test_pass".into()),

        // -- Sealing/Mining Options
        flag_author: Some("0xdeadbeefcafe0000000000000000000000000001".into()),
        flag_force_sealing: true,
        flag_reseal_on_txs: "all".into(),
        flag_reseal_min_period: 4000u64,
        flag_work_queue_size: 20usize,
        flag_tx_gas_limit: Some("6283184".into()),
        flag_relay_set: "cheap".into(),
        flag_usd_per_tx: "0".into(),
        flag_usd_per_eth: "auto".into(),
        flag_price_update_period: "hourly".into(),
        flag_gas_floor_target: "4700000".into(),
        flag_gas_cap: "6283184".into(),
        flag_extra_data: Some("Parity".into()),
        flag_tx_queue_size: 1024usize,
        flag_remove_solved: false,
        flag_notify_work: Some("http://localhost:3001".into()),

        // -- Footprint Options
        flag_tracing: "auto".into(),
        flag_pruning: "auto".into(),
        flag_cache_size_db: 64u32,
        flag_cache_size_blocks: 8u32,
        flag_cache_size_queue: 50u32,
        flag_cache_size: Some(128),
        flag_fast_and_loose: false,
        flag_db_compaction: "ssd".into(),
        flag_fat_db: false,

        // -- Import/Export Options
        flag_from: "1".into(),
        flag_to: "latest".into(),
        flag_format: None,

        // -- Snapshot Optons
        flag_at: "latest".into(),
        flag_no_periodic_snapshot: false,

        // -- Virtual Machine Options
        flag_jitvm: false,

        // -- Legacy Options
        flag_geth: false,
        flag_testnet: false,
        flag_import_geth_keys: false,
        flag_datadir: None,
        flag_networkid: None,
        flag_peers: None,
        flag_nodekey: None,
        flag_nodiscover: false,
        flag_jsonrpc: false,
        flag_jsonrpc_off: false,
        flag_webapp: false,
        flag_dapps_off: false,
        flag_rpc: false,
        flag_rpcaddr: None,
        flag_rpcport: None,
        flag_rpcapi: None,
        flag_rpccorsdomain: None,
        flag_ipcdisable: false,
        flag_ipc_off: false,
        flag_ipcapi: None,
        flag_ipcpath: None,
        flag_gasprice: None,
        flag_etherbase: None,
        flag_extradata: None,
        flag_cache: None,

        // -- Miscellaneous Options
        flag_version: false,
        flag_config: "$HOME/.parity/config.toml".into(),
        flag_logging: Some("own_tx=trace".into()),
        flag_log_file: Some("/var/log/parity.log".into()),
        flag_no_color: false,
        flag_no_config: false,
    });
}

#[test]
fn should_parse_config_and_return_errors() {
    let config1 = Args::parse_config(CONFIG_INVALID1);
    let config2 = Args::parse_config(CONFIG_INVALID2);

    match (config1, config2) {
        (Err(ArgsError::Parsing(_)), Err(ArgsError::Decode(_))) => {},
        (a, b) => {
            assert!(false, "Got invalid error types: {:?}, {:?}", a, b);
        }
    }
}

#[test]
fn should_deserialize_toml_file() {
    let config = Args::parse_config(CONFIG_PARTIAL).unwrap();

    assert_eq!(config, Config {
        parity: Some(Operating {
            mode: Some("dark".into()),
            mode_timeout: Some(15u64),
            mode_alarm: Some(10u64),
            chain: Some("./chain.json".into()),
            db_path: None,
            keys_path: None,
            identity: None,
        }),
        account: Some(Account {
            unlock: Some(vec!["0x1".into(), "0x2".into(), "0x3".into()]),
            password: Some(vec!["passwdfile path".into()]),
            keys_iterations: None,
        }),
        signer: Some(Signer {
            force: None,
            disable: Some(true),
            port: None,
            interface: None,
            path: None,
        }),
        network: Some(Network {
            disable: Some(false),
            warp: Some(false),
            port: None,
            min_peers: Some(10),
            max_peers: Some(20),
            nat: Some("any".into()),
            id: None,
            bootnodes: None,
            discovery: Some(true),
            node_key: None,
            reserved_peers: Some("./path/to/reserved_peers".into()),
            reserved_only: Some(true),
        }),
        rpc: Some(Rpc {
            disable: Some(true),
            port: Some(8180),
            interface: None,
            cors: None,
            apis: None,
            hosts: None,
        }),
        ipc: Some(Ipc {
            disable: None,
            path: None,
            apis: Some(vec!["rpc".into(), "eth".into()]),
        }),
        dapps: Some(Dapps {
            disable: None,
            port: Some(8080),
            path: None,
            interface: None,
            hosts: None,
            user: Some("username".into()),
            pass: Some("password".into())
        }),
        mining: Some(Mining {
            author: Some("0xdeadbeefcafe0000000000000000000000000001".into()),
            force_sealing: Some(true),
            reseal_on_txs: Some("all".into()),
            reseal_min_period: Some(4000),
            work_queue_size: None,
            relay_set: None,
            usd_per_tx: None,
            usd_per_eth: None,
            price_update_period: Some("hourly".into()),
            gas_floor_target: None,
            gas_cap: None,
            tx_queue_size: Some(2048),
            tx_gas_limit: None,
            extra_data: None,
            remove_solved: None,
            notify_work: None,
        }),
        footprint: Some(Footprint {
            tracing: Some("on".into()),
            pruning: Some("fast".into()),
            fast_and_loose: None,
            cache_size: None,
            cache_size_db: Some(128),
            cache_size_blocks: Some(16),
            cache_size_queue: Some(100),
            db_compaction: Some("ssd".into()),
            fat_db: Some(true),
        }),
        snapshots: Some(Snapshots {
            disable_periodic: Some(true),
        }),
        vm: Some(VM {
            jit: Some(false),
        }),
        misc: Some(Misc {
            logging: Some("own_tx=trace".into()),
            log_file: Some("/var/log/parity.log".into()),
            color: Some(true),
        })
    });
}

#[test]
fn settings_of_the_wrong_kind_are_errors() {
    // a number where a text belongs
    assert!(matches!(Args::parse_config("[parity]\nmode = 3\n"), Err(ArgsError::Decode(_))));
    // a number that does not fit a port
    assert!(matches!(Args::parse_config("[rpc]\nport = 65536\n"), Err(ArgsError::Decode(_))));
    assert!(matches!(Args::parse_config("[rpc]\nport = -1\n"), Err(ArgsError::Decode(_))));
    assert_eq!(Args::parse_config("[rpc]\nport = 65535\n").unwrap().rpc.unwrap().port, Some(65535u16));
    // a list with something else than a text in it
    assert!(matches!(Args::parse_config("[ipc]\napis = [1, 2]\n"), Err(ArgsError::Decode(_))));
    // a part that is no table
    assert!(matches!(Args::parse_config("vm = true\n"), Err(ArgsError::Decode(_))));
    // a number with a fraction
    assert!(matches!(Args::parse_config("[parity]\nmode_timeout = 1.5\n"), Err(ArgsError::Decode(_))));
}

#[test]
fn empty_settings_set_nothing() {
    assert_eq!(Args::parse_config("").unwrap(), Config::default());
    let config = Args::parse_config("[vm]\n[unknown]\nkey = 1\n").unwrap();
    assert_eq!(config.vm, Some(VM { jit: None }));
    assert_eq!(config.parity, None);
}

#[test]
fn entries_are_found_by_name() {
    let table = vec![
        ("a".to_owned(), TomlValue::Integer(1)),
        ("b".to_owned(), TomlValue::Boolean(true)),
        ("c".to_owned(), TomlValue::String("x".to_owned())),
    ];
    assert!(matches!(snapshot::config_toml::find_entry(&table, "b"), Some(TomlValue::Boolean(true))));
    assert!(snapshot::config_toml::find_entry(&table, "d").is_none());
    assert_eq!(snapshot::config_toml::number_value(&table, "a", 10).unwrap(), Some(1));
    assert_eq!(snapshot::config_toml::number_value(&table, "d", 10).unwrap(), None);
    assert!(snapshot::config_toml::number_value(&table, "b", 10).is_err());
    assert_eq!(snapshot::config_toml::text_value(&table, "c").unwrap(), Some("x".to_owned()));
    assert!(snapshot::config_toml::flag_value(&table, "c").is_err());
}

#[test]
fn settings_that_nest_too_deep_are_refused_unread() {
    // as many brackets as are let through: the parser takes them
    let deep = format!("a = {}1{}\n", "[".repeat(MAX_MARKS), "]".repeat(MAX_MARKS));
    assert!(is_shallow(&deep));
    assert_eq!(Args::parse_config(&deep).unwrap(), Config::default());
    let tables = format!("a = {}b = 1{}\n", "{ c = ".repeat(MAX_MARKS), " }".repeat(MAX_MARKS));
    assert!(is_shallow(&tables));
    assert!(Args::parse_config(&tables).is_ok() || matches!(Args::parse_config(&tables), Err(ArgsError::Parsing(_))));
    let header = format!("[a{}]\nx = 1\n", ".b".repeat(MAX_MARKS - 1));
    assert!(is_shallow(&header));
    assert_eq!(Args::parse_config(&header).unwrap(), Config::default());
    // one more, and the text is not handed to the parser
    let deeper = format!("a = {}1{}\n", "[".repeat(MAX_MARKS + 1), "]".repeat(MAX_MARKS + 1));
    assert!(!is_shallow(&deeper));
    match Args::parse_config(&deeper) {
        Err(ArgsError::Parsing(reasons)) => assert_eq!(reasons, vec!["the settings nest too deep".to_owned()]),
        other => panic!("unexpected: {:?}", other),
    }
    let hostile = "[".repeat(100_000);
    assert!(matches!(Args::parse_config(&hostile), Err(ArgsError::Parsing(_))));
    assert!(is_shallow(CONFIG_FULL));
}

#[test]
fn decimal_reads_what_the_standard_library_reads() {
    let texts = [
        "0", "7", "+7", "007", "18446744073709551615", "18446744073709551616",
        "+18446744073709551615", "", "+", "-1", "1 ", " 1", "1_0", "٣", "12a", "+-1", "++1",
        "99999999999999999999999", "0000000000000000000000000001", "1.5", "0x10", "é1",
    ];
    for text in texts {
        assert_eq!(snapshot::cli::decimal(text), text.parse::<u64>().ok(), "{:?}", text);
    }
    assert_eq!(snapshot::cli::decimal("18446744073709551615"), Some(u64::MAX));
    assert_eq!(snapshot::cli::decimal("+42"), Some(42));
    assert_eq!(snapshot::cli::decimal("18446744073709551616"), None);
}

#[test]
fn join_commas_puts_a_comma_between_each_two() {
    let none: Vec<String> = Vec::new();
    assert_eq!(snapshot::cli::join_commas(&none), "");
    assert_eq!(snapshot::cli::join_commas(&vec!["web3".to_owned()]), "web3");
    assert_eq!(
        snapshot::cli::join_commas(&vec!["web3".to_owned(), "".to_owned(), "eth".to_owned()]),
        "web3,,eth"
    );
}
