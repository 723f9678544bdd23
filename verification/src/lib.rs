//! Snapshots of a chain and its state: blocks and accounts are gathered into
//! chunks of bounded size, each kept under the hash of its compressed bytes,
//! and a chain and a state are rebuilt from such chunks, which may come in
//! any order.

pub mod account;
pub mod block;
pub mod builtins;
pub mod chain;
pub mod chunker;
pub mod cli;
pub mod codec;
pub mod command;
pub mod compress;
pub mod config;
pub mod config_toml;
pub mod dummydb;
pub mod engine;
pub mod error;
pub mod hash;
pub mod hypervisor;
pub mod index;
pub mod io;
pub mod manifest;
pub mod memorydb;
pub mod packed;
pub mod progress;
pub mod rebuilder;
pub mod restoration;
pub mod snapshot;
pub mod sorted_map;
pub mod state;
pub mod state_chunker;
pub mod state_rebuilder;
pub mod sync;
pub mod trie;
pub mod uint;

pub use crate::chunker::chunk_blocks;
pub use crate::error::Error;
pub use crate::manifest::ManifestData;
pub use crate::progress::Progress;
pub use crate::rebuilder::BlockRebuilder;
pub use crate::restoration::{restore_using, Restoration};
pub use crate::snapshot::take_snapshot;
pub use crate::state_chunker::chunk_state;
pub use crate::state_rebuilder::StateRebuilder;
