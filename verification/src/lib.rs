//! The verified core of a backup system: payloads cut into redundant, checksummed shards
//! and rebuilt from what is left of them; buffers compressed with a choice of codecs; and
//! the configuration and the decisions of the daemon that drives both.
pub mod android_bridge;
mod blocks;
pub mod codecs;
pub mod compression;
pub mod config;
pub mod erasure_coding;
pub mod guarantees;
pub mod integrity;
pub mod kernel_interface;
pub mod layout;
pub mod reed_solomon;
pub mod service;
