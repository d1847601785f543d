//! Core of a Kafka client: wire codec for the protocol subset the client
//! speaks, cluster metadata snapshots, correlated request multiplexing,
//! pooled connections with idle eviction, and the producer-side record
//! accumulator with its sender.
pub mod accumulator;
pub mod api_versions_msg;
pub mod assignor;
pub mod client;
pub mod cluster;
pub mod codec_util;
pub mod errors;
pub mod config;
pub mod connection;
pub mod crc;
pub mod gzip;
pub mod header;
pub mod list_offsets_msg;
pub mod manager;
pub mod message_set;
pub mod metadata;
pub mod metadata_msg;
pub mod partitioner;
pub mod pool;
pub mod produce;
pub mod producer;
pub mod record;
pub mod response;
pub mod sender;
pub mod subscriptions;
pub mod wire;
