//! Client and producer configuration: bootstrap hosts, timeouts, the
//! api-version policy, and the producer's batching and retry knobs.
use vstd::prelude::*;

use crate::api_versions_msg::ApiVersionRange;
use crate::cluster::UsableApiVersions;
use crate::errors::ErrorKind;
use crate::message_set::Compression;

verus! {

/// The broker generation assumed when api-version probing is disabled.
#[derive(Clone, Copy, Debug, PartialEq, Eq, Structural)]
pub enum KafkaVersion {
    V0_8,
    V0_9,
    V0_10,
}

impl KafkaVersion {
    /// The fixed version windows assumed for this generation: the apis this
    /// client speaks, capped at what the generation offers.
    pub fn api_versions(self) -> (r: UsableApiVersions)
        ensures
            r.ranges@.len() == 4,
            r.ranges@[0] == (ApiVersionRange {
                api_key: 0,
                min_version: 0,
                max_version: self.spec_produce_max(),
            }),
            r.ranges@[1] == (ApiVersionRange { api_key: 2, min_version: 0, max_version: self.spec_list_offsets_max() }),
            r.ranges@[2] == (ApiVersionRange { api_key: 3, min_version: 0, max_version: 0 }),
            r.ranges@[3] == (ApiVersionRange { api_key: 18, min_version: 0, max_version: 0 }),
    {
        let produce_max = match self {
            KafkaVersion::V0_8 => 0,
            KafkaVersion::V0_9 => 1,
            KafkaVersion::V0_10 => 2,
        };
        let offsets_max = match self {
            KafkaVersion::V0_8 => 0,
            KafkaVersion::V0_9 => 0,
            KafkaVersion::V0_10 => 1,
        };
        let mut ranges: Vec<ApiVersionRange> = Vec::new();
        ranges.push(ApiVersionRange { api_key: 0, min_version: 0, max_version: produce_max });
        ranges.push(ApiVersionRange { api_key: 2, min_version: 0, max_version: offsets_max });
        ranges.push(ApiVersionRange { api_key: 3, min_version: 0, max_version: 0 });
        ranges.push(ApiVersionRange { api_key: 18, min_version: 0, max_version: 0 });
        UsableApiVersions { ranges }
    }

    pub open spec fn spec_produce_max(self) -> i16 {
        match self {
            KafkaVersion::V0_8 => 0,
            KafkaVersion::V0_9 => 1,
            KafkaVersion::V0_10 => 2,
        }
    }

    pub open spec fn spec_list_offsets_max(self) -> i16 {
        match self {
            KafkaVersion::V0_8 => 0,
            KafkaVersion::V0_9 => 0,
            KafkaVersion::V0_10 => 1,
        }
    }
}

/// The options a client recognizes. Times are milliseconds.
pub struct ClientConfig {
    pub hosts: Vec<(Vec<u8>, u16)>,
    pub client_id: Option<Vec<u8>>,
    pub request_timeout: u64,
    pub max_connection_idle: u64,
    pub metadata_max_age: u64,
    pub api_version_request: bool,
    pub broker_version_fallback: KafkaVersion,
    pub metrics: bool,
}

/// The default per-request deadline, in milliseconds.
pub const DEFAULT_REQUEST_TIMEOUT: u64 = 30_000;

/// The default pool eviction threshold, in milliseconds.
pub const DEFAULT_MAX_CONNECTION_IDLE: u64 = 540_000;

/// The default snapshot refresh period, in milliseconds.
pub const DEFAULT_METADATA_MAX_AGE: u64 = 300_000;

impl ClientConfig {
    /// A configuration with the given bootstrap hosts and every other option
    /// at its default.
    pub fn from_hosts(hosts: Vec<(Vec<u8>, u16)>) -> (r: Self)
        ensures
            r.hosts == hosts,
            r.client_id is None,
            r.request_timeout == DEFAULT_REQUEST_TIMEOUT,
            r.max_connection_idle == DEFAULT_MAX_CONNECTION_IDLE,
            r.metadata_max_age == DEFAULT_METADATA_MAX_AGE,
            r.api_version_request == false,
            r.broker_version_fallback == KafkaVersion::V0_9,
            r.metrics == false,
    {
        ClientConfig {
            hosts,
            client_id: None,
            request_timeout: DEFAULT_REQUEST_TIMEOUT,
            max_connection_idle: DEFAULT_MAX_CONNECTION_IDLE,
            metadata_max_age: DEFAULT_METADATA_MAX_AGE,
            api_version_request: false,
            broker_version_fallback: KafkaVersion::V0_9,
            metrics: false,
        }
    }
}

/// The default size bound of one batch, in bytes.
pub const DEFAULT_BATCH_SIZE: usize = 16_384;

/// The default bound on one request, in bytes.
pub const DEFAULT_MAX_REQUEST_SIZE: usize = 1_048_576;

/// The default broker-side ack deadline, in milliseconds.
pub const DEFAULT_ACK_TIMEOUT_MILLIS: i32 = 30_000;

/// The extra options a producer recognizes.
pub struct ProducerConfig {
    pub acks: i16,
    pub ack_timeout: i32,
    pub batch_size: usize,
    pub max_request_size: usize,
    pub linger: u64,
    pub compression: Compression,
    pub retry_count: u32,
    pub retry_backoff: u64,
}

impl ProducerConfig {
    pub fn new() -> (r: Self)
        ensures
            r.acks == 1,
            r.ack_timeout == DEFAULT_ACK_TIMEOUT_MILLIS,
            r.batch_size == DEFAULT_BATCH_SIZE,
            r.max_request_size == DEFAULT_MAX_REQUEST_SIZE,
            r.linger == 0,
            r.compression == Compression::Uncompressed,
            r.retry_count == 0,
            r.retry_backoff == 100,
    {
        ProducerConfig {
            acks: 1,
            ack_timeout: DEFAULT_ACK_TIMEOUT_MILLIS,
            batch_size: DEFAULT_BATCH_SIZE,
            max_request_size: DEFAULT_MAX_REQUEST_SIZE,
            linger: 0,
            compression: Compression::Uncompressed,
            retry_count: 0,
            retry_backoff: 100,
        }
    }

    /// The configurations this producer accepts: acks must name none, the
    /// leader or all in-sync replicas, and the compression must be one this
    /// library carries a codec for (plain or gzip; no snappy or lz4 codec is
    /// linked).
    pub open spec fn spec_valid(self) -> bool {
        &&& (self.acks == 0 || self.acks == 1 || self.acks == -1)
        &&& (self.compression == Compression::Uncompressed || self.compression
            == Compression::Gzip)
    }

    /// Rejects an invalid configuration at construction.
    pub fn validate(&self) -> (r: Result<(), ErrorKind>)
        ensures
            r is Ok <==> self.spec_valid(),
            r is Err ==> r == Result::<(), ErrorKind>::Err(ErrorKind::Config),
    {
        let acks_ok = self.acks == 0 || self.acks == 1 || self.acks == -1;
        let comp_ok = match self.compression {
            Compression::Uncompressed => true,
            Compression::Gzip => true,
            _ => false,
        };
        if acks_ok && comp_ok {
            Ok(())
        } else {
            Err(ErrorKind::Config)
        }
    }
}

} // verus!
