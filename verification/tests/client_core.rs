//! Client-side tests: metadata lookups, the connection's correlation table,
//! pool eviction, the manager's coalescing, and the gzip codec.
use kafka_core::client::{collect_offsets, topics_by_broker, PartitionOffset};
use kafka_core::cluster::{Broker, BrokerRef, PartitionInfo, TopicPartition, UsableApiVersions};
use kafka_core::config::{ClientConfig, KafkaVersion, ProducerConfig};
use kafka_core::connection::{Connection, ConnectionState};
use kafka_core::errors::{ErrorKind, KafkaCode};
use kafka_core::gzip::{compress, uncompress};
use kafka_core::header::{ApiKeys, ResponseHeader};
use kafka_core::list_offsets_msg::{ListOffsetsResponse, PartitionOffsetData, TopicOffsetData};
use kafka_core::manager::{ClientState, MetadataAccess, MetadataStatus};
use kafka_core::metadata::Metadata;
use kafka_core::metadata_msg::{BrokerMetadata, MetadataResponse, PartitionMetadata, TopicMetadata};
use kafka_core::pool::ConnectionPool;
use kafka_core::client::merge_offset_rows;
use kafka_core::message_set::Compression;
use kafka_core::subscriptions::Subscriptions;
use kafka_core::api_versions_msg::ApiVersionRange;
use kafka_core::assignor::{
    AssignmentStrategy, PartitionAssignor, RangeAssignor, RoundRobinAssignor, StickyAssignor,
};
use kafka_core::manager::{load_step_api_versions, load_step_metadata, LoadAction, LoadState};

fn sample_metadata() -> Metadata {
    let resp = MetadataResponse {
        header: ResponseHeader { correlation_id: 1 },
        brokers: vec![
            BrokerMetadata { node_id: 5, host: b"alpha".to_vec(), port: 9092 },
            BrokerMetadata { node_id: 6, host: b"beta".to_vec(), port: 9093 },
        ],
        topics: vec![TopicMetadata {
            error_code: 0,
            topic_name: b"events".to_vec(),
            partitions: vec![
                PartitionMetadata {
                    error_code: 0,
                    partition_id: 0,
                    leader: 6,
                    replicas: vec![5, 6],
                    in_sync_replicas: vec![6],
                },
                PartitionMetadata {
                    error_code: 0,
                    partition_id: 1,
                    leader: -1,
                    replicas: vec![],
                    in_sync_replicas: vec![],
                },
            ],
        }],
    };
    Metadata::from_response(&resp)
}

#[test]
fn leader_lookup_matches_broker_table() {
    let m = sample_metadata();
    let tp = TopicPartition { topic_name: b"events".to_vec(), partition: 0 };
    let leader = m.leader_for(&tp).expect("leader known");
    assert_eq!(leader.id(), 6);
    assert_eq!(leader.host(), &b"beta".to_vec());
    assert_eq!(leader.port(), 9093);
    // The broker that the partition's leader reference resolves to is the
    // same node.
    let pi = m.find_partition(&tp).unwrap();
    let lr = pi.leader().unwrap();
    let direct = m.find_broker(lr).unwrap();
    assert_eq!(direct.id(), leader.id());

    // A partition without a leader resolves to nothing.
    let tp1 = TopicPartition { topic_name: b"events".to_vec(), partition: 1 };
    assert!(m.leader_for(&tp1).is_none());
    // An unknown topic has no partitions.
    assert!(m.partitions_for_topic(&b"missing".to_vec()).is_none());
    let tps = m.partitions_for_topic(&b"events".to_vec()).unwrap();
    assert_eq!(tps.len(), 2);
    assert_eq!(tps[0].partition, 0);
    assert_eq!(tps[1].partition, 1);
}

#[test]
fn api_version_windows_cap_at_supported() {
    let m = sample_metadata();
    let fallback = KafkaVersion::V0_10.api_versions();
    let m = m.with_fallback_api_versions(&fallback);
    let tp = TopicPartition { topic_name: b"events".to_vec(), partition: 0 };
    let leader = m.leader_for(&tp).unwrap();
    assert_eq!(leader.api_version(ApiKeys::Produce), Some(2));
    assert_eq!(leader.api_version(ApiKeys::ListOffsets), Some(1));

    // A window above what this client speaks is clipped.
    let wide = UsableApiVersions::new(vec![kafka_core::api_versions_msg::ApiVersionRange {
        api_key: 0,
        min_version: 0,
        max_version: 9,
    }]);
    let b = Broker::new(1, b"x".to_vec(), 1).with_api_versions(Some(wide));
    assert_eq!(b.api_version(ApiKeys::Produce), Some(2));
    // An absent window yields nothing; callers fall back to version zero.
    let bare = Broker::new(2, b"y".to_vec(), 2);
    assert_eq!(bare.api_version(ApiKeys::Produce), None);
}

#[test]
fn correlation_ids_stay_distinct_in_flight() {
    let mut c = Connection::new();
    assert_eq!(c.state, ConnectionState::Connecting);
    assert!(c.register_request().is_err());
    c.ready();
    let a = c.register_request().unwrap();
    let b = c.register_request().unwrap();
    let d = c.register_request().unwrap();
    assert_eq!((a, b, d), (0, 1, 2));
    assert_eq!(c.pending.len(), 3);
    for i in 0..c.pending.len() {
        for j in 0..c.pending.len() {
            if i != j {
                assert_ne!(c.pending[i], c.pending[j]);
            }
        }
    }
    // Responses may arrive in any order; the id is the sole dispatch key.
    assert!(c.complete_request(1));
    assert!(!c.complete_request(1));
    assert!(c.complete_request(0));
    assert_eq!(c.pending, vec![2]);
    // Closing fails everything still in flight.
    let orphans = c.close();
    assert_eq!(orphans, vec![2]);
    assert_eq!(c.state, ConnectionState::Closed);
}

#[test]
fn wrapped_counter_never_corrupts_the_table() {
    let mut c = Connection::new();
    c.ready();
    c.next_correlation_id = i32::MAX;
    let a = c.register_request().unwrap();
    assert_eq!(a, i32::MAX);
    assert_eq!(c.next_correlation_id, i32::MIN);
    // Force the counter back onto an id still in flight.
    c.next_correlation_id = i32::MAX;
    assert_eq!(c.register_request(), Err(ErrorKind::Protocol));
}

#[test]
fn idle_connections_are_evicted_not_returned() {
    let mut pool = ConnectionPool::new(100);
    let host = b"alpha".to_vec();
    let mut conn = Connection::new();
    conn.ready();
    pool.checkin(&host, 9092, conn, 1_000);

    // A connection last used at time 1000 is absent from lookups past 1100.
    assert!(pool.checkout(&host, 9092, 1_101).is_none());

    let mut conn2 = Connection::new();
    conn2.ready();
    pool.checkin(&host, 9092, conn2, 2_000);
    // Within the idle bound the newest connection comes back.
    assert!(pool.checkout(&host, 9092, 2_100).is_some());
    // It was handed out exclusively: nothing is left under the address.
    assert!(pool.checkout(&host, 9092, 2_100).is_none());
    // Another address is untouched by all of this.
    assert!(pool.checkout(&b"beta".to_vec(), 9093, 0).is_none());
}

#[test]
fn metadata_enquiries_coalesce_onto_one_fetch() {
    let mut state = ClientState::new();
    for _ in 0..100 {
        assert_eq!(state.get_metadata(), MetadataAccess::Enqueued);
    }
    // One hundred concurrent callers queued; none started a second fetch.
    match state.metadata {
        MetadataStatus::Loading(n) => assert_eq!(n, 100),
        MetadataStatus::Loaded(_) => panic!("no snapshot was published yet"),
    }
    let woken = state.set_metadata(sample_metadata());
    assert_eq!(woken, 100);
    assert_eq!(state.get_metadata(), MetadataAccess::Immediate);
    assert!(state.snapshot().is_some());
    // A failed load fails every waiter and leaves an empty wait list.
    let mut state = ClientState::new();
    state.get_metadata();
    state.get_metadata();
    assert_eq!(state.fail_load(), 2);
    match state.metadata {
        MetadataStatus::Loading(n) => assert_eq!(n, 0),
        MetadataStatus::Loaded(_) => panic!("a failed load publishes nothing"),
    }
}

#[test]
fn correlation_counter_wraps() {
    let mut state = ClientState::new();
    assert_eq!(state.next_correlation_id(), 0);
    assert_eq!(state.next_correlation_id(), 1);
    state.correlation_id = i32::MAX;
    assert_eq!(state.next_correlation_id(), i32::MAX);
    assert_eq!(state.correlation_id, i32::MIN);
}

#[test]
fn offsets_plan_follows_leaders() {
    let m = sample_metadata();
    let fallback = KafkaVersion::V0_10.api_versions();
    let m = m.with_fallback_api_versions(&fallback);
    let plan = topics_by_broker(&m, &vec![b"events".to_vec(), b"missing".to_vec()]);
    // Partition 0 has a leader; partition 1 does not; the missing topic
    // contributes nothing.
    assert_eq!(plan.len(), 1);
    assert_eq!(plan[0].host, b"beta".to_vec());
    assert_eq!(plan[0].port, 9093);
    assert_eq!(plan[0].api_version, 1);
    assert_eq!(plan[0].topic_name, b"events".to_vec());
    assert_eq!(plan[0].partition, 0);
}

#[test]
fn offsets_are_collected_from_clean_partitions_only() {
    let resp = ListOffsetsResponse {
        header: ResponseHeader { correlation_id: 3 },
        topics: vec![TopicOffsetData {
            topic_name: b"events".to_vec(),
            partitions: vec![
                PartitionOffsetData { partition: 0, error_code: 0, timestamp: None, offsets: vec![42, 17] },
                PartitionOffsetData { partition: 1, error_code: 6, timestamp: None, offsets: vec![5] },
                PartitionOffsetData { partition: 2, error_code: 0, timestamp: None, offsets: vec![] },
            ],
        }],
    };
    let rows = collect_offsets(&resp);
    assert_eq!(rows.len(), 1);
    assert_eq!(rows[0].0, b"events".to_vec());
    assert_eq!(rows[0].1, vec![PartitionOffset { partition: 0, offset: 42 }]);
}

#[test]
fn error_codes_classify_for_retry() {
    assert!(ErrorKind::ConnectionLost.retryable());
    assert!(ErrorKind::Timeout.retryable());
    assert!(ErrorKind::LeaderUnknown.retryable());
    assert!(ErrorKind::Kafka(KafkaCode::NotLeaderForPartition).retryable());
    assert!(ErrorKind::Kafka(KafkaCode::LeaderNotAvailable).retryable());
    assert!(ErrorKind::Kafka(KafkaCode::NetworkException).retryable());
    assert!(!ErrorKind::Kafka(KafkaCode::MessageSizeTooLarge).retryable());
    assert!(!ErrorKind::Kafka(KafkaCode::InvalidTopic).retryable());
    assert!(!ErrorKind::UnexpectedResponse(1).retryable());
    assert!(!ErrorKind::Protocol.retryable());
    assert!(!ErrorKind::Canceled.retryable());
    assert!(!ErrorKind::Config.retryable());
    assert_eq!(KafkaCode::from_code(6), KafkaCode::NotLeaderForPartition);
    assert_eq!(KafkaCode::from_code(5), KafkaCode::LeaderNotAvailable);
    assert_eq!(KafkaCode::from_code(13), KafkaCode::NetworkException);
    assert_eq!(KafkaCode::from_code(10), KafkaCode::MessageSizeTooLarge);
    assert_eq!(KafkaCode::from_code(17), KafkaCode::InvalidTopic);
    assert_eq!(KafkaCode::from_code(12345), KafkaCode::Unknown(12345));
    assert_eq!(KafkaCode::from_code(0), KafkaCode::NoError);
}

#[test]
fn config_rejects_invalid_acks() {
    let mut config = ProducerConfig::new();
    assert!(config.validate().is_ok());
    config.acks = 2;
    assert_eq!(config.validate(), Err(ErrorKind::Config));
    config.acks = -1;
    assert!(config.validate().is_ok());
    let client = ClientConfig::from_hosts(vec![(b"alpha".to_vec(), 9092)]);
    assert_eq!(client.hosts.len(), 1);
    assert!(!client.api_version_request);
}

#[test]
fn gzip_round_trips_through_the_codec() {
    let input = b"a quick brown fox jumps over the lazy dog".to_vec();
    let packed = compress(&input).unwrap();
    assert_ne!(packed, input);
    let unpacked = uncompress(&packed).unwrap();
    assert_eq!(unpacked, input);
}

#[test]
fn test_uncompress() {
    // The vector should uncompress to "test".
    let msg: Vec<u8> = vec![
        31, 139, 8, 0, 192, 248, 79, 85, 2, 255, 43, 73, 45, 46, 1, 0, 12, 126, 127, 216, 4, 0, 0,
        0,
    ];
    let uncomp_msg = String::from_utf8(uncompress(&msg).unwrap()).unwrap();
    assert_eq!(&uncomp_msg[..], "test");
}

#[test]
#[should_panic]
fn test_uncompress_panic() {
    let msg: Vec<u8> = vec![12, 42, 84, 104, 105, 115, 32, 105, 115, 32, 116, 101, 115, 116];
    let uncomp_msg = String::from_utf8(uncompress(&msg).unwrap()).unwrap();
    assert_eq!(&uncomp_msg[..], "This is test");
}

#[test]
fn subscriptions_dedup_and_union() {
    let subs = Subscriptions::with_topics(vec![b"a".to_vec(), b"b".to_vec(), b"a".to_vec()]);
    assert_eq!(subs.subscription.len(), 2);
    let mut subs = subs;
    subs.subscribe(vec![b"c".to_vec()]);
    assert_eq!(subs.subscription, vec![b"c".to_vec()]);
    assert_eq!(subs.group_subscription.len(), 3);
}

#[test]
fn broker_refs_are_plain_node_ids() {
    let mut r = BrokerRef::new(3);
    assert_eq!(r.index(), 3);
    r.set(BrokerRef::new(4));
    assert_eq!(r.index(), 4);
    r.set_unknown();
    assert_eq!(r.index(), kafka_core::cluster::UNKNOWN_BROKER_INDEX);
    let b = Broker::new(9, b"h".to_vec(), 1234);
    assert_eq!(b.as_ref().index(), 9);
    let info = PartitionInfo::new(2, BrokerRef::new(9));
    assert_eq!(info.partition(), 2);
    assert_eq!(info.leader(), Some(BrokerRef::new(9)));
    let d = PartitionInfo::default();
    assert_eq!(d.partition(), -1);
    assert!(d.leader().is_none());
}

#[test]
fn assignors_name_their_strategies() {
    let range = RangeAssignor::default();
    assert_eq!(range.name(), "range");
    assert_eq!(range.strategy(), AssignmentStrategy::Range);
    let rr = RoundRobinAssignor::default();
    assert_eq!(rr.name(), "roundrobin");
    assert_eq!(rr.strategy(), AssignmentStrategy::RoundRobin);
    let sticky = StickyAssignor::default();
    assert_eq!(sticky.name(), "sticky");
    assert_eq!(sticky.strategy(), AssignmentStrategy::Sticky);
    let sub = range.subscription(vec![b"a".to_vec()]);
    assert_eq!(sub.topics, vec![b"a".to_vec()]);
    assert!(range.assign(&sample_metadata(), Vec::new()).is_empty());
}

#[test]
fn per_broker_windows_are_attached_by_node_id() {
    let m = sample_metadata();
    assert_eq!(m.topic_names(), vec![b"events".to_vec()]);
    let windows = vec![(
        BrokerRef::new(6),
        UsableApiVersions::new(vec![ApiVersionRange { api_key: 0, min_version: 0, max_version: 1 }]),
    )];
    let m = m.with_api_versions(&windows);
    let tp = TopicPartition { topic_name: b"events".to_vec(), partition: 0 };
    let leader = m.leader_for(&tp).unwrap();
    // Node 6 got its probed window; the produce version follows it.
    assert_eq!(leader.api_version(ApiKeys::Produce), Some(1));
    // Node 5 was not probed and keeps no window.
    let other = m.find_broker(BrokerRef::new(5)).unwrap();
    assert_eq!(other.api_version(ApiKeys::Produce), None);
}

#[test]
fn load_steps_follow_the_version_policy() {
    let resp = MetadataResponse {
        header: ResponseHeader { correlation_id: 2 },
        brokers: vec![BrokerMetadata { node_id: 1, host: b"a".to_vec(), port: 9092 }],
        topics: vec![],
    };
    let fallback = KafkaVersion::V0_9.api_versions();
    // Probing disabled: the fallback window is attached and the snapshot is
    // done in one step.
    let (state, action) = load_step_metadata(&resp, false, &fallback);
    assert_eq!(action, LoadAction::Publish);
    match state {
        LoadState::Finished(m) => {
            assert_eq!(m.brokers()[0].api_version(ApiKeys::Produce), Some(1));
        }
        _ => panic!("expected a finished snapshot"),
    }
    // Probing enabled: the sequence asks the brokers first.
    let (state, action) = load_step_metadata(&resp, true, &fallback);
    assert_eq!(action, LoadAction::FetchApiVersions);
    let windows = vec![(
        BrokerRef::new(1),
        kafka_core::cluster::UsableApiVersions::new(vec![
            kafka_core::api_versions_msg::ApiVersionRange {
                api_key: 0,
                min_version: 0,
                max_version: 2,
            },
        ]),
    )];
    let (state, action) = load_step_api_versions(state, &windows).unwrap();
    assert_eq!(action, LoadAction::Publish);
    match state {
        LoadState::Finished(m) => {
            assert_eq!(m.brokers()[0].api_version(ApiKeys::Produce), Some(2));
        }
        _ => panic!("expected a finished snapshot"),
    }
}

#[test]
fn unsupported_codecs_are_refused_at_construction() {
    let mut config = ProducerConfig::new();
    config.compression = Compression::Gzip;
    assert!(config.validate().is_ok());
    config.compression = Compression::Snappy;
    assert_eq!(config.validate(), Err(ErrorKind::Config));
    config.compression = Compression::Lz4;
    assert_eq!(config.validate(), Err(ErrorKind::Config));
}

#[test]
fn offsets_merge_across_brokers() {
    let rows = vec![
        (b"a".to_vec(), vec![PartitionOffset { partition: 0, offset: 10 }]),
        (b"b".to_vec(), vec![PartitionOffset { partition: 0, offset: 20 }]),
        (b"a".to_vec(), vec![PartitionOffset { partition: 1, offset: 30 }]),
    ];
    let merged = merge_offset_rows(&rows);
    assert_eq!(merged.len(), 2);
    assert_eq!(merged[0].0, b"a".to_vec());
    assert_eq!(
        merged[0].1,
        vec![
            PartitionOffset { partition: 0, offset: 10 },
            PartitionOffset { partition: 1, offset: 30 },
        ]
    );
    assert_eq!(merged[1].0, b"b".to_vec());
    assert_eq!(merged[1].1, vec![PartitionOffset { partition: 0, offset: 20 }]);
}
