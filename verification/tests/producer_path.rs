//! Producer-path tests: partitioning, accumulation and its flush triggers,
//! batch completion offsets, and the sender's response handling.
use kafka_core::accumulator::{complete_batch, ProducerBatch, RecordAccumulator};
use kafka_core::cluster::TopicPartition;
use kafka_core::config::{KafkaVersion, ProducerConfig};
use kafka_core::errors::{ErrorKind, KafkaCode};
use kafka_core::header::ResponseHeader;
use kafka_core::message_set::Compression;
use kafka_core::metadata::Metadata;
use kafka_core::metadata_msg::{BrokerMetadata, MetadataResponse, PartitionMetadata, TopicMetadata};
use kafka_core::partitioner::DefaultPartitioner;
use kafka_core::produce::{ProducePartitionStatus, ProduceResponse, ProduceTopicStatus};
use kafka_core::producer::KafkaProducer;
use kafka_core::record::ProducerRecord;
use kafka_core::response::KafkaRequest;
use kafka_core::sender::{plan_produce, settle_batch};

fn metadata_with_partitions(n: i32) -> Metadata {
    let mut partitions = Vec::new();
    for id in 0..n {
        partitions.push(kafka_core::cluster::PartitionInfo {
            partition: id,
            leader: None,
            replicas: Vec::new(),
            in_sync_replicas: Vec::new(),
        });
    }
    Metadata::with_topics(vec![(b"topic".to_vec(), partitions)])
}

fn metadata_with_leader() -> Metadata {
    let resp = MetadataResponse {
        header: ResponseHeader { correlation_id: 1 },
        brokers: vec![BrokerMetadata { node_id: 1, host: b"leader".to_vec(), port: 9092 }],
        topics: vec![TopicMetadata {
            error_code: 0,
            topic_name: b"t".to_vec(),
            partitions: vec![PartitionMetadata {
                error_code: 0,
                partition_id: 0,
                leader: 1,
                replicas: vec![1],
                in_sync_replicas: vec![1],
            }],
        }],
    };
    let m = Metadata::from_response(&resp);
    let fallback = KafkaVersion::V0_10.api_versions();
    m.with_fallback_api_versions(&fallback)
}

#[test]
fn test_skip_partitioning() {
    let metadata = Metadata::new();
    let mut partitioner = DefaultPartitioner::new();

    // partition without topics
    assert_eq!(
        partitioner.partition(
            &b"topic".to_vec(),
            None,
            Some(&b"key".to_vec()),
            Some(&b"value".to_vec()),
            &metadata,
        ),
        None
    );
}

#[test]
fn test_key_partitioning() {
    let metadata = metadata_with_partitions(3);
    let mut partitioner = DefaultPartitioner::new();

    // partition with key
    assert_eq!(
        partitioner.partition(
            &b"topic".to_vec(),
            None,
            Some(&b"key".to_vec()),
            Some(&b"value".to_vec()),
            &metadata,
        ),
        Some(2)
    );

    // partition without key
    for id in 0..100 {
        assert_eq!(
            partitioner.partition(
                &b"topic".to_vec(),
                None,
                None,
                Some(&b"value".to_vec()),
                &metadata,
            ),
            Some(id % 3)
        );
    }

    assert_eq!(partitioner.records(), 100);
}

#[test]
fn explicit_partition_wins() {
    let metadata = metadata_with_partitions(3);
    let mut partitioner = DefaultPartitioner::new();
    assert_eq!(
        partitioner.partition(&b"topic".to_vec(), Some(7), None, None, &metadata),
        Some(7)
    );
    // A negative explicit partition falls back to the strategy.
    assert_eq!(
        partitioner.partition(&b"topic".to_vec(), Some(-1), None, None, &metadata),
        Some(0)
    );
}

#[test]
fn batch_fills_and_reports_it() {
    // With a small write limit the first record always fits; pushes that no
    // longer fit are refused.
    let mut batch = ProducerBatch::new(0, Compression::Uncompressed, 74, 0);
    assert!(batch.push_record(1, 0, Some(b"k".to_vec()), Some(b"0123456789".to_vec())));
    let mut accepted = 1;
    for i in 0..10 {
        if batch.push_record(2 + i, 0, Some(b"k".to_vec()), Some(b"0123456789".to_vec())) {
            accepted += 1;
        }
    }
    // 37 bytes per record against a 74-byte limit: exactly one more fits.
    assert_eq!(accepted, 2);
    assert!(batch.is_full());
    assert_eq!(batch.thunks.len(), accepted);
}

#[test]
fn accumulator_opens_one_batch_per_partition_tail() {
    let mut acc = RecordAccumulator::new(72, Compression::Uncompressed, 100, 10);
    let tp = TopicPartition { topic_name: b"t".to_vec(), partition: 0 };
    let first = acc.push_record(&tp, 0, 1, None, Some(b"0123456789".to_vec()), 0);
    assert!(first.accepted);
    assert!(first.new_batch);
    assert!(!first.batch_full);
    let second = acc.push_record(&tp, 1, 2, None, Some(b"0123456789".to_vec()), 0);
    assert!(second.accepted);
    assert!(!second.new_batch);
    assert!(second.batch_full);
    // The batch is full: the next push opens a fresh batch behind it.
    let third = acc.push_record(&tp, 2, 3, None, Some(b"0123456789".to_vec()), 0);
    assert!(third.accepted);
    assert!(third.new_batch);
}

#[test]
fn drain_honours_linger_and_force() {
    let mut acc = RecordAccumulator::new(1024, Compression::Uncompressed, 100, 10);
    let tp = TopicPartition { topic_name: b"t".to_vec(), partition: 0 };
    acc.push_record(&tp, 1_000, 1, None, Some(b"v".to_vec()), 0);

    // Before the linger elapses nothing leaves.
    assert_eq!(acc.drain(false, 1_050).len(), 0);
    // Once the last append is older than the linger the batch leaves.
    let drained = acc.drain(false, 1_100);
    assert_eq!(drained.len(), 1);
    assert_eq!(drained[0].0, tp);

    // A forced flush takes everything at once.
    acc.push_record(&tp, 2_000, 2, None, Some(b"v".to_vec()), 0);
    let drained = acc.drain(true, 2_001);
    assert_eq!(drained.len(), 1);
    assert_eq!(acc.drain(true, 2_002).len(), 0);
}

#[test]
fn completions_carry_dense_offsets_in_append_order() {
    let mut batch = ProducerBatch::new(1, Compression::Uncompressed, 4096, 0);
    assert!(batch.push_record(1, 11, Some(b"a".to_vec()), Some(b"one".to_vec())));
    assert!(batch.push_record(2, 22, None, Some(b"two".to_vec())));
    assert!(batch.push_record(3, 33, Some(b"c".to_vec()), None));
    let pushed = batch.thunks.len();
    let (_set, thunks) = batch.build();
    // One completion per append that succeeded.
    assert_eq!(thunks.len(), pushed);
    let metas = complete_batch(&thunks, &b"t".to_vec(), 4, 100);
    assert_eq!(metas.len(), 3);
    for (i, meta) in metas.iter().enumerate() {
        assert_eq!(meta.offset, 100 + i as i64);
        assert_eq!(meta.partition, 4);
        assert_eq!(meta.topic_name, b"t".to_vec());
    }
    assert_eq!(metas[0].timestamp, 11);
    assert_eq!(metas[1].timestamp, 22);
    assert_eq!(metas[2].timestamp, 33);
    assert_eq!(metas[0].serialized_key_size, 1);
    assert_eq!(metas[0].serialized_value_size, 3);
    assert_eq!(metas[1].serialized_key_size, 0);
    assert_eq!(metas[2].serialized_value_size, 0);
}

#[test]
fn produce_happy_path_resolves_offset() {
    // A client with one bootstrap host, a loaded snapshot, and a mock broker
    // answer carrying offset 42 for partition zero.
    let metadata = metadata_with_leader();
    let mut producer = KafkaProducer::new(ProducerConfig::new()).unwrap();
    let record: ProducerRecord<Vec<u8>, Vec<u8>> =
        ProducerRecord::from_key_value(b"t".to_vec(), b"k".to_vec(), b"v".to_vec());
    let outcome = producer.push_record(&metadata, record, 7, 1234).unwrap();
    assert!(outcome.accepted);

    let drained = producer.flush(true, 8);
    assert_eq!(drained.len(), 1);
    let (tp, batch) = drained.into_iter().next().unwrap();
    assert_eq!(tp, TopicPartition { topic_name: b"t".to_vec(), partition: 0 });

    let (message_set, thunks) = batch.build();
    let plan = plan_produce(
        &metadata,
        &tp,
        1,
        30_000,
        99,
        Some(b"client".to_vec()),
        message_set,
        Compression::Uncompressed,
    )
    .unwrap();
    assert_eq!(plan.host, b"leader".to_vec());
    assert_eq!(plan.port, 9092);
    match &plan.request {
        KafkaRequest::Produce(req, _) => {
            assert_eq!(req.header.api_version, 2);
            assert_eq!(req.header.correlation_id, 99);
            assert_eq!(req.topics.len(), 1);
        }
        _ => panic!("expected a produce request"),
    }

    let reply = ProduceResponse {
        header: ResponseHeader { correlation_id: 99 },
        topics: vec![ProduceTopicStatus {
            topic_name: Some(b"t".to_vec()),
            partitions: vec![ProducePartitionStatus {
                partition: 0,
                error_code: 0,
                offset: 42,
                timestamp: Some(7),
            }],
        }],
        throttle_time: Some(0),
    };
    let metas = settle_batch(&reply, &tp, &thunks).unwrap();
    assert_eq!(metas.len(), 1);
    assert_eq!(metas[0].topic_name, b"t".to_vec());
    assert_eq!(metas[0].partition, 0);
    assert_eq!(metas[0].offset, 42);
}

#[test]
fn leader_failover_is_retryable() {
    let metadata = metadata_with_leader();
    let tp = TopicPartition { topic_name: b"t".to_vec(), partition: 0 };
    // First attempt: the broker answers that it no longer leads.
    let reply = ProduceResponse {
        header: ResponseHeader { correlation_id: 1 },
        topics: vec![ProduceTopicStatus {
            topic_name: Some(b"t".to_vec()),
            partitions: vec![ProducePartitionStatus {
                partition: 0,
                error_code: 6,
                offset: -1,
                timestamp: None,
            }],
        }],
        throttle_time: Some(0),
    };
    let thunks = Vec::new();
    let err = settle_batch(&reply, &tp, &thunks).unwrap_err();
    assert_eq!(err, ErrorKind::Kafka(KafkaCode::NotLeaderForPartition));
    // The failure is classified retryable; the sender refreshes and retries.
    assert!(err.retryable());

    // A topic-partition missing from the response is a protocol error, not a
    // retry.
    let other = TopicPartition { topic_name: b"other".to_vec(), partition: 0 };
    assert_eq!(settle_batch(&reply, &other, &thunks).unwrap_err(), ErrorKind::Protocol);

    // A snapshot without the leader plans no attempt and asks for a refresh.
    let empty = Metadata::new();
    let e = plan_produce(
        &empty,
        &tp,
        1,
        1000,
        1,
        None,
        kafka_core::message_set::MessageSet { messages: Vec::new() },
        Compression::Uncompressed,
    )
    .unwrap_err();
    assert_eq!(e, ErrorKind::LeaderUnknown);
    assert!(e.retryable());
    let _ = metadata;
}

#[test]
fn oversized_records_are_refused_up_front() {
    let mut config = ProducerConfig::new();
    config.batch_size = 64;
    let mut producer = KafkaProducer::new(config).unwrap();
    let metadata = metadata_with_leader();
    let record: ProducerRecord<Vec<u8>, Vec<u8>> = ProducerRecord {
        topic_name: b"t".to_vec(),
        partition: None,
        key: None,
        value: Some(vec![0u8; 1000]),
        timestamp: None,
    };
    let err = producer.push_record(&metadata, record, 0, 0).unwrap_err();
    assert_eq!(err, ErrorKind::Kafka(KafkaCode::MessageSizeTooLarge));
}

#[test]
fn record_builders_fill_the_fields() {
    let r: ProducerRecord<Vec<u8>, Vec<u8>> =
        ProducerRecord::from_key_value(b"t".to_vec(), b"k".to_vec(), b"v".to_vec())
            .with_partition(3)
            .with_timestamp(77);
    assert_eq!(r.topic_name, b"t".to_vec());
    assert_eq!(r.partition, Some(3));
    assert_eq!(r.key, Some(b"k".to_vec()));
    assert_eq!(r.value, Some(b"v".to_vec()));
    assert_eq!(r.timestamp, Some(77));

    let t = kafka_core::record::TopicRecord::from_key_value(b"k".to_vec(), b"v".to_vec());
    let r2: ProducerRecord<Vec<u8>, Vec<u8>> =
        ProducerRecord::from_topic_record(b"t".to_vec(), t);
    assert_eq!(r2.partition, None);
    let p = kafka_core::record::PartitionRecord::from_value(b"v".to_vec());
    let r3: ProducerRecord<(), Vec<u8>> =
        ProducerRecord::from_partition_record(b"t".to_vec(), 1, p);
    assert_eq!(r3.partition, Some(1));
}
