//! Wire codec tests: the produce fixtures, round trips for every message
//! type, the checksum, and the framing rules.
use kafka_core::api_versions_msg::{
    encode_api_versions_response, parse_api_versions_response, ApiVersionRange,
    ApiVersionsResponse,
};
use kafka_core::crc::crc32_range;
use kafka_core::header::{ApiKeys, RequestHeader, ResponseHeader};
use kafka_core::list_offsets_msg::{
    encode_list_offsets_response, parse_list_offsets_response, ListOffsetsResponse,
    PartitionOffsetData, TopicOffsetData,
};
use kafka_core::message_set::{Compression, Message, MessageSet};
use kafka_core::metadata_msg::{
    encode_metadata_response, parse_metadata_response, BrokerMetadata, MetadataResponse,
    PartitionMetadata, TopicMetadata,
};
use kafka_core::produce::{
    parse_produce_request, parse_produce_response, ProducePartitionData, ProducePartitionStatus,
    ProduceRequest, ProduceRequestEncoder, ProduceResponse, ProduceResponseDecoder,
    ProduceTopicData, ProduceTopicStatus,
};
use kafka_core::response::{decode_framed_response, FrameOutcome, KafkaResponse};

fn test_request_data() -> Vec<u8> {
    vec![
        // request header
        0, 1, // api_key
        0, 2, // api_version
        0, 0, 0, 123, // correlation_id
        0, 6, 99, 108, 105, 101, 110, 116, // client_id
        255, 255, // required_acks
        0, 0, 0, 123, // timeout
        // topics
        0, 0, 0, 1, //
        0, 5, 116, 111, 112, 105, 99, // topic_name
        // partitions
        0, 0, 0, 1, //
        0, 0, 0, 1, // partition
        // message set
        0, 0, 0, 1, //
        0, 0, 0, 0, 0, 0, 0, 0, // offset
        0, 0, 0, 30, // size
        226, 52, 65, 188, // crc
        1, // magic
        0, // attributes
        0, 0, 0, 0, 0, 0, 1, 200, // timestamp
        0, 0, 0, 3, 107, 101, 121, // key
        0, 0, 0, 5, 118, 97, 108, 117, 101, // value
    ]
}

fn test_response_data() -> Vec<u8> {
    vec![
        // response header
        0, 0, 0, 123, // correlation_id
        // topics
        0, 0, 0, 1, //
        0, 5, b't', b'o', b'p', b'i', b'c', // topic_name
        // partitions
        0, 0, 0, 1, //
        0, 0, 0, 1, // partition
        0, 2, // error_code
        0, 0, 0, 0, 0, 0, 0, 3, // offset
        0, 0, 0, 0, 0, 0, 0, 4, // timestamp
        0, 0, 0, 5, // throttle_time
    ]
}

fn test_request() -> ProduceRequest {
    ProduceRequest {
        header: RequestHeader {
            api_key: ApiKeys::Fetch.code(),
            api_version: 2,
            correlation_id: 123,
            client_id: Some(b"client".to_vec()),
        },
        required_acks: -1,
        timeout: 123,
        topics: vec![ProduceTopicData {
            topic_name: b"topic".to_vec(),
            partitions: vec![ProducePartitionData {
                partition: 1,
                message_set: MessageSet {
                    messages: vec![Message {
                        key: Some(b"key".to_vec()),
                        value: Some(b"value".to_vec()),
                        timestamp: Some(456),
                    }],
                },
            }],
        }],
    }
}

fn test_response() -> ProduceResponse {
    ProduceResponse {
        header: ResponseHeader { correlation_id: 123 },
        topics: vec![ProduceTopicStatus {
            topic_name: Some(b"topic".to_vec()),
            partitions: vec![ProducePartitionStatus {
                partition: 1,
                error_code: 2,
                offset: 3,
                timestamp: Some(4),
            }],
        }],
        throttle_time: Some(5),
    }
}

#[test]
fn test_produce_request() {
    let req = test_request();
    let mut encoder = ProduceRequestEncoder::new(0, 1, Compression::Uncompressed);
    let mut buf: Vec<u8> = Vec::new();
    encoder.encode(&req, &mut buf).unwrap();
    assert_eq!(&buf[..], &test_request_data()[..]);
}

#[test]
fn test_produce_response() {
    let data = test_response_data();
    let (parsed, end) = parse_produce_response(&data, 0, 2).unwrap();
    assert_eq!(parsed, test_response());
    assert_eq!(end, data.len());
}

#[test]
fn test_produce_response_decoder() {
    let mut buf = test_response_data();
    let mut decoder = ProduceResponseDecoder::new(2);

    assert_eq!(decoder.decode(&mut buf).unwrap(), test_response());
    assert_eq!(buf.len(), 0);

    assert_eq!(decoder.decode(&mut buf), None);
}

#[test]
fn produce_request_round_trip() {
    let req = test_request();
    let mut encoder = ProduceRequestEncoder::new(0, 1, Compression::Uncompressed);
    let mut buf: Vec<u8> = Vec::new();
    encoder.encode(&req, &mut buf).unwrap();
    let (parsed, end) = parse_produce_request(&buf, 0).unwrap();
    assert_eq!(end, buf.len());
    assert_eq!(parsed, req);
}

#[test]
fn produce_response_round_trip() {
    let resp = test_response();
    let bytes = kafka_core::produce::encode_produce_response(&resp, 2);
    assert_eq!(bytes, test_response_data());
    let (parsed, end) = parse_produce_response(&bytes, 0, 2).unwrap();
    assert_eq!(end, bytes.len());
    assert_eq!(parsed, resp);
}

fn sample_metadata_response() -> MetadataResponse {
    MetadataResponse {
        header: ResponseHeader { correlation_id: 7 },
        brokers: vec![
            BrokerMetadata { node_id: 0, host: b"alpha".to_vec(), port: 9092 },
            BrokerMetadata { node_id: 1, host: b"beta".to_vec(), port: 9093 },
        ],
        topics: vec![TopicMetadata {
            error_code: 0,
            topic_name: b"events".to_vec(),
            partitions: vec![
                PartitionMetadata {
                    error_code: 0,
                    partition_id: 0,
                    leader: 1,
                    replicas: vec![0, 1],
                    in_sync_replicas: vec![1],
                },
                PartitionMetadata {
                    error_code: 0,
                    partition_id: 1,
                    leader: 0,
                    replicas: vec![0, 1],
                    in_sync_replicas: vec![0, 1],
                },
            ],
        }],
    }
}

#[test]
fn metadata_response_round_trip() {
    let resp = sample_metadata_response();
    let bytes = encode_metadata_response(&resp);
    let (parsed, end) = parse_metadata_response(&bytes, 0).unwrap();
    assert_eq!(end, bytes.len());
    assert_eq!(parsed, resp);
    // Re-encoding the decoded value yields the same bytes.
    assert_eq!(encode_metadata_response(&parsed), bytes);
}

#[test]
fn api_versions_response_round_trip() {
    let resp = ApiVersionsResponse {
        header: ResponseHeader { correlation_id: 9 },
        error_code: 0,
        api_versions: vec![
            ApiVersionRange { api_key: 0, min_version: 0, max_version: 2 },
            ApiVersionRange { api_key: 3, min_version: 0, max_version: 1 },
        ],
    };
    let bytes = encode_api_versions_response(&resp);
    let (parsed, end) = parse_api_versions_response(&bytes, 0).unwrap();
    assert_eq!(end, bytes.len());
    assert_eq!(parsed, resp);
}

#[test]
fn list_offsets_response_round_trip_both_versions() {
    let v0 = ListOffsetsResponse {
        header: ResponseHeader { correlation_id: 4 },
        topics: vec![TopicOffsetData {
            topic_name: b"t".to_vec(),
            partitions: vec![PartitionOffsetData {
                partition: 0,
                error_code: 0,
                timestamp: None,
                offsets: vec![10, 7, 3],
            }],
        }],
    };
    let bytes = encode_list_offsets_response(&v0, 0);
    let (parsed, end) = parse_list_offsets_response(&bytes, 0, 0).unwrap();
    assert_eq!(end, bytes.len());
    assert_eq!(parsed, v0);

    let v1 = ListOffsetsResponse {
        header: ResponseHeader { correlation_id: 5 },
        topics: vec![TopicOffsetData {
            topic_name: b"t".to_vec(),
            partitions: vec![PartitionOffsetData {
                partition: 0,
                error_code: 0,
                timestamp: Some(99),
                offsets: vec![42],
            }],
        }],
    };
    let bytes = encode_list_offsets_response(&v1, 1);
    let (parsed, end) = parse_list_offsets_response(&bytes, 0, 1).unwrap();
    assert_eq!(end, bytes.len());
    assert_eq!(parsed, v1);
}

#[test]
fn crc32_known_values() {
    // The standard check value of this polynomial.
    let data = b"123456789";
    assert_eq!(crc32_range(data, 0, data.len()), 0xcbf4_3926);
    assert_eq!(crc32_range(data, 0, 0), 0);
}

#[test]
fn message_crc_is_validated_on_decode() {
    let mut bytes = test_request_data();
    // Flip one bit inside the message value; the stored checksum no longer
    // matches and the request is rejected.
    let last = bytes.len() - 1;
    bytes[last] ^= 1;
    assert!(parse_produce_request(&bytes, 0).is_none());
}

#[test]
fn framed_response_is_incremental() {
    let body = test_response_data();
    let mut framed: Vec<u8> = Vec::new();
    framed.extend_from_slice(&(body.len() as u32).to_be_bytes());
    framed.extend_from_slice(&body);

    // Fewer than length + 4 bytes: wait, consume nothing.
    let partial = &framed[..framed.len() - 1];
    assert!(matches!(
        decode_framed_response(partial, ApiKeys::Produce, 2),
        FrameOutcome::Incomplete
    ));
    assert!(matches!(
        decode_framed_response(&framed[..3], ApiKeys::Produce, 2),
        FrameOutcome::Incomplete
    ));

    match decode_framed_response(&framed, ApiKeys::Produce, 2) {
        FrameOutcome::Done(KafkaResponse::Produce(resp), consumed) => {
            assert_eq!(consumed, framed.len());
            assert_eq!(resp, test_response());
        }
        _ => panic!("expected a decoded produce response"),
    }

    // A frame whose body the parser rejects is corrupt.
    let mut bad = framed.clone();
    let last = bad.len() - 1;
    bad.truncate(last);
    bad.push(0);
    // Fetch is outside the supported response subset.
    assert!(matches!(
        decode_framed_response(&framed, ApiKeys::Fetch, 0),
        FrameOutcome::Corrupt
    ));
}

#[test]
fn unsupported_response_type_yields_nothing() {
    let body = test_response_data();
    assert!(KafkaResponse::parse(&body, ApiKeys::Fetch, 0).is_none());
}

#[test]
fn extreme_field_values_round_trip() {
    // The most negative and most positive values of every signed field.
    let resp = ProduceResponse {
        header: ResponseHeader { correlation_id: i32::MIN },
        topics: vec![ProduceTopicStatus {
            // A null topic name survives the round trip.
            topic_name: None,
            partitions: vec![ProducePartitionStatus {
                partition: i32::MAX,
                error_code: i16::MIN,
                offset: i64::MIN,
                timestamp: Some(i64::MAX),
            }],
        }],
        throttle_time: Some(i32::MAX),
    };
    let bytes = kafka_core::produce::encode_produce_response(&resp, 2);
    let (parsed, end) = parse_produce_response(&bytes, 0, 2).unwrap();
    assert_eq!(end, bytes.len());
    assert_eq!(parsed, resp);
}

#[test]
fn version_zero_produce_omits_timestamps() {
    // Version 0 of the message layout carries no timestamp; a request built
    // at that version round-trips without one.
    let req = ProduceRequest {
        header: RequestHeader {
            api_key: ApiKeys::Produce.code(),
            api_version: 0,
            correlation_id: 1,
            client_id: None,
        },
        required_acks: 0,
        timeout: 1,
        topics: vec![ProduceTopicData {
            topic_name: b"t".to_vec(),
            partitions: vec![ProducePartitionData {
                partition: 0,
                message_set: MessageSet {
                    messages: vec![Message { key: None, value: Some(b"v".to_vec()), timestamp: None }],
                },
            }],
        }],
    };
    let mut encoder = ProduceRequestEncoder::new(0, 0, Compression::Uncompressed);
    let mut buf: Vec<u8> = Vec::new();
    encoder.encode(&req, &mut buf).unwrap();
    let (parsed, end) = parse_produce_request(&buf, 0).unwrap();
    assert_eq!(end, buf.len());
    assert_eq!(parsed, req);
    // A version-zero response carries no throttle time either.
    let resp = ProduceResponse {
        header: ResponseHeader { correlation_id: 1 },
        topics: vec![],
        throttle_time: None,
    };
    let bytes = kafka_core::produce::encode_produce_response(&resp, 0);
    let (parsed, _) = parse_produce_response(&bytes, 0, 0).unwrap();
    assert_eq!(parsed, resp);
}

#[test]
fn gzip_sets_are_really_compressed() {
    // Under gzip the encoder carries the whole plain set, compressed, as the
    // value of one wrapper message; decompressing that value recovers the
    // plain set exactly.
    let messages = vec![
        Message { key: Some(b"k1".to_vec()), value: Some(b"first".to_vec()), timestamp: Some(1) },
        Message { key: None, value: Some(b"second".to_vec()), timestamp: Some(2) },
    ];
    let req = ProduceRequest {
        header: RequestHeader {
            api_key: ApiKeys::Produce.code(),
            api_version: 1,
            correlation_id: 5,
            client_id: None,
        },
        required_acks: 1,
        timeout: 100,
        topics: vec![ProduceTopicData {
            topic_name: b"t".to_vec(),
            partitions: vec![ProducePartitionData {
                partition: 0,
                message_set: MessageSet { messages: messages.clone() },
            }],
        }],
    };
    let mut encoder = ProduceRequestEncoder::new(0, 1, Compression::Gzip);
    let mut buf: Vec<u8> = Vec::new();
    encoder.encode(&req, &mut buf).unwrap();

    let (parsed, end) = parse_produce_request(&buf, 0).unwrap();
    assert_eq!(end, buf.len());
    let outer = &parsed.topics[0].partitions[0].message_set.messages;
    assert_eq!(outer.len(), 1);
    let wrapper = &outer[0];
    assert!(wrapper.key.is_none());
    assert_eq!(wrapper.timestamp, Some(0));
    let compressed = wrapper.value.as_ref().unwrap();
    // The carried bytes are a real gzip stream of the plain inner set.
    let inner = kafka_core::gzip::uncompress(compressed).unwrap();
    assert_ne!(&inner, compressed);
    let (inner_set, inner_end) = kafka_core::message_set::parse_message_set(&inner, 0).unwrap();
    assert_eq!(inner_end, inner.len());
    assert_eq!(inner_set.messages, messages);
}
