//! The sender: resolves the leader for one drained batch, builds the produce
//! request, and decomposes the response into per-record metadata or an error
//! the retry policy classifies.
use vstd::prelude::*;

use crate::accumulator::{complete_batch, Thunk};
use crate::cluster::{spec_broker_api_version, TopicPartition};
use crate::errors::{ErrorKind, KafkaCode};
use crate::header::{ApiKeys, RequestHeader};
use crate::message_set::{Compression, MessageSet};
use crate::metadata::{spec_leader_for, Metadata};
use crate::produce::{ProducePartitionData, ProducePartitionStatus, ProduceRequest, ProduceResponse, ProduceTopicData};
use crate::record::RecordMetadata;
use crate::response::KafkaRequest;

verus! {

/// The produce api version used toward a broker: the effective window top,
/// or version zero where none is known.
pub open spec fn spec_produce_version(m: Metadata, name: Seq<u8>, partition: i32) -> i16 {
    match spec_leader_for(m, name, partition) {
        Option::None => 0,
        Option::Some(b) => match spec_broker_api_version(b, ApiKeys::Produce) {
            Option::None => 0,
            Option::Some(v) => v,
        },
    }
}

/// One planned produce attempt: where to send, and the request to send.
#[derive(Debug)]
pub struct ProducePlan {
    pub host: Vec<u8>,
    pub port: u16,
    pub request: KafkaRequest,
}

/// Plans one produce attempt for a drained batch: resolves the leader of the
/// topic-partition and builds the request around the batch's message set. A
/// partition without a known leader fails retryably; the caller forces a
/// metadata refresh.
pub fn plan_produce(
    m: &Metadata,
    tp: &TopicPartition,
    required_acks: i16,
    ack_timeout: i32,
    correlation_id: i32,
    client_id: Option<Vec<u8>>,
    message_set: MessageSet,
    compression: Compression,
) -> (r: Result<ProducePlan, ErrorKind>)
    requires
        tp.topic_name@.len() <= crate::wire::MAX_STR_LEN,
        match client_id {
            Option::Some(id) => id@.len() <= crate::wire::MAX_STR_LEN,
            Option::None => true,
        },
    ensures
        match r {
            Ok(plan) => {
                &&& spec_leader_for(*m, tp.topic_name@, tp.partition) matches Some(b) && {
                    &&& plan.host@ == b.host@
                    &&& plan.port == b.port
                }
                &&& plan.request matches KafkaRequest::Produce(req, comp) && {
                    &&& comp == compression
                    &&& req@.header.api_key == ApiKeys::Produce.spec_code()
                    &&& req@.header.api_version == spec_produce_version(
                        *m,
                        tp.topic_name@,
                        tp.partition,
                    )
                    &&& req@.header.correlation_id == correlation_id
                    &&& req@.required_acks == required_acks
                    &&& req@.timeout == ack_timeout
                    &&& req@.topics.len() == 1
                    &&& req@.topics[0].topic_name == tp.topic_name@
                    &&& req@.topics[0].partitions.len() == 1
                    &&& req@.topics[0].partitions[0].partition == tp.partition
                    &&& req@.topics[0].partitions[0].message_set == message_set@
                }
            },
            Err(e) => {
                &&& e == ErrorKind::LeaderUnknown
                &&& e.spec_retryable()
                &&& spec_leader_for(*m, tp.topic_name@, tp.partition) is None
            },
        },
{
    let (host, port, api_version) = match m.leader_for(tp) {
        None => {
            return Err(ErrorKind::LeaderUnknown);
        },
        Some(broker) => {
            let v = match broker.api_version(ApiKeys::Produce) {
                None => 0,
                Some(v) => v,
            };
            (crate::cluster::clone_bytes(broker.host()), broker.port(), v)
        },
    };
    let header = RequestHeader {
        api_key: ApiKeys::Produce.code(),
        api_version,
        correlation_id,
        client_id,
    };
    let partitions: Vec<ProducePartitionData> = vec_of_one_partition(tp.partition, message_set);
    let topics: Vec<ProduceTopicData> = vec_of_one_topic(
        crate::cluster::clone_bytes(&tp.topic_name),
        partitions,
    );
    let request = ProduceRequest { header, required_acks, timeout: ack_timeout, topics };
    proof {
        assert(crate::codec_util::views_of(request.topics@)[0] == request.topics@[0]@);
    }
    Ok(ProducePlan { host, port, request: KafkaRequest::Produce(request, compression) })
}

fn vec_of_one_partition(partition: i32, message_set: MessageSet) -> (r: Vec<ProducePartitionData>)
    ensures
        r@.len() == 1,
        r@[0].partition == partition,
        r@[0].message_set == message_set,
{
    let mut v: Vec<ProducePartitionData> = Vec::new();
    v.push(ProducePartitionData { partition, message_set });
    v
}

fn vec_of_one_topic(topic_name: Vec<u8>, partitions: Vec<ProducePartitionData>) -> (r: Vec<
    ProduceTopicData,
>)
    ensures
        r@.len() == 1,
        r@[0].topic_name == topic_name,
        r@[0].partitions == partitions,
{
    let mut v: Vec<ProduceTopicData> = Vec::new();
    v.push(ProduceTopicData { topic_name, partitions });
    v
}

/// The status a produce response carries for one topic-partition.
pub open spec fn spec_find_status(
    topics: Seq<crate::produce::ProduceTopicStatusView>,
    name: Seq<u8>,
    partition: i32,
) -> Option<ProducePartitionStatus>
    decreases topics.len(),
{
    if topics.len() == 0 {
        None
    } else if topics[0].topic_name == Some(name) {
        spec_find_status_in(topics[0].partitions, partition)
    } else {
        spec_find_status(topics.skip(1), name, partition)
    }
}

pub open spec fn spec_find_status_in(
    statuses: Seq<ProducePartitionStatus>,
    partition: i32,
) -> Option<ProducePartitionStatus>
    decreases statuses.len(),
{
    if statuses.len() == 0 {
        None
    } else if statuses[0].partition == partition {
        Some(statuses[0])
    } else {
        spec_find_status_in(statuses.skip(1), partition)
    }
}

/// Finds the status a response carries for one topic-partition.
pub fn find_partition_status(resp: &ProduceResponse, tp: &TopicPartition) -> (r: Option<
    ProducePartitionStatus,
>)
    ensures
        r == spec_find_status(crate::codec_util::views_of(resp.topics@), tp.topic_name@, tp.partition),
{
    let ghost all = crate::codec_util::views_of(resp.topics@);
    let n = resp.topics.len();
    let mut i: usize = 0;
    proof {
        assert(all.skip(0int) =~= all);
    }
    while i < n
        invariant
            i <= n,
            n == resp.topics@.len(),
            all == crate::codec_util::views_of(resp.topics@),
            all.len() == n,
            spec_find_status(all, tp.topic_name@, tp.partition) == spec_find_status(
                all.skip(i as int),
                tp.topic_name@,
                tp.partition,
            ),
        decreases n - i,
    {
        proof {
            assert(all.skip(i as int)[0] == all[i as int]);
            assert(all[i as int] == resp.topics@[i as int]@);
            assert(all.skip(i as int).skip(1) =~= all.skip(i + 1));
        }
        let name_matches = match &resp.topics[i].topic_name {
            Some(name) => crate::metadata::bytes_eq(name, &tp.topic_name),
            None => false,
        };
        if name_matches {
            return find_status_in(&resp.topics[i].partitions, tp.partition);
        }
        i = i + 1;
    }
    proof {
        assert(all.skip(n as int).len() == 0);
    }
    None
}

fn find_status_in(statuses: &Vec<ProducePartitionStatus>, partition: i32) -> (r: Option<
    ProducePartitionStatus,
>)
    ensures
        r == spec_find_status_in(crate::codec_util::views_of(statuses@), partition),
{
    let ghost all = crate::codec_util::views_of(statuses@);
    let n = statuses.len();
    let mut i: usize = 0;
    proof {
        assert(all.skip(0int) =~= all);
    }
    while i < n
        invariant
            i <= n,
            n == statuses@.len(),
            all == crate::codec_util::views_of(statuses@),
            all.len() == n,
            spec_find_status_in(all, partition) == spec_find_status_in(
                all.skip(i as int),
                partition,
            ),
        decreases n - i,
    {
        proof {
            assert(all.skip(i as int)[0] == all[i as int]);
            assert(all[i as int] == statuses@[i as int]@);
            assert(all.skip(i as int).skip(1) =~= all.skip(i + 1));
        }
        if statuses[i].partition == partition {
            return Some(statuses[i]);
        }
        i = i + 1;
    }
    proof {
        assert(all.skip(n as int).len() == 0);
    }
    None
}

/// Decomposes a produce response for one drained batch. A clean status
/// fulfils every completion slot with metadata carrying the base offset plus
/// the record's place in the batch; a broker error fails the batch with the
/// mapped code; a response without the topic-partition is a protocol error.
pub fn settle_batch(
    resp: &ProduceResponse,
    tp: &TopicPartition,
    thunks: &Vec<Thunk>,
) -> (r: Result<Vec<RecordMetadata>, ErrorKind>)
    ensures
        ({
            let status = spec_find_status(
                crate::codec_util::views_of(resp.topics@),
                tp.topic_name@,
                tp.partition,
            );
            match r {
                Ok(metas) => {
                    &&& status matches Some(st) && st.error_code == 0 && 0 <= st.offset
                        && st.offset + thunks@.len() <= i64::MAX
                    &&& metas@.len() == thunks@.len()
                    &&& forall|i: int| 0 <= i < metas@.len() ==> {
                        &&& (#[trigger] metas@[i]).offset == status.unwrap().offset + i
                        &&& metas@[i].topic_name@ == tp.topic_name@
                        &&& metas@[i].partition == tp.partition
                        &&& metas@[i].timestamp == thunks@[i].timestamp
                        &&& metas@[i].serialized_key_size == thunks@[i].key_size
                        &&& metas@[i].serialized_value_size == thunks@[i].value_size
                    }
                },
                Err(e) => match status {
                    Option::None => e == ErrorKind::Protocol,
                    Option::Some(st) => {
                        if st.error_code != 0 {
                            e == ErrorKind::Kafka(KafkaCode::spec_from_code(st.error_code))
                        } else {
                            &&& e == ErrorKind::Protocol
                            &&& !(0 <= st.offset && st.offset + thunks@.len() <= i64::MAX)
                        }
                    },
                },
            }
        }),
{
    match find_partition_status(resp, tp) {
        None => Err(ErrorKind::Protocol),
        Some(status) => {
            if status.error_code != 0 {
                return Err(ErrorKind::Kafka(KafkaCode::from_code(status.error_code)));
            }
            if status.offset < 0 {
                return Err(ErrorKind::Protocol);
            }
            if thunks.len() as u64 > (i64::MAX - status.offset) as u64 {
                return Err(ErrorKind::Protocol);
            }
            Ok(complete_batch(thunks, &tp.topic_name, tp.partition, status.offset))
        },
    }
}

} // verus!
