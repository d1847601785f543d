//! The producer: resolves a record's partition, stamps its timestamp, picks
//! the produce api version for the leader, and appends the record to the
//! accumulator. The append reports the flush triggers back to the caller.
use vstd::prelude::*;

use crate::accumulator::{spec_record_size, PushRecordOutcome, RecordAccumulator, ProducerBatch};
use crate::cluster::TopicPartition;
use crate::config::ProducerConfig;
use crate::errors::{ErrorKind, KafkaCode};
use crate::header::ApiKeys;
use crate::message_set::{opt_bytes_view, spec_magic_of};
use crate::metadata::Metadata;
use crate::partitioner::{spec_partition_choice, DefaultPartitioner};
use crate::record::ProducerRecord;
use crate::response::clip_i8_exec;
use crate::sender::spec_produce_version;

verus! {

/// The partition a record lands on: the partitioner's choice, or partition
/// zero where it makes none.
pub open spec fn spec_resolved_partition(
    m: Metadata,
    name: Seq<u8>,
    partition: Option<i32>,
    key: Option<Seq<u8>>,
    counter: u64,
) -> i32 {
    match spec_partition_choice(m, name, partition, key, counter) {
        Option::Some(p) => p,
        Option::None => 0,
    }
}

/// The producer core: its configuration, the accumulator, and the default
/// partitioner.
pub struct KafkaProducer {
    pub config: ProducerConfig,
    pub accumulator: RecordAccumulator,
    pub partitioner: DefaultPartitioner,
}

impl KafkaProducer {
    /// The accumulator batches under the configured size, compression and
    /// linger.
    pub open spec fn wf(self) -> bool {
        &&& self.accumulator.wf()
        &&& self.accumulator.batch_size == self.config.batch_size
        &&& self.accumulator.compression == self.config.compression
        &&& self.accumulator.linger == self.config.linger
        &&& self.config.batch_size + 34 <= usize::MAX
    }

    /// Builds a producer, rejecting an invalid configuration at once.
    pub fn new(config: ProducerConfig) -> (r: Result<Self, ErrorKind>)
        requires
            config.batch_size + 34 <= usize::MAX,
        ensures
            match r {
                Ok(p) => {
                    &&& config.spec_valid()
                    &&& p.wf()
                    &&& p.config == config
                    &&& p.accumulator.compression == config.compression
                    &&& p.accumulator.linger == config.linger
                    &&& p.accumulator.retry_backoff == config.retry_backoff
                    &&& p.accumulator.batches@.len() == 0
                    &&& p.partitioner.records == 0
                },
                Err(e) => {
                    &&& e == ErrorKind::Config
                    &&& !config.spec_valid()
                },
            },
    {
        if let Err(e) = config.validate() {
            return Err(e);
        }
        let accumulator = RecordAccumulator::new(
            config.batch_size,
            config.compression,
            config.linger,
            config.retry_backoff,
        );
        Ok(KafkaProducer { config, accumulator, partitioner: DefaultPartitioner::new() })
    }

    /// Appends one record, serialized to bytes: the partitioner places it
    /// (falling back to partition zero), a missing timestamp takes the
    /// caller's clock, and the produce api version follows the leader's
    /// window. A record too large for one batch is refused with the mapped
    /// broker code; the accumulator never sees it.
    pub fn push_record(
        &mut self,
        metadata: &Metadata,
        record: ProducerRecord<Vec<u8>, Vec<u8>>,
        now: u64,
        default_timestamp: i64,
    ) -> (r: Result<PushRecordOutcome, ErrorKind>)
        requires
            old(self).wf(),
        ensures
            final(self).wf(),
            final(self).config == old(self).config,
            ({
                let name = record.topic_name@;
                let chosen = spec_resolved_partition(
                    *metadata,
                    name,
                    record.partition,
                    opt_bytes_view(record.key),
                    old(self).partitioner.records,
                );
                let ts = (match record.timestamp {
                    Option::Some(t) => t,
                    Option::None => default_timestamp,
                });
                let version = spec_produce_version(*metadata, name, chosen);
                let magic = spec_magic_of(crate::response::clip_i8(version));
                let rec_size = spec_record_size(
                    magic,
                    opt_bytes_view(record.key),
                    opt_bytes_view(record.value),
                );
                match r {
                    Ok(outcome) => {
                        &&& rec_size <= old(self).config.batch_size
                        &&& outcome.accepted
                        &&& match crate::accumulator::spec_queue(
                            final(self).accumulator.batches@,
                            name,
                            chosen,
                        ) {
                            Option::Some(q) => {
                                &&& q@.len() >= 1
                                &&& q@.last().last_push_time == now
                                &&& q@.last().thunks@.len() >= 1
                                &&& q@.last().thunks@.last().timestamp == ts
                                &&& outcome.batch_full == q@.last().builder.spec_is_full()
                                &&& q@.last().builder.compression == old(self).config.compression
                                &&& q@.last().builder.write_limit == old(self).config.batch_size
                                &&& (outcome.new_batch ==> {
                                    &&& q@.last().builder.api_version
                                        == crate::response::clip_i8(version)
                                    &&& q@.last().create_time == now
                                })
                            },
                            Option::None => false,
                        }
                    },
                    Err(e) => {
                        &&& e == ErrorKind::Kafka(KafkaCode::MessageSizeTooLarge)
                        &&& rec_size > old(self).config.batch_size
                        &&& *final(self) == KafkaProducer {
                            partitioner: final(self).partitioner,
                            ..*old(self)
                        }
                    },
                }
            }),
    {
        let ProducerRecord { topic_name, partition, key, value, timestamp } = record;
        let chosen: i32 = match self.partitioner.partition(
            &topic_name,
            partition,
            key.as_ref(),
            value.as_ref(),
            metadata,
        ) {
            Some(p) => p,
            None => 0,
        };
        let ts: i64 = match timestamp {
            Some(t) => t,
            None => default_timestamp,
        };
        let tp = TopicPartition { topic_name, partition: chosen };
        let version = produce_version_for(metadata, &tp);
        let api_version = clip_i8_exec(version);
        let magic = crate::message_set::magic_of(api_version);
        let klen: usize = match &key {
            Some(k) => k.len(),
            None => 0,
        };
        let vlen: usize = match &value {
            Some(v) => v.len(),
            None => 0,
        };
        let ts_len: usize = if magic == 1 {
            8
        } else {
            0
        };
        if klen > self.config.batch_size || vlen > self.config.batch_size - klen || 26 + ts_len
            > self.config.batch_size - klen - vlen {
            return Err(ErrorKind::Kafka(KafkaCode::MessageSizeTooLarge));
        }
        let outcome = self.accumulator.push_record(&tp, now, ts, key, value, api_version);
        Ok(outcome)
    }

    /// Drains every batch that is due to leave; a forced flush takes them
    /// all. No batch is lost: the drained list holds, slot by slot and in
    /// order, exactly the batches the queues gave up, completion slots
    /// included, and a sole tail batch neither full nor past its linger is
    /// retained on a non-forced flush.
    pub fn flush(&mut self, force: bool, now: u64) -> (out: Vec<(TopicPartition, ProducerBatch)>)
        requires
            old(self).wf(),
        ensures
            final(self).wf(),
            final(self).config == old(self).config,
            final(self).partitioner == old(self).partitioner,
            final(self).accumulator.batches@.len() == old(self).accumulator.batches@.len(),
            forall|k: int| 0 <= k < final(self).accumulator.batches@.len()
                ==> (#[trigger] final(self).accumulator.batches@[k]).0
                    == old(self).accumulator.batches@[k].0,
            forall|k: int| 0 <= k < final(self).accumulator.batches@.len() ==> {
                &&& (#[trigger] final(self).accumulator.batches@[k]).1@.len()
                    <= old(self).accumulator.batches@[k].1@.len()
                &&& final(self).accumulator.batches@[k].1@
                    == old(self).accumulator.batches@[k].1@.skip(
                    old(self).accumulator.batches@[k].1@.len()
                        - final(self).accumulator.batches@[k].1@.len(),
                )
            },
            out@.len() + crate::accumulator::total_batches(final(self).accumulator.batches@)
                == crate::accumulator::total_batches(old(self).accumulator.batches@),
            out@.len() == crate::accumulator::drained_before(
                old(self).accumulator.batches@,
                final(self).accumulator.batches@,
                old(self).accumulator.batches@.len() as int,
            ),
            forall|k: int, j: int|
                0 <= k < final(self).accumulator.batches@.len()
                    && 0 <= j < old(self).accumulator.batches@[k].1@.len()
                        - final(self).accumulator.batches@[k].1@.len()
                    ==> #[trigger] crate::accumulator::drained_entry_matches(
                    old(self).accumulator.batches@,
                    final(self).accumulator.batches@,
                    out@,
                    k,
                    j,
                ),
            force ==> forall|k: int| 0 <= k < final(self).accumulator.batches@.len()
                ==> (#[trigger] final(self).accumulator.batches@[k]).1@.len() == 0,
            !force ==> forall|k: int|
                0 <= k < final(self).accumulator.batches@.len()
                    ==> (if old(self).accumulator.batches@[k].1@.len() > 0
                        && !old(self).accumulator.batches@[k].1@.last().builder.spec_is_full()
                        && now - old(self).accumulator.batches@[k].1@.last().last_push_time
                        < old(self).config.linger {
                    &&& (#[trigger] final(self).accumulator.batches@[k]).1@.len() == 1
                    &&& final(self).accumulator.batches@[k].1@[0]
                        == old(self).accumulator.batches@[k].1@.last()
                } else {
                    final(self).accumulator.batches@[k].1@.len() == 0
                }),
    {
        let out = self.accumulator.drain(force, now);
        proof {
            assert forall|k: int, j: int|
                0 <= k < self.accumulator.batches@.len() && 0 <= j < self.accumulator.batches@[
                    k
                ].1@.len() implies {
                &&& (#[trigger] self.accumulator.batches@[k].1@[j]).wf()
                &&& self.accumulator.batches@[k].1@[j].builder.write_limit
                    == self.accumulator.batch_size
            } by {
                let oldq = old(self).accumulator.batches@[k].1@;
                let newq = self.accumulator.batches@[k].1@;
                assert(newq == oldq.skip(oldq.len() - newq.len()));
                assert(newq[j] == oldq[j + oldq.len() - newq.len()]);
            }
        }
        out
    }
}

/// The produce api version toward the leader of a topic-partition, or zero
/// where the leader or its window is unknown.
pub fn produce_version_for(m: &Metadata, tp: &TopicPartition) -> (r: i16)
    ensures
        r == spec_produce_version(*m, tp.topic_name@, tp.partition),
{
    match m.leader_for(tp) {
        None => 0,
        Some(broker) => match broker.api_version(ApiKeys::Produce) {
            None => 0,
            Some(v) => v,
        },
    }
}

} // verus!
