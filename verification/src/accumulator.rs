//! The producer-side record accumulator: per-partition queues of batches,
//! appends into the open tail batch, and the size, linger and force triggers
//! that drain batches toward the sender.
use vstd::prelude::*;

use crate::cluster::TopicPartition;
use crate::message_set::{
    magic_of, opt_bytes_view, opt_len, spec_magic_of, Compression, Message, MessageSet,
};
use crate::metadata::bytes_eq;
use crate::record::RecordMetadata;

verus! {

/// The wire size one record adds to a message set: offset, size, checksum,
/// magic, attributes, the v1 timestamp, and the two length-prefixed fields.
pub open spec fn spec_record_size(magic: u8, key: Option<Seq<u8>>, value: Option<Seq<u8>>) -> int {
    let ts_len: int = if magic == 1 {
        8
    } else {
        0
    };
    26 + ts_len + opt_len(key) + opt_len(value)
}

/// One per-record completion slot: what is needed to build the record's
/// metadata once the broker answers.
pub struct Thunk {
    pub timestamp: i64,
    pub key_size: usize,
    pub value_size: usize,
}

/// Builds one message set under a size budget.
pub struct MessageSetBuilder {
    pub api_version: i8,
    pub compression: Compression,
    pub write_limit: usize,
    pub message_set: MessageSet,
    pub current_size: usize,
}

impl MessageSetBuilder {
    /// The running size agrees with the messages held.
    pub open spec fn wf(self) -> bool {
        self.current_size == spec_set_size(self.message_set@, spec_magic_of(self.api_version))
    }

    pub fn new(api_version: i8, compression: Compression, write_limit: usize) -> (r: Self)
        ensures
            r.api_version == api_version,
            r.compression == compression,
            r.write_limit == write_limit,
            r.message_set@.len() == 0,
            r.current_size == 0,
            r.wf(),
    {
        let r = MessageSetBuilder {
            api_version,
            compression,
            write_limit,
            message_set: MessageSet { messages: Vec::new() },
            current_size: 0,
        };
        proof {
            assert(r.message_set@ =~= Seq::<crate::message_set::MessageView>::empty());
        }
        r
    }

    /// Whether one more record of the given shape fits: the first record
    /// always does, a later one only within the budget.
    pub open spec fn spec_has_room(self, key: Option<Seq<u8>>, value: Option<Seq<u8>>) -> bool {
        let rec = spec_record_size(spec_magic_of(self.api_version), key, value);
        ||| self.message_set@.len() == 0
        ||| self.current_size + rec <= self.write_limit
    }

    /// The builder reports it cannot fit more input.
    pub open spec fn spec_is_full(self) -> bool {
        self.current_size >= self.write_limit
    }

    pub fn is_full(&self) -> (r: bool)
        ensures
            r == self.spec_is_full(),
    {
        self.current_size >= self.write_limit
    }

    /// Appends one record when it fits, and reports whether it did.
    pub fn push(&mut self, timestamp: i64, key: Option<Vec<u8>>, value: Option<Vec<u8>>) -> (r:
        bool)
        requires
            old(self).wf(),
            opt_len(opt_bytes_view(key)) + opt_len(opt_bytes_view(value)) + 34 <= usize::MAX,
        ensures
            final(self).wf(),
            final(self).api_version == old(self).api_version,
            final(self).compression == old(self).compression,
            final(self).write_limit == old(self).write_limit,
            r == old(self).spec_has_room(opt_bytes_view(key), opt_bytes_view(value)),
            r ==> final(self).message_set@ == old(self).message_set@.push(
                crate::message_set::MessageView {
                    key: opt_bytes_view(key),
                    value: opt_bytes_view(value),
                    timestamp: Some(timestamp),
                },
            ),
            !r ==> *final(self) == *old(self),
    {
        let magic = magic_of(self.api_version);
        let klen: usize = match &key {
            Some(k) => k.len(),
            None => 0,
        };
        let vlen: usize = match &value {
            Some(v) => v.len(),
            None => 0,
        };
        let ts_len: usize = if magic == 1 {
            8
        } else {
            0
        };
        let rec: usize = 26 + ts_len + klen + vlen;
        let empty = self.message_set.messages.len() == 0;
        let fits = if empty {
            true
        } else if self.current_size <= usize::MAX - rec {
            self.current_size + rec <= self.write_limit
        } else {
            false
        };
        if !fits {
            return false;
        }
        let ghost before = self.message_set@;
        self.message_set.messages.push(Message { key, value, timestamp: Some(timestamp) });
        if empty {
            self.current_size = rec;
        } else {
            self.current_size = self.current_size + rec;
        }
        proof {
            let m = self.message_set.messages@[before.len() as int];
            assert(self.message_set@ =~= before.push(m@));
            lemma_set_size_snoc(before, m@, spec_magic_of(self.api_version));
        }
        true
    }

    /// Hands the accumulated message set out.
    pub fn build(self) -> (r: MessageSet)
        ensures
            r == self.message_set,
    {
        self.message_set
    }
}

/// The summed wire size of a run of messages.
pub open spec fn spec_set_size(ms: Seq<crate::message_set::MessageView>, magic: u8) -> int
    decreases ms.len(),
{
    if ms.len() == 0 {
        0
    } else {
        spec_set_size(ms.drop_last(), magic) + spec_record_size(
            magic,
            ms.last().key,
            ms.last().value,
        )
    }
}

proof fn lemma_set_size_snoc(ms: Seq<crate::message_set::MessageView>, m: crate::message_set::MessageView, magic: u8)
    ensures
        spec_set_size(ms.push(m), magic) == spec_set_size(ms, magic) + spec_record_size(
            magic,
            m.key,
            m.value,
        ),
{
    assert(ms.push(m).drop_last() =~= ms);
    assert(ms.push(m).last() == m);
}

/// One open batch: the builder, a completion slot per appended record, and
/// the append clock the linger trigger reads.
pub struct ProducerBatch {
    pub builder: MessageSetBuilder,
    pub thunks: Vec<Thunk>,
    pub create_time: u64,
    pub last_push_time: u64,
}

impl ProducerBatch {
    /// Every appended record has exactly one completion slot.
    pub open spec fn wf(self) -> bool {
        &&& self.builder.wf()
        &&& self.thunks@.len() == self.builder.message_set@.len()
    }

    pub fn new(api_version: i8, compression: Compression, write_limit: usize, now: u64) -> (r:
        Self)
        ensures
            r.wf(),
            r.builder.api_version == api_version,
            r.builder.compression == compression,
            r.builder.write_limit == write_limit,
            r.thunks@.len() == 0,
            r.create_time == now,
            r.last_push_time == now,
    {
        ProducerBatch {
            builder: MessageSetBuilder::new(api_version, compression, write_limit),
            thunks: Vec::new(),
            create_time: now,
            last_push_time: now,
        }
    }

    pub fn is_full(&self) -> (r: bool)
        ensures
            r == self.builder.spec_is_full(),
    {
        self.builder.is_full()
    }

    /// Appends one record and records its completion slot. A record that
    /// does not fit leaves the batch unchanged: exactly the appends that
    /// succeed gain a slot.
    pub fn push_record(&mut self, now: u64, timestamp: i64, key: Option<Vec<u8>>, value: Option<
        Vec<u8>,
    >) -> (r: bool)
        requires
            old(self).wf(),
            opt_len(opt_bytes_view(key)) + opt_len(opt_bytes_view(value)) + 34 <= usize::MAX,
        ensures
            final(self).wf(),
            r == old(self).builder.spec_has_room(opt_bytes_view(key), opt_bytes_view(value)),
            final(self).builder.api_version == old(self).builder.api_version,
            final(self).builder.compression == old(self).builder.compression,
            final(self).builder.write_limit == old(self).builder.write_limit,
            final(self).create_time == old(self).create_time,
            r ==> {
                &&& final(self).thunks@.len() == old(self).thunks@.len() + 1
                &&& final(self).thunks@.take(old(self).thunks@.len() as int) == old(self).thunks@
                &&& final(self).thunks@.last().timestamp == timestamp
                &&& final(self).thunks@.last().key_size == opt_len(opt_bytes_view(key))
                &&& final(self).thunks@.last().value_size == opt_len(opt_bytes_view(value))
                &&& final(self).last_push_time == now
                &&& final(self).builder.message_set@ == old(self).builder.message_set@.push(
                    crate::message_set::MessageView {
                        key: opt_bytes_view(key),
                        value: opt_bytes_view(value),
                        timestamp: Some(timestamp),
                    },
                )
            },
            !r ==> *final(self) == *old(self),
    {
        let key_size: usize = match &key {
            Some(k) => k.len(),
            None => 0,
        };
        let value_size: usize = match &value {
            Some(v) => v.len(),
            None => 0,
        };
        let pushed = self.builder.push(timestamp, key, value);
        if !pushed {
            return false;
        }
        let ghost before = self.thunks@;
        self.thunks.push(Thunk { timestamp, key_size, value_size });
        proof {
            assert(self.thunks@.take(before.len() as int) =~= before);
        }
        self.last_push_time = now;
        true
    }

    /// Hands the accumulated message set out; the completion slots stay with
    /// the caller through the returned pair.
    pub fn build(self) -> (r: (MessageSet, Vec<Thunk>))
        ensures
            r.0 == self.builder.message_set,
            r.1 == self.thunks,
    {
        let ProducerBatch { builder, thunks, create_time: _, last_push_time: _ } = self;
        (builder.build(), thunks)
    }
}

/// Fulfils every completion slot of a drained batch: one metadata per
/// appended record, offsets assigned densely from the broker's base offset
/// in append order.
pub fn complete_batch(
    thunks: &Vec<Thunk>,
    topic_name: &Vec<u8>,
    partition: i32,
    base_offset: i64,
) -> (r: Vec<RecordMetadata>)
    requires
        0 <= base_offset,
        base_offset + thunks@.len() <= i64::MAX,
    ensures
        r@.len() == thunks@.len(),
        forall|i: int| 0 <= i < r@.len() ==> {
            &&& (#[trigger] r@[i]).offset == base_offset + i
            &&& r@[i].topic_name@ == topic_name@
            &&& r@[i].partition == partition
            &&& r@[i].timestamp == thunks@[i].timestamp
            &&& r@[i].serialized_key_size == thunks@[i].key_size
            &&& r@[i].serialized_value_size == thunks@[i].value_size
        },
{
    let mut out: Vec<RecordMetadata> = Vec::new();
    let n = thunks.len();
    let mut i: usize = 0;
    while i < n
        invariant
            i <= n,
            n == thunks@.len(),
            0 <= base_offset,
            base_offset + n <= i64::MAX,
            out@.len() == i as int,
            forall|j: int| 0 <= j < i as int ==> {
                &&& (#[trigger] out@[j]).offset == base_offset + j
                &&& out@[j].topic_name@ == topic_name@
                &&& out@[j].partition == partition
                &&& out@[j].timestamp == thunks@[j].timestamp
                &&& out@[j].serialized_key_size == thunks@[j].key_size
                &&& out@[j].serialized_value_size == thunks@[j].value_size
            },
        decreases n - i,
    {
        let t = &thunks[i];
        out.push(
            RecordMetadata {
                topic_name: crate::cluster::clone_bytes(topic_name),
                partition,
                offset: base_offset + i as i64,
                timestamp: t.timestamp,
                serialized_key_size: t.key_size,
                serialized_value_size: t.value_size,
            },
        );
        i = i + 1;
    }
    out
}

/// How many of a run of append outcomes succeeded.
pub open spec fn count_accepted(outcomes: Seq<bool>) -> nat
    decreases outcomes.len(),
{
    if outcomes.len() == 0 {
        0
    } else {
        count_accepted(outcomes.drop_last()) + (if outcomes.last() {
            1nat
        } else {
            0nat
        })
    }
}

/// The slot count a fresh batch reaches after a run of appends: each
/// accepted append adds one slot, a refused one adds none.
pub open spec fn thunks_after(outcomes: Seq<bool>) -> nat
    decreases outcomes.len(),
{
    if outcomes.len() == 0 {
        0
    } else if outcomes.last() {
        thunks_after(outcomes.drop_last()) + 1
    } else {
        thunks_after(outcomes.drop_last())
    }
}

/// For any run of appends into one batch, the completions its drain yields
/// number exactly the appends that succeeded: a fresh batch holds no slots,
/// each accepted append adds one, and completing the batch yields one
/// metadata per slot.
pub proof fn lemma_completions_match_appends(outcomes: Seq<bool>)
    ensures
        thunks_after(outcomes) == count_accepted(outcomes),
    decreases outcomes.len(),
{
    if outcomes.len() > 0 {
        lemma_completions_match_appends(outcomes.drop_last());
    }
}

/// What one append reported back to the producer.
#[derive(Clone, Copy, Debug, PartialEq, Eq, Structural)]
pub struct PushRecordOutcome {
    /// The record went into a batch.
    pub accepted: bool,
    /// The batch just became non-appendable; the producer flushes at once.
    pub batch_full: bool,
    /// A new batch was opened; the producer arms a linger timer.
    pub new_batch: bool,
}

/// The accumulator: one queue of batches per topic-partition; the tail of a
/// queue is the only batch open for appends.
pub struct RecordAccumulator {
    pub batch_size: usize,
    pub compression: Compression,
    pub linger: u64,
    pub retry_backoff: u64,
    pub batches: Vec<(TopicPartition, Vec<ProducerBatch>)>,
}

/// The queue an accumulator holds for a topic-partition.
pub open spec fn spec_queue(
    batches: Seq<(TopicPartition, Vec<ProducerBatch>)>,
    name: Seq<u8>,
    partition: i32,
) -> Option<Vec<ProducerBatch>>
    decreases batches.len(),
{
    if batches.len() == 0 {
        None
    } else if batches[0].0.topic_name@ == name && batches[0].0.partition == partition {
        Some(batches[0].1)
    } else {
        spec_queue(batches.skip(1), name, partition)
    }
}

impl RecordAccumulator {
    /// Every batch in every queue is well formed and was built with this
    /// accumulator's parameters.
    pub open spec fn wf(self) -> bool {
        forall|k: int, j: int|
            0 <= k < self.batches@.len() && 0 <= j < self.batches@[k].1@.len() ==> {
                &&& (#[trigger] self.batches@[k].1@[j]).wf()
                &&& self.batches@[k].1@[j].builder.write_limit == self.batch_size
                &&& self.batches@[k].1@[j].builder.compression == self.compression
            }
    }

    pub fn new(batch_size: usize, compression: Compression, linger: u64, retry_backoff: u64) -> (r:
        Self)
        ensures
            r.batch_size == batch_size,
            r.compression == compression,
            r.linger == linger,
            r.retry_backoff == retry_backoff,
            r.batches@.len() == 0,
            r.wf(),
    {
        RecordAccumulator { batch_size, compression, linger, retry_backoff, batches: Vec::new() }
    }

    /// Finds the slot of a topic-partition.
    fn queue_slot(&self, tp: &TopicPartition) -> (res: Option<usize>)
        ensures
            match res {
                Some(k) => {
                    &&& k < self.batches@.len()
                    &&& self.batches@[k as int].0.topic_name@ == tp.topic_name@
                    &&& self.batches@[k as int].0.partition == tp.partition
                    &&& spec_queue(self.batches@, tp.topic_name@, tp.partition) == Some(
                        self.batches@[k as int].1,
                    )
                    &&& forall|j: int| 0 <= j < k as int ==> !((#[trigger] self.batches@[
                        j
                    ]).0.topic_name@ == tp.topic_name@ && self.batches@[j].0.partition
                        == tp.partition)
                },
                None => spec_queue(self.batches@, tp.topic_name@, tp.partition) is None,
            },
    {
        let n = self.batches.len();
        let mut i: usize = 0;
        proof {
            assert(self.batches@.skip(0int) =~= self.batches@);
        }
        while i < n
            invariant
                i <= n,
                n == self.batches@.len(),
                spec_queue(self.batches@, tp.topic_name@, tp.partition) == spec_queue(
                    self.batches@.skip(i as int),
                    tp.topic_name@,
                    tp.partition,
                ),
                forall|j: int| 0 <= j < i as int ==> !((#[trigger] self.batches@[j]).0.topic_name@
                    == tp.topic_name@ && self.batches@[j].0.partition == tp.partition),
            decreases n - i,
        {
            proof {
                assert(self.batches@.skip(i as int)[0] == self.batches@[i as int]);
                assert(self.batches@.skip(i as int).skip(1) =~= self.batches@.skip(i + 1));
            }
            if bytes_eq(&self.batches[i].0.topic_name, &tp.topic_name) && self.batches[i].0.partition
                == tp.partition {
                return Some(i);
            }
            i = i + 1;
        }
        proof {
            assert(self.batches@.skip(n as int).len() == 0);
        }
        None
    }

    /// Appends one record under its topic-partition: into the open tail
    /// batch when it accepts the record, else into a newly opened batch.
    /// The outcome tells the producer whether the batch just filled up and
    /// whether a new batch was opened.
    pub fn push_record(&mut self, tp: &TopicPartition, now: u64, timestamp: i64, key: Option<
        Vec<u8>,
    >, value: Option<Vec<u8>>, api_version: i8) -> (r: PushRecordOutcome)
        requires
            old(self).wf(),
            spec_record_size(
                spec_magic_of(api_version),
                opt_bytes_view(key),
                opt_bytes_view(value),
            ) <= old(self).batch_size,
            old(self).batch_size + 34 <= usize::MAX,
        ensures
            final(self).wf(),
            final(self).batch_size == old(self).batch_size,
            final(self).compression == old(self).compression,
            final(self).linger == old(self).linger,
            final(self).retry_backoff == old(self).retry_backoff,
            r.accepted,
            match spec_queue(final(self).batches@, tp.topic_name@, tp.partition) {
                Option::Some(q2) => {
                    &&& q2@.len() >= 1
                    &&& r.batch_full == q2@.last().builder.spec_is_full()
                    &&& q2@.last().last_push_time == now
                    &&& q2@.last().thunks@.len() >= 1
                    &&& q2@.last().thunks@.last().timestamp == timestamp
                    &&& q2@.last().builder.compression == old(self).compression
                    &&& q2@.last().builder.write_limit == old(self).batch_size
                    &&& (r.new_batch ==> {
                        &&& q2@.last().builder.api_version == api_version
                        &&& q2@.last().create_time == now
                    })
                    &&& match spec_queue(old(self).batches@, tp.topic_name@, tp.partition) {
                        Option::Some(q1) => {
                            if r.new_batch {
                                &&& q2@.len() == q1@.len() + 1
                                &&& q2@.take(q1@.len() as int) == q1@
                                &&& q2@.last().thunks@.len() == 1
                            } else {
                                &&& q1@.len() >= 1
                                &&& q2@.len() == q1@.len()
                                &&& q2@.take(q2@.len() - 1) == q1@.take(q1@.len() - 1)
                                &&& q2@.last().thunks@.len() == q1@.last().thunks@.len() + 1
                                &&& q2@.last().builder.api_version == q1@.last().builder.api_version
                                &&& q2@.last().create_time == q1@.last().create_time
                            }
                        },
                        Option::None => {
                            &&& r.new_batch
                            &&& q2@.len() == 1
                            &&& q2@.last().thunks@.len() == 1
                        },
                    }
                },
                Option::None => false,
            },
            match spec_queue(old(self).batches@, tp.topic_name@, tp.partition) {
                Option::Some(_) => {
                    &&& final(self).batches@.len() == old(self).batches@.len()
                    &&& forall|k: int| 0 <= k < final(self).batches@.len()
                        ==> (#[trigger] final(self).batches@[k]).0 == old(self).batches@[k].0
                    &&& forall|k: int|
                        0 <= k < final(self).batches@.len()
                            && !(old(self).batches@[k].0.topic_name@ == tp.topic_name@
                            && old(self).batches@[k].0.partition == tp.partition)
                            ==> (#[trigger] final(self).batches@[k]).1 == old(self).batches@[k].1
                },
                Option::None => {
                    &&& final(self).batches@.len() == old(self).batches@.len() + 1
                    &&& final(self).batches@.take(old(self).batches@.len() as int) == old(
                        self,
                    ).batches@
                    &&& final(self).batches@.last().0.topic_name@ == tp.topic_name@
                    &&& final(self).batches@.last().0.partition == tp.partition
                },
            },
    {
        let slot = self.queue_slot(tp);
        match slot {
            Some(t) => {
                let ghost before = self.batches@;
                let (key_tp, mut queue) = self.batches.remove(t);
                let ghost q1 = queue@;
                let mut outcome = PushRecordOutcome {
                    accepted: true,
                    batch_full: false,
                    new_batch: false,
                };
                let qlen = queue.len();
                let mut pushed = false;
                if qlen > 0 {
                    let ghost qb = queue@;
                    let (front, mut tail_batch) = split_last(queue);
                    queue = front;
                    pushed = tail_batch.push_record(now, timestamp, clone_opt_bytes(&key), clone_opt_bytes(&value));
                    outcome.batch_full = tail_batch.is_full();
                    queue.push(tail_batch);
                    proof {
                        if pushed {
                            assert(queue@.take(q1.len() - 1) =~= q1.take(q1.len() - 1));
                        } else {
                            assert(queue@ =~= q1);
                        }
                    }
                }
                if !pushed {
                    let mut fresh = ProducerBatch::new(
                        api_version,
                        self.compression,
                        self.batch_size,
                        now,
                    );
                    let ok = fresh.push_record(now, timestamp, key, value);
                    proof {
                        assert(ok);
                    }
                    outcome.batch_full = fresh.is_full();
                    outcome.new_batch = true;
                    let ghost qmid = queue@;
                    queue.push(fresh);
                    proof {
                        assert(queue@.take(qmid.len() as int) =~= qmid);
                        assert(qmid =~= q1);
                    }
                }
                let ghost qdone = queue@;
                self.batches.insert(t, (key_tp, queue));
                proof {
                    assert(self.batches@ =~= before.update(t as int, self.batches@[t as int]));
                    assert(self.batches@[t as int].0 == before[t as int].0);
                    lemma_queue_update(before, self.batches@, t as int, tp.topic_name@, tp.partition);
                }
                outcome
            },
            None => {
                let mut fresh = ProducerBatch::new(
                    api_version,
                    self.compression,
                    self.batch_size,
                    now,
                );
                let ok = fresh.push_record(now, timestamp, key, value);
                proof {
                    assert(ok);
                }
                let batch_full = fresh.is_full();
                let mut queue: Vec<ProducerBatch> = Vec::new();
                queue.push(fresh);
                let ghost n0 = self.batches@.len();
                self.batches.push(
                    (
                        TopicPartition {
                            topic_name: crate::cluster::clone_bytes(&tp.topic_name),
                            partition: tp.partition,
                        },
                        queue,
                    ),
                );
                proof {
                    assert(self.batches@ =~= old(self).batches@.push(self.batches@[n0 as int]));
                    lemma_queue_append(
                        old(self).batches@,
                        self.batches@[n0 as int],
                        tp.topic_name@,
                        tp.partition,
                    );
                }
                PushRecordOutcome { accepted: true, batch_full, new_batch: true }
            },
        }
    }
}

/// Splits the last element off a non-empty vector.
fn split_last(mut v: Vec<ProducerBatch>) -> (r: (Vec<ProducerBatch>, ProducerBatch))
    requires
        v@.len() >= 1,
    ensures
        r.0@ == v@.drop_last(),
        r.1 == v@.last(),
{
    let last = v.pop().unwrap();
    (v, last)
}

/// Copies an optional byte string.
pub fn clone_opt_bytes(v: &Option<Vec<u8>>) -> (r: Option<Vec<u8>>)
    ensures
        opt_bytes_view(r) == opt_bytes_view(*v),
{
    match v {
        None => None,
        Some(b) => Some(crate::cluster::clone_bytes(b)),
    }
}

/// Appending a new slot for a topic-partition not yet queued makes its queue
/// the lookup result.
proof fn lemma_queue_append(
    batches: Seq<(TopicPartition, Vec<ProducerBatch>)>,
    entry: (TopicPartition, Vec<ProducerBatch>),
    name: Seq<u8>,
    partition: i32,
)
    requires
        spec_queue(batches, name, partition) is None,
        entry.0.topic_name@ == name,
        entry.0.partition == partition,
    ensures
        spec_queue(batches.push(entry), name, partition) == Some(entry.1),
    decreases batches.len(),
{
    if batches.len() == 0 {
        assert(batches.push(entry)[0] == entry);
    } else {
        assert(batches.push(entry)[0] == batches[0]);
        assert(batches.push(entry).skip(1) =~= batches.skip(1).push(entry));
        lemma_queue_append(batches.skip(1), entry, name, partition);
    }
}

/// Replacing the queue in the slot a topic-partition resolves to changes
/// only that lookup result.
proof fn lemma_queue_update(
    before: Seq<(TopicPartition, Vec<ProducerBatch>)>,
    after: Seq<(TopicPartition, Vec<ProducerBatch>)>,
    t: int,
    name: Seq<u8>,
    partition: i32,
)
    requires
        0 <= t < before.len(),
        after.len() == before.len(),
        forall|k: int| 0 <= k < before.len() && k != t ==> after[k] == before[k],
        after[t].0 == before[t].0,
        before[t].0.topic_name@ == name,
        before[t].0.partition == partition,
        forall|j: int| 0 <= j < t ==> !((#[trigger] before[j]).0.topic_name@ == name && before[
            j
        ].0.partition == partition),
    ensures
        spec_queue(after, name, partition) == Some(after[t].1),
    decreases t,
{
    if t == 0 {
        assert(after[0].0.topic_name@ == name && after[0].0.partition == partition);
    } else {
        assert(!(before[0].0.topic_name@ == name && before[0].0.partition == partition));
        assert(after[0] == before[0]);
        assert(before.skip(1)[t - 1] == before[t]);
        assert(after.skip(1)[t - 1] == after[t]);
        assert forall|k: int|
            0 <= k < before.skip(1).len() && k != t - 1 implies after.skip(1)[k] == before.skip(
            1,
        )[k] by {
            assert(after[k + 1] == before[k + 1]);
        }
        assert forall|j: int| 0 <= j < t - 1 implies !((#[trigger] before.skip(1)[j]).0.topic_name@
            == name && before.skip(1)[j].0.partition == partition) by {
            assert(before.skip(1)[j] == before[j + 1]);
        }
        lemma_queue_update(before.skip(1), after.skip(1), t - 1, name, partition);
    }
}

/// Whether a batch is due to leave the accumulator: a forced flush takes
/// every batch, otherwise a batch leaves when it is full, when its last
/// append is older than the linger, or when a newer batch stands behind it
/// (a batch is superseded only after it refused a record, which is the
/// builder's report that it cannot fit more).
pub open spec fn spec_batch_ready(
    b: ProducerBatch,
    force: bool,
    now: u64,
    linger: u64,
    is_tail: bool,
) -> bool {
    ||| force
    ||| b.builder.spec_is_full()
    ||| now - b.last_push_time >= linger
    ||| !is_tail
}

fn batch_ready(b: &ProducerBatch, force: bool, now: u64, linger: u64, is_tail: bool) -> (r: bool)
    ensures
        r == spec_batch_ready(*b, force, now, linger, is_tail),
{
    if force {
        true
    } else if b.is_full() {
        true
    } else if now >= b.last_push_time && now - b.last_push_time >= linger {
        true
    } else {
        !is_tail
    }
}

/// How many batches an accumulator holds over all queues.
pub open spec fn total_batches(s: Seq<(TopicPartition, Vec<ProducerBatch>)>) -> int
    decreases s.len(),
{
    if s.len() == 0 {
        0int
    } else {
        s[0].1@.len() + total_batches(s.skip(1))
    }
}

proof fn lemma_total_batches_update(
    before: Seq<(TopicPartition, Vec<ProducerBatch>)>,
    after: Seq<(TopicPartition, Vec<ProducerBatch>)>,
    t: int,
)
    requires
        0 <= t < before.len(),
        after.len() == before.len(),
        forall|k: int| 0 <= k < before.len() && k != t ==> after[k] == before[k],
    ensures
        total_batches(after) == total_batches(before) - before[t].1@.len() + after[t].1@.len(),
    decreases t,
{
    if t == 0 {
        assert(after.skip(1) =~= before.skip(1));
    } else {
        assert(after[0] == before[0]);
        assert(before.skip(1)[t - 1] == before[t]);
        assert(after.skip(1)[t - 1] == after[t]);
        assert forall|k: int|
            0 <= k < before.skip(1).len() && k != t - 1 implies after.skip(1)[k] == before.skip(
            1,
        )[k] by {
            assert(after[k + 1] == before[k + 1]);
        }
        lemma_total_batches_update(before.skip(1), after.skip(1), t - 1);
    }
}

/// How many batches the first `k` slots lost between two tables.
pub open spec fn drained_before(
    old_bs: Seq<(TopicPartition, Vec<ProducerBatch>)>,
    new_bs: Seq<(TopicPartition, Vec<ProducerBatch>)>,
    k: int,
) -> int
    decreases k,
{
    if k <= 0 {
        0int
    } else {
        drained_before(old_bs, new_bs, k - 1) + old_bs[k - 1].1@.len() - new_bs[k - 1].1@.len()
    }
}

/// The drained list's entry for the `j`-th batch lost by slot `k`: it sits
/// after the losses of the earlier slots, under the slot's topic-partition,
/// and is that very batch.
pub open spec fn drained_entry_matches(
    old_bs: Seq<(TopicPartition, Vec<ProducerBatch>)>,
    new_bs: Seq<(TopicPartition, Vec<ProducerBatch>)>,
    out: Seq<(TopicPartition, ProducerBatch)>,
    k: int,
    j: int,
) -> bool {
    let base = drained_before(old_bs, new_bs, k);
    &&& 0 <= base + j
    &&& base + j < out.len()
    &&& out[base + j].0.topic_name@ == old_bs[k].0.topic_name@
    &&& out[base + j].0.partition == old_bs[k].0.partition
    &&& out[base + j].1 == old_bs[k].1@[j]
}

/// Slots at or beyond `k` do not affect the prefix count.
proof fn lemma_drained_before_agree(
    old_bs: Seq<(TopicPartition, Vec<ProducerBatch>)>,
    a: Seq<(TopicPartition, Vec<ProducerBatch>)>,
    b: Seq<(TopicPartition, Vec<ProducerBatch>)>,
    k: int,
)
    requires
        forall|j: int| 0 <= j < k ==> (#[trigger] a[j]).1@.len() == b[j].1@.len(),
    ensures
        drained_before(old_bs, a, k) == drained_before(old_bs, b, k),
    decreases k,
{
    if k > 0 {
        lemma_drained_before_agree(old_bs, a, b, k - 1);
    }
}

/// While no queue grows, the prefix count never decreases with the prefix.
proof fn lemma_drained_before_mono(
    old_bs: Seq<(TopicPartition, Vec<ProducerBatch>)>,
    new_bs: Seq<(TopicPartition, Vec<ProducerBatch>)>,
    k: int,
    t: int,
)
    requires
        0 <= k <= t,
        forall|j: int| 0 <= j < t ==> (#[trigger] new_bs[j]).1@.len() <= old_bs[j].1@.len(),
    ensures
        drained_before(old_bs, new_bs, k) <= drained_before(old_bs, new_bs, t),
    decreases t,
{
    if k < t {
        lemma_drained_before_mono(old_bs, new_bs, k, t - 1);
    }
}

/// Pops the batches due to leave off the front of one queue, appending each
/// to the drained list under the queue's topic-partition.
fn drain_queue(
    queue: &mut Vec<ProducerBatch>,
    force: bool,
    now: u64,
    linger: u64,
    tp: &TopicPartition,
    out: &mut Vec<(TopicPartition, ProducerBatch)>,
)
    ensures
        final(queue)@.len() <= old(queue)@.len(),
        final(queue)@ == old(queue)@.skip(old(queue)@.len() - final(queue)@.len()),
        final(out)@.len() == old(out)@.len() + old(queue)@.len() - final(queue)@.len(),
        final(out)@.take(old(out)@.len() as int) == old(out)@,
        forall|i: int|
            old(out)@.len() <= i < final(out)@.len() ==> {
                &&& (#[trigger] final(out)@[i]).0.topic_name@ == tp.topic_name@
                &&& final(out)@[i].0.partition == tp.partition
                &&& final(out)@[i].1 == old(queue)@[i - old(out)@.len()]
            },
        force ==> final(queue)@.len() == 0,
        !force ==> {
            &&& final(queue)@.len() <= 1
            &&& (final(queue)@.len() == 1 ==> {
                &&& !final(queue)@[0].builder.spec_is_full()
                &&& now - final(queue)@[0].last_push_time < linger
            })
        },
        !force ==> (if old(queue)@.len() > 0 && !old(queue)@.last().builder.spec_is_full() && now
            - old(queue)@.last().last_push_time < linger {
            &&& final(queue)@.len() == 1
            &&& final(queue)@[0] == old(queue)@.last()
        } else {
            final(queue)@.len() == 0
        }),
{
    let ghost q0 = queue@;
    let ghost o0 = out@;
    loop
        invariant_except_break
            (queue@.len() == 0 && q0.len() > 0) ==> spec_batch_ready(
                q0.last(),
                force,
                now,
                linger,
                true,
            ),
            queue@.len() <= q0.len(),
            out@.len() - o0.len() == q0.len() - queue@.len(),
            queue@ == q0.skip(q0.len() - queue@.len()),
            out@.take(o0.len() as int) == o0,
            forall|i: int|
                o0.len() <= i < out@.len() ==> {
                    &&& (#[trigger] out@[i]).0.topic_name@ == tp.topic_name@
                    &&& out@[i].0.partition == tp.partition
                    &&& out@[i].1 == q0[i - o0.len()]
                },
        ensures
            (queue@.len() == 0 && q0.len() > 0) ==> spec_batch_ready(
                q0.last(),
                force,
                now,
                linger,
                true,
            ),
            queue@.len() <= q0.len(),
            out@.len() - o0.len() == q0.len() - queue@.len(),
            queue@ == q0.skip(q0.len() - queue@.len()),
            out@.take(o0.len() as int) == o0,
            forall|i: int|
                o0.len() <= i < out@.len() ==> {
                    &&& (#[trigger] out@[i]).0.topic_name@ == tp.topic_name@
                    &&& out@[i].0.partition == tp.partition
                    &&& out@[i].1 == q0[i - o0.len()]
                },
            queue@.len() > 0 ==> !spec_batch_ready(
                queue@[0],
                force,
                now,
                linger,
                queue@.len() == 1,
            ),
        decreases queue@.len(),
    {
        let qlen = queue.len();
        if qlen == 0 {
            break;
        }
        let ready = batch_ready(&queue[0], force, now, linger, qlen == 1);
        if !ready {
            break;
        }
        let ghost qcur = queue@;
        let ghost ocur = out@;
        let batch = queue.remove(0);
        out.push(
            (
                TopicPartition {
                    topic_name: crate::cluster::clone_bytes(&tp.topic_name),
                    partition: tp.partition,
                },
                batch,
            ),
        );
        proof {
            assert(queue@ =~= qcur.skip(1));
            assert(queue@ =~= q0.skip(q0.len() - queue@.len()));
            assert(out@.take(o0.len() as int) =~= o0);
            assert(qcur[0] == q0[ocur.len() - o0.len()]);
            if queue@.len() == 0 {
                assert(qcur[0] == q0.last());
            }
        }
    }
    proof {
        let d = q0.len() - queue@.len();
        assert(0 <= d <= q0.len());
        assert(queue@ == q0.skip(d));
        if queue@.len() > 0 {
            assert(!spec_batch_ready(queue@[0], force, now, linger, queue@.len() == 1));
        }
        if !force && queue@.len() == 1 {
            assert(queue@[0] == q0.last());
        }
    }
}

impl RecordAccumulator {
    /// Drains every batch that is due to leave, per partition from the
    /// oldest batch forward. A forced drain empties every queue; otherwise
    /// at most the open tail batch stays behind, and only while it is
    /// neither full nor past its linger. No batch is lost: the drained list
    /// and the remaining queues together hold every batch.
    #[verifier::rlimit(100)]
    #[verifier::spinoff_prover]
    pub fn drain(&mut self, force: bool, now: u64) -> (out: Vec<(TopicPartition, ProducerBatch)>)
        ensures
            final(self).batch_size == old(self).batch_size,
            final(self).compression == old(self).compression,
            final(self).linger == old(self).linger,
            final(self).retry_backoff == old(self).retry_backoff,
            final(self).batches@.len() == old(self).batches@.len(),
            forall|k: int| 0 <= k < final(self).batches@.len()
                ==> (#[trigger] final(self).batches@[k]).0 == old(self).batches@[k].0,
            forall|k: int| 0 <= k < final(self).batches@.len() ==> {
                &&& (#[trigger] final(self).batches@[k]).1@.len() <= old(self).batches@[k].1@.len()
                &&& final(self).batches@[k].1@ == old(self).batches@[k].1@.skip(
                    old(self).batches@[k].1@.len() - final(self).batches@[k].1@.len(),
                )
            },
            out@.len() + total_batches(final(self).batches@) == total_batches(old(self).batches@),
            out@.len() == drained_before(
                old(self).batches@,
                final(self).batches@,
                old(self).batches@.len() as int,
            ),
            forall|k: int, j: int|
                0 <= k < final(self).batches@.len() && 0 <= j < old(self).batches@[k].1@.len()
                    - final(self).batches@[k].1@.len() ==> #[trigger] drained_entry_matches(
                    old(self).batches@,
                    final(self).batches@,
                    out@,
                    k,
                    j,
                ),
            force ==> forall|k: int| 0 <= k < final(self).batches@.len()
                ==> (#[trigger] final(self).batches@[k]).1@.len() == 0,
            !force ==> forall|k: int|
                0 <= k < final(self).batches@.len() ==> {
                    &&& (#[trigger] final(self).batches@[k]).1@.len() <= 1
                    &&& (final(self).batches@[k].1@.len() == 1 ==> {
                        &&& !final(self).batches@[k].1@[0].builder.spec_is_full()
                        &&& now - final(self).batches@[k].1@[0].last_push_time < old(self).linger
                    })
                },
            !force ==> forall|k: int|
                0 <= k < final(self).batches@.len() ==> (if old(self).batches@[k].1@.len() > 0
                    && !old(self).batches@[k].1@.last().builder.spec_is_full() && now - old(
                    self,
                ).batches@[k].1@.last().last_push_time < old(self).linger {
                    &&& (#[trigger] final(self).batches@[k]).1@.len() == 1
                    &&& final(self).batches@[k].1@[0] == old(self).batches@[k].1@.last()
                } else {
                    final(self).batches@[k].1@.len() == 0
                }),
    {
        let linger = self.linger;
        let mut out: Vec<(TopicPartition, ProducerBatch)> = Vec::new();
        let n = self.batches.len();
        let mut t: usize = 0;
        while t < n
            invariant
                t <= n,
                n == self.batches@.len(),
                n == old(self).batches@.len(),
                linger == old(self).linger,
                self.batch_size == old(self).batch_size,
                self.compression == old(self).compression,
                self.linger == old(self).linger,
                self.retry_backoff == old(self).retry_backoff,
                forall|k: int| 0 <= k < n as int
                    ==> (#[trigger] self.batches@[k]).0 == old(self).batches@[k].0,
                forall|k: int| t as int <= k < n as int
                    ==> (#[trigger] self.batches@[k]).1 == old(self).batches@[k].1,
                forall|k: int| 0 <= k < t as int ==> {
                    &&& (#[trigger] self.batches@[k]).1@.len() <= old(self).batches@[k].1@.len()
                    &&& self.batches@[k].1@ == old(self).batches@[k].1@.skip(
                        old(self).batches@[k].1@.len() - self.batches@[k].1@.len(),
                    )
                },
                out@.len() + total_batches(self.batches@) == total_batches(old(self).batches@),
                out@.len() == drained_before(old(self).batches@, self.batches@, t as int),
                forall|k: int, j: int|
                    0 <= k < t as int && 0 <= j < old(self).batches@[k].1@.len()
                        - self.batches@[k].1@.len() ==> #[trigger] drained_entry_matches(
                        old(self).batches@,
                        self.batches@,
                        out@,
                        k,
                        j,
                    ),
                force ==> forall|k: int| 0 <= k < t as int ==> (#[trigger] self.batches@[
                    k
                ]).1@.len() == 0,
                !force ==> forall|k: int|
                    0 <= k < t as int ==> {
                        &&& (#[trigger] self.batches@[k]).1@.len() <= 1
                        &&& (self.batches@[k].1@.len() == 1 ==> {
                            &&& !self.batches@[k].1@[0].builder.spec_is_full()
                            &&& now - self.batches@[k].1@[0].last_push_time < old(self).linger
                        })
                    },
                !force ==> forall|k: int|
                    0 <= k < t as int ==> (if old(self).batches@[k].1@.len() > 0 && !old(
                        self,
                    ).batches@[k].1@.last().builder.spec_is_full() && now - old(
                        self,
                    ).batches@[k].1@.last().last_push_time < old(self).linger {
                        &&& (#[trigger] self.batches@[k]).1@.len() == 1
                        &&& self.batches@[k].1@[0] == old(self).batches@[k].1@.last()
                    } else {
                        self.batches@[k].1@.len() == 0
                    }),
            decreases n - t,
        {
            let ghost before = self.batches@;
            let ghost oprev = out@;
            let (key_tp, mut queue) = self.batches.remove(t);
            let ghost key_tp_name = key_tp.topic_name@;
            let ghost key_tp_partition = key_tp.partition;
            let ghost qold = queue@;
            drain_queue(&mut queue, force, now, linger, &key_tp, &mut out);
            let ghost qnew = queue@;
            self.batches.insert(t, (key_tp, queue));
            proof {
                assert(self.batches@ =~= before.update(t as int, self.batches@[t as int]));
                lemma_total_batches_update(before, self.batches@, t as int);
                assert(qold == old(self).batches@[t as int].1@);
                assert(self.batches@[t as int].1@ == old(self).batches@[t as int].1@.skip(
                    old(self).batches@[t as int].1@.len() - self.batches@[t as int].1@.len(),
                ));
                lemma_drained_before_agree(old(self).batches@, before, self.batches@, t as int);
                assert(oprev.len() == drained_before(old(self).batches@, self.batches@, t as int));
                assert(out@.len() == drained_before(
                    old(self).batches@,
                    self.batches@,
                    t + 1,
                ));
                assert forall|jj: int| 0 <= jj < t + 1 implies (#[trigger] self.batches@[
                    jj
                ]).1@.len() <= old(self).batches@[jj].1@.len() by {
                    if jj < t as int {
                        assert(self.batches@[jj] == before[jj]);
                    }
                }
                assert forall|k: int, j: int|
                    0 <= k < t + 1 && 0 <= j < old(self).batches@[k].1@.len()
                        - self.batches@[k].1@.len() implies #[trigger] drained_entry_matches(
                    old(self).batches@,
                    self.batches@,
                    out@,
                    k,
                    j,
                ) by {
                    lemma_drained_before_agree(old(self).batches@, before, self.batches@, k);
                    let base = drained_before(old(self).batches@, self.batches@, k);
                    assert(0 <= base) by {
                        lemma_drained_before_mono(old(self).batches@, self.batches@, 0, k);
                    }
                    if k < t as int {
                        assert(self.batches@[k] == before[k]);
                        assert(drained_entry_matches(
                            old(self).batches@,
                            before,
                            oprev,
                            k,
                            j,
                        ));
                        assert(base + j < drained_before(
                            old(self).batches@,
                            self.batches@,
                            k + 1,
                        ));
                        lemma_drained_before_mono(
                            old(self).batches@,
                            self.batches@,
                            k + 1,
                            t as int,
                        );
                        assert(base + j < oprev.len());
                        assert(out@.take(oprev.len() as int) == oprev);
                        assert(out@.take(oprev.len() as int)[base + j] == out@[base + j]);
                        assert(out@[base + j] == oprev[base + j]);
                    } else {
                        assert(base == oprev.len());
                        assert(qold.len() - qnew.len() == old(self).batches@[t as int].1@.len()
                            - self.batches@[t as int].1@.len());
                        assert(out@[base + j].1 == qold[j]);
                        assert(key_tp_name == old(self).batches@[t as int].0.topic_name@);
                        assert(out@[base + j].0.topic_name@ == key_tp_name);
                    }
                }
            }
            t = t + 1;
        }
        out
    }
}

} // verus!
