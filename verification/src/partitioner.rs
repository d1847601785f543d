//! The default partitioning strategy: an explicit partition wins, a keyed
//! record is placed by a hash of its key, and an unkeyed record goes round
//! robin over the topic's partitions.
use vstd::prelude::*;

use crate::cluster::PartitionId;
use crate::metadata::{spec_find_topic, Metadata};

verus! {

/// The 64-bit hash the keyed strategy places records by: a function of the
/// hashed bytes alone, in every process and on every machine.
pub uninterp spec fn xxhash64_of(s: Seq<u8>) -> u64;

/// Relies on twox-hash's `XxHash64::oneshot` with seed zero: the digest
/// depends on the input bytes alone.
#[verifier::external_body]
fn xxhash64(data: &[u8]) -> (r: u64)
    ensures
        r == xxhash64_of(data@),
{
    twox_hash::XxHash64::oneshot(0, data)
}

/// The byte run the key hash covers: the key followed by a terminator, as a
/// borrowed string key feeds a hasher.
pub open spec fn spec_key_hash_input(key: Seq<u8>) -> Seq<u8> {
    key.push(0xff)
}

/// The next value of a wrapping 64-bit counter.
pub open spec fn spec_wrap_inc64(x: u64) -> u64 {
    if x == u64::MAX {
        0
    } else {
        (x + 1) as u64
    }
}

/// The default partitioner. It carries only the round-robin counter.
pub struct DefaultPartitioner {
    pub records: u64,
}

/// The partition the default strategy picks, given the record's explicit
/// partition, its key, the topic's partition table, and the round-robin
/// counter.
pub open spec fn spec_partition_choice(
    m: Metadata,
    topic_name: Seq<u8>,
    partition: Option<PartitionId>,
    key: Option<Seq<u8>>,
    counter: u64,
) -> Option<PartitionId> {
    if partition_settled(partition) {
        partition
    } else {
        match spec_find_topic(m.topics@, topic_name) {
            Option::None => Option::None,
            Option::Some(parts) => {
                if parts@.len() == 0 {
                    Option::None
                } else {
                    let idx: int = match key {
                        Option::Some(k) => xxhash64_of(spec_key_hash_input(k)) as int
                            % parts@.len() as int,
                        Option::None => counter as int % parts@.len() as int,
                    };
                    Option::Some(parts@[idx].partition)
                }
            },
        }
    }
}

impl DefaultPartitioner {
    pub fn new() -> (r: Self)
        ensures
            r.records == 0,
    {
        DefaultPartitioner { records: 0 }
    }

    /// How many unkeyed records went round robin so far.
    pub fn records(&self) -> (r: u64)
        ensures
            r == self.records,
    {
        self.records
    }

    /// Picks the partition for one record. An explicit non-negative
    /// partition wins; a keyed record is placed by the hash of its key; an
    /// unkeyed one advances the round-robin counter. A topic the snapshot
    /// does not know, or one without partitions, yields nothing and the
    /// caller falls back to partition zero.
    pub fn partition(
        &mut self,
        topic_name: &Vec<u8>,
        partition: Option<PartitionId>,
        key: Option<&Vec<u8>>,
        _value: Option<&Vec<u8>>,
        metadata: &Metadata,
    ) -> (r: Option<PartitionId>)
        ensures
            r == spec_partition_choice(
                *metadata,
                topic_name@,
                partition,
                match key {
                    Option::None => Option::<Seq<u8>>::None,
                    Option::Some(k) => Option::Some(k@),
                },
                old(self).records,
            ),
            final(self).records == (if partition_settled(partition) || !spec_topic_usable(
                *metadata,
                topic_name@,
            ) || key is Some {
                old(self).records
            } else {
                spec_wrap_inc64(old(self).records)
            }),
    {
        if let Some(p) = partition {
            if p >= 0 {
                return Some(p);
            }
        }
        let ghost kview: Option<Seq<u8>> = match key {
            Option::None => Option::None,
            Option::Some(k) => Option::Some(k@),
        };
        match metadata.partition_count(topic_name) {
            None => {
                proof {
                    assert(!partition_settled(partition));
                    assert(spec_find_topic(metadata.topics@, topic_name@) is None);
                    assert(spec_partition_choice(
                        *metadata,
                        topic_name@,
                        partition,
                        kview,
                        old(self).records,
                    ) is None);
                }
                None
            },
            Some(n) => {
                if n == 0 {
                    proof {
                        assert(!partition_settled(partition));
                        assert(spec_partition_choice(
                            *metadata,
                            topic_name@,
                            partition,
                            kview,
                            old(self).records,
                        ) is None);
                    }
                    return None;
                }
                let idx: usize = match key {
                    Some(k) => {
                        let mut hashed: Vec<u8> = crate::cluster::clone_bytes(k);
                        hashed.push(0xff);
                        proof {
                            assert(hashed@ =~= spec_key_hash_input(k@));
                        }
                        let h = xxhash64(hashed.as_slice());
                        (h % (n as u64)) as usize
                    },
                    None => {
                        let c = self.records;
                        self.records = if c == u64::MAX {
                            0
                        } else {
                            c + 1
                        };
                        (c % (n as u64)) as usize
                    },
                };
                Some(metadata.partition_id_at(topic_name, idx))
            },
        }
    }
}

/// An explicit non-negative partition settles the choice.
pub open spec fn partition_settled(partition: Option<PartitionId>) -> bool {
    match partition {
        Option::Some(p) => p >= 0,
        Option::None => false,
    }
}

/// The snapshot knows the topic and it has at least one partition.
pub open spec fn spec_topic_usable(m: Metadata, topic_name: Seq<u8>) -> bool {
    match spec_find_topic(m.topics@, topic_name) {
        Option::None => false,
        Option::Some(parts) => parts@.len() > 0,
    }
}

} // verus!
