//! The records a caller hands to the producer, and the metadata handed back
//! once a record is acknowledged.
use vstd::prelude::*;

use crate::cluster::PartitionId;

verus! {

/// A key/value pair to be sent: the topic, an optional partition, and the
/// optional key, value and timestamp.
#[derive(Clone, Debug)]
pub struct ProducerRecord<K, V> {
    pub topic_name: Vec<u8>,
    pub partition: Option<PartitionId>,
    pub key: Option<K>,
    pub value: Option<V>,
    pub timestamp: Option<i64>,
}

impl<K> ProducerRecord<K, ()> {
    pub fn from_key(topic_name: Vec<u8>, key: K) -> (r: Self)
        ensures
            r.topic_name == topic_name,
            r.partition is None,
            r.key == Some(key),
            r.value is None,
            r.timestamp is None,
    {
        ProducerRecord { topic_name, partition: None, key: Some(key), value: None, timestamp: None }
    }
}

impl<V> ProducerRecord<(), V> {
    pub fn from_value(topic_name: Vec<u8>, value: V) -> (r: Self)
        ensures
            r.topic_name == topic_name,
            r.partition is None,
            r.key is None,
            r.value == Some(value),
            r.timestamp is None,
    {
        ProducerRecord { topic_name, partition: None, key: None, value: Some(value), timestamp: None }
    }
}

impl<K, V> ProducerRecord<K, V> {
    pub fn from_key_value(topic_name: Vec<u8>, key: K, value: V) -> (r: Self)
        ensures
            r.topic_name == topic_name,
            r.partition is None,
            r.key == Some(key),
            r.value == Some(value),
            r.timestamp is None,
    {
        ProducerRecord {
            topic_name,
            partition: None,
            key: Some(key),
            value: Some(value),
            timestamp: None,
        }
    }

    pub fn from_topic_record(topic_name: Vec<u8>, record: TopicRecord<K, V>) -> (r: Self)
        ensures
            r.topic_name == topic_name,
            r.partition == record.partition,
            r.key == record.key,
            r.value == record.value,
            r.timestamp == record.timestamp,
    {
        ProducerRecord {
            topic_name,
            partition: record.partition,
            key: record.key,
            value: record.value,
            timestamp: record.timestamp,
        }
    }

    pub fn from_partition_record(
        topic_name: Vec<u8>,
        partition_id: PartitionId,
        record: PartitionRecord<K, V>,
    ) -> (r: Self)
        ensures
            r.topic_name == topic_name,
            r.partition == Some(partition_id),
            r.key == record.key,
            r.value == record.value,
            r.timestamp == record.timestamp,
    {
        ProducerRecord {
            topic_name,
            partition: Some(partition_id),
            key: record.key,
            value: record.value,
            timestamp: record.timestamp,
        }
    }

    pub fn with_partition(self, partition: PartitionId) -> (r: Self)
        ensures
            r.topic_name == self.topic_name,
            r.partition == Some(partition),
            r.key == self.key,
            r.value == self.value,
            r.timestamp == self.timestamp,
    {
        ProducerRecord { partition: Some(partition), ..self }
    }

    pub fn with_timestamp(self, timestamp: i64) -> (r: Self)
        ensures
            r.topic_name == self.topic_name,
            r.partition == self.partition,
            r.key == self.key,
            r.value == self.value,
            r.timestamp == Some(timestamp),
    {
        ProducerRecord { timestamp: Some(timestamp), ..self }
    }
}

/// A record addressed to a known topic.
pub struct TopicRecord<K, V> {
    pub partition: Option<PartitionId>,
    pub key: Option<K>,
    pub value: Option<V>,
    pub timestamp: Option<i64>,
}

impl<K> TopicRecord<K, ()> {
    pub fn from_key(key: K) -> (r: Self)
        ensures
            r.partition is None,
            r.key == Some(key),
            r.value is None,
            r.timestamp is None,
    {
        TopicRecord { partition: None, key: Some(key), value: None, timestamp: None }
    }
}

impl<V> TopicRecord<(), V> {
    pub fn from_value(value: V) -> (r: Self)
        ensures
            r.partition is None,
            r.key is None,
            r.value == Some(value),
            r.timestamp is None,
    {
        TopicRecord { partition: None, key: None, value: Some(value), timestamp: None }
    }
}

impl<K, V> TopicRecord<K, V> {
    pub fn from_key_value(key: K, value: V) -> (r: Self)
        ensures
            r.partition is None,
            r.key == Some(key),
            r.value == Some(value),
            r.timestamp is None,
    {
        TopicRecord { partition: None, key: Some(key), value: Some(value), timestamp: None }
    }

    pub fn with_partition(self, partition: PartitionId) -> (r: Self)
        ensures
            r.partition == Some(partition),
            r.key == self.key,
            r.value == self.value,
            r.timestamp == self.timestamp,
    {
        TopicRecord { partition: Some(partition), ..self }
    }

    pub fn with_timestamp(self, timestamp: i64) -> (r: Self)
        ensures
            r.partition == self.partition,
            r.key == self.key,
            r.value == self.value,
            r.timestamp == Some(timestamp),
    {
        TopicRecord { timestamp: Some(timestamp), ..self }
    }
}

/// A record addressed to a known topic-partition.
pub struct PartitionRecord<K, V> {
    pub key: Option<K>,
    pub value: Option<V>,
    pub timestamp: Option<i64>,
}

impl<K> PartitionRecord<K, ()> {
    pub fn from_key(key: K) -> (r: Self)
        ensures
            r.key == Some(key),
            r.value is None,
            r.timestamp is None,
    {
        PartitionRecord { key: Some(key), value: None, timestamp: None }
    }
}

impl<V> PartitionRecord<(), V> {
    pub fn from_value(value: V) -> (r: Self)
        ensures
            r.key is None,
            r.value == Some(value),
            r.timestamp is None,
    {
        PartitionRecord { key: None, value: Some(value), timestamp: None }
    }
}

impl<K, V> PartitionRecord<K, V> {
    pub fn from_key_value(key: K, value: V) -> (r: Self)
        ensures
            r.key == Some(key),
            r.value == Some(value),
            r.timestamp is None,
    {
        PartitionRecord { key: Some(key), value: Some(value), timestamp: None }
    }

    pub fn with_timestamp(self, timestamp: i64) -> (r: Self)
        ensures
            r.key == self.key,
            r.value == self.value,
            r.timestamp == Some(timestamp),
    {
        PartitionRecord { timestamp: Some(timestamp), ..self }
    }
}

/// What the broker acknowledged for one record: where it landed and how big
/// its serialized key and value were.
#[derive(Clone, Debug, PartialEq)]
pub struct RecordMetadata {
    pub topic_name: Vec<u8>,
    pub partition: PartitionId,
    pub offset: i64,
    pub timestamp: i64,
    pub serialized_key_size: usize,
    pub serialized_value_size: usize,
}

impl Default for RecordMetadata {
    /// A placeholder for a record not yet acknowledged.
    fn default() -> (r: Self)
        ensures
            r.topic_name@.len() == 0,
            r.partition == 0,
            r.offset == 0,
            r.timestamp == 0,
            r.serialized_key_size == 0,
            r.serialized_value_size == 0,
    {
        RecordMetadata {
            topic_name: Vec::new(),
            partition: 0,
            offset: 0,
            timestamp: 0,
            serialized_key_size: 0,
            serialized_value_size: 0,
        }
    }
}

} // verus!
