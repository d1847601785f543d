//! The cluster metadata snapshot: brokers, topics, partition leadership, and
//! the api-version windows each broker supports. A snapshot is a value; the
//! metadata manager replaces it wholesale and never mutates it in place.
use vstd::prelude::*;

use crate::api_versions_msg::ApiVersionRange;
use crate::header::ApiKeys;

verus! {

/// The node id a broker advertises.
pub type NodeId = i32;

/// A partition number within a topic.
pub type PartitionId = i32;

/// The version of an api a broker speaks.
pub type ApiVersion = i16;

/// The node index a `BrokerRef` holds.
pub type BrokerIndex = i32;

/// The index that marks a reference to no known broker.
pub const UNKNOWN_BROKER_INDEX: BrokerIndex = 2147483647;

/// A cheap reference to a broker of the snapshot: its node id.
#[derive(Debug, Copy, Clone, PartialEq, Eq, Hash, Structural)]
pub struct BrokerRef(pub BrokerIndex);

impl BrokerRef {
    pub fn new(index: BrokerIndex) -> (r: Self)
        ensures
            r.0 == index,
    {
        BrokerRef(index)
    }

    pub fn index(&self) -> (r: BrokerIndex)
        ensures
            r == self.0,
    {
        self.0
    }

    pub fn set(&mut self, other: BrokerRef)
        ensures
            final(self).0 == other.0,
    {
        if self.0 != other.0 {
            self.0 = other.0;
        }
    }

    pub fn set_unknown(&mut self)
        ensures
            final(self).0 == UNKNOWN_BROKER_INDEX,
    {
        self.set(BrokerRef::new(UNKNOWN_BROKER_INDEX));
    }
}

/// One topic-partition pair. Two values are the pair exactly when both
/// fields agree.
#[derive(Clone, Debug, PartialEq, Eq, Hash)]
pub struct TopicPartition {
    pub topic_name: Vec<u8>,
    pub partition: PartitionId,
}

/// The version windows a broker supports, one per api key, intersected with
/// what this client itself can speak.
#[derive(Clone, Debug, PartialEq)]
pub struct UsableApiVersions {
    pub ranges: Vec<ApiVersionRange>,
}

/// The highest version of an api this client can put on the wire.
pub open spec fn spec_supported_max(key: ApiKeys) -> i16 {
    match key {
        ApiKeys::Produce => 2,
        ApiKeys::Fetch => 0,
        ApiKeys::ListOffsets => 1,
        ApiKeys::Metadata => 0,
        ApiKeys::ApiVersions => 0,
    }
}

pub fn supported_max(key: ApiKeys) -> (r: i16)
    ensures
        r == spec_supported_max(key),
{
    match key {
        ApiKeys::Produce => 2,
        ApiKeys::Fetch => 0,
        ApiKeys::ListOffsets => 1,
        ApiKeys::Metadata => 0,
        ApiKeys::ApiVersions => 0,
    }
}

/// The first range in the run that speaks for the given api key code.
pub open spec fn spec_find_range(ranges: Seq<ApiVersionRange>, code: i16) -> Option<
    ApiVersionRange,
>
    decreases ranges.len(),
{
    if ranges.len() == 0 {
        None
    } else if ranges[0].api_key == code {
        Some(ranges[0])
    } else {
        spec_find_range(ranges.skip(1), code)
    }
}

impl UsableApiVersions {
    pub fn new(ranges: Vec<ApiVersionRange>) -> (r: Self)
        ensures
            r.ranges == ranges,
    {
        UsableApiVersions { ranges }
    }

    /// The window this set holds for an api key.
    pub fn find(&self, key: ApiKeys) -> (r: Option<ApiVersionRange>)
        ensures
            r == spec_find_range(self.ranges@, key.spec_code()),
    {
        let code = key.code();
        let n = self.ranges.len();
        let mut i: usize = 0;
        proof {
            assert(self.ranges@.skip(0int) =~= self.ranges@);
        }
        while i < n
            invariant
                i <= n,
                n == self.ranges@.len(),
                code == key.spec_code(),
                spec_find_range(self.ranges@, code) == spec_find_range(
                    self.ranges@.skip(i as int),
                    code,
                ),
            decreases n - i,
        {
            let candidate = self.ranges[i];
            proof {
                assert(self.ranges@.skip(i as int)[0] == self.ranges@[i as int]);
                assert(self.ranges@.skip(i as int).skip(1) =~= self.ranges@.skip(i + 1));
            }
            if candidate.api_key == code {
                return Some(candidate);
            }
            i = i + 1;
        }
        proof {
            assert(self.ranges@.skip(n as int).len() == 0);
        }
        None
    }
}

/// One broker of the snapshot.
#[derive(Debug)]
pub struct Broker {
    pub node_id: NodeId,
    pub host: Vec<u8>,
    pub port: u16,
    pub api_versions: Option<UsableApiVersions>,
}

impl Broker {
    pub fn new(id: NodeId, host: Vec<u8>, port: u16) -> (r: Self)
        ensures
            r.node_id == id,
            r.host == host,
            r.port == port,
            r.api_versions is None,
    {
        Broker { node_id: id, host, port, api_versions: None }
    }

    /// The node id this broker is known by in the cluster.
    pub fn id(&self) -> (r: NodeId)
        ensures
            r == self.node_id,
    {
        self.node_id
    }

    pub open spec fn spec_id(self) -> NodeId {
        self.node_id
    }

    pub fn as_ref(&self) -> (r: BrokerRef)
        ensures
            r.0 == self.node_id,
    {
        BrokerRef::new(self.node_id)
    }

    pub fn host(&self) -> (r: &Vec<u8>)
        ensures
            r == self.host,
    {
        &self.host
    }

    pub fn port(&self) -> (r: u16)
        ensures
            r == self.port,
    {
        self.port
    }

    /// The host and port to dial this broker at.
    pub fn addr(&self) -> (r: (&Vec<u8>, u16))
        ensures
            r.0 == self.host,
            r.1 == self.port,
    {
        (&self.host, self.port)
    }

    pub fn api_versions(&self) -> (r: &Option<UsableApiVersions>)
        ensures
            r == self.api_versions,
    {
        &self.api_versions
    }

    pub open spec fn spec_api_versions(self) -> Option<UsableApiVersions> {
        self.api_versions
    }

    /// The effective version of an api on this broker: the top of the
    /// broker's window, clipped to what this client can speak. An absent
    /// window yields nothing; callers fall back to version zero.
    pub fn api_version(&self, key: ApiKeys) -> (r: Option<ApiVersion>)
        ensures
            r == spec_broker_api_version(*self, key),
    {
        match &self.api_versions {
            None => None,
            Some(versions) => match versions.find(key) {
                None => None,
                Some(range) => {
                    let cap = supported_max(key);
                    if range.max_version <= cap {
                        Some(range.max_version)
                    } else {
                        Some(cap)
                    }
                },
            },
        }
    }

    /// The same broker carrying the given version windows.
    pub fn with_api_versions(&self, api_versions: Option<UsableApiVersions>) -> (r: Self)
        ensures
            r.node_id == self.node_id,
            r.host@ == self.host@,
            r.port == self.port,
            r.api_versions == api_versions,
    {
        Broker {
            node_id: self.node_id,
            host: clone_bytes(&self.host),
            port: self.port,
            api_versions,
        }
    }
}

/// The effective version of an api on a broker.
pub open spec fn spec_broker_api_version(b: Broker, key: ApiKeys) -> Option<ApiVersion> {
    match b.spec_api_versions() {
        Option::None => Option::None,
        Option::Some(versions) => match spec_find_range(versions.ranges@, key.spec_code()) {
            Option::None => Option::None,
            Option::Some(range) => {
                let cap = spec_supported_max(key);
                if range.max_version <= cap {
                    Option::Some(range.max_version)
                } else {
                    Option::Some(cap)
                }
            },
        },
    }
}

/// Copies a byte vector.
pub fn clone_bytes(v: &Vec<u8>) -> (r: Vec<u8>)
    ensures
        r@ == v@,
{
    let mut out: Vec<u8> = Vec::new();
    let mut i: usize = 0;
    while i < v.len()
        invariant
            i <= v@.len(),
            out@ == v@.take(i as int),
        decreases v@.len() - i,
    {
        out.push(v[i]);
        assert(v@.take(i + 1) =~= v@.take(i as int).push(v@[i as int]));
        i = i + 1;
    }
    assert(v@.take(v@.len() as int) =~= v@);
    out
}

/// Information about one partition of a topic.
#[derive(Debug)]
pub struct PartitionInfo {
    pub partition: PartitionId,
    pub leader: Option<BrokerRef>,
    pub replicas: Vec<BrokerRef>,
    pub in_sync_replicas: Vec<BrokerRef>,
}

impl Default for PartitionInfo {
    /// A placeholder entry: no partition, no leader, no replicas.
    fn default() -> (r: Self)
        ensures
            r.partition == -1,
            r.leader is None,
            r.replicas@.len() == 0,
            r.in_sync_replicas@.len() == 0,
    {
        PartitionInfo {
            partition: -1,
            leader: None,
            replicas: Vec::new(),
            in_sync_replicas: Vec::new(),
        }
    }
}

impl PartitionInfo {
    pub fn new(partition: PartitionId, leader: BrokerRef) -> (r: Self)
        ensures
            r.partition == partition,
            r.leader == Some(leader),
            r.replicas@.len() == 0,
            r.in_sync_replicas@.len() == 0,
    {
        PartitionInfo {
            partition,
            leader: Some(leader),
            replicas: Vec::new(),
            in_sync_replicas: Vec::new(),
        }
    }

    /// The partition id.
    pub fn partition(&self) -> (r: PartitionId)
        ensures
            r == self.partition,
    {
        self.partition
    }

    /// The broker currently leading this partition, if one is known.
    pub fn leader(&self) -> (r: Option<BrokerRef>)
        ensures
            r == self.leader,
    {
        self.leader
    }

    /// Every replica of this partition, alive or not.
    pub fn replicas(&self) -> (r: &Vec<BrokerRef>)
        ensures
            r == self.replicas,
    {
        &self.replicas
    }

    /// The replicas caught up to the leader.
    pub fn in_sync_replicas(&self) -> (r: &Vec<BrokerRef>)
        ensures
            r == self.in_sync_replicas,
    {
        &self.in_sync_replicas
    }
}

} // verus!
