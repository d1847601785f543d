//! The immutable metadata snapshot: lookups from topic-partition to leader,
//! from broker reference to broker, and the derivation of a new snapshot
//! carrying api-version windows.
use vstd::prelude::*;

use crate::cluster::{
    clone_bytes, Broker, BrokerRef, PartitionId, PartitionInfo, TopicPartition,
    UsableApiVersions,
};
use crate::metadata_msg::MetadataResponse;

verus! {

/// A snapshot of the cluster: its brokers and, per topic, its partitions.
pub struct Metadata {
    pub brokers: Vec<Broker>,
    pub topics: Vec<(Vec<u8>, Vec<PartitionInfo>)>,
}

/// The first broker of the run carrying the given reference's node id.
pub open spec fn spec_find_broker(brokers: Seq<Broker>, r: BrokerRef) -> Option<Broker>
    decreases brokers.len(),
{
    if brokers.len() == 0 {
        None
    } else if brokers[0].node_id == r.0 {
        Some(brokers[0])
    } else {
        spec_find_broker(brokers.skip(1), r)
    }
}

/// A found broker carries the node id that was looked up.
pub proof fn lemma_find_broker_id(brokers: Seq<Broker>, r: BrokerRef)
    ensures
        match spec_find_broker(brokers, r) {
            Option::Some(b) => b.node_id == r.0,
            Option::None => true,
        },
    decreases brokers.len(),
{
    if brokers.len() > 0 && brokers[0].node_id != r.0 {
        lemma_find_broker_id(brokers.skip(1), r);
    }
}

/// The partition list of the first topic entry with the given name.
pub open spec fn spec_find_topic(
    topics: Seq<(Vec<u8>, Vec<PartitionInfo>)>,
    name: Seq<u8>,
) -> Option<Vec<PartitionInfo>>
    decreases topics.len(),
{
    if topics.len() == 0 {
        None
    } else if topics[0].0@ == name {
        Some(topics[0].1)
    } else {
        spec_find_topic(topics.skip(1), name)
    }
}

/// The first entry of the run with the given partition id.
pub open spec fn spec_find_partition_in(
    parts: Seq<PartitionInfo>,
    partition: PartitionId,
) -> Option<PartitionInfo>
    decreases parts.len(),
{
    if parts.len() == 0 {
        None
    } else if parts[0].partition == partition {
        Some(parts[0])
    } else {
        spec_find_partition_in(parts.skip(1), partition)
    }
}

/// The partition entry a snapshot holds for a topic-partition.
pub open spec fn spec_find_partition(m: Metadata, name: Seq<u8>, partition: PartitionId) -> Option<
    PartitionInfo,
> {
    match spec_find_topic(m.topics@, name) {
        Option::None => Option::None,
        Option::Some(parts) => spec_find_partition_in(parts@, partition),
    }
}

/// The leader reference a snapshot holds for a topic-partition.
pub open spec fn spec_leader_ref(m: Metadata, name: Seq<u8>, partition: PartitionId) -> Option<
    BrokerRef,
> {
    match spec_find_partition(m, name, partition) {
        Option::None => Option::None,
        Option::Some(pi) => pi.leader,
    }
}

/// The leader broker a snapshot resolves for a topic-partition.
pub open spec fn spec_leader_for(m: Metadata, name: Seq<u8>, partition: PartitionId) -> Option<
    Broker,
> {
    match spec_leader_ref(m, name, partition) {
        Option::None => Option::None,
        Option::Some(r) => spec_find_broker(m.brokers@, r),
    }
}

/// The leader a snapshot names for a topic-partition is the broker that the
/// partition's leader reference resolves to, and it carries that reference's
/// node id.
pub proof fn lemma_leader_consistent(m: Metadata, name: Seq<u8>, partition: PartitionId, lr: BrokerRef)
    requires
        spec_leader_ref(m, name, partition) == Some(lr),
    ensures
        spec_leader_for(m, name, partition) == spec_find_broker(m.brokers@, lr),
        match spec_leader_for(m, name, partition) {
            Option::Some(b) => b.node_id == lr.0,
            Option::None => true,
        },
{
    lemma_find_broker_id(m.brokers@, lr);
}

impl Metadata {
    /// An empty snapshot: no brokers, no topics.
    pub fn new() -> (r: Self)
        ensures
            r.brokers@.len() == 0,
            r.topics@.len() == 0,
    {
        Metadata { brokers: Vec::new(), topics: Vec::new() }
    }

    /// A snapshot holding the given topics and no brokers.
    pub fn with_topics(topics: Vec<(Vec<u8>, Vec<PartitionInfo>)>) -> (r: Self)
        ensures
            r.brokers@.len() == 0,
            r.topics == topics,
    {
        Metadata { brokers: Vec::new(), topics }
    }

    /// The known brokers.
    pub fn brokers(&self) -> (r: &Vec<Broker>)
        ensures
            r == self.brokers,
    {
        &self.brokers
    }

    /// Finds the broker a reference points at.
    pub fn find_broker(&self, r: BrokerRef) -> (res: Option<&Broker>)
        ensures
            match res {
                Some(b) => spec_find_broker(self.brokers@, r) == Some(*b),
                None => spec_find_broker(self.brokers@, r) is None,
            },
    {
        let n = self.brokers.len();
        let mut i: usize = 0;
        proof {
            assert(self.brokers@.skip(0int) =~= self.brokers@);
        }
        while i < n
            invariant
                i <= n,
                n == self.brokers@.len(),
                spec_find_broker(self.brokers@, r) == spec_find_broker(
                    self.brokers@.skip(i as int),
                    r,
                ),
            decreases n - i,
        {
            proof {
                assert(self.brokers@.skip(i as int)[0] == self.brokers@[i as int]);
                assert(self.brokers@.skip(i as int).skip(1) =~= self.brokers@.skip(i + 1));
            }
            if self.brokers[i].node_id == r.0 {
                return Some(&self.brokers[i]);
            }
            i = i + 1;
        }
        proof {
            assert(self.brokers@.skip(n as int).len() == 0);
        }
        None
    }

    /// Finds the partition entry for a topic-partition.
    pub fn find_partition(&self, tp: &TopicPartition) -> (res: Option<&PartitionInfo>)
        ensures
            match res {
                Some(pi) => spec_find_partition(*self, tp.topic_name@, tp.partition) == Some(*pi),
                None => spec_find_partition(*self, tp.topic_name@, tp.partition) is None,
            },
    {
        match self.topic_slot(&tp.topic_name) {
            None => None,
            Some(t) => {
                let parts = &self.topics[t].1;
                let n = parts.len();
                let mut i: usize = 0;
                proof {
                    assert(parts@.skip(0int) =~= parts@);
                }
                while i < n
                    invariant
                        i <= n,
                        n == parts@.len(),
                        parts == self.topics@[t as int].1,
                        t < self.topics@.len(),
                        spec_find_topic(self.topics@, tp.topic_name@) == Some(
                            self.topics@[t as int].1,
                        ),
                        spec_find_partition_in(parts@, tp.partition) == spec_find_partition_in(
                            parts@.skip(i as int),
                            tp.partition,
                        ),
                    decreases n - i,
                {
                    proof {
                        assert(parts@.skip(i as int)[0] == parts@[i as int]);
                        assert(parts@.skip(i as int).skip(1) =~= parts@.skip(i + 1));
                    }
                    if parts[i].partition == tp.partition {
                        return Some(&parts[i]);
                    }
                    i = i + 1;
                }
                proof {
                    assert(parts@.skip(n as int).len() == 0);
                }
                None
            },
        }
    }

    /// Finds the index of the topic entry with the given name.
    pub fn topic_slot(&self, name: &Vec<u8>) -> (res: Option<usize>)
        ensures
            match res {
                Some(t) => {
                    &&& t < self.topics@.len()
                    &&& spec_find_topic(self.topics@, name@) == Some(self.topics@[t as int].1)
                },
                None => spec_find_topic(self.topics@, name@) is None,
            },
    {
        let n = self.topics.len();
        let mut i: usize = 0;
        proof {
            assert(self.topics@.skip(0int) =~= self.topics@);
        }
        while i < n
            invariant
                i <= n,
                n == self.topics@.len(),
                spec_find_topic(self.topics@, name@) == spec_find_topic(
                    self.topics@.skip(i as int),
                    name@,
                ),
            decreases n - i,
        {
            proof {
                assert(self.topics@.skip(i as int)[0] == self.topics@[i as int]);
                assert(self.topics@.skip(i as int).skip(1) =~= self.topics@.skip(i + 1));
            }
            if bytes_eq(&self.topics[i].0, name) {
                return Some(i);
            }
            i = i + 1;
        }
        proof {
            assert(self.topics@.skip(n as int).len() == 0);
        }
        None
    }

    /// Resolves the leader broker for a topic-partition.
    pub fn leader_for(&self, tp: &TopicPartition) -> (res: Option<&Broker>)
        ensures
            match res {
                Some(b) => spec_leader_for(*self, tp.topic_name@, tp.partition) == Some(*b),
                None => spec_leader_for(*self, tp.topic_name@, tp.partition) is None,
            },
    {
        match self.find_partition(tp) {
            None => None,
            Some(pi) => match pi.leader {
                None => None,
                Some(r) => self.find_broker(r),
            },
        }
    }


    /// Every topic name the snapshot knows, in table order.
    pub fn topic_names(&self) -> (r: Vec<Vec<u8>>)
        ensures
            r@.len() == self.topics@.len(),
            forall|i: int| 0 <= i < r@.len() ==> (#[trigger] r@[i])@ == self.topics@[i].0@,
    {
        let mut out: Vec<Vec<u8>> = Vec::new();
        let n = self.topics.len();
        let mut i: usize = 0;
        while i < n
            invariant
                i <= n,
                n == self.topics@.len(),
                out@.len() == i as int,
                forall|j: int| 0 <= j < i as int ==> (#[trigger] out@[j])@ == self.topics@[j].0@,
            decreases n - i,
        {
            out.push(clone_bytes(&self.topics[i].0));
            i = i + 1;
        }
        out
    }

    /// How many partitions a topic has, or nothing when the snapshot does
    /// not know the topic.
    pub fn partition_count(&self, topic_name: &Vec<u8>) -> (r: Option<usize>)
        ensures
            match spec_find_topic(self.topics@, topic_name@) {
                Option::Some(parts) => {
                    &&& parts@.len() <= usize::MAX
                    &&& r == Some(parts@.len() as usize)
                },
                Option::None => r is None,
            },
    {
        match self.topic_slot(topic_name) {
            None => None,
            Some(t) => Some(self.topics[t].1.len()),
        }
    }

    /// The partition id stored at a slot of a topic's partition table.
    pub fn partition_id_at(&self, topic_name: &Vec<u8>, idx: usize) -> (r: PartitionId)
        requires
            spec_find_topic(self.topics@, topic_name@) is Some,
            idx < spec_find_topic(self.topics@, topic_name@).unwrap()@.len(),
        ensures
            r == spec_find_topic(self.topics@, topic_name@).unwrap()@[idx as int].partition,
    {
        let t = self.topic_slot(topic_name).unwrap();
        self.topics[t].1[idx].partition
    }

    /// The topic-partitions of one topic, or nothing when the topic is not
    /// in the snapshot.
    pub fn partitions_for_topic(&self, topic_name: &Vec<u8>) -> (res: Option<Vec<TopicPartition>>)
        ensures
            match res {
                Some(tps) => match spec_find_topic(self.topics@, topic_name@) {
                    Option::Some(parts) => {
                        &&& tps@.len() == parts@.len()
                        &&& forall|i: int| 0 <= i < tps@.len() ==> {
                            &&& (#[trigger] tps@[i]).topic_name@ == topic_name@
                            &&& tps@[i].partition == parts@[i].partition
                        }
                    },
                    Option::None => false,
                },
                None => spec_find_topic(self.topics@, topic_name@) is None,
            },
    {
        match self.topic_slot(topic_name) {
            None => None,
            Some(t) => {
                let parts = &self.topics[t].1;
                let n = parts.len();
                let mut out: Vec<TopicPartition> = Vec::new();
                let mut i: usize = 0;
                while i < n
                    invariant
                        i <= n,
                        n == parts@.len(),
                        parts == self.topics@[t as int].1,
                        t < self.topics@.len(),
                        out@.len() == i as int,
                        forall|j: int| 0 <= j < i as int ==> {
                            &&& (#[trigger] out@[j]).topic_name@ == topic_name@
                            &&& out@[j].partition == parts@[j].partition
                        },
                    decreases n - i,
                {
                    out.push(
                        TopicPartition {
                            topic_name: clone_bytes(topic_name),
                            partition: parts[i].partition,
                        },
                    );
                    i = i + 1;
                }
                Some(out)
            },
        }
    }
}

/// Whether two byte strings hold the same bytes.
pub fn bytes_eq(a: &Vec<u8>, b: &Vec<u8>) -> (r: bool)
    ensures
        r <==> a@ == b@,
{
    if a.len() != b.len() {
        proof {
            assert(a@.len() != b@.len());
        }
        return false;
    }
    let n = a.len();
    let mut i: usize = 0;
    while i < n
        invariant
            i <= n,
            n == a@.len(),
            n == b@.len(),
            forall|j: int| 0 <= j < i as int ==> a@[j] == b@[j],
        decreases n - i,
    {
        if a[i] != b[i] {
            return false;
        }
        i = i + 1;
    }
    proof {
        assert(a@ =~= b@);
    }
    true
}

/// The windows recorded for a node id, if any.
pub open spec fn spec_lookup_versions(
    vs: Seq<(BrokerRef, UsableApiVersions)>,
    id: i32,
) -> Option<UsableApiVersions>
    decreases vs.len(),
{
    if vs.len() == 0 {
        None
    } else if vs[0].0.0 == id {
        Some(vs[0].1)
    } else {
        spec_lookup_versions(vs.skip(1), id)
    }
}

/// Two optional window sets carry the same ranges.
pub open spec fn versions_match(a: Option<UsableApiVersions>, b: Option<UsableApiVersions>) -> bool {
    match a {
        Option::None => b is None,
        Option::Some(ua) => match b {
            Option::None => false,
            Option::Some(ub) => ua.ranges@ == ub.ranges@,
        },
    }
}

/// Copies a run of version ranges.
pub fn clone_ranges(v: &Vec<crate::api_versions_msg::ApiVersionRange>) -> (r: Vec<
    crate::api_versions_msg::ApiVersionRange,
>)
    ensures
        r@ == v@,
{
    let mut out: Vec<crate::api_versions_msg::ApiVersionRange> = Vec::new();
    let mut i: usize = 0;
    while i < v.len()
        invariant
            i <= v@.len(),
            out@ == v@.take(i as int),
        decreases v@.len() - i,
    {
        out.push(v[i]);
        assert(v@.take(i + 1) =~= v@.take(i as int).push(v@[i as int]));
        i = i + 1;
    }
    assert(v@.take(v@.len() as int) =~= v@);
    out
}

/// Finds the windows recorded for a node id and copies them out.
pub fn lookup_versions(vs: &Vec<(BrokerRef, UsableApiVersions)>, id: i32) -> (r: Option<
    UsableApiVersions,
>)
    ensures
        versions_match(r, spec_lookup_versions(vs@, id)),
{
    let n = vs.len();
    let mut i: usize = 0;
    proof {
        assert(vs@.skip(0int) =~= vs@);
    }
    while i < n
        invariant
            i <= n,
            n == vs@.len(),
            spec_lookup_versions(vs@, id) == spec_lookup_versions(vs@.skip(i as int), id),
        decreases n - i,
    {
        proof {
            assert(vs@.skip(i as int)[0] == vs@[i as int]);
            assert(vs@.skip(i as int).skip(1) =~= vs@.skip(i + 1));
        }
        if vs[i].0.0 == id {
            return Some(UsableApiVersions { ranges: clone_ranges(&vs[i].1.ranges) });
        }
        i = i + 1;
    }
    proof {
        assert(vs@.skip(n as int).len() == 0);
    }
    None
}

impl Metadata {
    /// A new snapshot in which every broker carries the windows recorded for
    /// its node id. The topics are kept as they stand.
    pub fn with_api_versions(self, versions: &Vec<(BrokerRef, UsableApiVersions)>) -> (r: Metadata)
        ensures
            r.topics == self.topics,
            r.brokers@.len() == self.brokers@.len(),
            forall|i: int| 0 <= i < r.brokers@.len() ==> {
                &&& (#[trigger] r.brokers@[i]).node_id == self.brokers@[i].node_id
                &&& r.brokers@[i].host@ == self.brokers@[i].host@
                &&& r.brokers@[i].port == self.brokers@[i].port
                &&& versions_match(
                    r.brokers@[i].api_versions,
                    spec_lookup_versions(versions@, self.brokers@[i].node_id),
                )
            },
    {
        let n = self.brokers.len();
        let mut brokers: Vec<Broker> = Vec::new();
        let mut i: usize = 0;
        while i < n
            invariant
                i <= n,
                n == self.brokers@.len(),
                brokers@.len() == i as int,
                forall|j: int| 0 <= j < i as int ==> {
                    &&& (#[trigger] brokers@[j]).node_id == self.brokers@[j].node_id
                    &&& brokers@[j].host@ == self.brokers@[j].host@
                    &&& brokers@[j].port == self.brokers@[j].port
                    &&& versions_match(
                        brokers@[j].api_versions,
                        spec_lookup_versions(versions@, self.brokers@[j].node_id),
                    )
                },
            decreases n - i,
        {
            let found = lookup_versions(versions, self.brokers[i].node_id);
            brokers.push(self.brokers[i].with_api_versions(found));
            i = i + 1;
        }
        Metadata { brokers, topics: self.topics }
    }

    /// A new snapshot in which every broker carries the same fallback
    /// windows. The topics are kept as they stand.
    pub fn with_fallback_api_versions(self, fallback: &UsableApiVersions) -> (r: Metadata)
        ensures
            r.topics == self.topics,
            r.brokers@.len() == self.brokers@.len(),
            forall|i: int| 0 <= i < r.brokers@.len() ==> {
                &&& (#[trigger] r.brokers@[i]).node_id == self.brokers@[i].node_id
                &&& r.brokers@[i].host@ == self.brokers@[i].host@
                &&& r.brokers@[i].port == self.brokers@[i].port
                &&& versions_match(r.brokers@[i].api_versions, Some(*fallback))
            },
    {
        let n = self.brokers.len();
        let mut brokers: Vec<Broker> = Vec::new();
        let mut i: usize = 0;
        while i < n
            invariant
                i <= n,
                n == self.brokers@.len(),
                brokers@.len() == i as int,
                forall|j: int| 0 <= j < i as int ==> {
                    &&& (#[trigger] brokers@[j]).node_id == self.brokers@[j].node_id
                    &&& brokers@[j].host@ == self.brokers@[j].host@
                    &&& brokers@[j].port == self.brokers@[j].port
                    &&& versions_match(brokers@[j].api_versions, Some(*fallback))
                },
            decreases n - i,
        {
            let windows = UsableApiVersions { ranges: clone_ranges(&fallback.ranges) };
            brokers.push(self.brokers[i].with_api_versions(Some(windows)));
            i = i + 1;
        }
        Metadata { brokers, topics: self.topics }
    }

    /// The snapshot a metadata response describes. A negative leader marks a
    /// partition without one; a port outside the valid range comes out zero.
    pub fn from_response(resp: &MetadataResponse) -> (r: Metadata)
        ensures
            r.brokers@.len() == resp.brokers@.len(),
            forall|i: int| 0 <= i < r.brokers@.len() ==> {
                &&& (#[trigger] r.brokers@[i]).node_id == resp.brokers@[i].node_id
                &&& r.brokers@[i].host@ == resp.brokers@[i].host@
                &&& r.brokers@[i].port == spec_clip_port(resp.brokers@[i].port)
                &&& r.brokers@[i].api_versions is None
            },
            r.topics@.len() == resp.topics@.len(),
            forall|i: int| 0 <= i < r.topics@.len() ==> {
                &&& (#[trigger] r.topics@[i]).0@ == resp.topics@[i].topic_name@
                &&& topic_partitions_match(r.topics@[i].1@, resp.topics@[i].partitions@)
            },
    {
        let nb = resp.brokers.len();
        let mut brokers: Vec<Broker> = Vec::new();
        let mut i: usize = 0;
        while i < nb
            invariant
                i <= nb,
                nb == resp.brokers@.len(),
                brokers@.len() == i as int,
                forall|j: int| 0 <= j < i as int ==> {
                    &&& (#[trigger] brokers@[j]).node_id == resp.brokers@[j].node_id
                    &&& brokers@[j].host@ == resp.brokers@[j].host@
                    &&& brokers@[j].port == spec_clip_port(resp.brokers@[j].port)
                    &&& brokers@[j].api_versions is None
                },
            decreases nb - i,
        {
            let bm = &resp.brokers[i];
            brokers.push(Broker::new(bm.node_id, clone_bytes(&bm.host), clip_port(bm.port)));
            i = i + 1;
        }
        let nt = resp.topics.len();
        let mut topics: Vec<(Vec<u8>, Vec<PartitionInfo>)> = Vec::new();
        let mut t: usize = 0;
        while t < nt
            invariant
                t <= nt,
                nt == resp.topics@.len(),
                topics@.len() == t as int,
                forall|j: int| 0 <= j < t as int ==> {
                    &&& (#[trigger] topics@[j]).0@ == resp.topics@[j].topic_name@
                    &&& topic_partitions_match(topics@[j].1@, resp.topics@[j].partitions@)
                },
            decreases nt - t,
        {
            let tm = &resp.topics[t];
            let np = tm.partitions.len();
            let mut parts: Vec<PartitionInfo> = Vec::new();
            let mut p: usize = 0;
            while p < np
                invariant
                    p <= np,
                    np == tm.partitions@.len(),
                    parts@.len() == p as int,
                    forall|k: int| 0 <= k < p as int ==> partition_info_matches(
                        #[trigger] parts@[k],
                        tm.partitions@[k]@,
                    ),
                decreases np - p,
            {
                let pm = &tm.partitions[p];
                let leader: Option<BrokerRef> = if pm.leader >= 0 {
                    Some(BrokerRef(pm.leader))
                } else {
                    None
                };
                let replicas = refs_of(&pm.replicas);
                let in_sync_replicas = refs_of(&pm.in_sync_replicas);
                parts.push(
                    PartitionInfo { partition: pm.partition_id, leader, replicas, in_sync_replicas },
                );
                proof {
                    assert(crate::codec_util::views_of(pm.replicas@) =~= pm.replicas@);
                    assert(crate::codec_util::views_of(pm.in_sync_replicas@) =~= pm
                        .in_sync_replicas@);
                }
                p = p + 1;
            }
            topics.push((clone_bytes(&tm.topic_name), parts));
            proof {
                assert(topic_partitions_match(
                    topics@[t as int].1@,
                    resp.topics@[t as int].partitions@,
                ));
            }
            t = t + 1;
        }
        Metadata { brokers, topics }
    }
}

/// A built partition entry carries what its wire counterpart reported.
pub open spec fn partition_info_matches(
    pi: PartitionInfo,
    pm: crate::metadata_msg::PartitionMetadataView,
) -> bool {
    &&& pi.partition == pm.partition_id
    &&& pi.leader == (if pm.leader >= 0 {
        Some(BrokerRef(pm.leader))
    } else {
        Option::<BrokerRef>::None
    })
    &&& pi.replicas@.len() == pm.replicas.len()
    &&& (forall|k: int| 0 <= k < pm.replicas.len() ==> (#[trigger] pi.replicas@[k]).0
        == pm.replicas[k])
    &&& pi.in_sync_replicas@.len() == pm.in_sync_replicas.len()
    &&& (forall|k: int| 0 <= k < pm.in_sync_replicas.len() ==> (#[trigger] pi.in_sync_replicas@[
        k
    ]).0 == pm.in_sync_replicas[k])
}

/// A built partition list matches the wire list entry for entry.
pub open spec fn topic_partitions_match(
    parts: Seq<PartitionInfo>,
    pms: Seq<crate::metadata_msg::PartitionMetadata>,
) -> bool {
    &&& parts.len() == pms.len()
    &&& forall|k: int| 0 <= k < parts.len() ==> partition_info_matches(
        #[trigger] parts[k],
        pms[k]@,
    )
}

/// A port outside the range of tcp ports comes out zero.
pub open spec fn spec_clip_port(p: i32) -> u16 {
    if 0 <= p <= 65535 {
        p as u16
    } else {
        0
    }
}

pub fn clip_port(p: i32) -> (r: u16)
    ensures
        r == spec_clip_port(p),
{
    if 0 <= p && p <= 65535 {
        p as u16
    } else {
        0
    }
}

/// Broker references carrying the given node ids.
pub fn refs_of(ids: &Vec<i32>) -> (r: Vec<BrokerRef>)
    ensures
        r@.len() == ids@.len(),
        forall|k: int| 0 <= k < ids@.len() ==> (#[trigger] r@[k]).0 == ids@[k],
{
    let mut out: Vec<BrokerRef> = Vec::new();
    let mut i: usize = 0;
    while i < ids.len()
        invariant
            i <= ids@.len(),
            out@.len() == i as int,
            forall|k: int| 0 <= k < i as int ==> (#[trigger] out@[k]).0 == ids@[k],
        decreases ids@.len() - i,
    {
        out.push(BrokerRef(ids[i]));
        i = i + 1;
    }
    out
}

} // verus!
