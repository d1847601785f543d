//! The client's pure logic around the service: building the requests of the
//! metadata and offsets paths, grouping topic-partitions by their leader,
//! and decomposing the responses.
use vstd::prelude::*;

use crate::api_versions_msg::ApiVersionsResponse;
use crate::cluster::{
    spec_broker_api_version, Broker, BrokerRef, PartitionId, PartitionInfo, UsableApiVersions,
};
use crate::codec_util::views_of;
use crate::header::{ApiKeys, RequestHeader};
use crate::list_offsets_msg::{
    ListOffsetsRequest, ListOffsetsResponse, ListOffsetsTopic, PartitionOffsetDataView,
};
use crate::metadata::{spec_find_broker, spec_find_topic, Metadata};
use crate::metadata_msg::MetadataRequest;

verus! {

/// A retrieved offset for one partition of an already known topic.
#[derive(Clone, Copy, Debug, PartialEq, Eq, Structural)]
pub struct PartitionOffset {
    pub partition: PartitionId,
    pub offset: i64,
}

/// Builds the metadata request of the load sequence: version zero, the
/// given topics (none asks about all).
pub fn build_metadata_request(
    correlation_id: i32,
    client_id: Option<Vec<u8>>,
    topic_names: Vec<Vec<u8>>,
) -> (r: MetadataRequest)
    ensures
        r.header.api_key == ApiKeys::Metadata.spec_code(),
        r.header.api_version == 0,
        r.header.correlation_id == correlation_id,
        r.header.client_id == client_id,
        r.topic_names == topic_names,
{
    MetadataRequest {
        header: RequestHeader {
            api_key: ApiKeys::Metadata.code(),
            api_version: 0,
            correlation_id,
            client_id,
        },
        topic_names,
    }
}

/// Builds the api-versions request sent to one broker: version zero, an
/// empty body.
pub fn build_api_versions_request(correlation_id: i32, client_id: Option<Vec<u8>>) -> (r:
    crate::api_versions_msg::ApiVersionsRequest)
    ensures
        r.header.api_key == ApiKeys::ApiVersions.spec_code(),
        r.header.api_version == 0,
        r.header.correlation_id == correlation_id,
        r.header.client_id == client_id,
{
    crate::api_versions_msg::ApiVersionsRequest {
        header: RequestHeader {
            api_key: ApiKeys::ApiVersions.code(),
            api_version: 0,
            correlation_id,
            client_id,
        },
    }
}

/// The replica id a client stamps on a list-offsets request.
pub const CONSUMER_REPLICA_ID: i32 = -1;

/// Builds a list-offsets request toward one broker.
pub fn build_list_offsets_request(
    api_version: i16,
    correlation_id: i32,
    client_id: Option<Vec<u8>>,
    topics: Vec<ListOffsetsTopic>,
) -> (r: ListOffsetsRequest)
    ensures
        r.header.api_key == ApiKeys::ListOffsets.spec_code(),
        r.header.api_version == api_version,
        r.header.correlation_id == correlation_id,
        r.header.client_id == client_id,
        r.replica_id == CONSUMER_REPLICA_ID,
        r.topics == topics,
{
    ListOffsetsRequest {
        header: RequestHeader {
            api_key: ApiKeys::ListOffsets.code(),
            api_version,
            correlation_id,
            client_id,
        },
        replica_id: CONSUMER_REPLICA_ID,
        topics,
    }
}

/// One partition of the offsets plan: where its leader listens, which
/// list-offsets version the leader speaks, and the partition itself.
pub struct OffsetsPlanEntry {
    pub host: Vec<u8>,
    pub port: u16,
    pub api_version: i16,
    pub topic_name: Vec<u8>,
    pub partition: PartitionId,
}

/// The list-offsets version used toward a broker.
pub open spec fn spec_offsets_version(b: Broker) -> i16 {
    match spec_broker_api_version(b, ApiKeys::ListOffsets) {
        Option::None => 0,
        Option::Some(v) => v,
    }
}

/// The plan entries of one topic: one per partition whose leader the
/// snapshot resolves.
pub open spec fn spec_plan_for_topic(
    m: Metadata,
    name: Seq<u8>,
    parts: Seq<PartitionInfo>,
) -> Seq<(Seq<u8>, u16, i16, i32)>
    decreases parts.len(),
{
    if parts.len() == 0 {
        Seq::empty()
    } else {
        let rest = spec_plan_for_topic(m, name, parts.skip(1));
        match parts[0].leader {
            Option::None => rest,
            Option::Some(lr) => match spec_find_broker(m.brokers@, lr) {
                Option::None => rest,
                Option::Some(b) => seq![
                    (b.host@, b.port, spec_offsets_version(b), parts[0].partition),
                ] + rest,
            },
        }
    }
}

/// The whole plan: the topics in request order, each flattened to its
/// resolvable partitions.
pub open spec fn spec_offsets_plan(m: Metadata, names: Seq<Vec<u8>>) -> Seq<
    (Seq<u8>, u16, i16, i32),
>
    decreases names.len(),
{
    if names.len() == 0 {
        Seq::empty()
    } else {
        let head = match spec_find_topic(m.topics@, names[0]@) {
            Option::None => Seq::<(Seq<u8>, u16, i16, i32)>::empty(),
            Option::Some(parts) => spec_plan_for_topic(m, names[0]@, parts@),
        };
        head + spec_offsets_plan(m, names.skip(1))
    }
}

/// The view of one plan entry, paired with its topic.
pub open spec fn plan_entry_view(e: OffsetsPlanEntry) -> (Seq<u8>, u16, i16, i32) {
    (e.host@, e.port, e.api_version, e.partition)
}

/// Lays out, for every requested topic, each partition whose leader the
/// snapshot resolves: the leader's address, the list-offsets version it
/// speaks, and the partition. Partitions without a known leader, and topics
/// the snapshot does not hold, are left out, as the offsets path skips them.
pub fn topics_by_broker(m: &Metadata, topic_names: &Vec<Vec<u8>>) -> (r: Vec<OffsetsPlanEntry>)
    ensures
        r@.len() == spec_offsets_plan(*m, topic_names@).len(),
        forall|i: int| 0 <= i < r@.len() ==> plan_entry_view(#[trigger] r@[i])
            == spec_offsets_plan(*m, topic_names@)[i],
{
    let ghost whole = spec_offsets_plan(*m, topic_names@);
    let mut out: Vec<OffsetsPlanEntry> = Vec::new();
    let n = topic_names.len();
    let mut t: usize = 0;
    proof {
        assert(topic_names@.skip(0int) =~= topic_names@);
    }
    while t < n
        invariant
            t <= n,
            n == topic_names@.len(),
            whole == spec_offsets_plan(*m, topic_names@),
            out@.len() <= whole.len(),
            whole =~= out@.map_values(|e: OffsetsPlanEntry| plan_entry_view(e)) + spec_offsets_plan(
                *m,
                topic_names@.skip(t as int),
            ),
            forall|i: int| 0 <= i < out@.len() ==> plan_entry_view(#[trigger] out@[i]) == whole[i],
        decreases n - t,
    {
        let name = &topic_names[t];
        proof {
            assert(topic_names@.skip(t as int)[0] == topic_names@[t as int]);
            assert(topic_names@.skip(t as int).skip(1) =~= topic_names@.skip(t + 1));
        }
        let ghost views_before = out@.map_values(|e: OffsetsPlanEntry| plan_entry_view(e));
        match m.topic_slot(name) {
            None => {
                proof {
                    assert(spec_offsets_plan(*m, topic_names@.skip(t as int))
                        =~= Seq::<(Seq<u8>, u16, i16, i32)>::empty() + spec_offsets_plan(
                        *m,
                        topic_names@.skip(t + 1),
                    ));
                    assert(Seq::<(Seq<u8>, u16, i16, i32)>::empty() + spec_offsets_plan(
                        *m,
                        topic_names@.skip(t + 1),
                    ) =~= spec_offsets_plan(*m, topic_names@.skip(t + 1)));
                }
            },
            Some(slot) => {
                let ghost parts_seq = m.topics@[slot as int].1@;
                let np = m.topics[slot].1.len();
                let mut p: usize = 0;
                proof {
                    assert(parts_seq.skip(0int) =~= parts_seq);
                }
                while p < np
                    invariant
                        p <= np,
                        slot < m.topics@.len(),
                        np == m.topics@[slot as int].1@.len(),
                        parts_seq == m.topics@[slot as int].1@,
                        whole == spec_offsets_plan(*m, topic_names@),
                        t < topic_names@.len(),
                        n == topic_names@.len(),
                        name == topic_names@[t as int],
                        spec_find_topic(m.topics@, name@) == Some(m.topics@[slot as int].1),
                        whole =~= out@.map_values(|e: OffsetsPlanEntry| plan_entry_view(e))
                            + spec_plan_for_topic(*m, name@, parts_seq.skip(p as int))
                            + spec_offsets_plan(*m, topic_names@.skip(t + 1)),
                        forall|i: int| 0 <= i < out@.len() ==> plan_entry_view(
                            #[trigger] out@[i],
                        ) == whole[i],
                        out@.len() + spec_plan_for_topic(*m, name@, parts_seq.skip(p as int)).len()
                            + spec_offsets_plan(*m, topic_names@.skip(t + 1)).len() == whole.len(),
                    decreases np - p,
                {
                    proof {
                        assert(parts_seq.skip(p as int)[0] == parts_seq[p as int]);
                        assert(parts_seq.skip(p as int).skip(1) =~= parts_seq.skip(p + 1));
                    }
                    let ghost ovb = out@.map_values(|e: OffsetsPlanEntry| plan_entry_view(e));
                    let pid = m.topics[slot].1[p].partition;
                    match m.topics[slot].1[p].leader {
                        None => {},
                        Some(lr) => match m.find_broker(lr) {
                            None => {},
                            Some(broker) => {
                                let v = match broker.api_version(ApiKeys::ListOffsets) {
                                    None => 0,
                                    Some(v) => v,
                                };
                                let entry = OffsetsPlanEntry {
                                    host: crate::cluster::clone_bytes(broker.host()),
                                    port: broker.port(),
                                    api_version: v,
                                    topic_name: crate::cluster::clone_bytes(name),
                                    partition: pid,
                                };
                                let ghost ev = plan_entry_view(entry);
                                out.push(entry);
                                proof {
                                    assert(out@.map_values(
                                        |e: OffsetsPlanEntry| plan_entry_view(e),
                                    ) =~= ovb.push(ev));
                                    assert(spec_plan_for_topic(*m, name@, parts_seq.skip(p as int))
                                        =~= seq![ev] + spec_plan_for_topic(
                                        *m,
                                        name@,
                                        parts_seq.skip(p + 1),
                                    ));
                                    assert(ovb + (seq![ev] + spec_plan_for_topic(
                                        *m,
                                        name@,
                                        parts_seq.skip(p + 1),
                                    )) =~= ovb.push(ev) + spec_plan_for_topic(
                                        *m,
                                        name@,
                                        parts_seq.skip(p + 1),
                                    ));
                                    assert(whole =~= ovb.push(ev) + spec_plan_for_topic(
                                        *m,
                                        name@,
                                        parts_seq.skip(p + 1),
                                    ) + spec_offsets_plan(*m, topic_names@.skip(t + 1)));
                                    assert(plan_entry_view(out@[out@.len() - 1]) == whole[out@.len()
                                        - 1]);
                                }
                            },
                        },
                    }
                    p = p + 1;
                }
                proof {
                    assert(parts_seq.skip(np as int).len() == 0);
                    assert(spec_plan_for_topic(*m, name@, parts_seq.skip(np as int))
                        =~= Seq::<(Seq<u8>, u16, i16, i32)>::empty());
                }
            },
        }
        t = t + 1;
    }
    proof {
        assert(topic_names@.skip(n as int).len() == 0);
        assert(spec_offsets_plan(*m, topic_names@.skip(n as int)) =~= Seq::<
            (Seq<u8>, u16, i16, i32),
        >::empty());
        assert(whole =~= out@.map_values(|e: OffsetsPlanEntry| plan_entry_view(e)));
    }
    out
}

/// The error-free offsets of one partition run, each reduced to its first
/// offset; partitions that answered with an error are left out.
pub open spec fn spec_ok_offsets(parts: Seq<PartitionOffsetDataView>) -> Seq<PartitionOffset>
    decreases parts.len(),
{
    if parts.len() == 0 {
        Seq::empty()
    } else {
        let rest = spec_ok_offsets(parts.skip(1));
        if parts[0].error_code == 0 && parts[0].offsets.len() >= 1 {
            seq![
                PartitionOffset { partition: parts[0].partition, offset: parts[0].offsets[0] },
            ] + rest
        } else {
            rest
        }
    }
}

/// Decomposes one list-offsets response: per topic, the error-free
/// partitions reduced to their first offset. Partitions that answered with
/// an error, or with no offsets, are dropped.
pub fn collect_offsets(resp: &ListOffsetsResponse) -> (r: Vec<(Vec<u8>, Vec<PartitionOffset>)>)
    ensures
        r@.len() == resp.topics@.len(),
        forall|i: int| 0 <= i < r@.len() ==> {
            &&& (#[trigger] r@[i]).0@ == resp.topics@[i].topic_name@
            &&& r@[i].1@ == spec_ok_offsets(views_of(resp.topics@[i].partitions@))
        },
{
    let mut out: Vec<(Vec<u8>, Vec<PartitionOffset>)> = Vec::new();
    let n = resp.topics.len();
    let mut t: usize = 0;
    while t < n
        invariant
            t <= n,
            n == resp.topics@.len(),
            out@.len() == t as int,
            forall|i: int| 0 <= i < t as int ==> {
                &&& (#[trigger] out@[i]).0@ == resp.topics@[i].topic_name@
                &&& out@[i].1@ == spec_ok_offsets(views_of(resp.topics@[i].partitions@))
            },
        decreases n - t,
    {
        let topic = &resp.topics[t];
        let ghost parts_all = views_of(topic.partitions@);
        let mut collected: Vec<PartitionOffset> = Vec::new();
        let np = topic.partitions.len();
        let mut p: usize = 0;
        proof {
            assert(parts_all.skip(0int) =~= parts_all);
        }
        while p < np
            invariant
                p <= np,
                np == topic.partitions@.len(),
                parts_all == views_of(topic.partitions@),
                parts_all.len() == np,
                spec_ok_offsets(parts_all) =~= collected@ + spec_ok_offsets(
                    parts_all.skip(p as int),
                ),
            decreases np - p,
        {
            proof {
                assert(parts_all.skip(p as int)[0] == parts_all[p as int]);
                assert(parts_all[p as int] == topic.partitions@[p as int]@);
                assert(parts_all.skip(p as int).skip(1) =~= parts_all.skip(p + 1));
            }
            let ghost cb = collected@;
            let part = &topic.partitions[p];
            if part.error_code == 0 && part.offsets.len() >= 1 {
                let po = PartitionOffset { partition: part.partition, offset: part.offsets[0] };
                collected.push(po);
                proof {
                    assert(spec_ok_offsets(parts_all.skip(p as int)) =~= seq![po]
                        + spec_ok_offsets(parts_all.skip(p + 1)));
                    assert(cb + (seq![po] + spec_ok_offsets(parts_all.skip(p + 1))) =~= cb.push(
                        po,
                    ) + spec_ok_offsets(parts_all.skip(p + 1)));
                }
            }
            p = p + 1;
        }
        proof {
            assert(parts_all.skip(np as int).len() == 0);
            assert(collected@ + spec_ok_offsets(parts_all.skip(np as int)) =~= collected@);
        }
        out.push((crate::cluster::clone_bytes(&topic.topic_name), collected));
        t = t + 1;
    }
    out
}

/// Decomposes one produce response into per-topic rows of partition, error
/// code and base offset, as the produce path reports them.
pub fn produce_result_rows(resp: &crate::produce::ProduceResponse) -> (r: Vec<
    (Option<Vec<u8>>, Vec<(i32, i16, i64)>),
>)
    ensures
        r@.len() == resp.topics@.len(),
        forall|i: int| 0 <= i < r@.len() ==> {
            &&& crate::message_set::opt_bytes_view((#[trigger] r@[i]).0) == resp.topics@[i]@
                .topic_name
            &&& r@[i].1@.len() == resp.topics@[i].partitions@.len()
            &&& forall|j: int| 0 <= j < r@[i].1@.len() ==> {
                &&& (#[trigger] r@[i].1@[j]).0 == resp.topics@[i].partitions@[j].partition
                &&& r@[i].1@[j].1 == resp.topics@[i].partitions@[j].error_code
                &&& r@[i].1@[j].2 == resp.topics@[i].partitions@[j].offset
            }
        },
{
    let mut out: Vec<(Option<Vec<u8>>, Vec<(i32, i16, i64)>)> = Vec::new();
    let n = resp.topics.len();
    let mut t: usize = 0;
    while t < n
        invariant
            t <= n,
            n == resp.topics@.len(),
            out@.len() == t as int,
            forall|i: int| 0 <= i < t as int ==> {
                &&& crate::message_set::opt_bytes_view((#[trigger] out@[i]).0) == resp.topics@[
                    i
                ]@.topic_name
                &&& out@[i].1@.len() == resp.topics@[i].partitions@.len()
                &&& forall|j: int| 0 <= j < out@[i].1@.len() ==> {
                    &&& (#[trigger] out@[i].1@[j]).0 == resp.topics@[i].partitions@[j].partition
                    &&& out@[i].1@[j].1 == resp.topics@[i].partitions@[j].error_code
                    &&& out@[i].1@[j].2 == resp.topics@[i].partitions@[j].offset
                }
            },
        decreases n - t,
    {
        let topic = &resp.topics[t];
        let mut rows: Vec<(i32, i16, i64)> = Vec::new();
        let np = topic.partitions.len();
        let mut p: usize = 0;
        while p < np
            invariant
                p <= np,
                np == topic.partitions@.len(),
                rows@.len() == p as int,
                forall|j: int| 0 <= j < p as int ==> {
                    &&& (#[trigger] rows@[j]).0 == topic.partitions@[j].partition
                    &&& rows@[j].1 == topic.partitions@[j].error_code
                    &&& rows@[j].2 == topic.partitions@[j].offset
                },
            decreases np - p,
        {
            let st = &topic.partitions[p];
            rows.push((st.partition, st.error_code, st.offset));
            p = p + 1;
        }
        let name: Option<Vec<u8>> = match &topic.topic_name {
            Some(b) => Some(crate::cluster::clone_bytes(b)),
            None => None,
        };
        out.push((name, rows));
        t = t + 1;
    }
    out
}

/// Turns the per-broker api-versions responses into the window table a
/// snapshot is derived with.
pub fn collect_api_versions(responses: Vec<(BrokerRef, ApiVersionsResponse)>) -> (r: Vec<
    (BrokerRef, UsableApiVersions),
>)
    ensures
        r@.len() == responses@.len(),
        forall|i: int| 0 <= i < r@.len() ==> {
            &&& (#[trigger] r@[i]).0 == responses@[i].0
            &&& r@[i].1.ranges@ == responses@[i].1.api_versions@
        },
{
    let mut out: Vec<(BrokerRef, UsableApiVersions)> = Vec::new();
    let n = responses.len();
    let mut i: usize = 0;
    while i < n
        invariant
            i <= n,
            n == responses@.len(),
            out@.len() == i as int,
            forall|j: int| 0 <= j < i as int ==> {
                &&& (#[trigger] out@[j]).0 == responses@[j].0
                &&& out@[j].1.ranges@ == responses@[j].1.api_versions@
            },
        decreases n - i,
    {
        let broker_ref = responses[i].0;
        let ranges = crate::metadata::clone_ranges(&responses[i].1.api_versions);
        out.push((broker_ref, UsableApiVersions::new(ranges)));
        i = i + 1;
    }
    out
}

/// The offsets collected for one topic across every response row, in row
/// order: the concatenation of the lists of the rows that name the topic.
pub open spec fn merged_topic_offsets(
    rows: Seq<(Vec<u8>, Vec<PartitionOffset>)>,
    name: Seq<u8>,
) -> Seq<PartitionOffset>
    decreases rows.len(),
{
    if rows.len() == 0 {
        Seq::empty()
    } else {
        let head: Seq<PartitionOffset> = if rows[0].0@ == name {
            rows[0].1@
        } else {
            Seq::empty()
        };
        head + merged_topic_offsets(rows.skip(1), name)
    }
}

/// Whether some row names the topic.
pub open spec fn rows_contain(rows: Seq<(Vec<u8>, Vec<PartitionOffset>)>, name: Seq<u8>) -> bool {
    exists|i: int| 0 <= i < rows.len() && (#[trigger] rows[i]).0@ == name
}

/// One more row extends a topic's merged offsets by that row's list when the
/// row names the topic, and by nothing otherwise.
proof fn lemma_merged_snoc(rows: Seq<(Vec<u8>, Vec<PartitionOffset>)>, i: int, name: Seq<u8>)
    requires
        0 <= i < rows.len(),
    ensures
        merged_topic_offsets(rows.take(i + 1), name) == merged_topic_offsets(rows.take(i), name)
            + (if rows[i].0@ == name {
            rows[i].1@
        } else {
            Seq::<PartitionOffset>::empty()
        }),
    decreases i,
{
    let tail: Seq<PartitionOffset> = if rows[i].0@ == name {
        rows[i].1@
    } else {
        Seq::empty()
    };
    if i == 0 {
        assert(rows.take(1) =~= seq![rows[0]]);
        assert(rows.take(0) =~= Seq::<(Vec<u8>, Vec<PartitionOffset>)>::empty());
        assert(rows.take(1).skip(1) =~= Seq::<(Vec<u8>, Vec<PartitionOffset>)>::empty());
        assert(merged_topic_offsets(rows.take(1), name) =~= merged_topic_offsets(
            rows.take(0),
            name,
        ) + tail);
    } else {
        let ys = rows.skip(1);
        lemma_merged_snoc(ys, i - 1, name);
        assert(rows.take(i + 1).skip(1) =~= ys.take(i));
        assert(rows.take(i).skip(1) =~= ys.take(i - 1));
        assert(rows.take(i + 1)[0] == rows[0]);
        assert(rows.take(i)[0] == rows[0]);
        assert(ys[i - 1] == rows[i]);
        let head: Seq<PartitionOffset> = if rows[0].0@ == name {
            rows[0].1@
        } else {
            Seq::empty()
        };
        assert(head + (merged_topic_offsets(ys.take(i - 1), name) + tail) =~= (head
            + merged_topic_offsets(ys.take(i - 1), name)) + tail);
        assert(merged_topic_offsets(rows.take(i + 1), name) =~= merged_topic_offsets(
            rows.take(i),
            name,
        ) + tail);
    }
}

/// A topic no row names has no merged offsets.
proof fn lemma_merged_absent(rows: Seq<(Vec<u8>, Vec<PartitionOffset>)>, name: Seq<u8>)
    requires
        !rows_contain(rows, name),
    ensures
        merged_topic_offsets(rows, name) == Seq::<PartitionOffset>::empty(),
    decreases rows.len(),
{
    if rows.len() > 0 {
        assert(rows[0].0@ != name);
        assert forall|i: int| 0 <= i < rows.skip(1).len() implies (#[trigger] rows.skip(1)[
            i
        ]).0@ != name by {
            assert(rows.skip(1)[i] == rows[i + 1]);
        }
        lemma_merged_absent(rows.skip(1), name);
        assert(merged_topic_offsets(rows, name) =~= Seq::<PartitionOffset>::empty());
    }
}

/// Appends every offset of `src` to `dst`.
fn append_offsets(dst: &mut Vec<PartitionOffset>, src: &Vec<PartitionOffset>)
    ensures
        final(dst)@ == old(dst)@ + src@,
{
    let mut i: usize = 0;
    let ghost start = dst@;
    while i < src.len()
        invariant
            i <= src@.len(),
            dst@ == start + src@.take(i as int),
        decreases src@.len() - i,
    {
        dst.push(src[i]);
        assert(src@.take(i + 1) =~= src@.take(i as int).push(src@[i as int]));
        assert(dst@ =~= start + src@.take(i + 1));
        i = i + 1;
    }
    assert(src@.take(src@.len() as int) =~= src@);
}

/// Finds the table slot that carries the given topic, in a table with
/// pairwise-distinct topics.
fn merged_slot(table: &Vec<(Vec<u8>, Vec<PartitionOffset>)>, name: &Vec<u8>) -> (res: Option<
    usize,
>)
    ensures
        match res {
            Some(a) => a < table@.len() && table@[a as int].0@ == name@,
            None => forall|a: int| 0 <= a < table@.len() ==> (#[trigger] table@[a]).0@ != name@,
        },
{
    let n = table.len();
    let mut a: usize = 0;
    while a < n
        invariant
            a <= n,
            n == table@.len(),
            forall|b: int| 0 <= b < a as int ==> (#[trigger] table@[b]).0@ != name@,
        decreases n - a,
    {
        if crate::metadata::bytes_eq(&table[a].0, name) {
            return Some(a);
        }
        a = a + 1;
    }
    None
}

/// Folds the per-broker offset rows into one table, as the offsets path
/// reports them: one entry per topic, carrying the concatenation of every
/// row's offsets for it in row order; a topic appears exactly when some row
/// names it.
pub fn merge_offset_rows(rows: &Vec<(Vec<u8>, Vec<PartitionOffset>)>) -> (r: Vec<
    (Vec<u8>, Vec<PartitionOffset>),
>)
    ensures
        forall|a: int, b: int| 0 <= a < b < r@.len() ==> (#[trigger] r@[a]).0@ != (#[trigger] r@[
            b
        ]).0@,
        forall|a: int| 0 <= a < r@.len() ==> (#[trigger] r@[a]).1@ == merged_topic_offsets(
            rows@,
            r@[a].0@,
        ),
        forall|a: int| 0 <= a < r@.len() ==> rows_contain(rows@, (#[trigger] r@[a]).0@),
        forall|i: int| 0 <= i < rows@.len() ==> rows_contain(r@, (#[trigger] rows@[i]).0@),
{
    let mut out: Vec<(Vec<u8>, Vec<PartitionOffset>)> = Vec::new();
    let n = rows.len();
    let mut i: usize = 0;
    while i < n
        invariant
            i <= n,
            n == rows@.len(),
            forall|a: int, b: int| 0 <= a < b < out@.len() ==> (#[trigger] out@[a]).0@ != (
            #[trigger] out@[b]).0@,
            forall|a: int| 0 <= a < out@.len() ==> (#[trigger] out@[a]).1@
                == merged_topic_offsets(rows@.take(i as int), out@[a].0@),
            forall|a: int| 0 <= a < out@.len() ==> rows_contain(
                rows@.take(i as int),
                (#[trigger] out@[a]).0@,
            ),
            forall|j: int| 0 <= j < i as int ==> rows_contain(out@, (#[trigger] rows@[j]).0@),
        decreases n - i,
    {
        let ghost before = out@;
        match merged_slot(&out, &rows[i].0) {
            Some(a) => {
                let (name, mut list) = out.remove(a);
                let ghost lold = list@;
                append_offsets(&mut list, &rows[i].1);
                out.insert(a, (name, list));
                proof {
                    assert(out@ =~= before.update(a as int, out@[a as int]));
                    assert(out@[a as int].0@ == rows@[i as int].0@);
                    assert forall|x: int| 0 <= x < out@.len() implies (#[trigger] out@[x]).1@
                        == merged_topic_offsets(rows@.take(i + 1), out@[x].0@) by {
                        lemma_merged_snoc(rows@, i as int, out@[x].0@);
                        if x == a as int {
                            assert(out@[x].1@ == lold + rows@[i as int].1@);
                        } else {
                            assert(out@[x] == before[x]);
                            assert(before[a as int].0@ == rows@[i as int].0@);
                            assert(out@[x].0@ != rows@[i as int].0@);
                        }
                    }
                    assert forall|x: int| 0 <= x < out@.len() implies rows_contain(
                        rows@.take(i + 1),
                        (#[trigger] out@[x]).0@,
                    ) by {
                        assert(rows_contain(rows@.take(i as int), before[x].0@));
                        let w = choose|w: int| 0 <= w < i as int && (#[trigger] rows@.take(
                            i as int,
                        )[w]).0@ == before[x].0@;
                        assert(rows@.take(i + 1)[w].0@ == out@[x].0@);
                    }
                    assert forall|j: int| 0 <= j < i + 1 implies rows_contain(
                        out@,
                        (#[trigger] rows@[j]).0@,
                    ) by {
                        if j < i as int {
                            let w = choose|w: int| 0 <= w < before.len() && (#[trigger] before[
                                w
                            ]).0@ == rows@[j].0@;
                            assert(out@[w].0@ == rows@[j].0@);
                        } else {
                            assert(out@[a as int].0@ == rows@[j].0@);
                        }
                    }
                }
            },
            None => {
                let mut list: Vec<PartitionOffset> = Vec::new();
                append_offsets(&mut list, &rows[i].1);
                out.push((crate::cluster::clone_bytes(&rows[i].0), list));
                proof {
                    let added = out@.len() - 1;
                    assert(out@ =~= before.push(out@[added]));
                    assert(out@[added].0@ == rows@[i as int].0@);
                    assert(!rows_contain(rows@.take(i as int), rows@[i as int].0@)) by {
                        if rows_contain(rows@.take(i as int), rows@[i as int].0@) {
                            let w = choose|w: int| 0 <= w < i as int && (#[trigger] rows@.take(
                                i as int,
                            )[w]).0@ == rows@[i as int].0@;
                            assert(rows_contain(before, rows@[w].0@));
                            let v = choose|v: int| 0 <= v < before.len() && (#[trigger] before[
                                v
                            ]).0@ == rows@[w].0@;
                        }
                    }
                    lemma_merged_absent(rows@.take(i as int), rows@[i as int].0@);
                    assert forall|x: int| 0 <= x < out@.len() implies (#[trigger] out@[x]).1@
                        == merged_topic_offsets(rows@.take(i + 1), out@[x].0@) by {
                        lemma_merged_snoc(rows@, i as int, out@[x].0@);
                        if x < added {
                            assert(out@[x] == before[x]);
                            assert(rows_contain(rows@.take(i as int), before[x].0@));
                            assert(out@[x].0@ != rows@[i as int].0@) by {
                                if out@[x].0@ == rows@[i as int].0@ {
                                    assert(rows_contain(
                                        rows@.take(i as int),
                                        rows@[i as int].0@,
                                    ));
                                }
                            }
                        } else {
                            assert(out@[x].1@ =~= Seq::<PartitionOffset>::empty() + rows@[
                                i as int
                            ].1@);
                        }
                    }
                    assert forall|x: int, y: int|
                        0 <= x < y < out@.len() implies (#[trigger] out@[x]).0@ != (
                    #[trigger] out@[y]).0@ by {
                        if y < added {
                            assert(before[x].0@ != before[y].0@);
                        } else {
                            assert(out@[x] == before[x]);
                            if before[x].0@ == rows@[i as int].0@ {
                                assert(rows_contain(rows@.take(i as int), before[x].0@));
                            }
                        }
                    }
                    assert forall|x: int| 0 <= x < out@.len() implies rows_contain(
                        rows@.take(i + 1),
                        (#[trigger] out@[x]).0@,
                    ) by {
                        if x < added {
                            assert(rows_contain(rows@.take(i as int), before[x].0@));
                            let w = choose|w: int| 0 <= w < i as int && (#[trigger] rows@.take(
                                i as int,
                            )[w]).0@ == before[x].0@;
                            assert(rows@.take(i + 1)[w].0@ == out@[x].0@);
                        } else {
                            assert(rows@.take(i + 1)[i as int].0@ == out@[x].0@);
                        }
                    }
                    assert forall|j: int| 0 <= j < i + 1 implies rows_contain(
                        out@,
                        (#[trigger] rows@[j]).0@,
                    ) by {
                        if j < i as int {
                            let w = choose|w: int| 0 <= w < before.len() && (#[trigger] before[
                                w
                            ]).0@ == rows@[j].0@;
                            assert(out@[w].0@ == rows@[j].0@);
                        } else {
                            assert(out@[added].0@ == rows@[j].0@);
                        }
                    }
                }
            },
        }
        i = i + 1;
    }
    proof {
        assert(rows@.take(n as int) =~= rows@);
    }
    out
}

} // verus!
