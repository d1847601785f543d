//! The metadata request and response (version 0): the broker table and, per
//! topic, partition leadership and replica sets.
use vstd::prelude::*;

use crate::codec_util::{
    array_wf, dec_array, enc_array, lemma_dec_array, parse_array, put_array, views_of, WireItem,
};
use crate::header::{
    dec_header, dec_response_header, enc_header, enc_response_header, lemma_dec_header,
    lemma_dec_response_header, parse_header, parse_response_header, put_header,
    put_response_header, RequestHeader, RequestHeaderView, ResponseHeader,
};
use crate::produce::{parse_str, put_u16_len_and_bytes};
use crate::wire::{
    be2, be4, dec_i16, dec_i32, dec_str, enc_str, lemma_dec_i16, lemma_dec_i32, lemma_dec_str,
    parse_i16, parse_i32, put_i16, put_i32, spec_i16_to_u16, spec_i32_to_u32, str_wf, tail_from,
};

verus! {

// ---------------------------------------------------------------------------
// Plain items reused by several arrays.
// ---------------------------------------------------------------------------

/// A broker reference on the wire is its node id.
impl WireItem for i32 {
    open spec fn enc_spec(v: i32, ver: i16) -> Seq<u8> {
        be4(spec_i32_to_u32(v))
    }

    open spec fn dec_spec(s: Seq<u8>, ver: i16) -> Option<(i32, Seq<u8>)> {
        dec_i32(s)
    }

    open spec fn wf_spec(v: i32, ver: i16) -> bool {
        true
    }

    proof fn lemma_round(v: i32, ver: i16, rest: Seq<u8>) {
        lemma_dec_i32(v, rest);
    }

    fn put(buf: &mut Vec<u8>, v: &Self, ver: i16) {
        put_i32(buf, *v);
    }

    fn parse(buf: &[u8], pos: usize, ver: i16) -> (r: Option<(Self, usize)>) {
        parse_i32(buf, pos)
    }
}

/// A topic name in a request is a plain length-prefixed string.
impl WireItem for Vec<u8> {
    open spec fn enc_spec(v: Seq<u8>, ver: i16) -> Seq<u8> {
        enc_str(v)
    }

    open spec fn dec_spec(s: Seq<u8>, ver: i16) -> Option<(Seq<u8>, Seq<u8>)> {
        dec_str(s)
    }

    open spec fn wf_spec(v: Seq<u8>, ver: i16) -> bool {
        str_wf(v)
    }

    proof fn lemma_round(v: Seq<u8>, ver: i16, rest: Seq<u8>) {
        lemma_dec_str(v, rest);
    }

    fn put(buf: &mut Vec<u8>, v: &Self, ver: i16) {
        put_u16_len_and_bytes(buf, v);
    }

    fn parse(buf: &[u8], pos: usize, ver: i16) -> (r: Option<(Self, usize)>) {
        parse_str(buf, pos)
    }
}

// ---------------------------------------------------------------------------
// Request.
// ---------------------------------------------------------------------------

/// A metadata request: the topics asked about; an empty list asks about all.
#[derive(Clone, Debug, PartialEq)]
pub struct MetadataRequest {
    pub header: RequestHeader,
    pub topic_names: Vec<Vec<u8>>,
}

pub struct MetadataRequestView {
    pub header: RequestHeaderView,
    pub topic_names: Seq<Seq<u8>>,
}

impl View for MetadataRequest {
    type V = MetadataRequestView;

    open spec fn view(&self) -> MetadataRequestView {
        MetadataRequestView { header: self.header@, topic_names: views_of(self.topic_names@) }
    }
}

pub open spec fn enc_metadata_request(v: MetadataRequestView) -> Seq<u8> {
    enc_header(v.header) + enc_array::<Vec<u8>>(v.topic_names, 0)
}

pub open spec fn dec_metadata_request(s: Seq<u8>) -> Option<(MetadataRequestView, Seq<u8>)> {
    match dec_header(s) {
        Option::None => Option::None,
        Option::Some((header, s1)) => match dec_array::<Vec<u8>>(s1, 0) {
            Option::None => Option::None,
            Option::Some((topic_names, s2)) => Option::Some(
                (MetadataRequestView { header, topic_names }, s2),
            ),
        },
    }
}

pub open spec fn metadata_request_wf(v: MetadataRequestView) -> bool {
    &&& v.header.wf()
    &&& array_wf::<Vec<u8>>(v.topic_names, 0)
}

pub proof fn lemma_dec_metadata_request(v: MetadataRequestView, rest: Seq<u8>)
    requires
        metadata_request_wf(v),
    ensures
        dec_metadata_request(enc_metadata_request(v) + rest) == Some((v, rest)),
{
    let arr = enc_array::<Vec<u8>>(v.topic_names, 0);
    assert(enc_metadata_request(v) + rest =~= enc_header(v.header) + (arr + rest));
    lemma_dec_header(v.header, arr + rest);
    lemma_dec_array::<Vec<u8>>(v.topic_names, 0, rest);
}

/// Encodes a whole metadata request.
pub fn encode_metadata_request(r: &MetadataRequest) -> (out: Vec<u8>)
    requires
        metadata_request_wf(r@),
    ensures
        out@ == enc_metadata_request(r@),
{
    let mut buf: Vec<u8> = Vec::new();
    put_header(&mut buf, &r.header);
    put_array::<Vec<u8>>(&mut buf, &r.topic_names, 0);
    assert(buf@ =~= enc_metadata_request(r@));
    buf
}

/// Reads a whole metadata request at the cursor.
pub fn parse_metadata_request(buf: &[u8], pos: usize) -> (r: Option<(MetadataRequest, usize)>)
    requires
        pos <= buf@.len(),
    ensures
        match r {
            Some((v, end)) => {
                &&& pos <= end <= buf@.len()
                &&& dec_metadata_request(tail_from(buf@, pos as int)) == Some(
                    (v@, tail_from(buf@, end as int)),
                )
            },
            None => dec_metadata_request(tail_from(buf@, pos as int)) is None,
        },
{
    match parse_header(buf, pos) {
        None => None,
        Some((header, p1)) => match parse_array::<Vec<u8>>(buf, p1, 0) {
            None => None,
            Some((topic_names, p2)) => Some((MetadataRequest { header, topic_names }, p2)),
        },
    }
}

// ---------------------------------------------------------------------------
// Response.
// ---------------------------------------------------------------------------

/// One broker as advertised by the cluster.
#[derive(Clone, Debug, PartialEq)]
pub struct BrokerMetadata {
    pub node_id: i32,
    pub host: Vec<u8>,
    pub port: i32,
}

pub struct BrokerMetadataView {
    pub node_id: i32,
    pub host: Seq<u8>,
    pub port: i32,
}

impl View for BrokerMetadata {
    type V = BrokerMetadataView;

    open spec fn view(&self) -> BrokerMetadataView {
        BrokerMetadataView { node_id: self.node_id, host: self.host@, port: self.port }
    }
}

impl WireItem for BrokerMetadata {
    open spec fn enc_spec(v: BrokerMetadataView, ver: i16) -> Seq<u8> {
        be4(spec_i32_to_u32(v.node_id)) + enc_str(v.host) + be4(spec_i32_to_u32(v.port))
    }

    open spec fn dec_spec(s: Seq<u8>, ver: i16) -> Option<(BrokerMetadataView, Seq<u8>)> {
        match dec_i32(s) {
            Option::None => Option::None,
            Option::Some((node_id, s1)) => match dec_str(s1) {
                Option::None => Option::None,
                Option::Some((host, s2)) => match dec_i32(s2) {
                    Option::None => Option::None,
                    Option::Some((port, s3)) => Option::Some(
                        (BrokerMetadataView { node_id, host, port }, s3),
                    ),
                },
            },
        }
    }

    open spec fn wf_spec(v: BrokerMetadataView, ver: i16) -> bool {
        str_wf(v.host)
    }

    proof fn lemma_round(v: BrokerMetadataView, ver: i16, rest: Seq<u8>) {
        let t2 = be4(spec_i32_to_u32(v.port)) + rest;
        let t1 = enc_str(v.host) + t2;
        assert(Self::enc_spec(v, ver) + rest =~= be4(spec_i32_to_u32(v.node_id)) + t1);
        lemma_dec_i32(v.node_id, t1);
        lemma_dec_str(v.host, t2);
        lemma_dec_i32(v.port, rest);
    }

    fn put(buf: &mut Vec<u8>, v: &Self, ver: i16) {
        put_i32(buf, v.node_id);
        put_u16_len_and_bytes(buf, &v.host);
        put_i32(buf, v.port);
        assert(buf@ =~= old(buf)@ + Self::enc_spec(v@, ver));
    }

    fn parse(buf: &[u8], pos: usize, ver: i16) -> (r: Option<(Self, usize)>) {
        match parse_i32(buf, pos) {
            None => None,
            Some((node_id, p1)) => match parse_str(buf, p1) {
                None => None,
                Some((host, p2)) => match parse_i32(buf, p2) {
                    None => None,
                    Some((port, p3)) => Some((BrokerMetadata { node_id, host, port }, p3)),
                },
            },
        }
    }
}

/// Leadership and replica sets for one partition.
#[derive(Clone, Debug, PartialEq)]
pub struct PartitionMetadata {
    pub error_code: i16,
    pub partition_id: i32,
    pub leader: i32,
    pub replicas: Vec<i32>,
    pub in_sync_replicas: Vec<i32>,
}

pub struct PartitionMetadataView {
    pub error_code: i16,
    pub partition_id: i32,
    pub leader: i32,
    pub replicas: Seq<i32>,
    pub in_sync_replicas: Seq<i32>,
}

impl View for PartitionMetadata {
    type V = PartitionMetadataView;

    open spec fn view(&self) -> PartitionMetadataView {
        PartitionMetadataView {
            error_code: self.error_code,
            partition_id: self.partition_id,
            leader: self.leader,
            replicas: views_of(self.replicas@),
            in_sync_replicas: views_of(self.in_sync_replicas@),
        }
    }
}

impl WireItem for PartitionMetadata {
    open spec fn enc_spec(v: PartitionMetadataView, ver: i16) -> Seq<u8> {
        be2(spec_i16_to_u16(v.error_code)) + be4(spec_i32_to_u32(v.partition_id)) + be4(
            spec_i32_to_u32(v.leader),
        ) + enc_array::<i32>(v.replicas, ver) + enc_array::<i32>(v.in_sync_replicas, ver)
    }

    open spec fn dec_spec(s: Seq<u8>, ver: i16) -> Option<(PartitionMetadataView, Seq<u8>)> {
        match dec_i16(s) {
            Option::None => Option::None,
            Option::Some((error_code, s1)) => match dec_i32(s1) {
                Option::None => Option::None,
                Option::Some((partition_id, s2)) => match dec_i32(s2) {
                    Option::None => Option::None,
                    Option::Some((leader, s3)) => match dec_array::<i32>(s3, ver) {
                        Option::None => Option::None,
                        Option::Some((replicas, s4)) => match dec_array::<i32>(s4, ver) {
                            Option::None => Option::None,
                            Option::Some((in_sync_replicas, s5)) => Option::Some(
                                (
                                    PartitionMetadataView {
                                        error_code,
                                        partition_id,
                                        leader,
                                        replicas,
                                        in_sync_replicas,
                                    },
                                    s5,
                                ),
                            ),
                        },
                    },
                },
            },
        }
    }

    open spec fn wf_spec(v: PartitionMetadataView, ver: i16) -> bool {
        &&& array_wf::<i32>(v.replicas, ver)
        &&& array_wf::<i32>(v.in_sync_replicas, ver)
    }

    proof fn lemma_round(v: PartitionMetadataView, ver: i16, rest: Seq<u8>) {
        let isr = enc_array::<i32>(v.in_sync_replicas, ver);
        let rep = enc_array::<i32>(v.replicas, ver);
        let t3 = rep + (isr + rest);
        let t2 = be4(spec_i32_to_u32(v.leader)) + t3;
        let t1 = be4(spec_i32_to_u32(v.partition_id)) + t2;
        assert(Self::enc_spec(v, ver) + rest =~= be2(spec_i16_to_u16(v.error_code)) + t1);
        lemma_dec_i16(v.error_code, t1);
        lemma_dec_i32(v.partition_id, t2);
        lemma_dec_i32(v.leader, t3);
        lemma_dec_array::<i32>(v.replicas, ver, isr + rest);
        lemma_dec_array::<i32>(v.in_sync_replicas, ver, rest);
    }

    fn put(buf: &mut Vec<u8>, v: &Self, ver: i16) {
        put_i16(buf, v.error_code);
        put_i32(buf, v.partition_id);
        put_i32(buf, v.leader);
        put_array::<i32>(buf, &v.replicas, ver);
        put_array::<i32>(buf, &v.in_sync_replicas, ver);
        assert(buf@ =~= old(buf)@ + Self::enc_spec(v@, ver));
    }

    fn parse(buf: &[u8], pos: usize, ver: i16) -> (r: Option<(Self, usize)>) {
        match parse_i16(buf, pos) {
            None => None,
            Some((error_code, p1)) => match parse_i32(buf, p1) {
                None => None,
                Some((partition_id, p2)) => match parse_i32(buf, p2) {
                    None => None,
                    Some((leader, p3)) => match parse_array::<i32>(buf, p3, ver) {
                        None => None,
                        Some((replicas, p4)) => match parse_array::<i32>(buf, p4, ver) {
                            None => None,
                            Some((in_sync_replicas, p5)) => Some(
                                (
                                    PartitionMetadata {
                                        error_code,
                                        partition_id,
                                        leader,
                                        replicas,
                                        in_sync_replicas,
                                    },
                                    p5,
                                ),
                            ),
                        },
                    },
                },
            },
        }
    }
}

/// One topic's partitions as the cluster reports them.
#[derive(Clone, Debug, PartialEq)]
pub struct TopicMetadata {
    pub error_code: i16,
    pub topic_name: Vec<u8>,
    pub partitions: Vec<PartitionMetadata>,
}

pub struct TopicMetadataView {
    pub error_code: i16,
    pub topic_name: Seq<u8>,
    pub partitions: Seq<PartitionMetadataView>,
}

impl View for TopicMetadata {
    type V = TopicMetadataView;

    open spec fn view(&self) -> TopicMetadataView {
        TopicMetadataView {
            error_code: self.error_code,
            topic_name: self.topic_name@,
            partitions: views_of(self.partitions@),
        }
    }
}

impl WireItem for TopicMetadata {
    open spec fn enc_spec(v: TopicMetadataView, ver: i16) -> Seq<u8> {
        be2(spec_i16_to_u16(v.error_code)) + enc_str(v.topic_name) + enc_array::<PartitionMetadata>(
            v.partitions,
            ver,
        )
    }

    open spec fn dec_spec(s: Seq<u8>, ver: i16) -> Option<(TopicMetadataView, Seq<u8>)> {
        match dec_i16(s) {
            Option::None => Option::None,
            Option::Some((error_code, s1)) => match dec_str(s1) {
                Option::None => Option::None,
                Option::Some((topic_name, s2)) => match dec_array::<PartitionMetadata>(s2, ver) {
                    Option::None => Option::None,
                    Option::Some((partitions, s3)) => Option::Some(
                        (TopicMetadataView { error_code, topic_name, partitions }, s3),
                    ),
                },
            },
        }
    }

    open spec fn wf_spec(v: TopicMetadataView, ver: i16) -> bool {
        &&& str_wf(v.topic_name)
        &&& array_wf::<PartitionMetadata>(v.partitions, ver)
    }

    proof fn lemma_round(v: TopicMetadataView, ver: i16, rest: Seq<u8>) {
        let arr = enc_array::<PartitionMetadata>(v.partitions, ver);
        let t2 = arr + rest;
        let t1 = enc_str(v.topic_name) + t2;
        assert(Self::enc_spec(v, ver) + rest =~= be2(spec_i16_to_u16(v.error_code)) + t1);
        lemma_dec_i16(v.error_code, t1);
        lemma_dec_str(v.topic_name, t2);
        lemma_dec_array::<PartitionMetadata>(v.partitions, ver, rest);
    }

    fn put(buf: &mut Vec<u8>, v: &Self, ver: i16) {
        put_i16(buf, v.error_code);
        put_u16_len_and_bytes(buf, &v.topic_name);
        put_array::<PartitionMetadata>(buf, &v.partitions, ver);
        assert(buf@ =~= old(buf)@ + Self::enc_spec(v@, ver));
    }

    fn parse(buf: &[u8], pos: usize, ver: i16) -> (r: Option<(Self, usize)>) {
        match parse_i16(buf, pos) {
            None => None,
            Some((error_code, p1)) => match parse_str(buf, p1) {
                None => None,
                Some((topic_name, p2)) => match parse_array::<PartitionMetadata>(buf, p2, ver) {
                    None => None,
                    Some((partitions, p3)) => Some(
                        (TopicMetadata { error_code, topic_name, partitions }, p3),
                    ),
                },
            },
        }
    }
}

/// A metadata response: the brokers, then the topics.
#[derive(Clone, Debug, PartialEq)]
pub struct MetadataResponse {
    pub header: ResponseHeader,
    pub brokers: Vec<BrokerMetadata>,
    pub topics: Vec<TopicMetadata>,
}

pub struct MetadataResponseView {
    pub header: ResponseHeader,
    pub brokers: Seq<BrokerMetadataView>,
    pub topics: Seq<TopicMetadataView>,
}

impl View for MetadataResponse {
    type V = MetadataResponseView;

    open spec fn view(&self) -> MetadataResponseView {
        MetadataResponseView {
            header: self.header,
            brokers: views_of(self.brokers@),
            topics: views_of(self.topics@),
        }
    }
}

pub open spec fn enc_metadata_response(v: MetadataResponseView) -> Seq<u8> {
    enc_response_header(v.header) + enc_array::<BrokerMetadata>(v.brokers, 0) + enc_array::<
        TopicMetadata,
    >(v.topics, 0)
}

pub open spec fn dec_metadata_response(s: Seq<u8>) -> Option<(MetadataResponseView, Seq<u8>)> {
    match dec_response_header(s) {
        Option::None => Option::None,
        Option::Some((header, s1)) => match dec_array::<BrokerMetadata>(s1, 0) {
            Option::None => Option::None,
            Option::Some((brokers, s2)) => match dec_array::<TopicMetadata>(s2, 0) {
                Option::None => Option::None,
                Option::Some((topics, s3)) => Option::Some(
                    (MetadataResponseView { header, brokers, topics }, s3),
                ),
            },
        },
    }
}

pub open spec fn metadata_response_wf(v: MetadataResponseView) -> bool {
    &&& array_wf::<BrokerMetadata>(v.brokers, 0)
    &&& array_wf::<TopicMetadata>(v.topics, 0)
}

/// Decoding a metadata response inverts encoding it.
pub proof fn lemma_dec_metadata_response(v: MetadataResponseView, rest: Seq<u8>)
    requires
        metadata_response_wf(v),
    ensures
        dec_metadata_response(enc_metadata_response(v) + rest) == Some((v, rest)),
{
    let ba = enc_array::<BrokerMetadata>(v.brokers, 0);
    let ta = enc_array::<TopicMetadata>(v.topics, 0);
    let t1 = ba + (ta + rest);
    assert(enc_metadata_response(v) + rest =~= enc_response_header(v.header) + t1);
    lemma_dec_response_header(v.header, t1);
    lemma_dec_array::<BrokerMetadata>(v.brokers, 0, ta + rest);
    lemma_dec_array::<TopicMetadata>(v.topics, 0, rest);
}

/// Encodes a whole metadata response.
pub fn encode_metadata_response(r: &MetadataResponse) -> (out: Vec<u8>)
    requires
        metadata_response_wf(r@),
    ensures
        out@ == enc_metadata_response(r@),
{
    let mut buf: Vec<u8> = Vec::new();
    put_response_header(&mut buf, &r.header);
    put_array::<BrokerMetadata>(&mut buf, &r.brokers, 0);
    put_array::<TopicMetadata>(&mut buf, &r.topics, 0);
    assert(buf@ =~= enc_metadata_response(r@));
    buf
}

/// Reads a whole metadata response at the cursor.
pub fn parse_metadata_response(buf: &[u8], pos: usize) -> (r: Option<(MetadataResponse, usize)>)
    requires
        pos <= buf@.len(),
    ensures
        match r {
            Some((v, end)) => {
                &&& pos <= end <= buf@.len()
                &&& dec_metadata_response(tail_from(buf@, pos as int)) == Some(
                    (v@, tail_from(buf@, end as int)),
                )
            },
            None => dec_metadata_response(tail_from(buf@, pos as int)) is None,
        },
{
    match parse_response_header(buf, pos) {
        None => None,
        Some((header, p1)) => match parse_array::<BrokerMetadata>(buf, p1, 0) {
            None => None,
            Some((brokers, p2)) => match parse_array::<TopicMetadata>(buf, p2, 0) {
                None => None,
                Some((topics, p3)) => Some((MetadataResponse { header, brokers, topics }, p3)),
            },
        },
    }
}

} // verus!
