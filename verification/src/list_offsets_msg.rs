//! The list-offsets request and response. Version 0 asks for a bounded list
//! of offsets per partition; version 1 answers with one timestamped offset.
use vstd::prelude::*;

use crate::codec_util::{
    array_wf, dec_array, enc_array, lemma_dec_array, parse_array, put_array, views_of, WireItem,
};
use crate::header::{
    dec_header, dec_response_header, enc_header, enc_response_header, lemma_dec_header,
    lemma_dec_response_header, parse_response_header, put_header, put_response_header,
    RequestHeader, RequestHeaderView, ResponseHeader,
};
use crate::produce::{parse_str, put_u16_len_and_bytes};
use crate::wire::{
    be2, be4, be8, dec_i16, dec_i32, dec_i64, dec_str, enc_str, lemma_dec_i16, lemma_dec_i32,
    lemma_dec_i64, lemma_dec_str, parse_i16, parse_i32, parse_i64, put_i16, put_i32, put_i64,
    spec_i16_to_u16, spec_i32_to_u32, spec_i64_to_u64, str_wf, tail_from,
};

verus! {

// ---------------------------------------------------------------------------
// Request.
// ---------------------------------------------------------------------------

/// One partition asked about: the target timestamp and, under version 0, how
/// many offsets may come back.
#[derive(Clone, Copy, Debug, PartialEq, Eq)]
pub struct ListOffsetsPartition {
    pub partition: i32,
    pub timestamp: i64,
    pub max_number_of_offsets: Option<i32>,
}

impl View for ListOffsetsPartition {
    type V = ListOffsetsPartition;

    open spec fn view(&self) -> ListOffsetsPartition {
        *self
    }
}

pub open spec fn max_offsets_val(v: ListOffsetsPartition) -> i32 {
    match v.max_number_of_offsets {
        Option::None => 0,
        Option::Some(n) => n,
    }
}

impl WireItem for ListOffsetsPartition {
    open spec fn enc_spec(v: ListOffsetsPartition, ver: i16) -> Seq<u8> {
        let tail: Seq<u8> = if ver == 0 {
            be4(spec_i32_to_u32(max_offsets_val(v)))
        } else {
            Seq::empty()
        };
        be4(spec_i32_to_u32(v.partition)) + be8(spec_i64_to_u64(v.timestamp)) + tail
    }

    open spec fn dec_spec(s: Seq<u8>, ver: i16) -> Option<(ListOffsetsPartition, Seq<u8>)> {
        match dec_i32(s) {
            Option::None => Option::None,
            Option::Some((partition, s1)) => match dec_i64(s1) {
                Option::None => Option::None,
                Option::Some((timestamp, s2)) => {
                    if ver == 0 {
                        match dec_i32(s2) {
                            Option::None => Option::None,
                            Option::Some((n, s3)) => Option::Some(
                                (
                                    ListOffsetsPartition {
                                        partition,
                                        timestamp,
                                        max_number_of_offsets: Option::Some(n),
                                    },
                                    s3,
                                ),
                            ),
                        }
                    } else {
                        Option::Some(
                            (
                                ListOffsetsPartition {
                                    partition,
                                    timestamp,
                                    max_number_of_offsets: Option::None,
                                },
                                s2,
                            ),
                        )
                    }
                },
            },
        }
    }

    open spec fn wf_spec(v: ListOffsetsPartition, ver: i16) -> bool {
        v.max_number_of_offsets is Some <==> ver == 0
    }

    proof fn lemma_round(v: ListOffsetsPartition, ver: i16, rest: Seq<u8>) {
        let tail: Seq<u8> = if ver == 0 {
            be4(spec_i32_to_u32(max_offsets_val(v)))
        } else {
            Seq::empty()
        };
        let t1 = be8(spec_i64_to_u64(v.timestamp)) + (tail + rest);
        assert(Self::enc_spec(v, ver) + rest =~= be4(spec_i32_to_u32(v.partition)) + t1);
        lemma_dec_i32(v.partition, t1);
        lemma_dec_i64(v.timestamp, tail + rest);
        if ver == 0 {
            assert(tail + rest =~= be4(spec_i32_to_u32(max_offsets_val(v))) + rest);
            lemma_dec_i32(max_offsets_val(v), rest);
            assert(v.max_number_of_offsets == Some(max_offsets_val(v)));
        } else {
            assert(tail + rest =~= rest);
            assert(v.max_number_of_offsets is None);
        }
    }

    fn put(buf: &mut Vec<u8>, v: &Self, ver: i16) {
        put_i32(buf, v.partition);
        put_i64(buf, v.timestamp);
        if ver == 0 {
            match v.max_number_of_offsets {
                Some(n) => put_i32(buf, n),
                None => put_i32(buf, 0),
            }
        }
        assert(buf@ =~= old(buf)@ + Self::enc_spec(v@, ver));
    }

    fn parse(buf: &[u8], pos: usize, ver: i16) -> (r: Option<(Self, usize)>) {
        match parse_i32(buf, pos) {
            None => None,
            Some((partition, p1)) => match parse_i64(buf, p1) {
                None => None,
                Some((timestamp, p2)) => {
                    if ver == 0 {
                        match parse_i32(buf, p2) {
                            None => None,
                            Some((n, p3)) => Some(
                                (
                                    ListOffsetsPartition {
                                        partition,
                                        timestamp,
                                        max_number_of_offsets: Some(n),
                                    },
                                    p3,
                                ),
                            ),
                        }
                    } else {
                        Some(
                            (
                                ListOffsetsPartition {
                                    partition,
                                    timestamp,
                                    max_number_of_offsets: None,
                                },
                                p2,
                            ),
                        )
                    }
                },
            },
        }
    }
}

/// One topic asked about.
#[derive(Clone, Debug, PartialEq)]
pub struct ListOffsetsTopic {
    pub topic_name: Vec<u8>,
    pub partitions: Vec<ListOffsetsPartition>,
}

pub struct ListOffsetsTopicView {
    pub topic_name: Seq<u8>,
    pub partitions: Seq<ListOffsetsPartition>,
}

impl View for ListOffsetsTopic {
    type V = ListOffsetsTopicView;

    open spec fn view(&self) -> ListOffsetsTopicView {
        ListOffsetsTopicView {
            topic_name: self.topic_name@,
            partitions: views_of(self.partitions@),
        }
    }
}

impl WireItem for ListOffsetsTopic {
    open spec fn enc_spec(v: ListOffsetsTopicView, ver: i16) -> Seq<u8> {
        enc_str(v.topic_name) + enc_array::<ListOffsetsPartition>(v.partitions, ver)
    }

    open spec fn dec_spec(s: Seq<u8>, ver: i16) -> Option<(ListOffsetsTopicView, Seq<u8>)> {
        match dec_str(s) {
            Option::None => Option::None,
            Option::Some((topic_name, s1)) => match dec_array::<ListOffsetsPartition>(s1, ver) {
                Option::None => Option::None,
                Option::Some((partitions, s2)) => Option::Some(
                    (ListOffsetsTopicView { topic_name, partitions }, s2),
                ),
            },
        }
    }

    open spec fn wf_spec(v: ListOffsetsTopicView, ver: i16) -> bool {
        &&& str_wf(v.topic_name)
        &&& array_wf::<ListOffsetsPartition>(v.partitions, ver)
    }

    proof fn lemma_round(v: ListOffsetsTopicView, ver: i16, rest: Seq<u8>) {
        let arr = enc_array::<ListOffsetsPartition>(v.partitions, ver);
        assert(Self::enc_spec(v, ver) + rest =~= enc_str(v.topic_name) + (arr + rest));
        lemma_dec_str(v.topic_name, arr + rest);
        lemma_dec_array::<ListOffsetsPartition>(v.partitions, ver, rest);
    }

    fn put(buf: &mut Vec<u8>, v: &Self, ver: i16) {
        put_u16_len_and_bytes(buf, &v.topic_name);
        put_array::<ListOffsetsPartition>(buf, &v.partitions, ver);
        assert(buf@ =~= old(buf)@ + Self::enc_spec(v@, ver));
    }

    fn parse(buf: &[u8], pos: usize, ver: i16) -> (r: Option<(Self, usize)>) {
        match parse_str(buf, pos) {
            None => None,
            Some((topic_name, p1)) => match parse_array::<ListOffsetsPartition>(buf, p1, ver) {
                None => None,
                Some((partitions, p2)) => Some((ListOffsetsTopic { topic_name, partitions }, p2)),
            },
        }
    }
}

/// A list-offsets request: the replica id (always -1 from a client) and the
/// topics asked about.
#[derive(Clone, Debug, PartialEq)]
pub struct ListOffsetsRequest {
    pub header: RequestHeader,
    pub replica_id: i32,
    pub topics: Vec<ListOffsetsTopic>,
}

pub struct ListOffsetsRequestView {
    pub header: RequestHeaderView,
    pub replica_id: i32,
    pub topics: Seq<ListOffsetsTopicView>,
}

impl View for ListOffsetsRequest {
    type V = ListOffsetsRequestView;

    open spec fn view(&self) -> ListOffsetsRequestView {
        ListOffsetsRequestView {
            header: self.header@,
            replica_id: self.replica_id,
            topics: views_of(self.topics@),
        }
    }
}

pub open spec fn enc_list_offsets_request(v: ListOffsetsRequestView, ver: i16) -> Seq<u8> {
    enc_header(v.header) + be4(spec_i32_to_u32(v.replica_id)) + enc_array::<ListOffsetsTopic>(
        v.topics,
        ver,
    )
}

pub open spec fn dec_list_offsets_request(s: Seq<u8>, ver: i16) -> Option<
    (ListOffsetsRequestView, Seq<u8>),
> {
    match dec_header(s) {
        Option::None => Option::None,
        Option::Some((header, s1)) => match dec_i32(s1) {
            Option::None => Option::None,
            Option::Some((replica_id, s2)) => match dec_array::<ListOffsetsTopic>(s2, ver) {
                Option::None => Option::None,
                Option::Some((topics, s3)) => Option::Some(
                    (ListOffsetsRequestView { header, replica_id, topics }, s3),
                ),
            },
        },
    }
}

pub open spec fn list_offsets_request_wf(v: ListOffsetsRequestView, ver: i16) -> bool {
    &&& v.header.wf()
    &&& array_wf::<ListOffsetsTopic>(v.topics, ver)
}

/// Decoding a list-offsets request inverts encoding it.
pub proof fn lemma_dec_list_offsets_request(v: ListOffsetsRequestView, ver: i16, rest: Seq<u8>)
    requires
        list_offsets_request_wf(v, ver),
    ensures
        dec_list_offsets_request(enc_list_offsets_request(v, ver) + rest, ver) == Some((v, rest)),
{
    let arr = enc_array::<ListOffsetsTopic>(v.topics, ver);
    let t1 = be4(spec_i32_to_u32(v.replica_id)) + (arr + rest);
    assert(enc_list_offsets_request(v, ver) + rest =~= enc_header(v.header) + t1);
    lemma_dec_header(v.header, t1);
    lemma_dec_i32(v.replica_id, arr + rest);
    lemma_dec_array::<ListOffsetsTopic>(v.topics, ver, rest);
}

/// Encodes a whole list-offsets request.
pub fn encode_list_offsets_request(r: &ListOffsetsRequest, ver: i16) -> (out: Vec<u8>)
    requires
        list_offsets_request_wf(r@, ver),
    ensures
        out@ == enc_list_offsets_request(r@, ver),
{
    let mut buf: Vec<u8> = Vec::new();
    put_header(&mut buf, &r.header);
    put_i32(&mut buf, r.replica_id);
    put_array::<ListOffsetsTopic>(&mut buf, &r.topics, ver);
    assert(buf@ =~= enc_list_offsets_request(r@, ver));
    buf
}

// ---------------------------------------------------------------------------
// Response.
// ---------------------------------------------------------------------------

/// The broker's answer for one partition. Version 0 returns a list of
/// offsets; version 1 returns one timestamped offset, held here as a
/// single-element list.
#[derive(Clone, Debug, PartialEq)]
pub struct PartitionOffsetData {
    pub partition: i32,
    pub error_code: i16,
    pub timestamp: Option<i64>,
    pub offsets: Vec<i64>,
}

pub struct PartitionOffsetDataView {
    pub partition: i32,
    pub error_code: i16,
    pub timestamp: Option<i64>,
    pub offsets: Seq<i64>,
}

impl View for PartitionOffsetData {
    type V = PartitionOffsetDataView;

    open spec fn view(&self) -> PartitionOffsetDataView {
        PartitionOffsetDataView {
            partition: self.partition,
            error_code: self.error_code,
            timestamp: self.timestamp,
            offsets: self.offsets@,
        }
    }
}

pub open spec fn pod_ts_val(v: PartitionOffsetDataView) -> i64 {
    match v.timestamp {
        Option::None => 0,
        Option::Some(t) => t,
    }
}

impl WireItem for i64 {
    open spec fn enc_spec(v: i64, ver: i16) -> Seq<u8> {
        be8(spec_i64_to_u64(v))
    }

    open spec fn dec_spec(s: Seq<u8>, ver: i16) -> Option<(i64, Seq<u8>)> {
        dec_i64(s)
    }

    open spec fn wf_spec(v: i64, ver: i16) -> bool {
        true
    }

    proof fn lemma_round(v: i64, ver: i16, rest: Seq<u8>) {
        lemma_dec_i64(v, rest);
    }

    fn put(buf: &mut Vec<u8>, v: &Self, ver: i16) {
        put_i64(buf, *v);
    }

    fn parse(buf: &[u8], pos: usize, ver: i16) -> (r: Option<(Self, usize)>) {
        parse_i64(buf, pos)
    }
}

impl WireItem for PartitionOffsetData {
    open spec fn enc_spec(v: PartitionOffsetDataView, ver: i16) -> Seq<u8> {
        let tail: Seq<u8> = if ver >= 1 {
            be8(spec_i64_to_u64(pod_ts_val(v))) + be8(spec_i64_to_u64(pod_first_offset(v)))
        } else {
            enc_array::<i64>(v.offsets, ver)
        };
        be4(spec_i32_to_u32(v.partition)) + be2(spec_i16_to_u16(v.error_code)) + tail
    }

    open spec fn dec_spec(s: Seq<u8>, ver: i16) -> Option<(PartitionOffsetDataView, Seq<u8>)> {
        match dec_i32(s) {
            Option::None => Option::None,
            Option::Some((partition, s1)) => match dec_i16(s1) {
                Option::None => Option::None,
                Option::Some((error_code, s2)) => {
                    if ver >= 1 {
                        match dec_i64(s2) {
                            Option::None => Option::None,
                            Option::Some((t, s3)) => match dec_i64(s3) {
                                Option::None => Option::None,
                                Option::Some((o, s4)) => Option::Some(
                                    (
                                        PartitionOffsetDataView {
                                            partition,
                                            error_code,
                                            timestamp: Option::Some(t),
                                            offsets: seq![o],
                                        },
                                        s4,
                                    ),
                                ),
                            },
                        }
                    } else {
                        match dec_array::<i64>(s2, ver) {
                            Option::None => Option::None,
                            Option::Some((offsets, s3)) => Option::Some(
                                (
                                    PartitionOffsetDataView {
                                        partition,
                                        error_code,
                                        timestamp: Option::None,
                                        offsets,
                                    },
                                    s3,
                                ),
                            ),
                        }
                    }
                },
            },
        }
    }

    open spec fn wf_spec(v: PartitionOffsetDataView, ver: i16) -> bool {
        &&& (v.timestamp is Some <==> ver >= 1)
        &&& (ver >= 1 ==> v.offsets.len() == 1)
        &&& v.offsets.len() <= 0x7fff_ffff
    }

    proof fn lemma_round(v: PartitionOffsetDataView, ver: i16, rest: Seq<u8>) {
        let tail: Seq<u8> = if ver >= 1 {
            be8(spec_i64_to_u64(pod_ts_val(v))) + be8(spec_i64_to_u64(pod_first_offset(v)))
        } else {
            enc_array::<i64>(v.offsets, ver)
        };
        let t1 = be2(spec_i16_to_u16(v.error_code)) + (tail + rest);
        assert(Self::enc_spec(v, ver) + rest =~= be4(spec_i32_to_u32(v.partition)) + t1);
        lemma_dec_i32(v.partition, t1);
        lemma_dec_i16(v.error_code, tail + rest);
        if ver >= 1 {
            let t2 = be8(spec_i64_to_u64(pod_first_offset(v))) + rest;
            assert(tail + rest =~= be8(spec_i64_to_u64(pod_ts_val(v))) + t2);
            lemma_dec_i64(pod_ts_val(v), t2);
            lemma_dec_i64(pod_first_offset(v), rest);
            assert(v.timestamp == Some(pod_ts_val(v)));
            assert(seq![pod_first_offset(v)] =~= v.offsets);
        } else {
            assert(tail + rest =~= enc_array::<i64>(v.offsets, ver) + rest);
            lemma_dec_array::<i64>(v.offsets, ver, rest);
            assert(v.timestamp is None);
        }
    }

    fn put(buf: &mut Vec<u8>, v: &Self, ver: i16) {
        put_i32(buf, v.partition);
        put_i16(buf, v.error_code);
        if ver >= 1 {
            match v.timestamp {
                Some(t) => put_i64(buf, t),
                None => put_i64(buf, 0),
            }
            let o = v.offsets[0];
            put_i64(buf, o);
            proof {
                assert(pod_first_offset(v@) == o);
            }
        } else {
            put_array::<i64>(buf, &v.offsets, ver);
            proof {
                assert(views_of(v.offsets@) =~= v.offsets@);
            }
        }
        assert(buf@ =~= old(buf)@ + Self::enc_spec(v@, ver));
    }

    fn parse(buf: &[u8], pos: usize, ver: i16) -> (r: Option<(Self, usize)>) {
        match parse_i32(buf, pos) {
            None => None,
            Some((partition, p1)) => match parse_i16(buf, p1) {
                None => None,
                Some((error_code, p2)) => {
                    if ver >= 1 {
                        match parse_i64(buf, p2) {
                            None => None,
                            Some((t, p3)) => match parse_i64(buf, p3) {
                                None => None,
                                Some((o, p4)) => {
                                    let mut offsets: Vec<i64> = Vec::new();
                                    offsets.push(o);
                                    proof {
                                        assert(offsets@ =~= seq![o]);
                                    }
                                    Some(
                                        (
                                            PartitionOffsetData {
                                                partition,
                                                error_code,
                                                timestamp: Some(t),
                                                offsets,
                                            },
                                            p4,
                                        ),
                                    )
                                },
                            },
                        }
                    } else {
                        match parse_array::<i64>(buf, p2, ver) {
                            None => None,
                            Some((offsets, p3)) => {
                                proof {
                                    assert(crate::codec_util::views_of(offsets@) =~= offsets@);
                                }
                                Some(
                                    (
                                        PartitionOffsetData {
                                            partition,
                                            error_code,
                                            timestamp: None,
                                            offsets,
                                        },
                                        p3,
                                    ),
                                )
                            },
                        }
                    }
                },
            },
        }
    }
}

pub open spec fn pod_first_offset(v: PartitionOffsetDataView) -> i64 {
    if v.offsets.len() >= 1 {
        v.offsets[0]
    } else {
        0
    }
}

/// The broker's answers for one topic.
#[derive(Clone, Debug, PartialEq)]
pub struct TopicOffsetData {
    pub topic_name: Vec<u8>,
    pub partitions: Vec<PartitionOffsetData>,
}

pub struct TopicOffsetDataView {
    pub topic_name: Seq<u8>,
    pub partitions: Seq<PartitionOffsetDataView>,
}

impl View for TopicOffsetData {
    type V = TopicOffsetDataView;

    open spec fn view(&self) -> TopicOffsetDataView {
        TopicOffsetDataView {
            topic_name: self.topic_name@,
            partitions: views_of(self.partitions@),
        }
    }
}

impl WireItem for TopicOffsetData {
    open spec fn enc_spec(v: TopicOffsetDataView, ver: i16) -> Seq<u8> {
        enc_str(v.topic_name) + enc_array::<PartitionOffsetData>(v.partitions, ver)
    }

    open spec fn dec_spec(s: Seq<u8>, ver: i16) -> Option<(TopicOffsetDataView, Seq<u8>)> {
        match dec_str(s) {
            Option::None => Option::None,
            Option::Some((topic_name, s1)) => match dec_array::<PartitionOffsetData>(s1, ver) {
                Option::None => Option::None,
                Option::Some((partitions, s2)) => Option::Some(
                    (TopicOffsetDataView { topic_name, partitions }, s2),
                ),
            },
        }
    }

    open spec fn wf_spec(v: TopicOffsetDataView, ver: i16) -> bool {
        &&& str_wf(v.topic_name)
        &&& array_wf::<PartitionOffsetData>(v.partitions, ver)
    }

    proof fn lemma_round(v: TopicOffsetDataView, ver: i16, rest: Seq<u8>) {
        let arr = enc_array::<PartitionOffsetData>(v.partitions, ver);
        assert(Self::enc_spec(v, ver) + rest =~= enc_str(v.topic_name) + (arr + rest));
        lemma_dec_str(v.topic_name, arr + rest);
        lemma_dec_array::<PartitionOffsetData>(v.partitions, ver, rest);
    }

    fn put(buf: &mut Vec<u8>, v: &Self, ver: i16) {
        put_u16_len_and_bytes(buf, &v.topic_name);
        put_array::<PartitionOffsetData>(buf, &v.partitions, ver);
        assert(buf@ =~= old(buf)@ + Self::enc_spec(v@, ver));
    }

    fn parse(buf: &[u8], pos: usize, ver: i16) -> (r: Option<(Self, usize)>) {
        match parse_str(buf, pos) {
            None => None,
            Some((topic_name, p1)) => match parse_array::<PartitionOffsetData>(buf, p1, ver) {
                None => None,
                Some((partitions, p2)) => Some((TopicOffsetData { topic_name, partitions }, p2)),
            },
        }
    }
}

/// A list-offsets response.
#[derive(Clone, Debug, PartialEq)]
pub struct ListOffsetsResponse {
    pub header: ResponseHeader,
    pub topics: Vec<TopicOffsetData>,
}

pub struct ListOffsetsResponseView {
    pub header: ResponseHeader,
    pub topics: Seq<TopicOffsetDataView>,
}

impl View for ListOffsetsResponse {
    type V = ListOffsetsResponseView;

    open spec fn view(&self) -> ListOffsetsResponseView {
        ListOffsetsResponseView { header: self.header, topics: views_of(self.topics@) }
    }
}

pub open spec fn enc_list_offsets_response(v: ListOffsetsResponseView, ver: i16) -> Seq<u8> {
    enc_response_header(v.header) + enc_array::<TopicOffsetData>(v.topics, ver)
}

pub open spec fn dec_list_offsets_response(s: Seq<u8>, ver: i16) -> Option<
    (ListOffsetsResponseView, Seq<u8>),
> {
    match dec_response_header(s) {
        Option::None => Option::None,
        Option::Some((header, s1)) => match dec_array::<TopicOffsetData>(s1, ver) {
            Option::None => Option::None,
            Option::Some((topics, s2)) => Option::Some(
                (ListOffsetsResponseView { header, topics }, s2),
            ),
        },
    }
}

pub open spec fn list_offsets_response_wf(v: ListOffsetsResponseView, ver: i16) -> bool {
    array_wf::<TopicOffsetData>(v.topics, ver)
}

/// Decoding a list-offsets response inverts encoding it.
pub proof fn lemma_dec_list_offsets_response(v: ListOffsetsResponseView, ver: i16, rest: Seq<u8>)
    requires
        list_offsets_response_wf(v, ver),
    ensures
        dec_list_offsets_response(enc_list_offsets_response(v, ver) + rest, ver) == Some(
            (v, rest),
        ),
{
    let arr = enc_array::<TopicOffsetData>(v.topics, ver);
    assert(enc_list_offsets_response(v, ver) + rest =~= enc_response_header(v.header) + (arr
        + rest));
    lemma_dec_response_header(v.header, arr + rest);
    lemma_dec_array::<TopicOffsetData>(v.topics, ver, rest);
}

/// Encodes a whole list-offsets response.
pub fn encode_list_offsets_response(r: &ListOffsetsResponse, ver: i16) -> (out: Vec<u8>)
    requires
        list_offsets_response_wf(r@, ver),
    ensures
        out@ == enc_list_offsets_response(r@, ver),
{
    let mut buf: Vec<u8> = Vec::new();
    put_response_header(&mut buf, &r.header);
    put_array::<TopicOffsetData>(&mut buf, &r.topics, ver);
    assert(buf@ =~= enc_list_offsets_response(r@, ver));
    buf
}

/// Reads a whole list-offsets response at the cursor.
pub fn parse_list_offsets_response(buf: &[u8], pos: usize, ver: i16) -> (r: Option<
    (ListOffsetsResponse, usize),
>)
    requires
        pos <= buf@.len(),
    ensures
        match r {
            Some((v, end)) => {
                &&& pos <= end <= buf@.len()
                &&& dec_list_offsets_response(tail_from(buf@, pos as int), ver) == Some(
                    (v@, tail_from(buf@, end as int)),
                )
            },
            None => dec_list_offsets_response(tail_from(buf@, pos as int), ver) is None,
        },
{
    match parse_response_header(buf, pos) {
        None => None,
        Some((header, p1)) => match parse_array::<TopicOffsetData>(buf, p1, ver) {
            None => None,
            Some((topics, p2)) => Some((ListOffsetsResponse { header, topics }, p2)),
        },
    }
}

} // verus!
