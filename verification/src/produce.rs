//! The produce request and response: topic data carrying message sets on the
//! way out, per-partition status with base offsets on the way back.
use vstd::prelude::*;

use crate::codec_util::{
    array_wf, dec_array, dec_join, enc_array, lemma_dec_array, parse_array, put_array, views_of,
    WireItem,
};
use crate::header::{
    dec_header, dec_response_header, enc_header, enc_response_header, lemma_dec_header,
    lemma_dec_response_header, parse_header, parse_nstr, parse_response_header, put_header,
    put_nstr, RequestHeader, RequestHeaderView, ResponseHeader,
};
use crate::message_set::{
    dec_message_set, enc_message_set, lemma_dec_message_set, message_set_ts_matches,
    message_set_wf, parse_message_set, put_message_set, spec_magic_of, magic_of, Compression,
    MessageSet, MessageView,
};
use crate::wire::{
    be2, be4, dec_i16, dec_i32, dec_i64, dec_list, dec_str, dec_u32, enc_list, enc_str,
    lemma_dec_i16, lemma_dec_i32, lemma_dec_i64, lemma_dec_list_enc, lemma_dec_str, lemma_dec_u32,
    lemma_enc_list_snoc, parse_i16, parse_i32, parse_i64, parse_u32, put_i16, put_i32, put_i64,
    put_u32, spec_i16_to_u16, spec_i32_to_u32, spec_i64_to_u64, str_wf, tail_from, MAX_STR_LEN,
};

verus! {

// ---------------------------------------------------------------------------
// Request structures.
// ---------------------------------------------------------------------------

/// The message set bound for one partition of a produce request.
#[derive(Clone, Debug, PartialEq)]
pub struct ProducePartitionData {
    pub partition: i32,
    pub message_set: MessageSet,
}

pub struct ProducePartitionDataView {
    pub partition: i32,
    pub message_set: Seq<MessageView>,
}

impl View for ProducePartitionData {
    type V = ProducePartitionDataView;

    open spec fn view(&self) -> ProducePartitionDataView {
        ProducePartitionDataView { partition: self.partition, message_set: self.message_set@ }
    }
}

/// The partitions written to under one topic.
#[derive(Clone, Debug, PartialEq)]
pub struct ProduceTopicData {
    pub topic_name: Vec<u8>,
    pub partitions: Vec<ProducePartitionData>,
}

pub struct ProduceTopicDataView {
    pub topic_name: Seq<u8>,
    pub partitions: Seq<ProducePartitionDataView>,
}

impl View for ProduceTopicData {
    type V = ProduceTopicDataView;

    open spec fn view(&self) -> ProduceTopicDataView {
        ProduceTopicDataView {
            topic_name: self.topic_name@,
            partitions: views_of(self.partitions@),
        }
    }
}

/// A produce request: acks policy, broker-side timeout, and the topic data.
#[derive(Clone, Debug, PartialEq)]
pub struct ProduceRequest {
    pub header: RequestHeader,
    pub required_acks: i16,
    pub timeout: i32,
    pub topics: Vec<ProduceTopicData>,
}

pub struct ProduceRequestView {
    pub header: RequestHeaderView,
    pub required_acks: i16,
    pub timeout: i32,
    pub topics: Seq<ProduceTopicDataView>,
}

impl View for ProduceRequest {
    type V = ProduceRequestView;

    open spec fn view(&self) -> ProduceRequestView {
        ProduceRequestView {
            header: self.header@,
            required_acks: self.required_acks,
            timeout: self.timeout,
            topics: views_of(self.topics@),
        }
    }
}

// ---------------------------------------------------------------------------
// Request spec codec.
// ---------------------------------------------------------------------------

pub open spec fn enc_ppd(
    p: ProducePartitionDataView,
    offset: i64,
    magic: u8,
    comp: Compression,
) -> Seq<u8> {
    be4(spec_i32_to_u32(p.partition)) + enc_message_set(p.message_set, offset, magic, comp)
}

pub open spec fn enc_ppd_fn(offset: i64, magic: u8, comp: Compression) -> spec_fn(
    ProducePartitionDataView,
) -> Seq<u8> {
    |p: ProducePartitionDataView| enc_ppd(p, offset, magic, comp)
}

pub open spec fn dec_ppd(s: Seq<u8>) -> Option<(ProducePartitionDataView, Seq<u8>)> {
    match dec_i32(s) {
        Option::None => Option::None,
        Option::Some((partition, s1)) => match dec_message_set(s1) {
            Option::None => Option::None,
            Option::Some((message_set, s2)) => Option::Some(
                (ProducePartitionDataView { partition, message_set }, s2),
            ),
        },
    }
}

pub open spec fn dec_ppd_fn() -> spec_fn(Seq<u8>) -> Option<(ProducePartitionDataView, Seq<u8>)> {
    |s: Seq<u8>| dec_ppd(s)
}

pub open spec fn ppd_wf(p: ProducePartitionDataView, magic: u8) -> bool {
    message_set_wf(p.message_set, magic)
}

pub open spec fn ppd_ts_matches(p: ProducePartitionDataView, magic: u8) -> bool {
    message_set_ts_matches(p.message_set, magic)
}

/// Whether one partition's set fits the wire under the given compression.
pub open spec fn ppd_encodable(p: ProducePartitionDataView, magic: u8, comp: Compression) -> bool {
    crate::message_set::set_encodable(p.message_set, magic, comp)
}

pub open spec fn ptd_encodable(t: ProduceTopicDataView, magic: u8, comp: Compression) -> bool {
    forall|i: int| 0 <= i < t.partitions.len() ==> ppd_encodable(
        #[trigger] t.partitions[i],
        magic,
        comp,
    )
}

pub open spec fn produce_request_encodable(
    r: ProduceRequestView,
    magic: u8,
    comp: Compression,
) -> bool {
    forall|i: int| 0 <= i < r.topics.len() ==> ptd_encodable(#[trigger] r.topics[i], magic, comp)
}

pub proof fn lemma_dec_ppd(
    p: ProducePartitionDataView,
    offset: i64,
    magic: u8,
    comp: Compression,
    rest: Seq<u8>,
)
    requires
        ppd_wf(p, magic),
        ppd_ts_matches(p, magic),
        magic <= 1,
        comp != Compression::Gzip,
    ensures
        dec_ppd(enc_ppd(p, offset, magic, comp) + rest) == Some((p, rest)),
{
    let ms_enc = enc_message_set(p.message_set, offset, magic, comp);
    assert(enc_ppd(p, offset, magic, comp) + rest =~= be4(spec_i32_to_u32(p.partition)) + (ms_enc
        + rest));
    lemma_dec_i32(p.partition, ms_enc + rest);
    lemma_dec_message_set(p.message_set, offset, magic, comp, rest);
}

pub open spec fn enc_ptd(
    t: ProduceTopicDataView,
    offset: i64,
    magic: u8,
    comp: Compression,
) -> Seq<u8> {
    enc_str(t.topic_name) + be4(t.partitions.len() as u32) + enc_list(
        t.partitions,
        enc_ppd_fn(offset, magic, comp),
    )
}

pub open spec fn enc_ptd_fn(offset: i64, magic: u8, comp: Compression) -> spec_fn(
    ProduceTopicDataView,
) -> Seq<u8> {
    |t: ProduceTopicDataView| enc_ptd(t, offset, magic, comp)
}

pub open spec fn dec_ptd(s: Seq<u8>) -> Option<(ProduceTopicDataView, Seq<u8>)> {
    match dec_str(s) {
        Option::None => Option::None,
        Option::Some((topic_name, s1)) => match dec_u32(s1) {
            Option::None => Option::None,
            Option::Some((n, s2)) => {
                if n > 0x7fff_ffff {
                    Option::None
                } else {
                    match dec_list(s2, n as nat, dec_ppd_fn()) {
                        Option::None => Option::None,
                        Option::Some((partitions, s3)) => Option::Some(
                            (ProduceTopicDataView { topic_name, partitions }, s3),
                        ),
                    }
                }
            },
        },
    }
}

pub open spec fn dec_ptd_fn() -> spec_fn(Seq<u8>) -> Option<(ProduceTopicDataView, Seq<u8>)> {
    |s: Seq<u8>| dec_ptd(s)
}

pub open spec fn ptd_wf(t: ProduceTopicDataView, magic: u8) -> bool {
    &&& str_wf(t.topic_name)
    &&& t.partitions.len() <= 0x7fff_ffff
    &&& forall|i: int| 0 <= i < t.partitions.len() ==> ppd_wf(#[trigger] t.partitions[i], magic)
}

pub open spec fn ptd_ts_matches(t: ProduceTopicDataView, magic: u8) -> bool {
    forall|i: int| 0 <= i < t.partitions.len() ==> ppd_ts_matches(
        #[trigger] t.partitions[i],
        magic,
    )
}

pub proof fn lemma_dec_ptd(
    t: ProduceTopicDataView,
    offset: i64,
    magic: u8,
    comp: Compression,
    rest: Seq<u8>,
)
    requires
        ptd_wf(t, magic),
        ptd_ts_matches(t, magic),
        magic <= 1,
        comp != Compression::Gzip,
    ensures
        dec_ptd(enc_ptd(t, offset, magic, comp) + rest) == Some((t, rest)),
{
    let n = t.partitions.len() as u32;
    let body = enc_list(t.partitions, enc_ppd_fn(offset, magic, comp));
    assert(enc_ptd(t, offset, magic, comp) + rest =~= enc_str(t.topic_name) + (be4(n) + (body
        + rest)));
    lemma_dec_str(t.topic_name, be4(n) + (body + rest));
    lemma_dec_u32(n, body + rest);
    assert forall|j: int, r: Seq<u8>| 0 <= j < t.partitions.len() implies dec_ppd_fn()(
        #[trigger] (enc_ppd_fn(offset, magic, comp)(t.partitions[j]) + r),
    ) == Some((t.partitions[j], r)) by {
        lemma_dec_ppd(t.partitions[j], offset, magic, comp, r);
    }
    lemma_dec_list_enc(t.partitions, rest, enc_ppd_fn(offset, magic, comp), dec_ppd_fn());
}

pub open spec fn enc_produce_request(
    r: ProduceRequestView,
    offset: i64,
    magic: u8,
    comp: Compression,
) -> Seq<u8> {
    enc_header(r.header) + be2(spec_i16_to_u16(r.required_acks)) + be4(
        spec_i32_to_u32(r.timeout),
    ) + be4(r.topics.len() as u32) + enc_list(r.topics, enc_ptd_fn(offset, magic, comp))
}

pub open spec fn dec_produce_request(s: Seq<u8>) -> Option<(ProduceRequestView, Seq<u8>)> {
    match dec_header(s) {
        Option::None => Option::None,
        Option::Some((header, s1)) => match dec_i16(s1) {
            Option::None => Option::None,
            Option::Some((required_acks, s2)) => match dec_i32(s2) {
                Option::None => Option::None,
                Option::Some((timeout, s3)) => match dec_u32(s3) {
                    Option::None => Option::None,
                    Option::Some((n, s4)) => {
                        if n > 0x7fff_ffff {
                            Option::None
                        } else {
                            match dec_list(s4, n as nat, dec_ptd_fn()) {
                                Option::None => Option::None,
                                Option::Some((topics, s5)) => Option::Some(
                                    (
                                        ProduceRequestView {
                                            header,
                                            required_acks,
                                            timeout,
                                            topics,
                                        },
                                        s5,
                                    ),
                                ),
                            }
                        }
                    },
                },
            },
        },
    }
}

pub open spec fn produce_request_wf(r: ProduceRequestView, magic: u8) -> bool {
    &&& r.header.wf()
    &&& r.topics.len() <= 0x7fff_ffff
    &&& forall|i: int| 0 <= i < r.topics.len() ==> ptd_wf(#[trigger] r.topics[i], magic)
}

pub open spec fn produce_request_ts_matches(r: ProduceRequestView, magic: u8) -> bool {
    forall|i: int| 0 <= i < r.topics.len() ==> ptd_ts_matches(#[trigger] r.topics[i], magic)
}

/// Decoding a produce request inverts encoding it, for every request whose
/// lengths fit the wire format and whose timestamps agree with the layout.
#[verifier::rlimit(100)]
#[verifier::spinoff_prover]
pub proof fn lemma_dec_produce_request(
    r: ProduceRequestView,
    offset: i64,
    magic: u8,
    comp: Compression,
    rest: Seq<u8>,
)
    requires
        produce_request_wf(r, magic),
        produce_request_ts_matches(r, magic),
        magic <= 1,
        comp != Compression::Gzip,
    ensures
        dec_produce_request(enc_produce_request(r, offset, magic, comp) + rest) == Some(
            (r, rest),
        ),
{
    let n = r.topics.len() as u32;
    let body = enc_list(r.topics, enc_ptd_fn(offset, magic, comp));
    let t4 = body + rest;
    let t3 = be4(n) + t4;
    let t2 = be4(spec_i32_to_u32(r.timeout)) + t3;
    let t1 = be2(spec_i16_to_u16(r.required_acks)) + t2;
    assert(enc_produce_request(r, offset, magic, comp) + rest =~= enc_header(r.header) + t1);
    lemma_dec_header(r.header, t1);
    lemma_dec_i16(r.required_acks, t2);
    lemma_dec_i32(r.timeout, t3);
    lemma_dec_u32(n, t4);
    assert forall|j: int, rr: Seq<u8>| 0 <= j < r.topics.len() implies dec_ptd_fn()(
        #[trigger] (enc_ptd_fn(offset, magic, comp)(r.topics[j]) + rr),
    ) == Some((r.topics[j], rr)) by {
        lemma_dec_ptd(r.topics[j], offset, magic, comp, rr);
    }
    lemma_dec_list_enc(r.topics, rest, enc_ptd_fn(offset, magic, comp), dec_ptd_fn());
}

// ---------------------------------------------------------------------------
// Request exec codec.
// ---------------------------------------------------------------------------

/// The stateful encoder of produce requests. The api version picks the
/// message layout; the compression attribute is stamped on every message.
/// The offset field only seeds the per-message offsets of compressed sets.
#[derive(Clone, Debug, PartialEq)]
pub struct ProduceRequestEncoder {
    pub offset: i64,
    pub api_version: i8,
    pub compression: Compression,
}

impl ProduceRequestEncoder {
    pub fn new(offset: i64, api_version: i8, compression: Compression) -> (r: Self)
        ensures
            r.offset == offset,
            r.api_version == api_version,
            r.compression == compression,
    {
        ProduceRequestEncoder { offset, api_version, compression }
    }

    /// The offset stamped on the next message: zero without compression,
    /// the seed offset otherwise. The seed is never advanced.
    pub fn next_offset(&mut self) -> (r: i64)
        ensures
            *final(self) == *old(self),
            r == spec_next_offset(*old(self)),
    {
        match self.compression {
            Compression::Uncompressed => 0,
            _ => self.offset,
        }
    }

    /// Appends the whole encoded request to the output buffer, or refuses a
    /// request whose compressed sets exceed what one message can hold; a
    /// refused request leaves the buffer untouched.
    pub fn encode(&mut self, req: &ProduceRequest, dst: &mut Vec<u8>) -> (r: Result<
        (),
        crate::errors::ErrorKind,
    >)
        requires
            produce_request_wf(req@, spec_magic_of(old(self).api_version)),
            old(self).compression == Compression::Uncompressed || old(self).compression
                == Compression::Gzip,
        ensures
            *final(self) == *old(self),
            match r {
                Ok(_) => {
                    &&& produce_request_encodable(
                        req@,
                        spec_magic_of(old(self).api_version),
                        old(self).compression,
                    )
                    &&& final(dst)@ == old(dst)@ + enc_produce_request(
                        req@,
                        spec_next_offset(*old(self)),
                        spec_magic_of(old(self).api_version),
                        old(self).compression,
                    )
                },
                Err(e) => {
                    &&& e == crate::errors::ErrorKind::Protocol
                    &&& !produce_request_encodable(
                        req@,
                        spec_magic_of(old(self).api_version),
                        old(self).compression,
                    )
                    &&& final(dst)@ == old(dst)@
                },
            },
    {
        let offset = self.next_offset();
        let magic = magic_of(self.api_version);
        let comp = self.compression;
        let ghost f = enc_ptd_fn(offset, magic, comp);
        let mut out: Vec<u8> = Vec::new();
        put_header(&mut out, &req.header);
        put_i16(&mut out, req.required_acks);
        put_i32(&mut out, req.timeout);
        put_u32(&mut out, req.topics.len() as u32);
        let ghost vs = views_of(req.topics@);
        let ghost start = out@;
        let mut i: usize = 0;
        while i < req.topics.len()
            invariant
                i <= req.topics@.len(),
                vs == views_of(req.topics@),
                vs.len() == req.topics@.len(),
                f == enc_ptd_fn(offset, magic, comp),
                magic <= 1,
                comp == Compression::Uncompressed || comp == Compression::Gzip,
                *self == *old(self),
                dst@ == old(dst)@,
                offset == spec_next_offset(*old(self)),
                magic == spec_magic_of(old(self).api_version),
                comp == old(self).compression,
                produce_request_wf(req@, magic),
                req@.topics == vs,
                out@ == start + enc_list(vs.take(i as int), f),
                forall|j: int| 0 <= j < i as int ==> ptd_encodable(
                    #[trigger] vs[j],
                    magic,
                    comp,
                ),
            decreases req.topics@.len() - i,
        {
            proof {
                assert(vs.take(0int) =~= Seq::<ProduceTopicDataView>::empty());
                assert(vs[i as int] == req.topics@[i as int]@);
            }
            if put_topic_data(&mut out, &req.topics[i], offset, magic, comp).is_err() {
                proof {
                    assert(!ptd_encodable(vs[i as int], magic, comp));
                    assert(!produce_request_encodable(req@, magic, comp));
                }
                return Err(crate::errors::ErrorKind::Protocol);
            }
            proof {
                lemma_enc_list_snoc(vs, f, i as int);
            }
            i = i + 1;
        }
        proof {
            assert(vs.take(vs.len() as int) =~= vs);
            assert(out@ =~= enc_produce_request(req@, offset, magic, comp));
            assert(produce_request_encodable(req@, magic, comp));
        }
        crate::message_set::append_bytes(dst, &out);
        Ok(())
    }
}

pub open spec fn spec_next_offset(e: ProduceRequestEncoder) -> i64 {
    match e.compression {
        Compression::Uncompressed => 0,
        _ => e.offset,
    }
}

/// Appends one topic's data to the output buffer, or refuses it when one of
/// its compressed sets exceeds what one message can hold; a refusal may
/// leave the buffer partly written, and the caller discards it.
fn put_topic_data(dst: &mut Vec<u8>, t: &ProduceTopicData, offset: i64, magic: u8, comp: Compression) -> (r: Result<
    (),
    crate::errors::ErrorKind,
>)
    requires
        ptd_wf(t@, magic),
        magic <= 1,
        comp == Compression::Uncompressed || comp == Compression::Gzip,
    ensures
        match r {
            Ok(_) => {
                &&& ptd_encodable(t@, magic, comp)
                &&& final(dst)@ == old(dst)@ + enc_ptd(t@, offset, magic, comp)
            },
            Err(e) => {
                &&& e == crate::errors::ErrorKind::Protocol
                &&& !ptd_encodable(t@, magic, comp)
            },
        },
{
    put_u16_len_and_bytes(dst, &t.topic_name);
    put_u32(dst, t.partitions.len() as u32);
    let ghost f = enc_ppd_fn(offset, magic, comp);
    let ghost vs = views_of(t.partitions@);
    let ghost start = dst@;
    let mut i: usize = 0;
    while i < t.partitions.len()
        invariant
            i <= t.partitions@.len(),
            vs == views_of(t.partitions@),
            vs.len() == t.partitions@.len(),
            f == enc_ppd_fn(offset, magic, comp),
            ptd_wf(t@, magic),
            t@.partitions == vs,
            magic <= 1,
            comp == Compression::Uncompressed || comp == Compression::Gzip,
            dst@ == start + enc_list(vs.take(i as int), f),
            forall|j: int| 0 <= j < i as int ==> ppd_encodable(#[trigger] vs[j], magic, comp),
        decreases t.partitions@.len() - i,
    {
        proof {
            assert(vs.take(0int) =~= Seq::<ProducePartitionDataView>::empty());
            assert(vs[i as int] == t.partitions@[i as int]@);
        }
        let p = &t.partitions[i];
        put_i32(dst, p.partition);
        if put_message_set(dst, &p.message_set, offset, magic, comp).is_err() {
            proof {
                assert(!ppd_encodable(vs[i as int], magic, comp));
                assert(!ptd_encodable(t@, magic, comp));
            }
            return Err(crate::errors::ErrorKind::Protocol);
        }
        proof {
            assert(enc_ppd_fn(offset, magic, comp)(vs[i as int]) == enc_ppd(
                vs[i as int],
                offset,
                magic,
                comp,
            ));
            lemma_enc_list_snoc(vs, f, i as int);
        }
        i = i + 1;
    }
    proof {
        assert(vs.take(vs.len() as int) =~= vs);
        assert(dst@ =~= old(dst)@ + enc_ptd(t@, offset, magic, comp));
        assert(ptd_encodable(t@, magic, comp));
    }
    Ok(())
}

/// Appends a non-null string to the output buffer.
pub fn put_u16_len_and_bytes(dst: &mut Vec<u8>, s: &Vec<u8>)
    requires
        s@.len() <= MAX_STR_LEN,
    ensures
        final(dst)@ == old(dst)@ + enc_str(s@),
{
    crate::wire::put_u16(dst, s.len() as u16);
    crate::message_set::append_bytes(dst, s);
    assert(dst@ =~= old(dst)@ + enc_str(s@));
}

/// Reads a non-null string at the cursor.
pub fn parse_str(buf: &[u8], pos: usize) -> (r: Option<(Vec<u8>, usize)>)
    requires
        pos <= buf@.len(),
    ensures
        match r {
            Some((v, end)) => {
                &&& pos <= end <= buf@.len()
                &&& dec_str(tail_from(buf@, pos as int)) == Some(
                    (v@, tail_from(buf@, end as int)),
                )
            },
            None => dec_str(tail_from(buf@, pos as int)) is None,
        },
{
    match parse_nstr(buf, pos) {
        None => None,
        Some((v, end)) => match v {
            None => None,
            Some(body) => Some((body, end)),
        },
    }
}

/// Reads one partition's data at the cursor.
fn parse_partition_data(buf: &[u8], pos: usize) -> (r: Option<(ProducePartitionData, usize)>)
    requires
        pos <= buf@.len(),
    ensures
        match r {
            Some((v, end)) => {
                &&& pos <= end <= buf@.len()
                &&& dec_ppd(tail_from(buf@, pos as int)) == Some(
                    (v@, tail_from(buf@, end as int)),
                )
            },
            None => dec_ppd(tail_from(buf@, pos as int)) is None,
        },
{
    match parse_i32(buf, pos) {
        None => None,
        Some((partition, p1)) => match parse_message_set(buf, p1) {
            None => None,
            Some((message_set, p2)) => Some((ProducePartitionData { partition, message_set }, p2)),
        },
    }
}

/// Reads one topic's data at the cursor.
fn parse_topic_data(buf: &[u8], pos: usize) -> (r: Option<(ProduceTopicData, usize)>)
    requires
        pos <= buf@.len(),
    ensures
        match r {
            Some((v, end)) => {
                &&& pos <= end <= buf@.len()
                &&& dec_ptd(tail_from(buf@, pos as int)) == Some(
                    (v@, tail_from(buf@, end as int)),
                )
            },
            None => dec_ptd(tail_from(buf@, pos as int)) is None,
        },
{
    let step0 = parse_str(buf, pos);
    if step0.is_none() {
        return None;
    }
    let (topic_name, p1) = step0.unwrap();
    let step1 = parse_u32(buf, p1);
    if step1.is_none() {
        return None;
    }
    let (n, p2) = step1.unwrap();
    if n > 0x7fff_ffff {
        return None;
    }
    let ghost f = dec_ppd_fn();
    let ghost whole = dec_list(tail_from(buf@, p2 as int), n as nat, f);
    let mut out: Vec<ProducePartitionData> = Vec::new();
    let mut cur: usize = p2;
    let mut i: u32 = 0;
    proof {
        assert(views_of(out@) =~= Seq::<ProducePartitionDataView>::empty());
    }
    while i < n
        invariant
            i <= n,
            pos <= p2 <= cur <= buf@.len(),
            f == dec_ppd_fn(),
            views_of(out@).len() == i as int,
            dec_ptd(tail_from(buf@, pos as int)) == (match whole {
                Option::None => Option::<(ProduceTopicDataView, Seq<u8>)>::None,
                Option::Some((ps, rest)) => Option::Some(
                    (ProduceTopicDataView { topic_name: topic_name@, partitions: ps }, rest),
                ),
            }),
            whole == dec_join(
                views_of(out@),
                dec_list(tail_from(buf@, cur as int), (n - i) as nat, f),
            ),
        decreases n - i,
    {
        let ghost vw = views_of(out@);
        match parse_partition_data(buf, cur) {
            None => {
                proof {
                    let tl = tail_from(buf@, cur as int);
                    assert(f(tl) == dec_ppd(tl));
                    assert(dec_list(tl, (n - i) as nat, f) is None);
                }
                return None;
            },
            Some((item, next)) => {
                proof {
                    let tl = tail_from(buf@, cur as int);
                    let tln = tail_from(buf@, next as int);
                    let rem = (n - i) as nat;
                    assert(f(tl) == Some((item@, tln)));
                    assert(dec_list(tl, rem, f) == dec_join(
                        seq![item@],
                        dec_list(tln, (rem - 1) as nat, f),
                    ));
                    assert(views_of(out@.push(item)) =~= vw.push(item@));
                    match dec_list(tln, (rem - 1) as nat, f) {
                        Option::None => {},
                        Option::Some((vs2, rest2)) => {
                            assert(vw + (seq![item@] + vs2) =~= vw.push(item@) + vs2);
                        },
                    }
                }
                out.push(item);
                cur = next;
                i = i + 1;
            },
        }
    }
    proof {
        let vw = views_of(out@);
        assert(dec_list(tail_from(buf@, cur as int), 0nat, f) == Some(
            (Seq::<ProducePartitionDataView>::empty(), tail_from(buf@, cur as int)),
        ));
        assert(vw + Seq::<ProducePartitionDataView>::empty() =~= vw);
    }
    Some((ProduceTopicData { topic_name, partitions: out }, cur))
}

/// Reads a whole produce request at the cursor.
pub fn parse_produce_request(buf: &[u8], pos: usize) -> (r: Option<(ProduceRequest, usize)>)
    requires
        pos <= buf@.len(),
    ensures
        match r {
            Some((v, end)) => {
                &&& pos <= end <= buf@.len()
                &&& dec_produce_request(tail_from(buf@, pos as int)) == Some(
                    (v@, tail_from(buf@, end as int)),
                )
            },
            None => dec_produce_request(tail_from(buf@, pos as int)) is None,
        },
{
    let step0 = parse_header(buf, pos);
    if step0.is_none() {
        return None;
    }
    let (header, p1) = step0.unwrap();
    let step1 = parse_i16(buf, p1);
    if step1.is_none() {
        return None;
    }
    let (required_acks, p2) = step1.unwrap();
    let step2 = parse_i32(buf, p2);
    if step2.is_none() {
        return None;
    }
    let (timeout, p3) = step2.unwrap();
    let step3 = parse_u32(buf, p3);
    if step3.is_none() {
        return None;
    }
    let (n, p4) = step3.unwrap();
    if n > 0x7fff_ffff {
        return None;
    }
    let ghost f = dec_ptd_fn();
    let ghost whole = dec_list(tail_from(buf@, p4 as int), n as nat, f);
    let mut out: Vec<ProduceTopicData> = Vec::new();
    let mut cur: usize = p4;
    let mut i: u32 = 0;
    proof {
        assert(views_of(out@) =~= Seq::<ProduceTopicDataView>::empty());
    }
    while i < n
        invariant
            i <= n,
            pos <= p4 <= cur <= buf@.len(),
            f == dec_ptd_fn(),
            views_of(out@).len() == i as int,
            dec_produce_request(tail_from(buf@, pos as int)) == (match whole {
                Option::None => Option::<(ProduceRequestView, Seq<u8>)>::None,
                Option::Some((ts, rest)) => Option::Some(
                    (
                        ProduceRequestView {
                            header: header@,
                            required_acks,
                            timeout,
                            topics: ts,
                        },
                        rest,
                    ),
                ),
            }),
            whole == dec_join(
                views_of(out@),
                dec_list(tail_from(buf@, cur as int), (n - i) as nat, f),
            ),
        decreases n - i,
    {
        let ghost vw = views_of(out@);
        match parse_topic_data(buf, cur) {
            None => {
                proof {
                    let tl = tail_from(buf@, cur as int);
                    assert(f(tl) == dec_ptd(tl));
                    assert(dec_list(tl, (n - i) as nat, f) is None);
                }
                return None;
            },
            Some((item, next)) => {
                proof {
                    let tl = tail_from(buf@, cur as int);
                    let tln = tail_from(buf@, next as int);
                    let rem = (n - i) as nat;
                    assert(f(tl) == Some((item@, tln)));
                    assert(dec_list(tl, rem, f) == dec_join(
                        seq![item@],
                        dec_list(tln, (rem - 1) as nat, f),
                    ));
                    assert(views_of(out@.push(item)) =~= vw.push(item@));
                    match dec_list(tln, (rem - 1) as nat, f) {
                        Option::None => {},
                        Option::Some((vs2, rest2)) => {
                            assert(vw + (seq![item@] + vs2) =~= vw.push(item@) + vs2);
                        },
                    }
                }
                out.push(item);
                cur = next;
                i = i + 1;
            },
        }
    }
    let ghost vw_done = views_of(out@);
    proof {
        assert(dec_list(tail_from(buf@, cur as int), 0nat, f) == Some(
            (Seq::<ProduceTopicDataView>::empty(), tail_from(buf@, cur as int)),
        ));
        assert(vw_done + Seq::<ProduceTopicDataView>::empty() =~= vw_done);
    }
    Some((ProduceRequest { header, required_acks, timeout, topics: out }, cur))
}

// ---------------------------------------------------------------------------
// Response structures and codec.
// ---------------------------------------------------------------------------

/// The broker's verdict for one partition: an error code and, on success,
/// the base offset assigned to the message set.
#[derive(Clone, Copy, Debug, PartialEq, Eq)]
pub struct ProducePartitionStatus {
    pub partition: i32,
    pub error_code: i16,
    pub offset: i64,
    pub timestamp: Option<i64>,
}

impl View for ProducePartitionStatus {
    type V = ProducePartitionStatus;

    open spec fn view(&self) -> ProducePartitionStatus {
        *self
    }
}

pub open spec fn pps_ts_val(v: ProducePartitionStatus) -> i64 {
    match v.timestamp {
        Option::None => 0,
        Option::Some(t) => t,
    }
}

impl WireItem for ProducePartitionStatus {
    open spec fn enc_spec(v: ProducePartitionStatus, ver: i16) -> Seq<u8> {
        let ts: Seq<u8> = if ver >= 2 {
            crate::wire::be8(spec_i64_to_u64(pps_ts_val(v)))
        } else {
            Seq::empty()
        };
        be4(spec_i32_to_u32(v.partition)) + be2(spec_i16_to_u16(v.error_code)) + crate::wire::be8(
            spec_i64_to_u64(v.offset),
        ) + ts
    }

    open spec fn dec_spec(s: Seq<u8>, ver: i16) -> Option<(ProducePartitionStatus, Seq<u8>)> {
        match dec_i32(s) {
            Option::None => Option::None,
            Option::Some((partition, s1)) => match dec_i16(s1) {
                Option::None => Option::None,
                Option::Some((error_code, s2)) => match dec_i64(s2) {
                    Option::None => Option::None,
                    Option::Some((offset, s3)) => {
                        if ver >= 2 {
                            match dec_i64(s3) {
                                Option::None => Option::None,
                                Option::Some((t, s4)) => Option::Some(
                                    (
                                        ProducePartitionStatus {
                                            partition,
                                            error_code,
                                            offset,
                                            timestamp: Option::Some(t),
                                        },
                                        s4,
                                    ),
                                ),
                            }
                        } else {
                            Option::Some(
                                (
                                    ProducePartitionStatus {
                                        partition,
                                        error_code,
                                        offset,
                                        timestamp: Option::None,
                                    },
                                    s3,
                                ),
                            )
                        }
                    },
                },
            },
        }
    }

    open spec fn wf_spec(v: ProducePartitionStatus, ver: i16) -> bool {
        v.timestamp is Some <==> ver >= 2
    }

    proof fn lemma_round(v: ProducePartitionStatus, ver: i16, rest: Seq<u8>) {
        let ts: Seq<u8> = if ver >= 2 {
            crate::wire::be8(spec_i64_to_u64(pps_ts_val(v)))
        } else {
            Seq::empty()
        };
        let t3 = ts + rest;
        let t2 = crate::wire::be8(spec_i64_to_u64(v.offset)) + t3;
        let t1 = be2(spec_i16_to_u16(v.error_code)) + t2;
        assert(Self::enc_spec(v, ver) + rest =~= be4(spec_i32_to_u32(v.partition)) + t1);
        lemma_dec_i32(v.partition, t1);
        lemma_dec_i16(v.error_code, t2);
        lemma_dec_i64(v.offset, t3);
        if ver >= 2 {
            assert(t3 =~= crate::wire::be8(spec_i64_to_u64(pps_ts_val(v))) + rest);
            lemma_dec_i64(pps_ts_val(v), rest);
            assert(v.timestamp == Some(pps_ts_val(v)));
        } else {
            assert(t3 =~= rest);
            assert(v.timestamp is None);
        }
    }

    fn put(buf: &mut Vec<u8>, v: &Self, ver: i16) {
        put_i32(buf, v.partition);
        put_i16(buf, v.error_code);
        put_i64(buf, v.offset);
        if ver >= 2 {
            match v.timestamp {
                Some(t) => put_i64(buf, t),
                None => put_i64(buf, 0),
            }
        }
        assert(buf@ =~= old(buf)@ + Self::enc_spec(v@, ver));
    }

    fn parse(buf: &[u8], pos: usize, ver: i16) -> (r: Option<(Self, usize)>) {
        match parse_i32(buf, pos) {
            None => None,
            Some((partition, p1)) => match parse_i16(buf, p1) {
                None => None,
                Some((error_code, p2)) => match parse_i64(buf, p2) {
                    None => None,
                    Some((offset, p3)) => {
                        if ver >= 2 {
                            match parse_i64(buf, p3) {
                                None => None,
                                Some((t, p4)) => Some(
                                    (
                                        ProducePartitionStatus {
                                            partition,
                                            error_code,
                                            offset,
                                            timestamp: Some(t),
                                        },
                                        p4,
                                    ),
                                ),
                            }
                        } else {
                            Some(
                                (
                                    ProducePartitionStatus {
                                        partition,
                                        error_code,
                                        offset,
                                        timestamp: None,
                                    },
                                    p3,
                                ),
                            )
                        }
                    },
                },
            },
        }
    }
}

/// The broker's verdicts for the partitions of one topic.
#[derive(Clone, Debug, PartialEq)]
pub struct ProduceTopicStatus {
    pub topic_name: Option<Vec<u8>>,
    pub partitions: Vec<ProducePartitionStatus>,
}

pub struct ProduceTopicStatusView {
    pub topic_name: Option<Seq<u8>>,
    pub partitions: Seq<ProducePartitionStatus>,
}

impl View for ProduceTopicStatus {
    type V = ProduceTopicStatusView;

    open spec fn view(&self) -> ProduceTopicStatusView {
        ProduceTopicStatusView {
            topic_name: crate::message_set::opt_bytes_view(self.topic_name),
            partitions: views_of(self.partitions@),
        }
    }
}

impl WireItem for ProduceTopicStatus {
    open spec fn enc_spec(v: ProduceTopicStatusView, ver: i16) -> Seq<u8> {
        crate::wire::enc_nstr(v.topic_name) + enc_array::<ProducePartitionStatus>(
            v.partitions,
            ver,
        )
    }

    open spec fn dec_spec(s: Seq<u8>, ver: i16) -> Option<(ProduceTopicStatusView, Seq<u8>)> {
        match crate::wire::dec_nstr(s) {
            Option::None => Option::None,
            Option::Some((topic_name, s1)) => match dec_array::<ProducePartitionStatus>(s1, ver) {
                Option::None => Option::None,
                Option::Some((partitions, s2)) => Option::Some(
                    (ProduceTopicStatusView { topic_name, partitions }, s2),
                ),
            },
        }
    }

    open spec fn wf_spec(v: ProduceTopicStatusView, ver: i16) -> bool {
        &&& crate::wire::nstr_wf(v.topic_name)
        &&& array_wf::<ProducePartitionStatus>(v.partitions, ver)
    }

    proof fn lemma_round(v: ProduceTopicStatusView, ver: i16, rest: Seq<u8>) {
        let arr = enc_array::<ProducePartitionStatus>(v.partitions, ver);
        assert(Self::enc_spec(v, ver) + rest =~= crate::wire::enc_nstr(v.topic_name) + (arr
            + rest));
        crate::wire::lemma_dec_nstr(v.topic_name, arr + rest);
        lemma_dec_array::<ProducePartitionStatus>(v.partitions, ver, rest);
    }

    fn put(buf: &mut Vec<u8>, v: &Self, ver: i16) {
        put_nstr(buf, &v.topic_name);
        put_array::<ProducePartitionStatus>(buf, &v.partitions, ver);
        assert(buf@ =~= old(buf)@ + Self::enc_spec(v@, ver));
    }

    fn parse(buf: &[u8], pos: usize, ver: i16) -> (r: Option<(Self, usize)>) {
        match parse_nstr(buf, pos) {
            None => None,
            Some((topic_name, p1)) => match parse_array::<ProducePartitionStatus>(buf, p1, ver) {
                None => None,
                Some((partitions, p2)) => Some(
                    (ProduceTopicStatus { topic_name, partitions }, p2),
                ),
            },
        }
    }
}

/// A produce response: per-topic statuses and, from v2 on, the broker's
/// throttle time.
#[derive(Clone, Debug, PartialEq)]
pub struct ProduceResponse {
    pub header: ResponseHeader,
    pub topics: Vec<ProduceTopicStatus>,
    pub throttle_time: Option<i32>,
}

pub struct ProduceResponseView {
    pub header: ResponseHeader,
    pub topics: Seq<ProduceTopicStatusView>,
    pub throttle_time: Option<i32>,
}

impl View for ProduceResponse {
    type V = ProduceResponseView;

    open spec fn view(&self) -> ProduceResponseView {
        ProduceResponseView {
            header: self.header,
            topics: views_of(self.topics@),
            throttle_time: self.throttle_time,
        }
    }
}

pub open spec fn throttle_val(v: Option<i32>) -> i32 {
    match v {
        Option::None => 0,
        Option::Some(t) => t,
    }
}

pub open spec fn enc_produce_response(v: ProduceResponseView, ver: i16) -> Seq<u8> {
    let tt: Seq<u8> = if ver >= 2 {
        be4(spec_i32_to_u32(throttle_val(v.throttle_time)))
    } else {
        Seq::empty()
    };
    enc_response_header(v.header) + enc_array::<ProduceTopicStatus>(v.topics, ver) + tt
}

pub open spec fn dec_produce_response(s: Seq<u8>, ver: i16) -> Option<(ProduceResponseView, Seq<u8>)> {
    match dec_response_header(s) {
        Option::None => Option::None,
        Option::Some((header, s1)) => match dec_array::<ProduceTopicStatus>(s1, ver) {
            Option::None => Option::None,
            Option::Some((topics, s2)) => {
                if ver >= 2 {
                    match dec_i32(s2) {
                        Option::None => Option::None,
                        Option::Some((t, s3)) => Option::Some(
                            (
                                ProduceResponseView {
                                    header,
                                    topics,
                                    throttle_time: Option::Some(t),
                                },
                                s3,
                            ),
                        ),
                    }
                } else {
                    Option::Some(
                        (ProduceResponseView { header, topics, throttle_time: Option::None }, s2),
                    )
                }
            },
        },
    }
}

pub open spec fn produce_response_wf(v: ProduceResponseView, ver: i16) -> bool {
    &&& array_wf::<ProduceTopicStatus>(v.topics, ver)
    &&& (v.throttle_time is Some <==> ver >= 2)
}

/// Decoding a produce response inverts encoding it, for every response whose
/// optional fields agree with the api version.
pub proof fn lemma_dec_produce_response(v: ProduceResponseView, ver: i16, rest: Seq<u8>)
    requires
        produce_response_wf(v, ver),
    ensures
        dec_produce_response(enc_produce_response(v, ver) + rest, ver) == Some((v, rest)),
{
    let arr = enc_array::<ProduceTopicStatus>(v.topics, ver);
    let tt: Seq<u8> = if ver >= 2 {
        be4(spec_i32_to_u32(throttle_val(v.throttle_time)))
    } else {
        Seq::empty()
    };
    let t1 = arr + (tt + rest);
    assert(enc_produce_response(v, ver) + rest =~= enc_response_header(v.header) + t1);
    lemma_dec_response_header(v.header, t1);
    lemma_dec_array::<ProduceTopicStatus>(v.topics, ver, tt + rest);
    if ver >= 2 {
        assert(tt + rest =~= be4(spec_i32_to_u32(throttle_val(v.throttle_time))) + rest);
        lemma_dec_i32(throttle_val(v.throttle_time), rest);
        assert(v.throttle_time == Some(throttle_val(v.throttle_time)));
    } else {
        assert(tt + rest =~= rest);
        assert(v.throttle_time is None);
    }
}

/// Encodes a whole produce response.
pub fn encode_produce_response(r: &ProduceResponse, ver: i16) -> (out: Vec<u8>)
    requires
        produce_response_wf(r@, ver),
    ensures
        out@ == enc_produce_response(r@, ver),
{
    let mut buf: Vec<u8> = Vec::new();
    crate::header::put_response_header(&mut buf, &r.header);
    put_array::<ProduceTopicStatus>(&mut buf, &r.topics, ver);
    if ver >= 2 {
        match r.throttle_time {
            Some(t) => put_i32(&mut buf, t),
            None => put_i32(&mut buf, 0),
        }
    }
    assert(buf@ =~= enc_produce_response(r@, ver));
    buf
}

/// Reads a whole produce response at the cursor.
pub fn parse_produce_response(buf: &[u8], pos: usize, ver: i16) -> (r: Option<(ProduceResponse, usize)>)
    requires
        pos <= buf@.len(),
    ensures
        match r {
            Some((v, end)) => {
                &&& pos <= end <= buf@.len()
                &&& dec_produce_response(tail_from(buf@, pos as int), ver) == Some(
                    (v@, tail_from(buf@, end as int)),
                )
            },
            None => dec_produce_response(tail_from(buf@, pos as int), ver) is None,
        },
{
    match parse_response_header(buf, pos) {
        None => None,
        Some((header, p1)) => match parse_array::<ProduceTopicStatus>(buf, p1, ver) {
            None => None,
            Some((topics, p2)) => {
                if ver >= 2 {
                    match parse_i32(buf, p2) {
                        None => None,
                        Some((t, p3)) => Some(
                            (
                                ProduceResponse { header, topics, throttle_time: Some(t) },
                                p3,
                            ),
                        ),
                    }
                } else {
                    Some((ProduceResponse { header, topics, throttle_time: None }, p2))
                }
            },
        },
    }
}

/// The stateful decoder of produce responses: it consumes a whole response
/// from the front of the buffer once one is fully present, and otherwise
/// leaves the buffer as it stands.
pub struct ProduceResponseDecoder {
    pub version: u8,
}

impl ProduceResponseDecoder {
    pub fn new(version: u8) -> (r: Self)
        ensures
            r.version == version,
    {
        ProduceResponseDecoder { version }
    }

    /// Decodes one response off the front of the buffer. A buffer that does
    /// not yet hold a whole response is left untouched and yields nothing.
    pub fn decode(&mut self, src: &mut Vec<u8>) -> (r: Option<ProduceResponse>)
        ensures
            *final(self) == *old(self),
            match r {
                Some(res) => {
                    &&& dec_produce_response(old(src)@, old(self).version as i16) == Some(
                        (res@, final(src)@),
                    )
                },
                None => {
                    &&& dec_produce_response(old(src)@, old(self).version as i16) is None
                    &&& final(src)@ == old(src)@
                },
            },
    {
        let ver = self.version as i16;
        proof {
            assert(tail_from(src@, 0int) =~= src@);
        }
        match parse_produce_response(src.as_slice(), 0, ver) {
            None => None,
            Some((res, end)) => {
                let rest = crate::header::copy_range(src.as_slice(), end, src.len());
                proof {
                    assert(src@.subrange(end as int, src@.len() as int) =~= tail_from(
                        src@,
                        end as int,
                    ));
                }
                *src = rest;
                Some(res)
            },
        }
    }
}

} // verus!
