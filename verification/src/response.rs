//! The request and response types a connection carries, and the length
//! prefix that frames them on the wire.
use vstd::prelude::*;

use crate::api_versions_msg::{
    dec_api_versions_response, enc_api_versions_request, encode_api_versions_request,
    parse_api_versions_response, ApiVersionsRequest, ApiVersionsResponse,
};
use crate::header::ApiKeys;
use crate::list_offsets_msg::{
    dec_list_offsets_response, enc_list_offsets_request, encode_list_offsets_request,
    parse_list_offsets_response, list_offsets_request_wf, ListOffsetsRequest, ListOffsetsResponse,
};
use crate::message_set::{spec_magic_of, Compression};
use crate::metadata_msg::{
    dec_metadata_response, enc_metadata_request, encode_metadata_request, metadata_request_wf,
    parse_metadata_response, MetadataRequest, MetadataResponse,
};
use crate::produce::{
    dec_produce_response, enc_produce_request, parse_produce_response, produce_request_wf,
    ProduceRequest, ProduceRequestEncoder, ProduceResponse,
};
use crate::wire::{be4, tail_from};

verus! {

/// One request the client can put on the wire. A produce request carries the
/// compression its message sets were built with.
#[derive(Clone, Debug, PartialEq)]
pub enum KafkaRequest {
    Produce(ProduceRequest, Compression),
    Metadata(MetadataRequest),
    ApiVersions(ApiVersionsRequest),
    ListOffsets(ListOffsetsRequest),
}

impl KafkaRequest {
    /// The api key the response to this request must answer to.
    pub open spec fn spec_api_key(self) -> ApiKeys {
        match self {
            KafkaRequest::Produce(_, _) => ApiKeys::Produce,
            KafkaRequest::Metadata(_) => ApiKeys::Metadata,
            KafkaRequest::ApiVersions(_) => ApiKeys::ApiVersions,
            KafkaRequest::ListOffsets(_) => ApiKeys::ListOffsets,
        }
    }

    pub fn api_key(&self) -> (r: ApiKeys)
        ensures
            r == self.spec_api_key(),
    {
        match self {
            KafkaRequest::Produce(_, _) => ApiKeys::Produce,
            KafkaRequest::Metadata(_) => ApiKeys::Metadata,
            KafkaRequest::ApiVersions(_) => ApiKeys::ApiVersions,
            KafkaRequest::ListOffsets(_) => ApiKeys::ListOffsets,
        }
    }

    /// The api version stamped in the request header.
    pub open spec fn spec_api_version(self) -> i16 {
        match self {
            KafkaRequest::Produce(r, _) => r@.header.api_version,
            KafkaRequest::Metadata(r) => r@.header.api_version,
            KafkaRequest::ApiVersions(r) => r@.header.api_version,
            KafkaRequest::ListOffsets(r) => r@.header.api_version,
        }
    }

    pub fn api_version(&self) -> (r: i16)
        ensures
            r == self.spec_api_version(),
    {
        match self {
            KafkaRequest::Produce(r, _) => r.header.api_version,
            KafkaRequest::Metadata(r) => r.header.api_version,
            KafkaRequest::ApiVersions(r) => r.header.api_version,
            KafkaRequest::ListOffsets(r) => r.header.api_version,
        }
    }

    /// The correlation id stamped in the request header.
    pub open spec fn spec_correlation_id(self) -> i32 {
        match self {
            KafkaRequest::Produce(r, _) => r@.header.correlation_id,
            KafkaRequest::Metadata(r) => r@.header.correlation_id,
            KafkaRequest::ApiVersions(r) => r@.header.correlation_id,
            KafkaRequest::ListOffsets(r) => r@.header.correlation_id,
        }
    }

    pub fn correlation_id(&self) -> (r: i32)
        ensures
            r == self.spec_correlation_id(),
    {
        match self {
            KafkaRequest::Produce(r, _) => r.header.correlation_id,
            KafkaRequest::Metadata(r) => r.header.correlation_id,
            KafkaRequest::ApiVersions(r) => r.header.correlation_id,
            KafkaRequest::ListOffsets(r) => r.header.correlation_id,
        }
    }
}

/// The unframed body bytes of a request. Produce message sets are stamped
/// with the magic that the header's api version selects, seeded at offset
/// zero.
pub open spec fn enc_request_body(req: KafkaRequest) -> Seq<u8> {
    match req {
        KafkaRequest::Produce(r, comp) => {
            let magic = spec_magic_of(clip_i8(r@.header.api_version));
            enc_produce_request(r@, 0, magic, comp)
        },
        KafkaRequest::Metadata(r) => enc_metadata_request(r@),
        KafkaRequest::ApiVersions(r) => enc_api_versions_request(r@),
        KafkaRequest::ListOffsets(r) => enc_list_offsets_request(r@, r@.header.api_version),
    }
}

/// An api version clipped to the byte the message layout is chosen by.
pub open spec fn clip_i8(v: i16) -> i8 {
    if -128 <= v <= 127 {
        v as i8
    } else {
        0
    }
}

pub fn clip_i8_exec(v: i16) -> (r: i8)
    ensures
        r == clip_i8(v),
{
    if -128 <= v && v <= 127 {
        v as i8
    } else {
        0
    }
}

/// Which requests the encoder accepts: their lengths fit the wire format,
/// and a produce request names a compression this library carries a codec
/// for.
pub open spec fn request_wf(req: KafkaRequest) -> bool {
    match req {
        KafkaRequest::Produce(r, comp) => {
            &&& produce_request_wf(r@, spec_magic_of(clip_i8(r@.header.api_version)))
            &&& (comp == Compression::Uncompressed || comp == Compression::Gzip)
        },
        KafkaRequest::Metadata(r) => metadata_request_wf(r@),
        KafkaRequest::ApiVersions(r) => r@.header.wf(),
        KafkaRequest::ListOffsets(r) => list_offsets_request_wf(r@, r@.header.api_version),
    }
}

/// Whether a produce request's compressed sets each fit one wrapper
/// message; every other request always does.
pub open spec fn request_encodable(req: KafkaRequest) -> bool {
    match req {
        KafkaRequest::Produce(r, comp) => crate::produce::produce_request_encodable(
            r@,
            spec_magic_of(clip_i8(r@.header.api_version)),
            comp,
        ),
        _ => true,
    }
}

/// The framed bytes: an i32 length prefix covering the body.
pub open spec fn enc_framed_request(req: KafkaRequest) -> Seq<u8> {
    let body = enc_request_body(req);
    be4(body.len() as u32) + body
}

/// Frames a request for the wire. A body longer than the length prefix can
/// carry is refused, as is a produce request with a compressed set too
/// large for one wrapper message.
pub fn frame_request(req: &KafkaRequest) -> (r: Result<Vec<u8>, crate::errors::ErrorKind>)
    requires
        request_wf(*req),
    ensures
        match r {
            Ok(out) => {
                &&& request_encodable(*req)
                &&& enc_request_body(*req).len() <= 0x7fff_ffff
                &&& out@ == enc_framed_request(*req)
            },
            Err(e) => {
                &&& e == crate::errors::ErrorKind::Protocol
                &&& (!request_encodable(*req) || enc_request_body(*req).len() > 0x7fff_ffff)
            },
        },
{
    let body: Vec<u8> = match req {
        KafkaRequest::Produce(r, comp) => {
            let mut enc = ProduceRequestEncoder::new(0, clip_i8_exec(r.header.api_version), *comp);
            let mut out: Vec<u8> = Vec::new();
            if enc.encode(r, &mut out).is_err() {
                return Err(crate::errors::ErrorKind::Protocol);
            }
            proof {
                assert(out@ =~= enc_request_body(*req));
            }
            out
        },
        KafkaRequest::Metadata(r) => encode_metadata_request(r),
        KafkaRequest::ApiVersions(r) => encode_api_versions_request(r),
        KafkaRequest::ListOffsets(r) => encode_list_offsets_request(r, r.header.api_version),
    };
    if body.len() > 0x7fff_ffff {
        return Err(crate::errors::ErrorKind::Protocol);
    }
    let mut out: Vec<u8> = Vec::new();
    crate::wire::put_u32(&mut out, body.len() as u32);
    crate::message_set::append_bytes(&mut out, &body);
    proof {
        assert(out@ =~= enc_framed_request(*req));
    }
    Ok(out)
}

/// One response the client can receive.
#[derive(Clone, Debug, PartialEq)]
pub enum KafkaResponse {
    Produce(ProduceResponse),
    Metadata(MetadataResponse),
    ApiVersions(ApiVersionsResponse),
    ListOffsets(ListOffsetsResponse),
}

pub enum KafkaResponseView {
    Produce(crate::produce::ProduceResponseView),
    Metadata(crate::metadata_msg::MetadataResponseView),
    ApiVersions(crate::api_versions_msg::ApiVersionsResponseView),
    ListOffsets(crate::list_offsets_msg::ListOffsetsResponseView),
}

impl View for KafkaResponse {
    type V = KafkaResponseView;

    open spec fn view(&self) -> KafkaResponseView {
        match self {
            KafkaResponse::Produce(r) => KafkaResponseView::Produce(r@),
            KafkaResponse::Metadata(r) => KafkaResponseView::Metadata(r@),
            KafkaResponse::ApiVersions(r) => KafkaResponseView::ApiVersions(r@),
            KafkaResponse::ListOffsets(r) => KafkaResponseView::ListOffsets(r@),
        }
    }
}

/// What the front of an unframed response body decodes to, by api key.
pub open spec fn dec_kafka_response(s: Seq<u8>, api_key: ApiKeys, api_version: i16) -> Option<
    KafkaResponseView,
> {
    match api_key {
        ApiKeys::Produce => match dec_produce_response(s, api_version) {
            Option::None => Option::None,
            Option::Some((v, rest)) => Option::Some(KafkaResponseView::Produce(v)),
        },
        ApiKeys::Metadata => match dec_metadata_response(s) {
            Option::None => Option::None,
            Option::Some((v, rest)) => Option::Some(KafkaResponseView::Metadata(v)),
        },
        ApiKeys::ApiVersions => match dec_api_versions_response(s) {
            Option::None => Option::None,
            Option::Some((v, rest)) => Option::Some(KafkaResponseView::ApiVersions(v)),
        },
        ApiKeys::ListOffsets => match dec_list_offsets_response(s, api_version) {
            Option::None => Option::None,
            Option::Some((v, rest)) => Option::Some(KafkaResponseView::ListOffsets(v)),
        },
        ApiKeys::Fetch => Option::None,
    }
}

impl KafkaResponse {
    /// The api key this response answers to.
    pub open spec fn spec_api_key(self) -> ApiKeys {
        match self {
            KafkaResponse::Produce(_) => ApiKeys::Produce,
            KafkaResponse::Metadata(_) => ApiKeys::Metadata,
            KafkaResponse::ApiVersions(_) => ApiKeys::ApiVersions,
            KafkaResponse::ListOffsets(_) => ApiKeys::ListOffsets,
        }
    }

    pub fn api_key(&self) -> (r: ApiKeys)
        ensures
            r == self.spec_api_key(),
    {
        match self {
            KafkaResponse::Produce(_) => ApiKeys::Produce,
            KafkaResponse::Metadata(_) => ApiKeys::Metadata,
            KafkaResponse::ApiVersions(_) => ApiKeys::ApiVersions,
            KafkaResponse::ListOffsets(_) => ApiKeys::ListOffsets,
        }
    }

    /// The correlation id echoed in the response header.
    pub fn correlation_id(&self) -> i32 {
        match self {
            KafkaResponse::Produce(r) => r.header.correlation_id,
            KafkaResponse::Metadata(r) => r.header.correlation_id,
            KafkaResponse::ApiVersions(r) => r.header.correlation_id,
            KafkaResponse::ListOffsets(r) => r.header.correlation_id,
        }
    }

    /// Parses an unframed response body. Yields the response when the buffer
    /// holds one, nothing when it does not; an api key outside the supported
    /// subset yields nothing, as an unsupported response type.
    pub fn parse(buf: &[u8], api_key: ApiKeys, api_version: i16) -> (r: Option<KafkaResponse>)
        ensures
            match r {
                Some(res) => {
                    &&& res.spec_api_key() == api_key
                    &&& dec_kafka_response(buf@, api_key, api_version) == Some(res@)
                },
                None => dec_kafka_response(buf@, api_key, api_version) is None,
            },
    {
        proof {
            assert(tail_from(buf@, 0int) =~= buf@);
        }
        match api_key {
            ApiKeys::Produce => match parse_produce_response(buf, 0, api_version) {
                None => None,
                Some((res, end)) => Some(KafkaResponse::Produce(res)),
            },
            ApiKeys::Metadata => match parse_metadata_response(buf, 0) {
                None => None,
                Some((res, end)) => Some(KafkaResponse::Metadata(res)),
            },
            ApiKeys::ApiVersions => match parse_api_versions_response(buf, 0) {
                None => None,
                Some((res, end)) => Some(KafkaResponse::ApiVersions(res)),
            },
            ApiKeys::ListOffsets => match parse_list_offsets_response(buf, 0, api_version) {
                None => None,
                Some((res, end)) => Some(KafkaResponse::ListOffsets(res)),
            },
            ApiKeys::Fetch => None,
        }
    }
}

/// What a framed response buffer holds so far.
pub enum FrameOutcome {
    /// Fewer bytes than the length prefix announces: wait for more, consume
    /// nothing.
    Incomplete,
    /// A whole frame whose body decoded; `consumed` bytes are spent.
    Done(KafkaResponse, usize),
    /// A whole frame whose body the parser rejects.
    Corrupt,
}

/// The value of the buffer's length prefix, once four bytes are buffered.
pub open spec fn spec_frame_prefix(s: Seq<u8>) -> Option<u32> {
    match crate::wire::dec_u32(s) {
        Option::None => Option::None,
        Option::Some((n, _)) => Option::Some(n),
    }
}

/// Reads one length-prefixed response frame from the front of the buffer.
/// The buffer is incomplete exactly while it holds fewer than `length + 4`
/// bytes (or no whole prefix yet), and nothing is consumed then; a whole
/// frame is corrupt exactly when its prefix exceeds the cap or its body does
/// not decode as the given api key; otherwise the frame's `length + 4` bytes
/// are consumed and its body is what they decode to.
pub fn decode_framed_response(buf: &[u8], api_key: ApiKeys, api_version: i16) -> (r: FrameOutcome)
    ensures
        match r {
            FrameOutcome::Incomplete => match spec_frame_prefix(buf@) {
                Option::None => buf@.len() < 4,
                Option::Some(n) => n <= 0x7fff_ffff && buf@.len() < 4 + n,
            },
            FrameOutcome::Done(res, consumed) => {
                &&& spec_frame_prefix(buf@) matches Some(n) && {
                    &&& n <= 0x7fff_ffff
                    &&& consumed == 4 + n
                    &&& consumed <= buf@.len()
                }
                &&& res.spec_api_key() == api_key
                &&& dec_kafka_response(
                    buf@.subrange(4, consumed as int),
                    api_key,
                    api_version,
                ) == Some(res@)
            },
            FrameOutcome::Corrupt => {
                spec_frame_prefix(buf@) matches Some(n) && (n > 0x7fff_ffff || {
                    &&& buf@.len() >= 4 + n
                    &&& dec_kafka_response(
                        buf@.subrange(4, 4 + n),
                        api_key,
                        api_version,
                    ) is None
                })
            },
        },
{
    match crate::wire::parse_u32(buf, 0) {
        None => {
            proof {
                assert(tail_from(buf@, 0int) =~= buf@);
            }
            FrameOutcome::Incomplete
        },
        Some((len, p1)) => {
            proof {
                let t0 = tail_from(buf@, 0int);
                assert(t0 =~= buf@);
                assert(t0.skip(4).len() == buf@.len() - 4);
                assert(tail_from(buf@, p1 as int).len() == buf@.len() - p1);
                assert(p1 == 4);
            }
            if len > 0x7fff_ffff {
                return FrameOutcome::Corrupt;
            }
            if buf.len() - p1 < len as usize {
                return FrameOutcome::Incomplete;
            }
            let body = crate::header::copy_range(buf, p1, p1 + len as usize);
            match KafkaResponse::parse(body.as_slice(), api_key, api_version) {
                None => FrameOutcome::Corrupt,
                Some(res) => FrameOutcome::Done(res, p1 + len as usize),
            }
        },
    }
}

} // verus!
