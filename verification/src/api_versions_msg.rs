//! The api-versions request and response (version 0): for each api key the
//! broker names the version window it supports.
use vstd::prelude::*;

use crate::codec_util::{
    array_wf, dec_array, enc_array, lemma_dec_array, parse_array, put_array, views_of, WireItem,
};
use crate::header::{
    dec_header, dec_response_header, enc_header, enc_response_header, lemma_dec_header,
    lemma_dec_response_header, parse_response_header, put_header, put_response_header,
    RequestHeader, RequestHeaderView, ResponseHeader,
};
use crate::wire::{
    be2, dec_i16, lemma_dec_i16, parse_i16, put_i16, spec_i16_to_u16, tail_from,
};

verus! {

/// An api-versions request carries only the header.
#[derive(Clone, Debug, PartialEq)]
pub struct ApiVersionsRequest {
    pub header: RequestHeader,
}

pub struct ApiVersionsRequestView {
    pub header: RequestHeaderView,
}

impl View for ApiVersionsRequest {
    type V = ApiVersionsRequestView;

    open spec fn view(&self) -> ApiVersionsRequestView {
        ApiVersionsRequestView { header: self.header@ }
    }
}

pub open spec fn enc_api_versions_request(v: ApiVersionsRequestView) -> Seq<u8> {
    enc_header(v.header)
}

pub open spec fn dec_api_versions_request(s: Seq<u8>) -> Option<(ApiVersionsRequestView, Seq<u8>)> {
    match dec_header(s) {
        Option::None => Option::None,
        Option::Some((header, s1)) => Option::Some((ApiVersionsRequestView { header }, s1)),
    }
}

pub proof fn lemma_dec_api_versions_request(v: ApiVersionsRequestView, rest: Seq<u8>)
    requires
        v.header.wf(),
    ensures
        dec_api_versions_request(enc_api_versions_request(v) + rest) == Some((v, rest)),
{
    lemma_dec_header(v.header, rest);
}

pub fn encode_api_versions_request(r: &ApiVersionsRequest) -> (out: Vec<u8>)
    requires
        r@.header.wf(),
    ensures
        out@ == enc_api_versions_request(r@),
{
    let mut buf: Vec<u8> = Vec::new();
    put_header(&mut buf, &r.header);
    buf
}

/// The version window a broker supports for one api key.
#[derive(Clone, Copy, Debug, PartialEq, Eq, Structural)]
pub struct ApiVersionRange {
    pub api_key: i16,
    pub min_version: i16,
    pub max_version: i16,
}

impl View for ApiVersionRange {
    type V = ApiVersionRange;

    open spec fn view(&self) -> ApiVersionRange {
        *self
    }
}

impl WireItem for ApiVersionRange {
    open spec fn enc_spec(v: ApiVersionRange, ver: i16) -> Seq<u8> {
        be2(spec_i16_to_u16(v.api_key)) + be2(spec_i16_to_u16(v.min_version)) + be2(
            spec_i16_to_u16(v.max_version),
        )
    }

    open spec fn dec_spec(s: Seq<u8>, ver: i16) -> Option<(ApiVersionRange, Seq<u8>)> {
        match dec_i16(s) {
            Option::None => Option::None,
            Option::Some((api_key, s1)) => match dec_i16(s1) {
                Option::None => Option::None,
                Option::Some((min_version, s2)) => match dec_i16(s2) {
                    Option::None => Option::None,
                    Option::Some((max_version, s3)) => Option::Some(
                        (ApiVersionRange { api_key, min_version, max_version }, s3),
                    ),
                },
            },
        }
    }

    open spec fn wf_spec(v: ApiVersionRange, ver: i16) -> bool {
        true
    }

    proof fn lemma_round(v: ApiVersionRange, ver: i16, rest: Seq<u8>) {
        let t2 = be2(spec_i16_to_u16(v.max_version)) + rest;
        let t1 = be2(spec_i16_to_u16(v.min_version)) + t2;
        assert(Self::enc_spec(v, ver) + rest =~= be2(spec_i16_to_u16(v.api_key)) + t1);
        lemma_dec_i16(v.api_key, t1);
        lemma_dec_i16(v.min_version, t2);
        lemma_dec_i16(v.max_version, rest);
    }

    fn put(buf: &mut Vec<u8>, v: &Self, ver: i16) {
        put_i16(buf, v.api_key);
        put_i16(buf, v.min_version);
        put_i16(buf, v.max_version);
        assert(buf@ =~= old(buf)@ + Self::enc_spec(v@, ver));
    }

    fn parse(buf: &[u8], pos: usize, ver: i16) -> (r: Option<(Self, usize)>) {
        match parse_i16(buf, pos) {
            None => None,
            Some((api_key, p1)) => match parse_i16(buf, p1) {
                None => None,
                Some((min_version, p2)) => match parse_i16(buf, p2) {
                    None => None,
                    Some((max_version, p3)) => Some(
                        (ApiVersionRange { api_key, min_version, max_version }, p3),
                    ),
                },
            },
        }
    }
}

/// An api-versions response: an error code and the supported windows.
#[derive(Clone, Debug, PartialEq)]
pub struct ApiVersionsResponse {
    pub header: ResponseHeader,
    pub error_code: i16,
    pub api_versions: Vec<ApiVersionRange>,
}

pub struct ApiVersionsResponseView {
    pub header: ResponseHeader,
    pub error_code: i16,
    pub api_versions: Seq<ApiVersionRange>,
}

impl View for ApiVersionsResponse {
    type V = ApiVersionsResponseView;

    open spec fn view(&self) -> ApiVersionsResponseView {
        ApiVersionsResponseView {
            header: self.header,
            error_code: self.error_code,
            api_versions: views_of(self.api_versions@),
        }
    }
}

pub open spec fn enc_api_versions_response(v: ApiVersionsResponseView) -> Seq<u8> {
    enc_response_header(v.header) + be2(spec_i16_to_u16(v.error_code)) + enc_array::<
        ApiVersionRange,
    >(v.api_versions, 0)
}

pub open spec fn dec_api_versions_response(s: Seq<u8>) -> Option<(ApiVersionsResponseView, Seq<u8>)> {
    match dec_response_header(s) {
        Option::None => Option::None,
        Option::Some((header, s1)) => match dec_i16(s1) {
            Option::None => Option::None,
            Option::Some((error_code, s2)) => match dec_array::<ApiVersionRange>(s2, 0) {
                Option::None => Option::None,
                Option::Some((api_versions, s3)) => Option::Some(
                    (ApiVersionsResponseView { header, error_code, api_versions }, s3),
                ),
            },
        },
    }
}

pub open spec fn api_versions_response_wf(v: ApiVersionsResponseView) -> bool {
    array_wf::<ApiVersionRange>(v.api_versions, 0)
}

/// Decoding an api-versions response inverts encoding it.
pub proof fn lemma_dec_api_versions_response(v: ApiVersionsResponseView, rest: Seq<u8>)
    requires
        api_versions_response_wf(v),
    ensures
        dec_api_versions_response(enc_api_versions_response(v) + rest) == Some((v, rest)),
{
    let arr = enc_array::<ApiVersionRange>(v.api_versions, 0);
    let t1 = be2(spec_i16_to_u16(v.error_code)) + (arr + rest);
    assert(enc_api_versions_response(v) + rest =~= enc_response_header(v.header) + t1);
    lemma_dec_response_header(v.header, t1);
    lemma_dec_i16(v.error_code, arr + rest);
    lemma_dec_array::<ApiVersionRange>(v.api_versions, 0, rest);
}

/// Encodes a whole api-versions response.
pub fn encode_api_versions_response(r: &ApiVersionsResponse) -> (out: Vec<u8>)
    requires
        api_versions_response_wf(r@),
    ensures
        out@ == enc_api_versions_response(r@),
{
    let mut buf: Vec<u8> = Vec::new();
    put_response_header(&mut buf, &r.header);
    put_i16(&mut buf, r.error_code);
    put_array::<ApiVersionRange>(&mut buf, &r.api_versions, 0);
    assert(buf@ =~= enc_api_versions_response(r@));
    buf
}

/// Reads a whole api-versions response at the cursor.
pub fn parse_api_versions_response(buf: &[u8], pos: usize) -> (r: Option<
    (ApiVersionsResponse, usize),
>)
    requires
        pos <= buf@.len(),
    ensures
        match r {
            Some((v, end)) => {
                &&& pos <= end <= buf@.len()
                &&& dec_api_versions_response(tail_from(buf@, pos as int)) == Some(
                    (v@, tail_from(buf@, end as int)),
                )
            },
            None => dec_api_versions_response(tail_from(buf@, pos as int)) is None,
        },
{
    match parse_response_header(buf, pos) {
        None => None,
        Some((header, p1)) => match parse_i16(buf, p1) {
            None => None,
            Some((error_code, p2)) => match parse_array::<ApiVersionRange>(buf, p2, 0) {
                None => None,
                Some((api_versions, p3)) => Some(
                    (ApiVersionsResponse { header, error_code, api_versions }, p3),
                ),
            },
        },
    }
}

} // verus!
