//! Request and response headers, and the api keys of the protocol subset the
//! client speaks.
use vstd::prelude::*;

use crate::wire::{
    be2, be4, dec_i16, dec_i32, dec_nstr, enc_nstr, lemma_dec_i16, lemma_dec_i32, lemma_dec_nstr,
    nstr_wf, spec_i16_to_u16, spec_i32_to_u32, parse_i16, parse_i32, put_i16, put_i32, tail_from,
    MAX_STR_LEN,
};

verus! {

/// Discriminators of the request types this client can issue.
#[derive(Clone, Copy, Debug, PartialEq, Eq, Structural)]
pub enum ApiKeys {
    Produce,
    Fetch,
    ListOffsets,
    Metadata,
    ApiVersions,
}

impl ApiKeys {
    /// The wire code of this api key.
    pub open spec fn spec_code(self) -> i16 {
        match self {
            ApiKeys::Produce => 0,
            ApiKeys::Fetch => 1,
            ApiKeys::ListOffsets => 2,
            ApiKeys::Metadata => 3,
            ApiKeys::ApiVersions => 18,
        }
    }

    pub fn code(self) -> (r: i16)
        ensures
            r == self.spec_code(),
    {
        match self {
            ApiKeys::Produce => 0,
            ApiKeys::Fetch => 1,
            ApiKeys::ListOffsets => 2,
            ApiKeys::Metadata => 3,
            ApiKeys::ApiVersions => 18,
        }
    }
}

/// The header that starts every request: api key and version, the correlation
/// id echoed by the broker, and an optional client id.
#[derive(Clone, Debug, PartialEq)]
pub struct RequestHeader {
    pub api_key: i16,
    pub api_version: i16,
    pub correlation_id: i32,
    pub client_id: Option<Vec<u8>>,
}

pub struct RequestHeaderView {
    pub api_key: i16,
    pub api_version: i16,
    pub correlation_id: i32,
    pub client_id: Option<Seq<u8>>,
}

impl View for RequestHeader {
    type V = RequestHeaderView;

    open spec fn view(&self) -> RequestHeaderView {
        RequestHeaderView {
            api_key: self.api_key,
            api_version: self.api_version,
            correlation_id: self.correlation_id,
            client_id: match self.client_id {
                Option::None => Option::None,
                Option::Some(v) => Option::Some(v@),
            },
        }
    }
}

impl RequestHeaderView {
    pub open spec fn wf(self) -> bool {
        nstr_wf(self.client_id)
    }
}

pub open spec fn enc_header(h: RequestHeaderView) -> Seq<u8> {
    be2(spec_i16_to_u16(h.api_key)) + be2(spec_i16_to_u16(h.api_version)) + be4(
        spec_i32_to_u32(h.correlation_id),
    ) + enc_nstr(h.client_id)
}

pub open spec fn dec_header(s: Seq<u8>) -> Option<(RequestHeaderView, Seq<u8>)> {
    match dec_i16(s) {
        Option::None => Option::None,
        Option::Some((api_key, s)) => match dec_i16(s) {
            Option::None => Option::None,
            Option::Some((api_version, s)) => match dec_i32(s) {
                Option::None => Option::None,
                Option::Some((correlation_id, s)) => match dec_nstr(s) {
                    Option::None => Option::None,
                    Option::Some((client_id, s)) => Option::Some(
                        (RequestHeaderView { api_key, api_version, correlation_id, client_id }, s),
                    ),
                },
            },
        },
    }
}

pub proof fn lemma_dec_header(h: RequestHeaderView, rest: Seq<u8>)
    requires
        h.wf(),
    ensures
        dec_header(enc_header(h) + rest) == Some((h, rest)),
{
    let r3 = enc_nstr(h.client_id) + rest;
    let r2 = be4(spec_i32_to_u32(h.correlation_id)) + r3;
    let r1 = be2(spec_i16_to_u16(h.api_version)) + r2;
    assert(enc_header(h) + rest =~= be2(spec_i16_to_u16(h.api_key)) + r1);
    lemma_dec_i16(h.api_key, r1);
    lemma_dec_i16(h.api_version, r2);
    lemma_dec_i32(h.correlation_id, r3);
    lemma_dec_nstr(h.client_id, rest);
}

/// Appends the header encoding to the output buffer.
pub fn put_header(buf: &mut Vec<u8>, h: &RequestHeader)
    requires
        h@.wf(),
    ensures
        final(buf)@ == old(buf)@ + enc_header(h@),
{
    put_i16(buf, h.api_key);
    put_i16(buf, h.api_version);
    put_i32(buf, h.correlation_id);
    put_nstr(buf, &h.client_id);
    assert(buf@ =~= old(buf)@ + enc_header(h@));
}

/// Appends a nullable string to the output buffer.
pub fn put_nstr(buf: &mut Vec<u8>, v: &Option<Vec<u8>>)
    requires
        match v {
            Option::None => true,
            Option::Some(s) => s@.len() <= MAX_STR_LEN,
        },
    ensures
        final(buf)@ == old(buf)@ + enc_nstr(
            match v {
                Option::None => Option::None,
                Option::Some(s) => Option::Some(s@),
            },
        ),
{
    match v {
        Option::None => {
            crate::wire::put_u16(buf, 0xffff);
        },
        Option::Some(s) => {
            crate::wire::put_u16(buf, s.len() as u16);
            let mut i: usize = 0;
            let ghost start = buf@;
            while i < s.len()
                invariant
                    i <= s@.len(),
                    buf@ == start + s@.take(i as int),
                decreases s@.len() - i,
            {
                buf.push(s[i]);
                assert(s@.take(i + 1) =~= s@.take(i as int).push(s@[i as int]));
                assert(buf@ =~= start + s@.take(i + 1));
                i = i + 1;
            }
            assert(s@.take(s@.len() as int) =~= s@);
            assert(buf@ =~= old(buf)@ + enc_nstr(Option::Some(s@)));
        },
    }
}

/// The header that starts every response: the correlation id of the request
/// it answers.
#[derive(Clone, Copy, Debug, PartialEq, Eq, Structural)]
pub struct ResponseHeader {
    pub correlation_id: i32,
}

pub open spec fn enc_response_header(h: ResponseHeader) -> Seq<u8> {
    be4(spec_i32_to_u32(h.correlation_id))
}

pub open spec fn dec_response_header(s: Seq<u8>) -> Option<(ResponseHeader, Seq<u8>)> {
    match dec_i32(s) {
        Option::None => Option::None,
        Option::Some((correlation_id, s)) => Option::Some((ResponseHeader { correlation_id }, s)),
    }
}

pub proof fn lemma_dec_response_header(h: ResponseHeader, rest: Seq<u8>)
    ensures
        dec_response_header(enc_response_header(h) + rest) == Some((h, rest)),
{
    lemma_dec_i32(h.correlation_id, rest);
}

pub fn put_response_header(buf: &mut Vec<u8>, h: &ResponseHeader)
    ensures
        final(buf)@ == old(buf)@ + enc_response_header(*h),
{
    put_i32(buf, h.correlation_id);
}

/// Reads a response header at the cursor.
pub fn parse_response_header(buf: &[u8], pos: usize) -> (r: Option<(ResponseHeader, usize)>)
    requires
        pos <= buf@.len(),
    ensures
        match r {
            Some((v, end)) => {
                &&& pos <= end <= buf@.len()
                &&& dec_response_header(tail_from(buf@, pos as int)) == Some(
                    (v, tail_from(buf@, end as int)),
                )
            },
            None => dec_response_header(tail_from(buf@, pos as int)) is None,
        },
{
    match parse_i32(buf, pos) {
        None => None,
        Some((correlation_id, end)) => Some((ResponseHeader { correlation_id }, end)),
    }
}

/// Reads a nullable string at the cursor.
pub fn parse_nstr(buf: &[u8], pos: usize) -> (r: Option<(Option<Vec<u8>>, usize)>)
    requires
        pos <= buf@.len(),
    ensures
        match r {
            Some((v, end)) => {
                &&& pos <= end <= buf@.len()
                &&& dec_nstr(tail_from(buf@, pos as int)) == Some(
                    (
                        match v {
                            Option::None => Option::None,
                            Option::Some(s) => Option::Some(s@),
                        },
                        tail_from(buf@, end as int),
                    ),
                )
            },
            None => dec_nstr(tail_from(buf@, pos as int)) is None,
        },
{
    match crate::wire::parse_u16(buf, pos) {
        None => None,
        Some((n, p1)) => {
            if n == 0xffff {
                Some((None, p1))
            } else if n > 0x7fff {
                None
            } else if buf.len() - p1 < n as usize {
                None
            } else {
                let body = copy_range(buf, p1, p1 + n as usize);
                proof {
                    let t = tail_from(buf@, p1 as int);
                    assert(t.take(n as int) =~= buf@.subrange(p1 as int, p1 + n as int));
                    assert(t.skip(n as int) =~= tail_from(buf@, p1 + n as int));
                }
                Some((Some(body), p1 + n as usize))
            }
        },
    }
}

/// Copies `buf[start..end]` into a fresh vector.
pub fn copy_range(buf: &[u8], start: usize, end: usize) -> (r: Vec<u8>)
    requires
        start <= end <= buf@.len(),
    ensures
        r@ == buf@.subrange(start as int, end as int),
{
    let mut out: Vec<u8> = Vec::new();
    let mut i: usize = start;
    while i < end
        invariant
            start <= i <= end <= buf@.len(),
            out@ == buf@.subrange(start as int, i as int),
        decreases end - i,
    {
        out.push(buf[i]);
        assert(buf@.subrange(start as int, i + 1) =~= buf@.subrange(start as int, i as int).push(
            buf@[i as int],
        ));
        i = i + 1;
    }
    out
}

/// Reads the header of a request at the cursor.
pub fn parse_header(buf: &[u8], pos: usize) -> (r: Option<(RequestHeader, usize)>)
    requires
        pos <= buf@.len(),
    ensures
        match r {
            Some((v, end)) => {
                &&& pos <= end <= buf@.len()
                &&& dec_header(tail_from(buf@, pos as int)) == Some(
                    (v@, tail_from(buf@, end as int)),
                )
            },
            None => dec_header(tail_from(buf@, pos as int)) is None,
        },
{
    match parse_i16(buf, pos) {
        None => None,
        Some((api_key, p1)) => match parse_i16(buf, p1) {
            None => None,
            Some((api_version, p2)) => match parse_i32(buf, p2) {
                None => None,
                Some((correlation_id, p3)) => match parse_nstr(buf, p3) {
                    None => None,
                    Some((client_id, p4)) => Some(
                        (RequestHeader { api_key, api_version, correlation_id, client_id }, p4),
                    ),
                },
            },
        },
    }
}

} // verus!
