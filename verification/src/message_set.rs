//! The record batch representation of the wire: a counted run of messages,
//! each carrying an offset, a size, a checksum over its body, a magic byte
//! that selects the layout, a compression attribute, an optional timestamp,
//! and nullable key and value.
use vstd::prelude::*;

use crate::crc::crc32_of;
use crate::crc::crc32_range;
use crate::header::copy_range;
use crate::wire::{
    be4, be8, dec_i64, dec_list, dec_nbytes, dec_u32, dec_u8, enc_list, enc_nbytes,
    lemma_dec_i64, lemma_dec_list_enc, lemma_dec_nbytes, lemma_dec_u32, lemma_dec_u8,
    lemma_enc_list_snoc, nbytes_wf, parse_i64, parse_u32, parse_u8, put_i64, put_u32, put_u8,
    spec_i64_to_u64, tail_from,
};
use crate::codec_util::dec_join;

verus! {

/// The compression attribute a message carries.
#[derive(Clone, Copy, Debug, PartialEq, Eq, Structural)]
pub enum Compression {
    Uncompressed,
    Gzip,
    Snappy,
    Lz4,
}

impl Compression {
    pub open spec fn spec_code(self) -> u8 {
        match self {
            Compression::Uncompressed => 0,
            Compression::Gzip => 1,
            Compression::Snappy => 2,
            Compression::Lz4 => 3,
        }
    }

    pub fn code(self) -> (r: u8)
        ensures
            r == self.spec_code(),
    {
        match self {
            Compression::Uncompressed => 0,
            Compression::Gzip => 1,
            Compression::Snappy => 2,
            Compression::Lz4 => 3,
        }
    }
}

pub open spec fn spec_compression_from(code: u8) -> Option<Compression> {
    if code == 0 {
        Some(Compression::Uncompressed)
    } else if code == 1 {
        Some(Compression::Gzip)
    } else if code == 2 {
        Some(Compression::Snappy)
    } else if code == 3 {
        Some(Compression::Lz4)
    } else {
        None
    }
}

pub fn compression_from(code: u8) -> (r: Option<Compression>)
    ensures
        r == spec_compression_from(code),
{
    if code == 0 {
        Some(Compression::Uncompressed)
    } else if code == 1 {
        Some(Compression::Gzip)
    } else if code == 2 {
        Some(Compression::Snappy)
    } else if code == 3 {
        Some(Compression::Lz4)
    } else {
        None
    }
}

/// One record on the wire: an optional key, an optional value, and the
/// timestamp that the v1 layout carries.
#[derive(Clone, Debug, PartialEq)]
pub struct Message {
    pub key: Option<Vec<u8>>,
    pub value: Option<Vec<u8>>,
    pub timestamp: Option<i64>,
}

pub struct MessageView {
    pub key: Option<Seq<u8>>,
    pub value: Option<Seq<u8>>,
    pub timestamp: Option<i64>,
}

impl View for Message {
    type V = MessageView;

    open spec fn view(&self) -> MessageView {
        MessageView {
            key: opt_bytes_view(self.key),
            value: opt_bytes_view(self.value),
            timestamp: self.timestamp,
        }
    }
}

pub open spec fn opt_bytes_view(v: Option<Vec<u8>>) -> Option<Seq<u8>> {
    match v {
        Option::None => Option::None,
        Option::Some(b) => Option::Some(b@),
    }
}

pub open spec fn opt_len(v: Option<Seq<u8>>) -> int {
    match v {
        Option::None => 0,
        Option::Some(b) => b.len() as int,
    }
}

/// The magic byte used for a given produce api version: v1 and later carry
/// per-message timestamps.
pub open spec fn spec_magic_of(api_version: i8) -> u8 {
    if api_version >= 1 {
        1
    } else {
        0
    }
}

pub fn magic_of(api_version: i8) -> (r: u8)
    ensures
        r == spec_magic_of(api_version),
{
    if api_version >= 1 {
        1
    } else {
        0
    }
}

pub open spec fn ts_val(m: MessageView) -> i64 {
    match m.timestamp {
        Option::None => 0,
        Option::Some(t) => t,
    }
}

pub open spec fn msg_ts_enc(m: MessageView, magic: u8) -> Seq<u8> {
    if magic == 1 {
        be8(spec_i64_to_u64(ts_val(m)))
    } else {
        Seq::empty()
    }
}

/// The bytes the message checksum covers: magic, attributes, the timestamp
/// under the v1 layout, then key and value.
pub open spec fn msg_body(m: MessageView, magic: u8, comp: Compression) -> Seq<u8> {
    seq![magic, comp.spec_code()] + msg_ts_enc(m, magic) + enc_nbytes(m.key) + enc_nbytes(m.value)
}

pub open spec fn msg_body_len(m: MessageView, magic: u8) -> int {
    let ts_len: int = if magic == 1 {
        8
    } else {
        0
    };
    2 + ts_len + 4 + opt_len(m.key) + 4 + opt_len(m.value)
}

pub open spec fn msg_wf(m: MessageView, magic: u8) -> bool {
    &&& nbytes_wf(m.key)
    &&& nbytes_wf(m.value)
    &&& msg_body_len(m, magic) <= 0x7fff_fffb
}

/// The timestamp is carried exactly under the v1 layout; a round trip keeps
/// a message only when its timestamp agrees with the layout.
pub open spec fn msg_ts_matches(m: MessageView, magic: u8) -> bool {
    m.timestamp is Some <==> magic == 1
}

pub proof fn lemma_msg_body_len(m: MessageView, magic: u8, comp: Compression)
    ensures
        msg_body(m, magic, comp).len() == msg_body_len(m, magic),
{
}

/// A whole message: offset, size of what follows the size field, checksum,
/// then the body.
pub open spec fn enc_message(m: MessageView, offset: i64, magic: u8, comp: Compression) -> Seq<
    u8,
> {
    let body = msg_body(m, magic, comp);
    be8(spec_i64_to_u64(offset)) + be4((body.len() + 4) as u32) + be4(crc32_of(body)) + body
}

pub open spec fn dec_message(s: Seq<u8>) -> Option<(MessageView, Seq<u8>)> {
    match dec_i64(s) {
        Option::None => Option::None,
        Option::Some((_offset, s1)) => match dec_u32(s1) {
            Option::None => Option::None,
            Option::Some((size, s2)) => match dec_u32(s2) {
                Option::None => Option::None,
                Option::Some((crc, s3)) => dec_message_body(size, crc, s3),
            },
        },
    }
}

pub open spec fn dec_message_body(size: u32, crc: u32, s3: Seq<u8>) -> Option<
    (MessageView, Seq<u8>),
> {
    match dec_u8(s3) {
        Option::None => Option::None,
        Option::Some((magic, s4)) => {
            if magic > 1 {
                Option::None
            } else {
                match dec_u8(s4) {
                    Option::None => Option::None,
                    Option::Some((attr, s5)) => match spec_compression_from(attr) {
                        Option::None => Option::None,
                        Option::Some(_comp) => dec_message_tail(size, crc, s3, magic, s5),
                    },
                }
            }
        },
    }
}

pub open spec fn dec_message_tail(size: u32, crc: u32, s3: Seq<u8>, magic: u8, s5: Seq<u8>) -> Option<
    (MessageView, Seq<u8>),
> {
    let ts_step: Option<(Option<i64>, Seq<u8>)> = if magic == 1 {
        match dec_i64(s5) {
            Option::None => Option::None,
            Option::Some((t, s6)) => Option::Some((Option::Some(t), s6)),
        }
    } else {
        Option::Some((Option::None, s5))
    };
    match ts_step {
        Option::None => Option::None,
        Option::Some((timestamp, s6)) => match dec_nbytes(s6) {
            Option::None => Option::None,
            Option::Some((key, s7)) => match dec_nbytes(s7) {
                Option::None => Option::None,
                Option::Some((value, s8)) => {
                    let body_len = s3.len() - s8.len();
                    if size as int != body_len + 4 {
                        Option::None
                    } else if crc != crc32_of(s3.take(body_len)) {
                        Option::None
                    } else {
                        Option::Some((MessageView { key, value, timestamp }, s8))
                    }
                },
            },
        },
    }
}

#[verifier::spinoff_prover]
proof fn lemma_message_outer(m: MessageView, offset: i64, magic: u8, comp: Compression, rest: Seq<u8>)
    ensures
        enc_message(m, offset, magic, comp) + rest == be8(spec_i64_to_u64(offset)) + (be4(
            (msg_body(m, magic, comp).len() + 4) as u32,
        ) + (be4(crc32_of(msg_body(m, magic, comp))) + (msg_body(m, magic, comp) + rest))),
{
    let body = msg_body(m, magic, comp);
    let size = (body.len() + 4) as u32;
    let crc = crc32_of(body);
    assert(enc_message(m, offset, magic, comp) + rest =~= be8(spec_i64_to_u64(offset)) + (be4(
        size,
    ) + (be4(crc) + (body + rest))));
}

#[verifier::spinoff_prover]
proof fn lemma_message_body_split(m: MessageView, magic: u8, comp: Compression, tail: Seq<u8>)
    ensures
        msg_body(m, magic, comp) + tail == seq![magic] + (seq![comp.spec_code()] + (msg_ts_enc(
            m,
            magic,
        ) + (enc_nbytes(m.key) + (enc_nbytes(m.value) + tail)))),
{
    assert(msg_body(m, magic, comp) + tail =~= seq![magic] + (seq![comp.spec_code()] + (msg_ts_enc(
        m,
        magic,
    ) + (enc_nbytes(m.key) + (enc_nbytes(m.value) + tail)))));
}

#[verifier::rlimit(100)]
#[verifier::spinoff_prover]
pub proof fn lemma_dec_message(m: MessageView, offset: i64, magic: u8, comp: Compression, rest: Seq<u8>)
    requires
        msg_wf(m, magic),
        msg_ts_matches(m, magic),
        magic <= 1,
    ensures
        dec_message(enc_message(m, offset, magic, comp) + rest) == Some((m, rest)),
{
    let body = msg_body(m, magic, comp);
    lemma_msg_body_len(m, magic, comp);
    let size = (body.len() + 4) as u32;
    let crc = crc32_of(body);
    let r2 = be4(crc) + (body + rest);
    let r1 = be4(size) + r2;
    lemma_message_outer(m, offset, magic, comp, rest);
    lemma_dec_i64(offset, r1);
    lemma_dec_u32(size, r2);
    lemma_dec_u32(crc, body + rest);
    let s3 = body + rest;
    let code = comp.spec_code();
    let t6 = enc_nbytes(m.key) + (enc_nbytes(m.value) + rest);
    let t5 = msg_ts_enc(m, magic) + t6;
    let t4 = seq![code] + t5;
    lemma_message_body_split(m, magic, comp, rest);
    lemma_dec_u8(magic, t4);
    lemma_dec_u8(code, t5);
    assert(spec_compression_from(code) == Some(comp));
    if magic == 1 {
        assert(t5 =~= be8(spec_i64_to_u64(ts_val(m))) + t6);
        lemma_dec_i64(ts_val(m), t6);
        assert(m.timestamp == Some(ts_val(m)));
    } else {
        assert(t5 =~= t6);
        assert(m.timestamp is None);
    }
    lemma_dec_nbytes(m.key, enc_nbytes(m.value) + rest);
    lemma_dec_nbytes(m.value, rest);
    assert(s3.len() - rest.len() == body.len());
    assert(s3.take(body.len() as int) =~= body);
    assert(size as int == body.len() + 4);
}

pub open spec fn enc_message_fn(offset: i64, magic: u8, comp: Compression) -> spec_fn(
    MessageView,
) -> Seq<u8> {
    |m: MessageView| enc_message(m, offset, magic, comp)
}

pub open spec fn dec_message_fn() -> spec_fn(Seq<u8>) -> Option<(MessageView, Seq<u8>)> {
    |s: Seq<u8>| dec_message(s)
}

/// The message set wrapper: an i32 count, then the messages.
#[derive(Clone, Debug, PartialEq)]
pub struct MessageSet {
    pub messages: Vec<Message>,
}

impl View for MessageSet {
    type V = Seq<MessageView>;

    open spec fn view(&self) -> Seq<MessageView> {
        self.messages@.map_values(|m: Message| m@)
    }
}

pub open spec fn message_set_wf(ms: Seq<MessageView>, magic: u8) -> bool {
    &&& ms.len() <= 0x7fff_ffff
    &&& forall|i: int| 0 <= i < ms.len() ==> msg_wf(#[trigger] ms[i], magic)
}

pub open spec fn message_set_ts_matches(ms: Seq<MessageView>, magic: u8) -> bool {
    forall|i: int| 0 <= i < ms.len() ==> msg_ts_matches(#[trigger] ms[i], magic)
}

/// A message set laid out without compression: an i32 count, then the
/// messages, each stamped with the given attribute.
pub open spec fn enc_plain_message_set(
    ms: Seq<MessageView>,
    offset: i64,
    magic: u8,
    comp: Compression,
) -> Seq<u8> {
    be4(ms.len() as u32) + enc_list(ms, enc_message_fn(offset, magic, comp))
}

/// The single message a gzip-compressed set is carried in: no key, the
/// compressed bytes of the plain inner set (seeded at offset zero) as the
/// value, and a zero timestamp under the v1 layout.
pub open spec fn gzip_wrapper_message(ms: Seq<MessageView>, magic: u8) -> MessageView {
    MessageView {
        key: Option::None,
        value: Option::Some(
            crate::gzip::gzip_of(
                enc_plain_message_set(ms, 0, magic, Compression::Uncompressed),
            ),
        ),
        timestamp: if magic == 1 {
            Option::Some(0i64)
        } else {
            Option::None
        },
    }
}

/// A gzip set must fit its one wrapper message; a plain set always fits.
pub open spec fn set_encodable(ms: Seq<MessageView>, magic: u8, comp: Compression) -> bool {
    comp == Compression::Gzip ==> msg_body_len(gzip_wrapper_message(ms, magic), magic)
        <= 0x7fff_fffb
}

/// A message set on the wire. Without compression the messages are laid out
/// directly; under gzip the plain layout is compressed and carried as the
/// value of a single wrapper message. Decoding yields the outer messages as
/// they stand; unwrapping a compressed set is the consumer path, outside
/// this library. The snappy and lz4 attributes name codecs this library does
/// not carry; the writer refuses them.
pub open spec fn enc_message_set(
    ms: Seq<MessageView>,
    offset: i64,
    magic: u8,
    comp: Compression,
) -> Seq<u8> {
    if comp == Compression::Gzip {
        be4(1) + enc_message(gzip_wrapper_message(ms, magic), offset, magic, comp)
    } else {
        enc_plain_message_set(ms, offset, magic, comp)
    }
}

pub open spec fn dec_message_set(s: Seq<u8>) -> Option<(Seq<MessageView>, Seq<u8>)> {
    match dec_u32(s) {
        Option::None => Option::None,
        Option::Some((n, rest)) => {
            if n > 0x7fff_ffff {
                Option::None
            } else {
                dec_list(rest, n as nat, dec_message_fn())
            }
        },
    }
}

#[verifier::rlimit(100)]
#[verifier::spinoff_prover]
pub proof fn lemma_dec_message_set(
    ms: Seq<MessageView>,
    offset: i64,
    magic: u8,
    comp: Compression,
    rest: Seq<u8>,
)
    requires
        message_set_wf(ms, magic),
        message_set_ts_matches(ms, magic),
        magic <= 1,
        comp != Compression::Gzip,
    ensures
        dec_message_set(enc_message_set(ms, offset, magic, comp) + rest) == Some((ms, rest)),
{
    let n = ms.len() as u32;
    let body = enc_list(ms, enc_message_fn(offset, magic, comp));
    assert(enc_message_set(ms, offset, magic, comp) + rest =~= be4(n) + (body + rest));
    lemma_dec_u32(n, body + rest);
    assert forall|j: int, r: Seq<u8>| 0 <= j < ms.len() implies dec_message_fn()(
        #[trigger] (enc_message_fn(offset, magic, comp)(ms[j]) + r),
    ) == Some((ms[j], r)) by {
        lemma_dec_message(ms[j], offset, magic, comp, r);
    }
    lemma_dec_list_enc(ms, rest, enc_message_fn(offset, magic, comp), dec_message_fn());
}

/// Appends a nullable byte array to the output buffer.
pub fn put_nbytes(buf: &mut Vec<u8>, v: &Option<Vec<u8>>)
    requires
        nbytes_wf(opt_bytes_view(*v)),
    ensures
        final(buf)@ == old(buf)@ + enc_nbytes(opt_bytes_view(*v)),
{
    match v {
        Option::None => {
            put_u32(buf, 0xffff_ffff);
        },
        Option::Some(s) => {
            put_u32(buf, s.len() as u32);
            append_bytes(buf, s);
            assert(buf@ =~= old(buf)@ + enc_nbytes(Option::Some(s@)));
        },
    }
}

/// Appends every byte of `src` to the output buffer.
pub fn append_bytes(buf: &mut Vec<u8>, src: &Vec<u8>)
    ensures
        final(buf)@ == old(buf)@ + src@,
{
    let ghost start = buf@;
    let mut i: usize = 0;
    while i < src.len()
        invariant
            i <= src@.len(),
            buf@ == start + src@.take(i as int),
        decreases src@.len() - i,
    {
        buf.push(src[i]);
        assert(src@.take(i + 1) =~= src@.take(i as int).push(src@[i as int]));
        assert(buf@ =~= start + src@.take(i + 1));
        i = i + 1;
    }
    assert(src@.take(src@.len() as int) =~= src@);
}

/// Reads a nullable byte array at the cursor.
pub fn parse_nbytes(buf: &[u8], pos: usize) -> (r: Option<(Option<Vec<u8>>, usize)>)
    requires
        pos <= buf@.len(),
    ensures
        match r {
            Some((v, end)) => {
                &&& pos <= end <= buf@.len()
                &&& dec_nbytes(tail_from(buf@, pos as int)) == Some(
                    (opt_bytes_view(v), tail_from(buf@, end as int)),
                )
            },
            None => dec_nbytes(tail_from(buf@, pos as int)) is None,
        },
{
    match parse_u32(buf, pos) {
        None => None,
        Some((n, p1)) => {
            if n == 0xffff_ffff {
                Some((None, p1))
            } else if n > 0x7fff_ffff {
                None
            } else if buf.len() - p1 < n as usize {
                None
            } else {
                let body = copy_range(buf, p1, p1 + n as usize);
                proof {
                    let t = tail_from(buf@, p1 as int);
                    assert(t.take(n as int) =~= buf@.subrange(p1 as int, p1 + n as int));
                    assert(t.skip(n as int) =~= tail_from(buf@, p1 + n as int));
                }
                Some((Some(body), p1 + n as usize))
            }
        },
    }
}

/// Appends one message to the output buffer.
pub fn put_message(buf: &mut Vec<u8>, m: &Message, offset: i64, magic: u8, comp: Compression)
    requires
        msg_wf(m@, magic),
        magic <= 1,
    ensures
        final(buf)@ == old(buf)@ + enc_message(m@, offset, magic, comp),
{
    let mut body: Vec<u8> = Vec::new();
    put_u8(&mut body, magic);
    put_u8(&mut body, comp.code());
    if magic == 1 {
        match m.timestamp {
            Some(t) => put_i64(&mut body, t),
            None => put_i64(&mut body, 0),
        }
    }
    put_nbytes(&mut body, &m.key);
    put_nbytes(&mut body, &m.value);
    proof {
        assert(body@ =~= msg_body(m@, magic, comp));
        lemma_msg_body_len(m@, magic, comp);
    }
    let crc = crc32_range(body.as_slice(), 0, body.len());
    proof {
        assert(body@.subrange(0, body@.len() as int) =~= body@);
    }
    put_i64(buf, offset);
    put_u32(buf, (body.len() + 4) as u32);
    put_u32(buf, crc);
    append_bytes(buf, &body);
    assert(buf@ =~= old(buf)@ + enc_message(m@, offset, magic, comp));
}

/// Reads one message at the cursor.
#[verifier::rlimit(100)]
#[verifier::spinoff_prover]
pub fn parse_message(buf: &[u8], pos: usize) -> (r: Option<(Message, usize)>)
    requires
        pos <= buf@.len(),
    ensures
        match r {
            Some((v, end)) => {
                &&& pos <= end <= buf@.len()
                &&& dec_message(tail_from(buf@, pos as int)) == Some(
                    (v@, tail_from(buf@, end as int)),
                )
            },
            None => dec_message(tail_from(buf@, pos as int)) is None,
        },
{
    let step0 = parse_i64(buf, pos);
    if step0.is_none() {
        return None;
    }
    let (_offset, p1) = step0.unwrap();
    let step1 = parse_u32(buf, p1);
    if step1.is_none() {
        return None;
    }
    let (size, p2) = step1.unwrap();
    let step2 = parse_u32(buf, p2);
    if step2.is_none() {
        return None;
    }
    let (crc, p3) = step2.unwrap();
    let step3 = parse_u8(buf, p3);
    if step3.is_none() {
        return None;
    }
    let (magic, p4) = step3.unwrap();
    if magic > 1 {
        return None;
    }
    let step4 = parse_u8(buf, p4);
    if step4.is_none() {
        return None;
    }
    let (attr, p5) = step4.unwrap();
    if compression_from(attr).is_none() {
        return None;
    }
    let (timestamp, p6): (Option<i64>, usize) = if magic == 1 {
        let step5 = parse_i64(buf, p5);
        if step5.is_none() {
            return None;
        }
        let (t, p6) = step5.unwrap();
        (Some(t), p6)
    } else {
        (None, p5)
    };
    let step6 = parse_nbytes(buf, p6);
    if step6.is_none() {
        return None;
    }
    let (key, p7) = step6.unwrap();
    let step7 = parse_nbytes(buf, p7);
    if step7.is_none() {
        return None;
    }
    let (value, p8) = step7.unwrap();
    let body_len = p8 - p3;
    if size < 4 || (size - 4) as usize != body_len {
        proof {
            let s3 = tail_from(buf@, p3 as int);
            let s8 = tail_from(buf@, p8 as int);
            assert(s3.len() - s8.len() == body_len);
        }
        return None;
    }
    let actual = crc32_range(buf, p3, p8);
    proof {
        let s3 = tail_from(buf@, p3 as int);
        let s8 = tail_from(buf@, p8 as int);
        assert(s3.len() - s8.len() == body_len);
        assert(s3.take(body_len as int) =~= buf@.subrange(p3 as int, p8 as int));
    }
    if actual != crc {
        return None;
    }
    Some((Message { key, value, timestamp }, p8))
}

/// Appends a whole message set to the output buffer. A plain set is laid
/// out directly; a gzip set is compressed through the outside codec and
/// carried in one wrapper message, refused only when the compressed bytes
/// exceed what one message can hold.
pub fn put_message_set(
    buf: &mut Vec<u8>,
    ms: &MessageSet,
    offset: i64,
    magic: u8,
    comp: Compression,
) -> (r: Result<(), crate::errors::ErrorKind>)
    requires
        message_set_wf(ms@, magic),
        magic <= 1,
        comp == Compression::Uncompressed || comp == Compression::Gzip,
    ensures
        match r {
            Ok(_) => {
                &&& set_encodable(ms@, magic, comp)
                &&& final(buf)@ == old(buf)@ + enc_message_set(ms@, offset, magic, comp)
            },
            Err(e) => {
                &&& e == crate::errors::ErrorKind::Protocol
                &&& !set_encodable(ms@, magic, comp)
                &&& final(buf)@ == old(buf)@
            },
        },
{
    match comp {
        Compression::Gzip => {
            let mut inner: Vec<u8> = Vec::new();
            put_plain_message_set(&mut inner, ms, 0, magic, Compression::Uncompressed);
            let compressed = match crate::gzip::compress(inner.as_slice()) {
                Ok(v) => v,
                Err(_) => {
                    proof {
                        assert(false);
                    }
                    return Err(crate::errors::ErrorKind::Protocol);
                },
            };
            let ts_len: usize = if magic == 1 {
                8
            } else {
                0
            };
            if compressed.len() > 0x7fff_fffb - 10 - ts_len {
                return Err(crate::errors::ErrorKind::Protocol);
            }
            let wrapper = Message {
                key: None,
                value: Some(compressed),
                timestamp: if magic == 1 {
                    Some(0)
                } else {
                    None
                },
            };
            proof {
                assert(wrapper@ == gzip_wrapper_message(ms@, magic));
                assert(msg_wf(wrapper@, magic));
            }
            put_u32(buf, 1);
            put_message(buf, &wrapper, offset, magic, comp);
            proof {
                assert(buf@ =~= old(buf)@ + enc_message_set(ms@, offset, magic, comp));
            }
            Ok(())
        },
        _ => {
            put_plain_message_set(buf, ms, offset, magic, comp);
            Ok(())
        },
    }
}

/// Appends the plain layout of a message set to the output buffer.
fn put_plain_message_set(
    buf: &mut Vec<u8>,
    ms: &MessageSet,
    offset: i64,
    magic: u8,
    comp: Compression,
)
    requires
        message_set_wf(ms@, magic),
        magic <= 1,
    ensures
        final(buf)@ == old(buf)@ + enc_plain_message_set(ms@, offset, magic, comp),
{
    let ghost vs = ms@;
    let ghost f = enc_message_fn(offset, magic, comp);
    put_u32(buf, ms.messages.len() as u32);
    let ghost start = buf@;
    let mut i: usize = 0;
    while i < ms.messages.len()
        invariant
            i <= ms.messages@.len(),
            vs == ms@,
            f == enc_message_fn(offset, magic, comp),
            vs.len() == ms.messages@.len(),
            message_set_wf(vs, magic),
            magic <= 1,
            buf@ == start + enc_list(vs.take(i as int), f),
        decreases ms.messages@.len() - i,
    {
        proof {
            assert(vs.take(0int) =~= Seq::<MessageView>::empty());
            assert(vs[i as int] == ms.messages@[i as int]@);
        }
        put_message(buf, &ms.messages[i], offset, magic, comp);
        proof {
            lemma_enc_list_snoc(vs, f, i as int);
        }
        i = i + 1;
    }
    proof {
        assert(vs.take(vs.len() as int) =~= vs);
        assert(buf@ =~= old(buf)@ + enc_plain_message_set(vs, offset, magic, comp));
    }
}

/// Reads a whole message set at the cursor.
pub fn parse_message_set(buf: &[u8], pos: usize) -> (r: Option<(MessageSet, usize)>)
    requires
        pos <= buf@.len(),
    ensures
        match r {
            Some((v, end)) => {
                &&& pos <= end <= buf@.len()
                &&& dec_message_set(tail_from(buf@, pos as int)) == Some(
                    (v@, tail_from(buf@, end as int)),
                )
            },
            None => dec_message_set(tail_from(buf@, pos as int)) is None,
        },
{
    match parse_u32(buf, pos) {
        None => None,
        Some((n, p1)) => {
            if n > 0x7fff_ffff {
                None
            } else {
                let ghost f = dec_message_fn();
                let ghost whole = dec_list(tail_from(buf@, p1 as int), n as nat, f);
                let mut out: Vec<Message> = Vec::new();
                let mut cur: usize = p1;
                let mut i: u32 = 0;
                proof {
                    assert(out@.map_values(|m: Message| m@) =~= Seq::<MessageView>::empty());
                }
                while i < n
                    invariant
                        i <= n,
                        pos <= p1 <= cur <= buf@.len(),
                        f == dec_message_fn(),
                        out@.map_values(|m: Message| m@).len() == i as int,
                        dec_message_set(tail_from(buf@, pos as int)) == whole,
                        whole == dec_join(
                            out@.map_values(|m: Message| m@),
                            dec_list(tail_from(buf@, cur as int), (n - i) as nat, f),
                        ),
                    decreases n - i,
                {
                    let ghost vw = out@.map_values(|m: Message| m@);
                    match parse_message(buf, cur) {
                        None => {
                            proof {
                                let tl = tail_from(buf@, cur as int);
                                assert(f(tl) == dec_message(tl));
                                assert(dec_list(tl, (n - i) as nat, f) is None);
                            }
                            return None;
                        },
                        Some((item, next)) => {
                            proof {
                                let tl = tail_from(buf@, cur as int);
                                let tln = tail_from(buf@, next as int);
                                let rem = (n - i) as nat;
                                assert(f(tl) == Some((item@, tln)));
                                assert(dec_list(tl, rem, f) == dec_join(
                                    seq![item@],
                                    dec_list(tln, (rem - 1) as nat, f),
                                ));
                                assert(out@.push(item).map_values(|m: Message| m@) =~= vw.push(
                                    item@,
                                ));
                                match dec_list(tln, (rem - 1) as nat, f) {
                                    Option::None => {},
                                    Option::Some((vs2, rest2)) => {
                                        assert(vw + (seq![item@] + vs2) =~= vw.push(item@) + vs2);
                                    },
                                }
                            }
                            out.push(item);
                            cur = next;
                            i = i + 1;
                        },
                    }
                }
                proof {
                    let vw = out@.map_values(|m: Message| m@);
                    assert(dec_list(tail_from(buf@, cur as int), 0nat, f) == Some(
                        (Seq::<MessageView>::empty(), tail_from(buf@, cur as int)),
                    ));
                    assert(vw + Seq::<MessageView>::empty() =~= vw);
                }
                Some((MessageSet { messages: out }, cur))
            }
        },
    }
}

} // verus!
