//! Big-endian wire primitives shared by every protocol message: fixed-width
//! integers, two's-complement conversions, and the spec-level decoders that
//! the codec proofs are stated over.
use vstd::prelude::*;

verus! {

// ---------------------------------------------------------------------------
// Two's-complement conversions between signed field types and the unsigned
// form written on the wire.
// ---------------------------------------------------------------------------

pub open spec fn spec_i16_to_u16(x: i16) -> u16 {
    if x >= 0 {
        x as u16
    } else {
        (x + 0x1_0000) as u16
    }
}

pub open spec fn spec_u16_to_i16(x: u16) -> i16 {
    if x <= 0x7fff {
        x as i16
    } else {
        (x - 0x1_0000) as i16
    }
}

pub open spec fn spec_i32_to_u32(x: i32) -> u32 {
    if x >= 0 {
        x as u32
    } else {
        (x + 0x1_0000_0000) as u32
    }
}

pub open spec fn spec_u32_to_i32(x: u32) -> i32 {
    if x <= 0x7fff_ffff {
        x as i32
    } else {
        (x - 0x1_0000_0000) as i32
    }
}

pub open spec fn spec_i64_to_u64(x: i64) -> u64 {
    if x >= 0 {
        x as u64
    } else {
        (x + 0x1_0000_0000_0000_0000) as u64
    }
}

pub open spec fn spec_u64_to_i64(x: u64) -> i64 {
    if x <= 0x7fff_ffff_ffff_ffff {
        x as i64
    } else {
        (x - 0x1_0000_0000_0000_0000) as i64
    }
}

pub proof fn lemma_i16_u16_round(x: i16)
    ensures
        spec_u16_to_i16(spec_i16_to_u16(x)) == x,
{
}

pub proof fn lemma_i32_u32_round(x: i32)
    ensures
        spec_u32_to_i32(spec_i32_to_u32(x)) == x,
{
}

pub proof fn lemma_i64_u64_round(x: i64)
    ensures
        spec_u64_to_i64(spec_i64_to_u64(x)) == x,
{
}

pub fn i16_to_u16(x: i16) -> (r: u16)
    ensures
        r == spec_i16_to_u16(x),
{
    if x >= 0 {
        x as u16
    } else {
        let wide: i32 = x as i32;
        (wide + 0x1_0000) as u16
    }
}

pub fn u16_to_i16(x: u16) -> (r: i16)
    ensures
        r == spec_u16_to_i16(x),
{
    if x <= 0x7fff {
        x as i16
    } else {
        let wide: i32 = x as i32;
        (wide - 0x1_0000) as i16
    }
}

pub fn i32_to_u32(x: i32) -> (r: u32)
    ensures
        r == spec_i32_to_u32(x),
{
    if x >= 0 {
        x as u32
    } else {
        let wide: i64 = x as i64;
        (wide + 0x1_0000_0000) as u32
    }
}

pub fn u32_to_i32(x: u32) -> (r: i32)
    ensures
        r == spec_u32_to_i32(x),
{
    if x <= 0x7fff_ffff {
        x as i32
    } else {
        let wide: i64 = x as i64;
        (wide - 0x1_0000_0000) as i32
    }
}

pub fn i64_to_u64(x: i64) -> (r: u64)
    ensures
        r == spec_i64_to_u64(x),
{
    if x >= 0 {
        x as u64
    } else {
        let wide: i128 = x as i128;
        (wide + 0x1_0000_0000_0000_0000) as u64
    }
}

pub fn u64_to_i64(x: u64) -> (r: i64)
    ensures
        r == spec_u64_to_i64(x),
{
    if x <= 0x7fff_ffff_ffff_ffff {
        x as i64
    } else {
        let wide: i128 = x as i128;
        (wide - 0x1_0000_0000_0000_0000) as i64
    }
}

// ---------------------------------------------------------------------------
// Big-endian byte sequences for fixed-width unsigned integers, and the
// reassembly of an integer from its bytes.
// ---------------------------------------------------------------------------

pub open spec fn byte_at16(x: u16, shift: u16) -> u8 {
    let moved: u16 = x >> shift;
    (moved & 0xff) as u8
}

pub open spec fn byte_at32(x: u32, shift: u32) -> u8 {
    let moved: u32 = x >> shift;
    (moved & 0xff) as u8
}

pub open spec fn byte_at64(x: u64, shift: u64) -> u8 {
    let moved: u64 = x >> shift;
    (moved & 0xff) as u8
}

pub open spec fn be2(x: u16) -> Seq<u8> {
    seq![byte_at16(x, 8), (x & 0xff) as u8]
}

pub open spec fn be4(x: u32) -> Seq<u8> {
    seq![byte_at32(x, 24), byte_at32(x, 16), byte_at32(x, 8), (x & 0xff) as u8]
}

pub open spec fn be8(x: u64) -> Seq<u8> {
    seq![
        byte_at64(x, 56),
        byte_at64(x, 48),
        byte_at64(x, 40),
        byte_at64(x, 32),
        byte_at64(x, 24),
        byte_at64(x, 16),
        byte_at64(x, 8),
        (x & 0xff) as u8,
    ]
}

pub open spec fn combine16(b0: u8, b1: u8) -> u16 {
    (b0 as u16) << 8 | (b1 as u16)
}

pub open spec fn combine32(b0: u8, b1: u8, b2: u8, b3: u8) -> u32 {
    (b0 as u32) << 24 | (b1 as u32) << 16 | (b2 as u32) << 8 | (b3 as u32)
}

pub open spec fn combine64(b0: u8, b1: u8, b2: u8, b3: u8, b4: u8, b5: u8, b6: u8, b7: u8) -> u64 {
    (b0 as u64) << 56 | (b1 as u64) << 48 | (b2 as u64) << 40 | (b3 as u64) << 32 | (b4
        as u64) << 24 | (b5 as u64) << 16 | (b6 as u64) << 8 | (b7 as u64)
}

// ---------------------------------------------------------------------------
// Spec-level decoders. Each takes the remaining input and yields the decoded
// value together with what is left, or `None` when the input is rejected.
// ---------------------------------------------------------------------------

pub open spec fn dec_u8(s: Seq<u8>) -> Option<(u8, Seq<u8>)> {
    if s.len() < 1 {
        None
    } else {
        Some((s[0], s.skip(1)))
    }
}

pub open spec fn dec_u16(s: Seq<u8>) -> Option<(u16, Seq<u8>)> {
    if s.len() < 2 {
        None
    } else {
        Some((combine16(s[0], s[1]), s.skip(2)))
    }
}

pub open spec fn dec_u32(s: Seq<u8>) -> Option<(u32, Seq<u8>)> {
    if s.len() < 4 {
        None
    } else {
        Some((combine32(s[0], s[1], s[2], s[3]), s.skip(4)))
    }
}

pub open spec fn dec_u64(s: Seq<u8>) -> Option<(u64, Seq<u8>)> {
    if s.len() < 8 {
        None
    } else {
        Some((combine64(s[0], s[1], s[2], s[3], s[4], s[5], s[6], s[7]), s.skip(8)))
    }
}

pub open spec fn dec_i16(s: Seq<u8>) -> Option<(i16, Seq<u8>)> {
    match dec_u16(s) {
        Option::None => Option::None,
        Option::Some((x, rest)) => Option::Some((spec_u16_to_i16(x), rest)),
    }
}

pub open spec fn dec_i32(s: Seq<u8>) -> Option<(i32, Seq<u8>)> {
    match dec_u32(s) {
        Option::None => Option::None,
        Option::Some((x, rest)) => Option::Some((spec_u32_to_i32(x), rest)),
    }
}

pub open spec fn dec_i64(s: Seq<u8>) -> Option<(i64, Seq<u8>)> {
    match dec_u64(s) {
        Option::None => Option::None,
        Option::Some((x, rest)) => Option::Some((spec_u64_to_i64(x), rest)),
    }
}

// ---------------------------------------------------------------------------
// Round trips for the primitives.
// ---------------------------------------------------------------------------

pub proof fn lemma_dec_u8(x: u8, rest: Seq<u8>)
    ensures
        dec_u8(seq![x] + rest) == Some((x, rest)),
{
    let s = seq![x] + rest;
    assert(s[0] == x);
    assert(s.skip(1) =~= rest);
}

pub proof fn lemma_dec_u16(x: u16, rest: Seq<u8>)
    ensures
        dec_u16(be2(x) + rest) == Some((x, rest)),
{
    let s = be2(x) + rest;
    let b0 = byte_at16(x, 8);
    let b1 = (x & 0xff) as u8;
    assert(s[0] == b0 && s[1] == b1);
    assert(combine16(b0, b1) == x) by (bit_vector)
        requires
            b0 == byte_at16(x, 8),
            b1 == (x & 0xff) as u8,
    ;
    assert(s.skip(2) =~= rest);
}

pub proof fn lemma_dec_u32(x: u32, rest: Seq<u8>)
    ensures
        dec_u32(be4(x) + rest) == Some((x, rest)),
{
    let s = be4(x) + rest;
    let b0 = byte_at32(x, 24);
    let b1 = byte_at32(x, 16);
    let b2 = byte_at32(x, 8);
    let b3 = (x & 0xff) as u8;
    assert(s[0] == b0 && s[1] == b1 && s[2] == b2 && s[3] == b3);
    assert(combine32(b0, b1, b2, b3) == x) by (bit_vector)
        requires
            b0 == byte_at32(x, 24),
            b1 == byte_at32(x, 16),
            b2 == byte_at32(x, 8),
            b3 == (x & 0xff) as u8,
    ;
    assert(s.skip(4) =~= rest);
}

pub proof fn lemma_dec_u64(x: u64, rest: Seq<u8>)
    ensures
        dec_u64(be8(x) + rest) == Some((x, rest)),
{
    let s = be8(x) + rest;
    let b0 = byte_at64(x, 56);
    let b1 = byte_at64(x, 48);
    let b2 = byte_at64(x, 40);
    let b3 = byte_at64(x, 32);
    let b4 = byte_at64(x, 24);
    let b5 = byte_at64(x, 16);
    let b6 = byte_at64(x, 8);
    let b7 = (x & 0xff) as u8;
    assert(s[0] == b0 && s[1] == b1 && s[2] == b2 && s[3] == b3);
    assert(s[4] == b4 && s[5] == b5 && s[6] == b6 && s[7] == b7);
    assert(combine64(b0, b1, b2, b3, b4, b5, b6, b7) == x) by (bit_vector)
        requires
            b0 == byte_at64(x, 56),
            b1 == byte_at64(x, 48),
            b2 == byte_at64(x, 40),
            b3 == byte_at64(x, 32),
            b4 == byte_at64(x, 24),
            b5 == byte_at64(x, 16),
            b6 == byte_at64(x, 8),
            b7 == (x & 0xff) as u8,
    ;
    assert(s.skip(8) =~= rest);
}

pub proof fn lemma_dec_i16(x: i16, rest: Seq<u8>)
    ensures
        dec_i16(be2(spec_i16_to_u16(x)) + rest) == Some((x, rest)),
{
    lemma_dec_u16(spec_i16_to_u16(x), rest);
    lemma_i16_u16_round(x);
}

pub proof fn lemma_dec_i32(x: i32, rest: Seq<u8>)
    ensures
        dec_i32(be4(spec_i32_to_u32(x)) + rest) == Some((x, rest)),
{
    lemma_dec_u32(spec_i32_to_u32(x), rest);
    lemma_i32_u32_round(x);
}

pub proof fn lemma_dec_i64(x: i64, rest: Seq<u8>)
    ensures
        dec_i64(be8(spec_i64_to_u64(x)) + rest) == Some((x, rest)),
{
    lemma_dec_u64(spec_i64_to_u64(x), rest);
    lemma_i64_u64_round(x);
}

// ---------------------------------------------------------------------------
// Exec writers. Each appends the spec encoding to the output buffer.
// ---------------------------------------------------------------------------

pub fn put_u8(buf: &mut Vec<u8>, x: u8)
    ensures
        final(buf)@ == old(buf)@ + seq![x],
{
    buf.push(x);
    assert(buf@ =~= old(buf)@ + seq![x]);
}

pub fn put_u16(buf: &mut Vec<u8>, x: u16)
    ensures
        final(buf)@ == old(buf)@ + be2(x),
{
    buf.push((x >> 8 & 0xff) as u8);
    buf.push((x & 0xff) as u8);
    assert(buf@ =~= old(buf)@ + be2(x));
}

pub fn put_u32(buf: &mut Vec<u8>, x: u32)
    ensures
        final(buf)@ == old(buf)@ + be4(x),
{
    buf.push((x >> 24 & 0xff) as u8);
    buf.push((x >> 16 & 0xff) as u8);
    buf.push((x >> 8 & 0xff) as u8);
    buf.push((x & 0xff) as u8);
    assert(buf@ =~= old(buf)@ + be4(x));
}

pub fn put_u64(buf: &mut Vec<u8>, x: u64)
    ensures
        final(buf)@ == old(buf)@ + be8(x),
{
    buf.push((x >> 56 & 0xff) as u8);
    buf.push((x >> 48 & 0xff) as u8);
    buf.push((x >> 40 & 0xff) as u8);
    buf.push((x >> 32 & 0xff) as u8);
    buf.push((x >> 24 & 0xff) as u8);
    buf.push((x >> 16 & 0xff) as u8);
    buf.push((x >> 8 & 0xff) as u8);
    buf.push((x & 0xff) as u8);
    assert(buf@ =~= old(buf)@ + be8(x));
}

pub fn put_i16(buf: &mut Vec<u8>, x: i16)
    ensures
        final(buf)@ == old(buf)@ + be2(spec_i16_to_u16(x)),
{
    let u = i16_to_u16(x);
    put_u16(buf, u);
}

pub fn put_i32(buf: &mut Vec<u8>, x: i32)
    ensures
        final(buf)@ == old(buf)@ + be4(spec_i32_to_u32(x)),
{
    let u = i32_to_u32(x);
    put_u32(buf, u);
}

pub fn put_i64(buf: &mut Vec<u8>, x: i64)
    ensures
        final(buf)@ == old(buf)@ + be8(spec_i64_to_u64(x)),
{
    let u = i64_to_u64(x);
    put_u64(buf, u);
}

// ---------------------------------------------------------------------------
// Exec readers over a slice and a cursor position. Each result is tied to the
// spec decoder applied to the remaining input.
// ---------------------------------------------------------------------------

/// The input that remains once the cursor stands at `pos`.
pub open spec fn tail_from(s: Seq<u8>, pos: int) -> Seq<u8> {
    s.subrange(pos, s.len() as int)
}

pub fn parse_u8(buf: &[u8], pos: usize) -> (r: Option<(u8, usize)>)
    requires
        pos <= buf@.len(),
    ensures
        match r {
            Some((v, end)) => {
                &&& pos <= end <= buf@.len()
                &&& dec_u8(tail_from(buf@, pos as int)) == Some((v, tail_from(buf@, end as int)))
            },
            None => dec_u8(tail_from(buf@, pos as int)) is None,
        },
{
    if buf.len() - pos < 1 {
        None
    } else {
        let v = buf[pos];
        assert(tail_from(buf@, pos as int).skip(1) =~= tail_from(buf@, pos + 1));
        Some((v, pos + 1))
    }
}

pub fn parse_u16(buf: &[u8], pos: usize) -> (r: Option<(u16, usize)>)
    requires
        pos <= buf@.len(),
    ensures
        match r {
            Some((v, end)) => {
                &&& pos <= end <= buf@.len()
                &&& dec_u16(tail_from(buf@, pos as int)) == Some((v, tail_from(buf@, end as int)))
            },
            None => dec_u16(tail_from(buf@, pos as int)) is None,
        },
{
    if buf.len() - pos < 2 {
        None
    } else {
        let v = (buf[pos] as u16) << 8 | (buf[pos + 1] as u16);
        assert(tail_from(buf@, pos as int).skip(2) =~= tail_from(buf@, pos + 2));
        Some((v, pos + 2))
    }
}

pub fn parse_u32(buf: &[u8], pos: usize) -> (r: Option<(u32, usize)>)
    requires
        pos <= buf@.len(),
    ensures
        match r {
            Some((v, end)) => {
                &&& pos <= end <= buf@.len()
                &&& dec_u32(tail_from(buf@, pos as int)) == Some((v, tail_from(buf@, end as int)))
            },
            None => dec_u32(tail_from(buf@, pos as int)) is None,
        },
{
    if buf.len() - pos < 4 {
        None
    } else {
        let v = (buf[pos] as u32) << 24 | (buf[pos + 1] as u32) << 16 | (buf[pos + 2]
            as u32) << 8 | (buf[pos + 3] as u32);
        assert(tail_from(buf@, pos as int).skip(4) =~= tail_from(buf@, pos + 4));
        Some((v, pos + 4))
    }
}

pub fn parse_u64(buf: &[u8], pos: usize) -> (r: Option<(u64, usize)>)
    requires
        pos <= buf@.len(),
    ensures
        match r {
            Some((v, end)) => {
                &&& pos <= end <= buf@.len()
                &&& dec_u64(tail_from(buf@, pos as int)) == Some((v, tail_from(buf@, end as int)))
            },
            None => dec_u64(tail_from(buf@, pos as int)) is None,
        },
{
    if buf.len() - pos < 8 {
        None
    } else {
        let v = (buf[pos] as u64) << 56 | (buf[pos + 1] as u64) << 48 | (buf[pos + 2]
            as u64) << 40 | (buf[pos + 3] as u64) << 32 | (buf[pos + 4] as u64) << 24 | (buf[pos
            + 5] as u64) << 16 | (buf[pos + 6] as u64) << 8 | (buf[pos + 7] as u64);
        assert(tail_from(buf@, pos as int).skip(8) =~= tail_from(buf@, pos + 8));
        Some((v, pos + 8))
    }
}

pub fn parse_i16(buf: &[u8], pos: usize) -> (r: Option<(i16, usize)>)
    requires
        pos <= buf@.len(),
    ensures
        match r {
            Some((v, end)) => {
                &&& pos <= end <= buf@.len()
                &&& dec_i16(tail_from(buf@, pos as int)) == Some((v, tail_from(buf@, end as int)))
            },
            None => dec_i16(tail_from(buf@, pos as int)) is None,
        },
{
    match parse_u16(buf, pos) {
        None => None,
        Some((v, end)) => Some((u16_to_i16(v), end)),
    }
}

pub fn parse_i32(buf: &[u8], pos: usize) -> (r: Option<(i32, usize)>)
    requires
        pos <= buf@.len(),
    ensures
        match r {
            Some((v, end)) => {
                &&& pos <= end <= buf@.len()
                &&& dec_i32(tail_from(buf@, pos as int)) == Some((v, tail_from(buf@, end as int)))
            },
            None => dec_i32(tail_from(buf@, pos as int)) is None,
        },
{
    match parse_u32(buf, pos) {
        None => None,
        Some((v, end)) => Some((u32_to_i32(v), end)),
    }
}

pub fn parse_i64(buf: &[u8], pos: usize) -> (r: Option<(i64, usize)>)
    requires
        pos <= buf@.len(),
    ensures
        match r {
            Some((v, end)) => {
                &&& pos <= end <= buf@.len()
                &&& dec_i64(tail_from(buf@, pos as int)) == Some((v, tail_from(buf@, end as int)))
            },
            None => dec_i64(tail_from(buf@, pos as int)) is None,
        },
{
    match parse_u64(buf, pos) {
        None => None,
        Some((v, end)) => Some((u64_to_i64(v), end)),
    }
}

// ---------------------------------------------------------------------------
// Length-prefixed strings and byte arrays. A string carries an i16 length, a
// byte array an i32 length; the all-ones length marks a null value.
// ---------------------------------------------------------------------------

/// Largest payload a length-prefixed string can carry.
pub const MAX_STR_LEN: usize = 0x7fff;

/// Largest payload a length-prefixed byte array can carry.
pub const MAX_BYTES_LEN: usize = 0x7fff_ffff;

pub open spec fn enc_nstr(v: Option<Seq<u8>>) -> Seq<u8> {
    match v {
        Option::None => be2(0xffff),
        Option::Some(s) => be2(s.len() as u16) + s,
    }
}

pub open spec fn nstr_wf(v: Option<Seq<u8>>) -> bool {
    match v {
        Option::None => true,
        Option::Some(s) => s.len() <= MAX_STR_LEN,
    }
}

pub open spec fn dec_nstr(s: Seq<u8>) -> Option<(Option<Seq<u8>>, Seq<u8>)> {
    match dec_u16(s) {
        Option::None => Option::None,
        Option::Some((n, rest)) => {
            if n == 0xffff {
                Option::Some((Option::None, rest))
            } else if n > 0x7fff {
                Option::None
            } else if rest.len() < n {
                Option::None
            } else {
                Option::Some((Option::Some(rest.take(n as int)), rest.skip(n as int)))
            }
        },
    }
}

pub proof fn lemma_dec_nstr(v: Option<Seq<u8>>, rest: Seq<u8>)
    requires
        nstr_wf(v),
    ensures
        dec_nstr(enc_nstr(v) + rest) == Some((v, rest)),
{
    match v {
        Option::None => {
            lemma_dec_u16(0xffff, rest);
            assert(enc_nstr(v) + rest =~= be2(0xffff) + rest);
        },
        Option::Some(body) => {
            let n = body.len() as u16;
            assert(enc_nstr(v) + rest =~= be2(n) + (body + rest));
            lemma_dec_u16(n, body + rest);
            assert((body + rest).take(n as int) =~= body);
            assert((body + rest).skip(n as int) =~= rest);
        },
    }
}

pub open spec fn enc_nbytes(v: Option<Seq<u8>>) -> Seq<u8> {
    match v {
        Option::None => be4(0xffff_ffff),
        Option::Some(s) => be4(s.len() as u32) + s,
    }
}

pub open spec fn nbytes_wf(v: Option<Seq<u8>>) -> bool {
    match v {
        Option::None => true,
        Option::Some(s) => s.len() <= MAX_BYTES_LEN,
    }
}

pub open spec fn dec_nbytes(s: Seq<u8>) -> Option<(Option<Seq<u8>>, Seq<u8>)> {
    match dec_u32(s) {
        Option::None => Option::None,
        Option::Some((n, rest)) => {
            if n == 0xffff_ffff {
                Option::Some((Option::None, rest))
            } else if n > 0x7fff_ffff {
                Option::None
            } else if rest.len() < n {
                Option::None
            } else {
                Option::Some((Option::Some(rest.take(n as int)), rest.skip(n as int)))
            }
        },
    }
}

pub proof fn lemma_dec_nbytes(v: Option<Seq<u8>>, rest: Seq<u8>)
    requires
        nbytes_wf(v),
    ensures
        dec_nbytes(enc_nbytes(v) + rest) == Some((v, rest)),
{
    match v {
        Option::None => {
            lemma_dec_u32(0xffff_ffff, rest);
            assert(enc_nbytes(v) + rest =~= be4(0xffff_ffff) + rest);
        },
        Option::Some(body) => {
            let n = body.len() as u32;
            assert(enc_nbytes(v) + rest =~= be4(n) + (body + rest));
            lemma_dec_u32(n, body + rest);
            assert((body + rest).take(n as int) =~= body);
            assert((body + rest).skip(n as int) =~= rest);
        },
    }
}

/// A string that the protocol does not allow to be null.
pub open spec fn enc_str(s: Seq<u8>) -> Seq<u8> {
    be2(s.len() as u16) + s
}

pub open spec fn str_wf(s: Seq<u8>) -> bool {
    s.len() <= MAX_STR_LEN
}

pub open spec fn dec_str(s: Seq<u8>) -> Option<(Seq<u8>, Seq<u8>)> {
    match dec_nstr(s) {
        Option::None => Option::None,
        Option::Some((v, rest)) => match v {
            Option::None => Option::None,
            Option::Some(body) => Option::Some((body, rest)),
        },
    }
}

pub proof fn lemma_dec_str(s: Seq<u8>, rest: Seq<u8>)
    requires
        str_wf(s),
    ensures
        dec_str(enc_str(s) + rest) == Some((s, rest)),
{
    lemma_dec_nstr(Some(s), rest);
    assert(enc_str(s) + rest =~= enc_nstr(Some(s)) + rest);
}

// ---------------------------------------------------------------------------
// Homogeneous element runs, used by every counted array in the protocol.
// ---------------------------------------------------------------------------

pub open spec fn enc_list<T>(xs: Seq<T>, f: spec_fn(T) -> Seq<u8>) -> Seq<u8>
    decreases xs.len(),
{
    if xs.len() == 0 {
        Seq::empty()
    } else {
        f(xs[0]) + enc_list(xs.skip(1), f)
    }
}

pub open spec fn dec_list<T>(
    s: Seq<u8>,
    n: nat,
    f: spec_fn(Seq<u8>) -> Option<(T, Seq<u8>)>,
) -> Option<(Seq<T>, Seq<u8>)>
    decreases n,
{
    if n == 0 {
        Some((Seq::empty(), s))
    } else {
        match f(s) {
            Option::None => Option::None,
            Option::Some((v, s1)) => match dec_list(s1, (n - 1) as nat, f) {
                Option::None => Option::None,
                Option::Some((vs, s2)) => Option::Some((seq![v] + vs, s2)),
            },
        }
    }
}

/// Appending one element extends the encoding of a prefix by that element.
pub proof fn lemma_enc_list_snoc<T>(xs: Seq<T>, f: spec_fn(T) -> Seq<u8>, i: int)
    requires
        0 <= i < xs.len(),
    ensures
        enc_list(xs.take(i + 1), f) == enc_list(xs.take(i), f) + f(xs[i]),
    decreases i,
{
    if i == 0 {
        assert(xs.take(1) =~= seq![xs[0]]);
        assert(xs.take(0) =~= Seq::<T>::empty());
        assert(xs.take(1).skip(1) =~= Seq::<T>::empty());
        assert(enc_list(xs.take(1), f) =~= enc_list(xs.take(0), f) + f(xs[0]));
    } else {
        let ys = xs.skip(1);
        lemma_enc_list_snoc(ys, f, i - 1);
        assert(xs.take(i + 1).skip(1) =~= ys.take(i));
        assert(xs.take(i).skip(1) =~= ys.take(i - 1));
        assert(xs.take(i + 1)[0] == xs[0]);
        assert(xs.take(i)[0] == xs[0]);
        assert(enc_list(xs.take(i + 1), f) == f(xs[0]) + enc_list(ys.take(i), f));
        assert(enc_list(xs.take(i), f) == f(xs[0]) + enc_list(ys.take(i - 1), f));
        assert(ys[i - 1] == xs[i]);
        assert(f(xs[0]) + (enc_list(ys.take(i - 1), f) + f(xs[i])) =~= (f(xs[0]) + enc_list(
            ys.take(i - 1),
            f,
        )) + f(xs[i]));
        assert(enc_list(xs.take(i + 1), f) =~= enc_list(xs.take(i), f) + f(xs[i]));
    }
}

/// Decoding the encoding of a run recovers it, for any element codec whose
/// own round trip holds of every element of the run.
pub proof fn lemma_dec_list_enc<T>(
    xs: Seq<T>,
    rest: Seq<u8>,
    encf: spec_fn(T) -> Seq<u8>,
    decf: spec_fn(Seq<u8>) -> Option<(T, Seq<u8>)>,
)
    requires
        forall|j: int, r: Seq<u8>| 0 <= j < xs.len() ==> decf(#[trigger] (encf(xs[j]) + r))
            == Some((xs[j], r)),
    ensures
        dec_list(enc_list(xs, encf) + rest, xs.len() as nat, decf) == Some((xs, rest)),
    decreases xs.len(),
{
    if xs.len() == 0 {
        assert(enc_list(xs, encf) + rest =~= rest);
        assert(xs =~= Seq::<T>::empty());
    } else {
        let hd = xs[0];
        let tl = xs.skip(1);
        let tl_enc = enc_list(tl, encf);
        assert(enc_list(xs, encf) + rest =~= encf(hd) + (tl_enc + rest));
        assert(decf(encf(hd) + (tl_enc + rest)) == Some((hd, tl_enc + rest)));
        assert forall|j: int, r: Seq<u8>| 0 <= j < tl.len() implies decf(
            #[trigger] (encf(tl[j]) + r),
        ) == Some((tl[j], r)) by {
            assert(tl[j] == xs[j + 1]);
        }
        lemma_dec_list_enc(tl, rest, encf, decf);
        assert(seq![hd] + tl =~= xs);
    }
}

} // verus!
