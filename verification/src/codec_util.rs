//! A common shape for wire items: a spec encoder and decoder, a
//! well-formedness bound, a round-trip proof, and exec code tied to the spec
//! functions. Counted arrays of any such item share one verified writer,
//! parser and round-trip lemma. Layouts that differ between api versions
//! take the version as a parameter.
use vstd::prelude::*;

use crate::wire::{
    be4, dec_list, dec_u32, enc_list, lemma_dec_list_enc, lemma_dec_u32, lemma_enc_list_snoc,
    parse_u32, put_u32, tail_from,
};

verus! {

/// The views of the elements of a sequence.
pub open spec fn views_of<T: View>(s: Seq<T>) -> Seq<T::V> {
    s.map_values(|t: T| t@)
}

/// One protocol item: how it is laid out on the wire under a given api
/// version, which values can be encoded, and exec code that follows the
/// layout exactly.
pub trait WireItem: View + Sized {
    /// The wire bytes of a value.
    spec fn enc_spec(v: Self::V, ver: i16) -> Seq<u8>;

    /// Reading one value off the front of the input.
    spec fn dec_spec(s: Seq<u8>, ver: i16) -> Option<(Self::V, Seq<u8>)>;

    /// The values whose encoding stays within the wire format's bounds.
    spec fn wf_spec(v: Self::V, ver: i16) -> bool;

    /// Decoding inverts encoding on every well-formed value.
    proof fn lemma_round(v: Self::V, ver: i16, rest: Seq<u8>)
        requires
            Self::wf_spec(v, ver),
        ensures
            Self::dec_spec(Self::enc_spec(v, ver) + rest, ver) == Some((v, rest)),
    ;

    /// Appends the encoding of `v` to the buffer.
    fn put(buf: &mut Vec<u8>, v: &Self, ver: i16)
        requires
            Self::wf_spec(v@, ver),
        ensures
            final(buf)@ == old(buf)@ + Self::enc_spec(v@, ver),
    ;

    /// Reads one value at the cursor.
    fn parse(buf: &[u8], pos: usize, ver: i16) -> (r: Option<(Self, usize)>)
        requires
            pos <= buf@.len(),
        ensures
            match r {
                Some((v, end)) => {
                    &&& pos <= end <= buf@.len()
                    &&& Self::dec_spec(tail_from(buf@, pos as int), ver) == Some(
                        (v@, tail_from(buf@, end as int)),
                    )
                },
                None => Self::dec_spec(tail_from(buf@, pos as int), ver) is None,
            },
    ;
}

pub open spec fn enc_fn<T: WireItem>(ver: i16) -> spec_fn(T::V) -> Seq<u8> {
    |v: T::V| T::enc_spec(v, ver)
}

pub open spec fn dec_fn<T: WireItem>(ver: i16) -> spec_fn(Seq<u8>) -> Option<(T::V, Seq<u8>)> {
    |s: Seq<u8>| T::dec_spec(s, ver)
}

/// A counted array: an i32 element count, then the elements.
pub open spec fn enc_array<T: WireItem>(vs: Seq<T::V>, ver: i16) -> Seq<u8> {
    be4(vs.len() as u32) + enc_list(vs, enc_fn::<T>(ver))
}

pub open spec fn dec_array<T: WireItem>(s: Seq<u8>, ver: i16) -> Option<(Seq<T::V>, Seq<u8>)> {
    match dec_u32(s) {
        Option::None => Option::None,
        Option::Some((n, rest)) => {
            if n > 0x7fff_ffff {
                Option::None
            } else {
                dec_list(rest, n as nat, dec_fn::<T>(ver))
            }
        },
    }
}

pub open spec fn array_wf<T: WireItem>(vs: Seq<T::V>, ver: i16) -> bool {
    &&& vs.len() <= 0x7fff_ffff
    &&& forall|i: int| 0 <= i < vs.len() ==> T::wf_spec(#[trigger] vs[i], ver)
}

pub proof fn lemma_dec_array<T: WireItem>(vs: Seq<T::V>, ver: i16, rest: Seq<u8>)
    requires
        array_wf::<T>(vs, ver),
    ensures
        dec_array::<T>(enc_array::<T>(vs, ver) + rest, ver) == Some((vs, rest)),
{
    let n = vs.len() as u32;
    let body = enc_list(vs, enc_fn::<T>(ver));
    assert(enc_array::<T>(vs, ver) + rest =~= be4(n) + (body + rest));
    lemma_dec_u32(n, body + rest);
    assert forall|j: int, r: Seq<u8>| 0 <= j < vs.len() implies dec_fn::<T>(ver)(
        #[trigger] (enc_fn::<T>(ver)(vs[j]) + r),
    ) == Some((vs[j], r)) by {
        T::lemma_round(vs[j], ver, r);
    }
    lemma_dec_list_enc(vs, rest, enc_fn::<T>(ver), dec_fn::<T>(ver));
}

/// Appends the array encoding of `items` to the buffer.
pub fn put_array<T: WireItem>(buf: &mut Vec<u8>, items: &Vec<T>, ver: i16)
    requires
        array_wf::<T>(views_of(items@), ver),
    ensures
        final(buf)@ == old(buf)@ + enc_array::<T>(views_of(items@), ver),
{
    let ghost vs = views_of(items@);
    put_u32(buf, items.len() as u32);
    let ghost start = buf@;
    let mut i: usize = 0;
    while i < items.len()
        invariant
            i <= items@.len(),
            vs == views_of(items@),
            vs.len() == items@.len(),
            array_wf::<T>(vs, ver),
            buf@ == start + enc_list(vs.take(i as int), enc_fn::<T>(ver)),
        decreases items@.len() - i,
    {
        proof {
            assert(vs.take(0int) =~= Seq::<T::V>::empty());
            assert(vs[i as int] == items@[i as int]@);
        }
        T::put(buf, &items[i], ver);
        proof {
            lemma_enc_list_snoc(vs, enc_fn::<T>(ver), i as int);
        }
        i = i + 1;
    }
    proof {
        assert(vs.take(vs.len() as int) =~= vs);
        assert(buf@ =~= old(buf)@ + enc_array::<T>(vs, ver));
    }
}

/// Joins a decoded prefix onto the outcome of decoding the remainder.
pub open spec fn dec_join<E>(
    prefix: Seq<E>,
    r: Option<(Seq<E>, Seq<u8>)>,
) -> Option<(Seq<E>, Seq<u8>)> {
    match r {
        Option::None => Option::None,
        Option::Some((vs, rest)) => Option::Some((prefix + vs, rest)),
    }
}

/// Reads a counted array at the cursor.
pub fn parse_array<T: WireItem>(buf: &[u8], pos: usize, ver: i16) -> (r: Option<(Vec<T>, usize)>)
    requires
        pos <= buf@.len(),
    ensures
        match r {
            Some((v, end)) => {
                &&& pos <= end <= buf@.len()
                &&& dec_array::<T>(tail_from(buf@, pos as int), ver) == Some(
                    (views_of(v@), tail_from(buf@, end as int)),
                )
            },
            None => dec_array::<T>(tail_from(buf@, pos as int), ver) is None,
        },
{
    match parse_u32(buf, pos) {
        None => None,
        Some((n, p1)) => {
            if n > 0x7fff_ffff {
                None
            } else {
                let ghost whole = dec_list(
                    tail_from(buf@, p1 as int),
                    n as nat,
                    dec_fn::<T>(ver),
                );
                let mut out: Vec<T> = Vec::new();
                let mut cur: usize = p1;
                let mut i: u32 = 0;
                proof {
                    assert(views_of(out@) =~= Seq::<T::V>::empty());
                }
                while i < n
                    invariant
                        i <= n,
                        pos <= p1 <= cur <= buf@.len(),
                        views_of(out@).len() == i as int,
                        dec_array::<T>(tail_from(buf@, pos as int), ver) == whole,
                        whole == dec_join(
                            views_of(out@),
                            dec_list(
                                tail_from(buf@, cur as int),
                                (n - i) as nat,
                                dec_fn::<T>(ver),
                            ),
                        ),
                    decreases n - i,
                {
                    match T::parse(buf, cur, ver) {
                        None => {
                            proof {
                                let tl = tail_from(buf@, cur as int);
                                assert(dec_fn::<T>(ver)(tl) == T::dec_spec(tl, ver));
                                assert(dec_list(tl, (n - i) as nat, dec_fn::<T>(ver)) is None);
                            }
                            return None;
                        },
                        Some((item, next)) => {
                            proof {
                                let tl = tail_from(buf@, cur as int);
                                let tln = tail_from(buf@, next as int);
                                let rem = (n - i) as nat;
                                assert(dec_fn::<T>(ver)(tl) == Some((item@, tln)));
                                assert(dec_list(tl, rem, dec_fn::<T>(ver)) == dec_join(
                                    seq![item@],
                                    dec_list(tln, (rem - 1) as nat, dec_fn::<T>(ver)),
                                ));
                                assert(views_of(out@.push(item)) =~= views_of(out@).push(item@));
                                match dec_list(tln, (rem - 1) as nat, dec_fn::<T>(ver)) {
                                    Option::None => {},
                                    Option::Some((vs, rest)) => {
                                        assert(views_of(out@) + (seq![item@] + vs) =~= views_of(
                                            out@.push(item),
                                        ) + vs);
                                    },
                                }
                            }
                            out.push(item);
                            cur = next;
                            i = i + 1;
                        },
                    }
                }
                proof {
                    assert(dec_list(
                        tail_from(buf@, cur as int),
                        0nat,
                        dec_fn::<T>(ver),
                    ) == Some((Seq::<T::V>::empty(), tail_from(buf@, cur as int))));
                    assert(views_of(out@) + Seq::<T::V>::empty() =~= views_of(out@));
                }
                Some((out, cur))
            }
        },
    }
}

} // verus!
