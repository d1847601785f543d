//! CRC-32 (the reflected polynomial used by the message format). The message
//! codec writes this checksum over each message body and validates it on
//! decode.
use vstd::prelude::*;

verus! {

/// One shift step of the reflected CRC-32 polynomial.
pub open spec fn crc32_step(c: u32) -> u32 {
    if c & 1 == 1 {
        (c >> 1) ^ 0xedb8_8320
    } else {
        c >> 1
    }
}

/// `n` shift steps applied in order.
pub open spec fn crc32_bits(c: u32, n: nat) -> u32
    decreases n,
{
    if n == 0 {
        c
    } else {
        crc32_step(crc32_bits(c, (n - 1) as nat))
    }
}

/// Folding one input byte into the running state.
pub open spec fn crc32_byte(c: u32, b: u8) -> u32 {
    crc32_bits(c ^ (b as u32), 8)
}

/// The running state after the whole input.
pub open spec fn crc32_acc(c: u32, s: Seq<u8>) -> u32
    decreases s.len(),
{
    if s.len() == 0 {
        c
    } else {
        crc32_acc(crc32_byte(c, s[0]), s.skip(1))
    }
}

/// The checksum of an input: all-ones initial state, final complement.
pub open spec fn crc32_of(s: Seq<u8>) -> u32 {
    crc32_acc(0xffff_ffff, s) ^ 0xffff_ffff
}

/// Folding one more byte at the end continues from the state so far.
pub proof fn lemma_crc32_acc_snoc(c: u32, s: Seq<u8>, b: u8)
    ensures
        crc32_acc(c, s.push(b)) == crc32_byte(crc32_acc(c, s), b),
    decreases s.len(),
{
    if s.len() == 0 {
        assert(s.push(b)[0] == b);
        assert(s.push(b).skip(1) =~= Seq::<u8>::empty());
        assert(crc32_acc(crc32_byte(c, b), Seq::<u8>::empty()) == crc32_byte(c, b));
        assert(crc32_acc(c, s) == c);
    } else {
        assert(s.push(b)[0] == s[0]);
        assert(s.push(b).skip(1) =~= s.skip(1).push(b));
        lemma_crc32_acc_snoc(crc32_byte(c, s[0]), s.skip(1), b);
        assert(crc32_acc(c, s.push(b)) == crc32_acc(crc32_byte(c, s[0]), s.skip(1).push(b)));
        assert(crc32_acc(c, s) == crc32_acc(crc32_byte(c, s[0]), s.skip(1)));
    }
}

/// Computes the checksum of `buf[start..end]`.
pub fn crc32_range(buf: &[u8], start: usize, end: usize) -> (r: u32)
    requires
        start <= end <= buf@.len(),
    ensures
        r == crc32_of(buf@.subrange(start as int, end as int)),
{
    let ghost whole = buf@.subrange(start as int, end as int);
    let mut c: u32 = 0xffff_ffff;
    let mut i: usize = start;
    while i < end
        invariant
            start <= i <= end <= buf@.len(),
            whole == buf@.subrange(start as int, end as int),
            c == crc32_acc(0xffff_ffff, whole.take(i - start)),
        decreases end - i,
    {
        let b = buf[i];
        let ghost before = c;
        c = c ^ (b as u32);
        let ghost mixed = c;
        let mut k: usize = 0;
        while k < 8
            invariant
                k <= 8,
                c == crc32_bits(mixed, k as nat),
            decreases 8 - k,
        {
            if c & 1 == 1 {
                c = (c >> 1) ^ 0xedb8_8320;
            } else {
                c = c >> 1;
            }
            k = k + 1;
        }
        proof {
            assert(c == crc32_byte(before, b));
            assert(whole[i - start] == b);
            assert(whole.take(i + 1 - start) =~= whole.take(i - start).push(b));
            lemma_crc32_acc_snoc(0xffff_ffff, whole.take(i - start), b);
        }
        i = i + 1;
    }
    proof {
        assert(whole.take(end - start) =~= whole);
    }
    c ^ 0xffff_ffff
}

} // verus!
