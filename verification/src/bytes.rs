//! Numbers as bytes, and digests of bytes.
use vstd::prelude::*;
use sha2::Digest;

verus! {

/// The lowest `count` bytes of a number, the lowest first.
pub open spec fn low_bytes(n: nat, count: nat) -> Seq<u8>
    decreases count,
{
    if count == 0 {
        Seq::empty()
    } else {
        seq![(n % 256) as u8] + low_bytes(n / 256, (count - 1) as nat)
    }
}

/// The number that bytes spell, the highest first.
pub open spec fn big_endian(bytes: Seq<u8>) -> nat
    decreases bytes.len(),
{
    if bytes.len() == 0 {
        0
    } else {
        big_endian(bytes.drop_last()) * 256 + bytes.last() as nat
    }
}

/// How many numbers so many bytes spell.
pub open spec fn byte_range(count: nat) -> nat
    decreases count,
{
    if count == 0 {
        1
    } else {
        256 * byte_range((count - 1) as nat)
    }
}

pub proof fn lemma_big_endian_bound(bytes: Seq<u8>)
    ensures
        big_endian(bytes) < byte_range(bytes.len()),
    decreases bytes.len(),
{
    if bytes.len() > 0 {
        lemma_big_endian_bound(bytes.drop_last());
    }
}

proof fn lemma_byte_range_grows(a: nat, b: nat)
    requires
        a <= b,
    ensures
        byte_range(a) <= byte_range(b),
    decreases b,
{
    if a < b {
        lemma_byte_range_grows(a, (b - 1) as nat);
    }
}

/// Puts bytes at the end of others.
pub fn push_bytes(out: &mut Vec<u8>, bytes: &[u8])
    ensures
        final(out)@ == old(out)@ + bytes@,
{
    let mut i: usize = 0;
    while i < bytes.len()
        invariant
            i <= bytes.len(),
            out@ == old(out)@ + bytes@.take(i as int),
        decreases bytes.len() - i,
    {
        out.push(bytes[i]);
        assert(bytes@.take(i as int + 1) =~= bytes@.take(i as int).push(bytes@[i as int]));
        i = i + 1;
    }
    assert(bytes@.take(i as int) =~= bytes@);
}

/// Puts a number at the end of bytes, the lowest byte first.
pub fn push_u64(out: &mut Vec<u8>, n: u64)
    ensures
        final(out)@ == old(out)@ + low_bytes(n as nat, 8),
{
    let mut rest: u64 = n;
    let mut i: usize = 0;
    assert(old(out)@ =~= out@ + Seq::<u8>::empty());
    while i < 8
        invariant
            i <= 8,
            out@ + low_bytes(rest as nat, (8 - i) as nat) =~= old(out)@ + low_bytes(n as nat, 8),
        decreases 8 - i,
    {
        let ghost before = out@;
        let low: u8 = (rest % 256) as u8;
        out.push(low);
        proof {
            let tail = low_bytes((rest / 256) as nat, (7 - i) as nat);
            assert(low_bytes(rest as nat, (8 - i) as nat) =~= seq![low] + tail);
            assert(out@ + tail =~= before + (seq![low] + tail));
        }
        rest = rest / 256;
        i = i + 1;
    }
    assert(out@ + low_bytes(rest as nat, 0) =~= out@);
}

/// The number that up to sixteen bytes spell, the highest first.
pub fn read_u128(bytes: &Vec<u8>, count: usize) -> (r: u128)
    requires
        count <= bytes.len(),
        count <= 16,
    ensures
        r == big_endian(bytes@.take(count as int)),
{
    let mut value: u128 = 0;
    let mut i: usize = 0;
    assert(byte_range(16) == u128::MAX + 1) by {
        reveal_with_fuel(byte_range, 17);
    }
    while i < count
        invariant
            i <= count,
            count <= bytes.len(),
            count <= 16,
            byte_range(16) == u128::MAX + 1,
            value == big_endian(bytes@.take(i as int)),
        decreases count - i,
    {
        assert(bytes@.take(i as int + 1).drop_last() =~= bytes@.take(i as int));
        proof {
            lemma_big_endian_bound(bytes@.take(i as int + 1));
            lemma_byte_range_grows((i + 1) as nat, 16);
        }
        value = value * 256 + bytes[i] as u128;
        i = i + 1;
    }
    value
}

/// The SHA-256 digest of bytes.
pub uninterp spec fn sha256_of(bytes: Seq<u8>) -> Seq<u8>;

/// The digest by `sha2::Sha256::digest`, which has thirty-two bytes.
#[verifier::external_body]
pub(crate) fn sha256(bytes: &[u8]) -> (r: Vec<u8>)
    ensures
        r@ == sha256_of(bytes@),
        r@.len() == 32,
{
    sha2::Sha256::digest(bytes).to_vec()
}

} // verus!
