//! The hash of a world seed that clients are told.

use sha2::{Digest, Sha256};
use vstd::prelude::*;

verus! {

/// The SHA-256 digest of a message.
pub uninterp spec fn sha256_digest(message: Seq<u8>) -> Seq<u8>;

/// `sha2::Sha256::digest`: the SHA-256 digest of `message`, which is
/// a function of the bytes of the message and always 32 bytes long. The
/// digest itself is not spelled out.
#[verifier::external_body]
fn sha256(message: &[u8]) -> (digest: [u8; 32])
    ensures
        digest@ == sha256_digest(message@),
{
    Sha256::digest(message).into()
}

/// The `count` low bytes of `value`, least significant first.
pub open spec fn le_bytes(value: nat, count: nat) -> Seq<u8>
    decreases count,
{
    if count == 0 {
        Seq::empty()
    } else {
        seq![(value % 256) as u8] + le_bytes(value / 256, (count - 1) as nat)
    }
}

/// The number whose bytes, least significant first, are `bytes`.
pub open spec fn le_value(bytes: Seq<u8>) -> nat
    decreases bytes.len(),
{
    if bytes.len() == 0 {
        0
    } else {
        bytes.first() as nat + 256 * le_value(bytes.drop_first())
    }
}

/// The number that 64 bits denote in two's complement, given the number they
/// denote without a sign.
pub open spec fn signed(value: nat) -> int {
    if value < 0x8000_0000_0000_0000 {
        value as int
    } else {
        value - 0x1_0000_0000_0000_0000
    }
}

/// Reading the bytes of a number that fits them gives the number back.
proof fn lemma_bytes_read_back(value: nat, count: nat)
    requires
        value < vstd::arithmetic::power::pow(256, count),
    ensures
        le_bytes(value, count).len() == count,
        le_value(le_bytes(value, count)) == value,
    decreases count,
{
    vstd::arithmetic::power::lemma_pow0(256);
    if count > 0 {
        let low = (count - 1) as nat;
        let bytes = le_bytes(value, count);
        assert(value < 256 * vstd::arithmetic::power::pow(256, low)) by {
            reveal(vstd::arithmetic::power::pow);
        }
        lemma_bytes_read_back(value / 256, low);
        assert(bytes.drop_first() =~= le_bytes(value / 256, low));
    }
}

/// Different seeds are hashed as different messages.
pub proof fn law_seeds_give_distinct_messages(a: u64, b: u64)
    requires
        a != b,
    ensures
        le_bytes(a as nat, 8) != le_bytes(b as nat, 8),
{
    assert(vstd::arithmetic::power::pow(256, 8) == 0x1_0000_0000_0000_0000) by {
        reveal_with_fuel(vstd::arithmetic::power::pow, 9);
    }
    lemma_bytes_read_back(a as nat, 8);
    lemma_bytes_read_back(b as nat, 8);
}

/// A number read from `bytes` is below the next power of 256.
proof fn lemma_le_value_fits(bytes: Seq<u8>)
    ensures
        le_value(bytes) < vstd::arithmetic::power::pow(256, bytes.len()),
    decreases bytes.len(),
{
    reveal(vstd::arithmetic::power::pow);
    if bytes.len() > 0 {
        lemma_le_value_fits(bytes.drop_first());
    }
}

/// The eight bytes of a seed, least significant first.
fn seed_bytes(seed: u64) -> (bytes: Vec<u8>)
    ensures
        bytes@ == le_bytes(seed as nat, 8),
{
    let mut bytes: Vec<u8> = Vec::new();
    let mut rest: u64 = seed;
    let mut left: u64 = 8;
    while left > 0
        invariant
            left <= 8,
            le_bytes(seed as nat, 8) == bytes@ + le_bytes(rest as nat, left as nat),
        decreases left,
    {
        bytes.push((rest % 256) as u8);
        rest = rest / 256;
        left -= 1;
        proof {
            assert(le_bytes(seed as nat, 8) =~= bytes@ + le_bytes(rest as nat, left as nat));
        }
    }
    assert(bytes@ + le_bytes(rest as nat, 0) =~= bytes@);
    bytes
}

/// The seed hash that a digest gives: its first eight bytes, least
/// significant first, as a signed number.
pub open spec fn digest_hash(digest: Seq<u8>) -> int {
    signed(le_value(digest.take(8)))
}

/// The seed hash that a digest gives.
pub fn hash_from_digest(digest: &[u8; 32]) -> (hash: i64)
    ensures
        hash == digest_hash(digest@),
{
    let ghost low = digest@.take(8);
    let mut value: u64 = 0;
    let mut i: usize = 8;
    while i > 0
        invariant
            i <= 8,
            low == digest@.take(8),
            value == le_value(low.skip(i as int)),
        decreases i,
    {
        i -= 1;
        proof {
            let tail = low.skip(i as int);
            assert(tail.drop_first() =~= low.skip(i + 1));
            assert(tail.first() == digest@[i as int]);
            lemma_le_value_fits(tail);
            vstd::arithmetic::power::lemma_pow_increases(256, tail.len(), 8);
            assert(vstd::arithmetic::power::pow(256, 8) == 0x1_0000_0000_0000_0000) by {
                reveal_with_fuel(vstd::arithmetic::power::pow, 9);
            }
        }
        value = value * 256 + digest[i] as u64;
    }
    assert(low.skip(0) =~= low);
    if value < 0x8000_0000_0000_0000 {
        value as i64
    } else {
        -((u64::MAX - value) as i64) - 1
    }
}

/// The message for a seed is its eight bytes, least significant first.
pub proof fn law_message_holds_the_bytes_of_the_seed(seed: u64)
    ensures
        le_bytes(seed as nat, 8).len() == 8,
        seed == le_bytes(seed as nat, 8)[0] + 0x100 * le_bytes(seed as nat, 8)[1] + 0x1_0000
            * le_bytes(seed as nat, 8)[2] + 0x100_0000 * le_bytes(seed as nat, 8)[3]
            + 0x1_0000_0000 * le_bytes(seed as nat, 8)[4] + 0x100_0000_0000 * le_bytes(
            seed as nat,
            8,
        )[5] + 0x1_0000_0000_0000 * le_bytes(seed as nat, 8)[6] + 0x100_0000_0000_0000 * le_bytes(
            seed as nat,
            8,
        )[7],
{
    let message = le_bytes(seed as nat, 8);
    assert(vstd::arithmetic::power::pow(256, 8) == 0x1_0000_0000_0000_0000) by {
        reveal_with_fuel(vstd::arithmetic::power::pow, 9);
    }
    lemma_bytes_read_back(seed as nat, 8);
    lemma_le_value_of_eight(message);
}

/// The number that eight bytes denote, written out.
proof fn lemma_le_value_of_eight(bytes: Seq<u8>)
    requires
        bytes.len() == 8,
    ensures
        le_value(bytes) == bytes[0] + 0x100 * bytes[1] + 0x1_0000 * bytes[2] + 0x100_0000 * bytes[3]
            + 0x1_0000_0000 * bytes[4] + 0x100_0000_0000 * bytes[5] + 0x1_0000_0000_0000 * bytes[6]
            + 0x100_0000_0000_0000 * bytes[7],
{
    let b7 = bytes.skip(7);
    assert(b7.drop_first() =~= Seq::empty());
    assert(bytes.skip(6).drop_first() =~= b7);
    assert(bytes.skip(5).drop_first() =~= bytes.skip(6));
    assert(bytes.skip(4).drop_first() =~= bytes.skip(5));
    assert(bytes.skip(3).drop_first() =~= bytes.skip(4));
    assert(bytes.skip(2).drop_first() =~= bytes.skip(3));
    assert(bytes.skip(1).drop_first() =~= bytes.skip(2));
    assert(bytes.drop_first() =~= bytes.skip(1));
    assert(le_value(Seq::<u8>::empty()) == 0);
    assert(le_value(b7) == bytes[7]);
    assert(le_value(bytes.skip(6)) == bytes[6] + 256 * bytes[7]);
    assert(le_value(bytes.skip(5)) == bytes[5] + 256 * le_value(bytes.skip(6)));
    assert(le_value(bytes.skip(4)) == bytes[4] + 256 * le_value(bytes.skip(5)));
    assert(le_value(bytes.skip(3)) == bytes[3] + 256 * le_value(bytes.skip(4)));
    assert(le_value(bytes.skip(2)) == bytes[2] + 256 * le_value(bytes.skip(3)));
    assert(le_value(bytes.skip(1)) == bytes[1] + 256 * le_value(bytes.skip(2)));
}

/// A seed hash is the signed number that agrees with the first eight bytes of
/// the digest, least significant first, up to a multiple of two to the 64th.
/// Nothing behind them matters.
pub proof fn law_hash_is_the_first_eight_bytes(digest: Seq<u8>)
    requires
        digest.len() == 32,
    ensures
        -0x8000_0000_0000_0000 <= digest_hash(digest) < 0x8000_0000_0000_0000,
        ({
            let difference = digest[0] + 0x100 * digest[1] + 0x1_0000 * digest[2] + 0x100_0000
                * digest[3] + 0x1_0000_0000 * digest[4] + 0x100_0000_0000 * digest[5]
                + 0x1_0000_0000_0000 * digest[6] + 0x100_0000_0000_0000 * digest[7] - digest_hash(
                digest,
            );
            difference == 0 || difference == 0x1_0000_0000_0000_0000
        }),
{
    lemma_le_value_of_eight(digest.take(8));
}

/// The hash of a world seed: the first eight bytes of the SHA-256 digest of
/// the seed's bytes. Bytes are least significant first on both sides.
#[must_use]
pub fn hash_seed(seed: u64) -> (hash: i64)
    ensures
        hash == digest_hash(sha256_digest(le_bytes(seed as nat, 8))),
{
    let bytes = seed_bytes(seed);
    let digest = sha256(bytes.as_slice());
    hash_from_digest(&digest)
}

} // verus!
