//! Digests and the notations in which they are compared.

use sha2::{Digest, Sha256};
use vstd::prelude::*;

use crate::text::{hex_of, hex_string};

verus! {

/// The SHA-256 digest of a sequence of bytes.
pub uninterp spec fn sha256_of(bytes: Seq<u8>) -> Seq<u8>;

/// `sha2::Sha256::digest`: the 32 bytes of the SHA-256 digest.
#[verifier::external_body]
pub(crate) fn sha256(bytes: &[u8]) -> (r: Vec<u8>)
    ensures
        r@ == sha256_of(bytes@),
        r@.len() == 32,
{
    Sha256::digest(bytes).to_vec()
}

/// The SHA-256 digest in lower-case hexadecimal.
pub open spec fn fingerprint_of(bytes: Seq<u8>) -> Seq<char> {
    hex_of(sha256_of(bytes))
}

/// The SHA-256 digest in lower-case hexadecimal, 64 digits.
pub fn fingerprint_bytes(data: &[u8]) -> (r: String)
    ensures
        r@ == fingerprint_of(data@),
        r@.len() == 64,
{
    let d = sha256(data);
    hex_string(d.as_slice())
}

/// The state of the 64-bit FNV-1a hash after one more byte.
pub open spec fn fnv_step(h: u64, b: u8) -> u64 {
    ((h ^ (b as u64)) as int * 0x100000001b3 % 0x1_0000_0000_0000_0000) as u64
}

/// The 64-bit FNV-1a hash.
pub open spec fn fnv1a_of(bytes: Seq<u8>) -> u64
    decreases bytes.len(),
{
    if bytes.len() == 0 {
        0xcbf29ce484222325
    } else {
        fnv_step(fnv1a_of(bytes.drop_last()), bytes.last())
    }
}

/// The 64-bit FNV-1a hash of a sequence of bytes.
pub fn fnv1a(bytes: &[u8]) -> (r: u64)
    ensures
        r == fnv1a_of(bytes@),
{
    let mut h: u64 = 0xcbf29ce484222325;
    let mut i: usize = 0;
    while i < bytes.len()
        invariant
            i <= bytes@.len(),
            h == fnv1a_of(bytes@.take(i as int)),
        decreases bytes@.len() - i,
    {
        proof {
            assert(bytes@.take(i as int + 1).drop_last() =~= bytes@.take(i as int));
            assert(bytes@.take(i as int + 1).last() == bytes@[i as int]);
        }
        h = (h ^ (bytes[i] as u64)).wrapping_mul(0x100000001b3);
        i = i + 1;
    }
    assert(bytes@.take(bytes@.len() as int) =~= bytes@);
    h
}

/// The last `width` hexadecimal digits of a number, lower case, with leading
/// zeros.
pub open spec fn hex_digits(n: nat, width: nat) -> Seq<char>
    decreases width,
{
    if width == 0 {
        Seq::empty()
    } else {
        hex_digits(n / 16, (width - 1) as nat).push(crate::text::hex_char(n % 16))
    }
}

/// Writes the last `width` hexadecimal digits of a number.
pub fn hex_number(n: u64, width: usize) -> (r: String)
    ensures
        r@ == hex_digits(n as nat, width as nat),
    decreases width,
{
    if width == 0 {
        let s = String::new();
        assert(s@ =~= Seq::empty());
        s
    } else {
        let mut s = hex_number(n / 16, width - 1);
        crate::text::push_char(&mut s, crate::text::hex_digit((n % 16) as u8));
        s
    }
}

/// The hash of Fowler, Noll and Vo in 64 bits: from its basis on, each byte is
/// mixed in before the product with its prime.
pub proof fn bytes_are_mixed_in_before_the_product(bytes: Seq<u8>, b: u8)
    ensures
        fnv1a_of(Seq::empty()) == 14695981039346656037u64,
        fnv1a_of(bytes.push(b)) == ((fnv1a_of(bytes) ^ (b as u64)) as int * 1099511628211) % (u64::MAX + 1),
{
    assert(bytes.push(b).drop_last() =~= bytes);
}

/// A number in hexadecimal digits has the width that is asked for, with zeros
/// before it, and its last digit is what sixteen leaves of it.
pub proof fn numbers_fill_their_width(n: nat, width: nat)
    ensures
        hex_digits(n, width).len() == width,
        width > 0 ==> crate::text::hex_digit_value(hex_digits(n, width).last()) == n % 16 && hex_digits(
            n,
            width,
        ).drop_last() == hex_digits(n / 16, (width - 1) as nat),
    decreases width,
{
    if width > 0 {
        numbers_fill_their_width(n / 16, (width - 1) as nat);
        let front = hex_digits(n / 16, (width - 1) as nat);
        let c = crate::text::hex_char(n % 16);
        assert(front.push(c).drop_last() =~= front);
    }
}

/// A fingerprint is the SHA-256 digest in hexadecimal digits.
pub proof fn fingerprints_are_digests(bytes: Seq<u8>, i: int)
    requires
        0 <= i < sha256_of(bytes).len(),
    ensures
        fingerprint_of(bytes).len() == 2 * sha256_of(bytes).len(),
        crate::text::hex_digit_value(fingerprint_of(bytes)[2 * i]) * 16 + crate::text::hex_digit_value(
            fingerprint_of(bytes)[2 * i + 1],
        ) == sha256_of(bytes)[i],
{
    crate::text::bytes_are_two_hexadecimal_digits(sha256_of(bytes), i);
}

} // verus!
