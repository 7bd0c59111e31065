//! SHA-256 digests, and what is made of them.

use crate::decimal::{decimal, padded_decimal, zero_padded};
use sha2::{Digest, Sha256};
use vstd::prelude::*;
use vstd::utf8::encode_utf8;

verus! {

/// The SHA-256 digest of `data`.
pub uninterp spec fn sha256(data: Seq<u8>) -> Seq<u8>;

/// `Sha256::digest`: the 32 bytes of the digest, which depend on the data alone.
#[verifier::external_body]
pub(crate) fn sha256_digest(data: &[u8]) -> (r: Vec<u8>)
    ensures
        r@ == sha256(data@),
        r@.len() == 32,
{
    Sha256::digest(data).to_vec()
}

/// The lower-case hexadecimal digit of `n`, which is below sixteen.
pub open spec fn lower_hex(n: int) -> char {
    if n < 10 {
        (n + 48) as u8 as char
    } else {
        (n + 87) as u8 as char
    }
}

/// The bytes in lower-case hexadecimal notation.
pub open spec fn hex_text(b: Seq<u8>) -> Seq<char> {
    Seq::new(
        2 * b.len(),
        |i: int|
            if i % 2 == 0 {
                lower_hex(b[i / 2] as int / 16)
            } else {
                lower_hex(b[i / 2] as int % 16)
            },
    )
}

fn hex_char(n: u8) -> (r: char)
    requires
        n < 16,
    ensures
        r == lower_hex(n as int),
{
    if n < 10 {
        (n + 48) as char
    } else {
        (n + 87) as char
    }
}

/// The bytes in lower-case hexadecimal notation.
pub fn to_hex(b: &Vec<u8>) -> (r: String)
    ensures
        r@ == hex_text(b@),
{
    let mut r = String::new();
    let mut i: usize = 0;
    while i < b.len()
        invariant
            i <= b@.len(),
            r@ == hex_text(b@.take(i as int)),
        decreases b@.len() - i,
    {
        r.push(hex_char(b[i] / 16));
        r.push(hex_char(b[i] % 16));
        i += 1;
        assert(r@ =~= hex_text(b@.take(i as int)));
    }
    assert(b@.take(i as int) =~= b@);
    r
}

/// The digest under which a password is kept.
pub open spec fn password_digest(password: Seq<char>) -> Seq<char> {
    hex_text(sha256(encode_utf8(password)))
}

/// The digest under which a password is kept: its SHA-256 in hexadecimal notation.
pub fn hash_password(password: &str) -> (r: String)
    ensures
        r@ == password_digest(password@),
{
    to_hex(&sha256_digest(password.as_bytes()))
}

/// The number that the first four bytes of a digest stand for, the highest first.
pub open spec fn leading_number(digest: Seq<u8>) -> nat {
    (digest[0] as nat) * 0x100_0000 + (digest[1] as nat) * 0x1_0000 + (digest[2] as nat) * 256 + (
    digest[3] as nat)
}

/// The six digits that a digest gives.
pub open spec fn six_digits(digest: Seq<u8>) -> Seq<char> {
    zero_padded(decimal(leading_number(digest) % 1_000_000), 6)
}

/// The six digits that a digest of at least four bytes gives.
pub fn digits_of_digest(digest: &Vec<u8>) -> (r: String)
    requires
        digest@.len() >= 4,
    ensures
        r@ == six_digits(digest@),
{
    let number: u64 = (digest[0] as u64) * 0x100_0000 + (digest[1] as u64) * 0x1_0000 + (
    digest[2] as u64) * 256 + (digest[3] as u64);
    padded_decimal(number % 1_000_000, 6)
}

/// The verification code of a session.
pub open spec fn session_code(session_info: Seq<char>) -> Seq<char> {
    six_digits(sha256(encode_utf8(session_info)))
}

/// The verification code of a session: six digits from its SHA-256.
pub fn verification_code(session_info: &str) -> (r: String)
    ensures
        r@ == session_code(session_info@),
{
    digits_of_digest(&sha256_digest(session_info.as_bytes()))
}

/// Two rows of bytes with one hexadecimal text are the same, and the text has two digits for each
/// byte, the higher first.
pub proof fn hex_determines_bytes(a: Seq<u8>, b: Seq<u8>)
    ensures
        hex_text(a).len() == 2 * a.len(),
        forall|i: int|
            0 <= i < 2 * a.len() ==> ('0' <= #[trigger] hex_text(a)[i] <= '9') || ('a' <= hex_text(
                a,
            )[i] <= 'f'),
        hex_text(a) == hex_text(b) ==> a == b,
{
    if hex_text(a) == hex_text(b) {
        assert(hex_text(a).len() == 2 * a.len() && hex_text(b).len() == 2 * b.len());
        assert forall|i: int| 0 <= i < a.len() implies a[i] == b[i] by {
            assert(hex_text(a)[2 * i] == hex_text(b)[2 * i]);
            assert(hex_text(a)[2 * i + 1] == hex_text(b)[2 * i + 1]);
            assert((2 * i) / 2 == i && (2 * i + 1) / 2 == i);
        }
        assert(a =~= b);
    }
}

} // verus!
