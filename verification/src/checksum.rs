//! The CRC-32C checksum of stored objects.

use crate::base64_text::{base64_text, encode_standard};
use vstd::prelude::*;

verus! {

/// The Castagnoli polynomial with its bits reversed.
pub const CASTAGNOLI: u32 = 0x82F6_3B78;

/// The remainder after one more bit.
pub open spec fn crc_bit(crc: u32) -> u32 {
    if crc & 1 == 1 {
        (crc >> 1) ^ CASTAGNOLI
    } else {
        crc >> 1
    }
}

/// The remainder after `n` more bits.
pub open spec fn crc_bits(crc: u32, n: nat) -> u32
    decreases n,
{
    if n == 0 {
        crc
    } else {
        crc_bit(crc_bits(crc, (n - 1) as nat))
    }
}

/// The remainder after one more byte.
pub open spec fn crc_byte(crc: u32, byte: u8) -> u32 {
    crc_bits(crc ^ (byte as u32), 8)
}

/// The remainder after the bytes of `data`.
pub open spec fn crc_over(crc: u32, data: Seq<u8>) -> u32
    decreases data.len(),
{
    if data.len() == 0 {
        crc
    } else {
        crc_byte(crc_over(crc, data.drop_last()), data.last())
    }
}

/// The CRC-32C of `data`.
pub open spec fn crc32c_of(data: Seq<u8>) -> u32 {
    !crc_over(0xFFFF_FFFF, data)
}

/// The CRC-32C of `data`.
pub fn crc32c(data: &[u8]) -> (r: u32)
    ensures
        r == crc32c_of(data@),
{
    let mut crc: u32 = 0xFFFF_FFFF;
    let mut i: usize = 0;
    while i < data.len()
        invariant
            i <= data@.len(),
            crc == crc_over(0xFFFF_FFFF, data@.take(i as int)),
        decreases data@.len() - i,
    {
        let ghost upto = data@.take(i + 1);
        assert(upto.drop_last() =~= data@.take(i as int));
        let ghost start = crc ^ (data@[i as int] as u32);
        crc = crc ^ (data[i] as u32);
        let mut k: u32 = 0;
        while k < 8
            invariant
                k <= 8,
                crc == crc_bits(start, k as nat),
            decreases 8 - k,
        {
            let mask: u32 = 0u32.wrapping_sub(crc & 1);
            let next: u32 = (crc >> 1) ^ (CASTAGNOLI & mask);
            assert(crc & 1 == 0 || crc & 1 == 1) by (bit_vector);
            assert(0x82F6_3B78u32 & 0u32 == 0u32) by (bit_vector);
            assert(0x82F6_3B78u32 & 0xFFFF_FFFFu32 == 0x82F6_3B78u32) by (bit_vector);
            assert((crc >> 1) ^ 0u32 == crc >> 1) by (bit_vector);
            assert(next == crc_bit(crc));
            crc = next;
            k += 1;
        }
        i += 1;
    }
    assert(data@.take(i as int) =~= data@);
    !crc
}

/// The four bytes of `n`, the highest first.
pub open spec fn big_endian(n: u32) -> Seq<u8> {
    seq![(n / 0x100_0000) as u8, (n / 0x1_0000 % 256) as u8, (n / 256 % 256) as u8, (n % 256) as u8]
}

/// The CRC-32C of `data` in Base64.
pub fn crc32c_base64(data: &[u8]) -> (r: String)
    ensures
        r@ == base64_text(big_endian(crc32c_of(data@)), false),
{
    let n: u32 = crc32c(data);
    let mut bytes: Vec<u8> = Vec::new();
    bytes.push((n / 0x100_0000) as u8);
    bytes.push((n / 0x1_0000 % 256) as u8);
    bytes.push((n / 256 % 256) as u8);
    bytes.push((n % 256) as u8);
    assert(bytes@ =~= big_endian(n));
    encode_standard(bytes.as_slice())
}

/// The checksum of a row of bytes goes on from the checksum of its first part.
pub proof fn crc_goes_on(crc: u32, a: Seq<u8>, b: Seq<u8>)
    ensures
        crc_over(crc, a + b) == crc_over(crc_over(crc, a), b),
    decreases b.len(),
{
    if b.len() == 0 {
        assert(a + b =~= a);
    } else {
        crc_goes_on(crc, a, b.drop_last());
        assert((a + b).drop_last() =~= a + b.drop_last());
    }
}

/// The checksum of no bytes is zero, and each byte more takes it eight steps on: a step halves it,
/// and mixes the polynomial in where a bit falls out.
pub proof fn checksum_takes_in_each_byte(data: Seq<u8>, byte: u8, crc: u32)
    ensures
        crc32c_of(Seq::empty()) == 0,
        crc32c_of(data.push(byte)) == !crc_bit(
            crc_bit(
                crc_bit(
                    crc_bit(
                        crc_bit(
                            crc_bit(crc_bit(crc_bit(!crc32c_of(data) ^ (byte as u32)))),
                        ),
                    ),
                ),
            ),
        ),
        crc & 1 == 1 ==> crc_bit(crc) == (crc >> 1) ^ 0x82F6_3B78,
        crc & 1 != 1 ==> crc_bit(crc) == crc >> 1,
{
    let all = data.push(byte);
    assert(all.drop_last() =~= data);
    let so_far = crc_over(0xFFFF_FFFF, data);
    assert(!(!so_far) == so_far) by (bit_vector);
    assert(!0xFFFF_FFFFu32 == 0) by (bit_vector);
    reveal_with_fuel(crc_bits, 9);
}

/// A checksum is written as four bytes, the highest first.
pub proof fn highest_byte_comes_first(n: u32)
    ensures
        ({
            let b = big_endian(n);
            b.len() == 4 && n == b[0] as int * 0x100_0000 + b[1] as int * 0x1_0000 + b[2] as int
                * 0x100 + b[3] as int
        }),
{
}

} // verus!
