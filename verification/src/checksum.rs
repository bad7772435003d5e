//! The 16-bit frame checksum: a bit-serial CRC over the reflected polynomial
//! `0x8408`, started from a fixed non-zero accumulator and emitted without any
//! final transformation.

use vstd::prelude::*;

verus! {

/// Accumulator value before the first byte is absorbed.
pub const CHECKSUM_INIT: u16 = 22218;

/// Reflected generator polynomial.
pub const CHECKSUM_POLY: u16 = 0x8408;

/// One bit step: the low bit of `x` is folded into `acc`.
pub open spec fn crc_bit(acc: u16, x: u8) -> u16 {
    if ((x as u16) ^ acc) & 1u16 != 0 {
        (acc >> 1u16) ^ CHECKSUM_POLY
    } else {
        acc >> 1u16
    }
}

/// `n` bit steps, consuming the low `n` bits of `x` from the least significant
/// bit upwards.
pub open spec fn crc_bits(acc: u16, x: u8, n: nat) -> u16
    decreases n,
{
    if n == 0 {
        acc
    } else {
        crc_bits(crc_bit(acc, x), x >> 1u8, (n - 1) as nat)
    }
}

/// The accumulator after absorbing one whole byte.
pub open spec fn crc_byte(acc: u16, x: u8) -> u16 {
    crc_bits(acc, x, 8)
}

/// The checksum of a byte string.
pub open spec fn checksum(bytes: Seq<u8>) -> u16
    decreases bytes.len(),
{
    if bytes.len() == 0 {
        CHECKSUM_INIT
    } else {
        crc_byte(checksum(bytes.drop_last()), bytes.last())
    }
}

/// Absorbs one byte into the accumulator.
pub fn absorb_byte(acc: u16, byte: u8) -> (out: u16)
    ensures
        out == crc_byte(acc, byte),
{
    let mut sum: u16 = acc;
    let mut x: u8 = byte;
    let mut k: u8 = 0;
    while k < 8
        invariant
            k <= 8,
            crc_bits(sum, x, (8 - k) as nat) == crc_byte(acc, byte),
        decreases 8 - k,
    {
        if ((x as u16) ^ sum) & 1u16 != 0 {
            sum = (sum >> 1u16) ^ CHECKSUM_POLY;
        } else {
            sum = sum >> 1u16;
        }
        x = x >> 1u8;
        k = k + 1;
    }
    sum
}

/// The shift register on its own: one right shift, with the polynomial folded
/// in when the bit that falls out is set.
pub open spec fn crc_shift(c: u16) -> u16 {
    if c & 1u16 != 0 {
        (c >> 1u16) ^ CHECKSUM_POLY
    } else {
        c >> 1u16
    }
}

/// `n` steps of the shift register.
pub open spec fn crc_shifts(c: u16, n: nat) -> u16
    decreases n,
{
    if n == 0 {
        c
    } else {
        crc_shifts(crc_shift(c), (n - 1) as nat)
    }
}

/// `x` shifted right by one bit, `n` times.
pub open spec fn shr_bits(x: u8, n: nat) -> u8
    decreases n,
{
    if n == 0 {
        x
    } else {
        shr_bits(x >> 1u8, (n - 1) as nat)
    }
}

/// A bit step acts on `acc ^ x` as one step of the shift register.
proof fn lemma_bit_step(acc: u16, x: u8)
    ensures
        crc_bit(acc, x) ^ ((x >> 1u8) as u16) == crc_shift(acc ^ (x as u16)),
{
    assert((if ((x as u16) ^ acc) & 1u16 != 0 {
        (acc >> 1u16) ^ 0x8408u16
    } else {
        acc >> 1u16
    }) ^ ((x >> 1u8) as u16) == (if (acc ^ (x as u16)) & 1u16 != 0 {
        ((acc ^ (x as u16)) >> 1u16) ^ 0x8408u16
    } else {
        (acc ^ (x as u16)) >> 1u16
    })) by (bit_vector);
}

proof fn lemma_bit_steps(acc: u16, x: u8, n: nat)
    ensures
        crc_bits(acc, x, n) ^ (shr_bits(x, n) as u16) == crc_shifts(acc ^ (x as u16), n),
    decreases n,
{
    if n > 0 {
        lemma_bit_step(acc, x);
        lemma_bit_steps(crc_bit(acc, x), x >> 1u8, (n - 1) as nat);
    }
}

proof fn lemma_shr_bits_whole_byte(x: u8)
    ensures
        shr_bits(x, 8) == 0,
{
    reveal_with_fuel(shr_bits, 9);
    assert((((((((x >> 1u8) >> 1u8) >> 1u8) >> 1u8) >> 1u8) >> 1u8) >> 1u8) >> 1u8 == 0u8)
        by (bit_vector);
}

/// Absorbing a byte is eight steps of the shift register applied to the
/// accumulator with the byte xor-ed into its low half.
pub proof fn lemma_crc_byte_as_shifts(acc: u16, x: u8)
    ensures
        crc_byte(acc, x) == crc_shifts(acc ^ (x as u16), 8),
{
    lemma_bit_steps(acc, x, 8);
    lemma_shr_bits_whole_byte(x);
    let r: u16 = crc_bits(acc, x, 8);
    assert(r ^ (0u8 as u16) == r) by (bit_vector);
}

proof fn lemma_crc_shift_injective(c: u16, d: u16)
    ensures
        crc_shift(c) == crc_shift(d) ==> c == d,
{
    assert((if c & 1u16 != 0 {
        (c >> 1u16) ^ 0x8408u16
    } else {
        c >> 1u16
    }) == (if d & 1u16 != 0 {
        (d >> 1u16) ^ 0x8408u16
    } else {
        d >> 1u16
    }) ==> c == d) by (bit_vector);
}

proof fn lemma_crc_shifts_injective(c: u16, d: u16, n: nat)
    ensures
        crc_shifts(c, n) == crc_shifts(d, n) ==> c == d,
    decreases n,
{
    if n > 0 {
        lemma_crc_shifts_injective(crc_shift(c), crc_shift(d), (n - 1) as nat);
        lemma_crc_shift_injective(c, d);
    }
}

/// For a fixed byte, distinct accumulators stay distinct.
pub proof fn lemma_crc_byte_injective_in_acc(a: u16, b: u16, x: u8)
    ensures
        crc_byte(a, x) == crc_byte(b, x) ==> a == b,
{
    lemma_crc_byte_as_shifts(a, x);
    lemma_crc_byte_as_shifts(b, x);
    lemma_crc_shifts_injective(a ^ (x as u16), b ^ (x as u16), 8);
    assert(a ^ (x as u16) == b ^ (x as u16) ==> a == b) by (bit_vector);
}

/// For a fixed accumulator, distinct bytes lead to distinct accumulators.
pub proof fn lemma_crc_byte_injective_in_byte(acc: u16, x: u8, y: u8)
    ensures
        crc_byte(acc, x) == crc_byte(acc, y) ==> x == y,
{
    lemma_crc_byte_as_shifts(acc, x);
    lemma_crc_byte_as_shifts(acc, y);
    lemma_crc_shifts_injective(acc ^ (x as u16), acc ^ (y as u16), 8);
    assert(acc ^ (x as u16) == acc ^ (y as u16) ==> x == y) by (bit_vector);
}

/// Replacing any single byte of a string by a different byte changes the
/// checksum of the string.
pub proof fn lemma_checksum_detects_byte_change(bytes: Seq<u8>, i: int, b: u8)
    requires
        0 <= i < bytes.len(),
        b != bytes[i],
    ensures
        checksum(bytes.update(i, b)) != checksum(bytes),
    decreases bytes.len(),
{
    let changed = bytes.update(i, b);
    if i == bytes.len() - 1 {
        assert(changed.drop_last() =~= bytes.drop_last());
        lemma_crc_byte_injective_in_byte(checksum(bytes.drop_last()), b, bytes[i]);
    } else {
        assert(changed.drop_last() =~= bytes.drop_last().update(i, b));
        lemma_checksum_detects_byte_change(bytes.drop_last(), i, b);
        lemma_crc_byte_injective_in_acc(
            checksum(changed.drop_last()),
            checksum(bytes.drop_last()),
            bytes.last(),
        );
    }
}

} // verus!
