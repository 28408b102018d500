//! The checksum of MCU frames.

use vstd::prelude::*;

verus! {

/// One bit of the reflected polynomial division by `0x8c`.
pub open spec fn crc8_bit(crc: u8) -> u8 {
    if crc & 1 != 0 {
        (crc >> 1) ^ 0x8c
    } else {
        crc >> 1
    }
}

/// `count` bits of the division.
pub open spec fn crc8_bits(crc: u8, count: nat) -> u8
    decreases count,
{
    if count == 0 {
        crc
    } else {
        crc8_bit(crc8_bits(crc, (count - 1) as nat))
    }
}

/// The Dallas/Maxim CRC-8 of `bytes`, started from `initial`.
pub open spec fn crc8_of(bytes: Seq<u8>, initial: u8) -> u8
    decreases bytes.len(),
{
    if bytes.len() == 0 {
        initial
    } else {
        crc8_bits(crc8_of(bytes.drop_last(), initial) ^ bytes.last(), 8)
    }
}

/// The MCU library uses the reflected polynomial 0x8c and an initial value
/// supplied by the caller. Captured report packets use initial value zero.
pub fn crc8(bytes: &[u8], initial: u8) -> (crc: u8)
    ensures
        crc == crc8_of(bytes@, initial),
{
    let mut crc: u8 = initial;
    let mut i: usize = 0;
    assert(bytes@.take(0) =~= Seq::<u8>::empty());
    while i < bytes.len()
        invariant
            i <= bytes@.len(),
            crc == crc8_of(bytes@.take(i as int), initial),
        decreases bytes@.len() - i,
    {
        let ghost before = crc;
        crc = crc ^ bytes[i];
        let ghost mixed = crc;
        let mut bit: u8 = 0;
        while bit < 8
            invariant
                bit <= 8,
                crc == crc8_bits(mixed, bit as nat),
            decreases 8 - bit,
        {
            crc = if crc & 1 != 0 {
                (crc >> 1) ^ 0x8c
            } else {
                crc >> 1
            };
            bit += 1;
        }
        assert(bytes@.take(i + 1).drop_last() =~= bytes@.take(i as int));
        i += 1;
    }
    assert(bytes@.take(i as int) =~= bytes@);
    crc
}

/// The checksum of two pieces is that of the second, started from the checksum
/// of the first.
pub proof fn crc8_continues(first: Seq<u8>, second: Seq<u8>, initial: u8)
    ensures
        crc8_of(first + second, initial) == crc8_of(second, crc8_of(first, initial)),
    decreases second.len(),
{
    if second.len() == 0 {
        assert(first + second =~= first);
    } else {
        crc8_continues(first, second.drop_last(), initial);
        assert((first + second).drop_last() =~= first + second.drop_last());
    }
}

proof fn crc8_zero(count: nat)
    ensures
        crc8_bits(0, count) == 0,
    decreases count,
{
    if count > 0 {
        crc8_zero((count - 1) as nat);
        assert(0u8 & 1 == 0 && 0u8 >> 1 == 0) by (bit_vector);
    }
}

/// Bytes followed by their own checksum have checksum zero.
pub proof fn crc8_residue(bytes: Seq<u8>, initial: u8)
    ensures
        crc8_of(bytes.push(crc8_of(bytes, initial)), initial) == 0,
{
    let crc = crc8_of(bytes, initial);
    assert(bytes.push(crc).drop_last() =~= bytes);
    assert(crc ^ crc == 0) by (bit_vector);
    crc8_zero(8);
}

proof fn crc8_bits_injective(a: u8, b: u8, count: nat)
    requires
        a != b,
    ensures
        crc8_bits(a, count) != crc8_bits(b, count),
    decreases count,
{
    if count > 0 {
        crc8_bits_injective(a, b, (count - 1) as nat);
        let x = crc8_bits(a, (count - 1) as nat);
        let y = crc8_bits(b, (count - 1) as nat);
        assert(x != y ==> (if x & 1 != 0 {
            (x >> 1) ^ 0x8c
        } else {
            x >> 1
        }) != (if y & 1 != 0 {
            (y >> 1) ^ 0x8c
        } else {
            y >> 1
        })) by (bit_vector);
    }
}

/// From different starting values the same bytes give different checksums.
pub proof fn crc8_keeps_difference(bytes: Seq<u8>, a: u8, b: u8)
    requires
        a != b,
    ensures
        crc8_of(bytes, a) != crc8_of(bytes, b),
    decreases bytes.len(),
{
    if bytes.len() > 0 {
        crc8_keeps_difference(bytes.drop_last(), a, b);
        let x = crc8_of(bytes.drop_last(), a);
        let y = crc8_of(bytes.drop_last(), b);
        let z = bytes.last();
        assert(x != y ==> x ^ z != y ^ z) by (bit_vector);
        crc8_bits_injective(x ^ z, y ^ z, 8);
    }
}

/// A change of one byte always changes the checksum.
pub proof fn crc8_detects_one_byte(bytes: Seq<u8>, at: int, changed: u8, initial: u8)
    requires
        0 <= at < bytes.len(),
        changed != bytes[at],
    ensures
        crc8_of(bytes.update(at, changed), initial) != crc8_of(bytes, initial),
{
    let other = bytes.update(at, changed);
    let head = bytes.take(at);
    let tail = bytes.skip(at + 1);
    assert(bytes =~= head.push(bytes[at]) + tail);
    assert(other =~= head.push(changed) + tail);
    assert(head.push(bytes[at]).drop_last() =~= head);
    assert(head.push(changed).drop_last() =~= head);
    let c = crc8_of(head, initial);
    let x = bytes[at];
    assert(changed != x ==> c ^ changed != c ^ x) by (bit_vector);
    crc8_bits_injective(c ^ changed, c ^ x, 8);
    crc8_continues(head.push(bytes[at]), tail, initial);
    crc8_continues(head.push(changed), tail, initial);
    crc8_keeps_difference(
        tail,
        crc8_of(head.push(changed), initial),
        crc8_of(head.push(bytes[at]), initial),
    );
}

} // verus!
