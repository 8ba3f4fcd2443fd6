//! Unsigned integers laid out in byte buffers, least significant byte first.

use vstd::arithmetic::div_mod::{lemma_div_denominator, lemma_fundamental_div_mod};
use vstd::prelude::*;

verus! {

/// 256 raised to the given power.
pub open spec fn pow256(exponent: nat) -> nat
    decreases exponent,
{
    if exponent == 0 {
        1
    } else {
        256 * pow256((exponent - 1) as nat)
    }
}

/// The byte of a value at the given position, position 0 being the least
/// significant.
pub open spec fn le_byte(value: nat, position: nat) -> u8 {
    ((value / pow256(position)) % 256) as u8
}

/// The value that the bytes of a buffer spell from `offset` on, over `width`
/// bytes, least significant byte first.
pub open spec fn le_value(bytes: Seq<u8>, offset: int, width: nat) -> nat
    decreases width,
{
    if width == 0 {
        0
    } else {
        bytes[offset] as nat + 256 * le_value(bytes, offset + 1, (width - 1) as nat)
    }
}

/// Powers of 256 are positive, and the next one is 256 times larger.
pub proof fn lemma_pow256(exponent: nat)
    ensures
        pow256(exponent) > 0,
        pow256(exponent + 1) == 256 * pow256(exponent),
    decreases exponent,
{
    if exponent > 0 {
        lemma_pow256((exponent - 1) as nat);
    }
}

/// The first eight powers of 256.
pub proof fn lemma_pow256_values()
    ensures
        pow256(0) == 1,
        pow256(1) == 0x100,
        pow256(2) == 0x1_0000,
        pow256(3) == 0x100_0000,
        pow256(4) == 0x1_0000_0000,
        pow256(5) == 0x100_0000_0000,
        pow256(6) == 0x1_0000_0000_0000,
        pow256(7) == 0x100_0000_0000_0000,
        pow256(8) == 0x1_0000_0000_0000_0000,
{
    reveal_with_fuel(pow256, 10);
}

/// Bytes that were laid out for a value spell that value again, as long as
/// the value fits in the width.
pub proof fn lemma_le_round_trip(bytes: Seq<u8>, offset: int, width: nat, value: nat)
    requires
        0 <= offset,
        offset + width <= bytes.len(),
        value < pow256(width),
        forall|index: int|
            offset <= index < offset + width ==> #[trigger] bytes[index] == le_byte(
                value,
                (index - offset) as nat,
            ),
    ensures
        le_value(bytes, offset, width) == value,
    decreases width,
{
    assert(pow256(0) == 1);
    if width == 0 {
    } else {
        let rest = value / 256;
        lemma_pow256((width - 1) as nat);
        assert(rest < pow256((width - 1) as nat)) by {
            lemma_fundamental_div_mod(value as int, 256);
        }
        assert forall|index: int| offset + 1 <= index < offset + width implies #[trigger] bytes[index]
            == le_byte(rest, (index - (offset + 1)) as nat) by {
            let position = (index - (offset + 1)) as nat;
            lemma_pow256(position);
            assert(bytes[index] == le_byte(value, (position + 1) as nat));
            lemma_div_denominator(value as int, 256, pow256(position) as int);
            assert(256 * pow256(position) == pow256((position + 1) as nat));
        }
        lemma_le_round_trip(bytes, offset + 1, (width - 1) as nat, rest);
        lemma_fundamental_div_mod(value as int, 256);
        assert(value / 1 == value);
        assert(bytes[offset] == le_byte(value, 0));
        assert(bytes[offset] as nat == value % 256);
        assert(le_value(bytes, offset, width) == bytes[offset] as nat + 256 * le_value(
            bytes,
            offset + 1,
            (width - 1) as nat,
        ));
    }
}

/// Writes `value` into the buffer at `offset`, over `width` bytes, least
/// significant byte first. The other bytes stay as they are.
pub fn put_le<const N: usize>(buffer: &mut [u8; N], offset: usize, width: usize, value: u64)
    requires
        offset + width <= N,
        width <= 8,
    ensures
        forall|index: int|
            0 <= index < N ==> final(buffer)[index] == if offset <= index < offset + width {
                le_byte(value as nat, (index - offset) as nat)
            } else {
                old(buffer)[index]
            },
{
    let mut rest: u64 = value;
    let mut position: usize = 0;
    assert(pow256(0) == 1);
    while position < width
        invariant
            offset + width <= N,
            width <= 8,
            position <= width,
            rest == value as nat / pow256(position as nat),
            forall|index: int|
                0 <= index < N ==> buffer[index] == if offset <= index < offset + position {
                    le_byte(value as nat, (index - offset) as nat)
                } else {
                    old(buffer)[index]
                },
        decreases width - position,
    {
        proof {
            lemma_pow256(position as nat);
            lemma_div_denominator(value as int, pow256(position as nat) as int, 256);
            assert(pow256(position as nat) * 256 == pow256((position + 1) as nat));
        }
        buffer[offset + position] = (rest % 256) as u8;
        rest = rest / 256;
        position = position + 1;
    }
}

/// Reads the value that the bytes hold at `offset`, over `width` bytes,
/// least significant byte first.
pub fn read_le(bytes: &[u8], offset: usize, width: usize) -> (value: u64)
    requires
        offset + width <= bytes.len(),
        width <= 8,
    ensures
        value == le_value(bytes@, offset as int, width as nat),
        value < pow256(width as nat),
{
    let mut value: u64 = 0;
    let mut remaining: usize = width;
    proof {
        lemma_pow256_values();
    }
    while remaining > 0
        invariant
            offset + width <= bytes.len(),
            width <= 8,
            remaining <= width,
            value == le_value(bytes@, offset + remaining, (width - remaining) as nat),
            value < pow256((width - remaining) as nat),
        decreases remaining,
    {
        proof {
            lemma_pow256((width - remaining) as nat);
            lemma_pow256_values();
            assert(pow256((width - remaining + 1) as nat) <= pow256(8)) by {
                lemma_pow256_monotonic((width - remaining + 1) as nat, 8);
            }
        }
        remaining = remaining - 1;
        value = value * 256 + bytes[offset + remaining] as u64;
    }
    value
}

/// Reads the value that the buffer holds at `offset`, over `width` bytes,
/// least significant byte first.
pub fn get_le<const N: usize>(buffer: &[u8; N], offset: usize, width: usize) -> (value: u64)
    requires
        offset + width <= N,
        width <= 8,
    ensures
        value == le_value(buffer@, offset as int, width as nat),
        value < pow256(width as nat),
{
    read_le(buffer.as_slice(), offset, width)
}

/// A larger exponent gives a power of 256 that is no smaller.
pub proof fn lemma_pow256_monotonic(smaller: nat, larger: nat)
    requires
        smaller <= larger,
    ensures
        pow256(smaller) <= pow256(larger),
    decreases larger - smaller,
{
    if smaller < larger {
        lemma_pow256_monotonic(smaller, (larger - 1) as nat);
        lemma_pow256((larger - 1) as nat);
    }
}

/// The unsigned 32-bit number with the same bits as a signed one.
pub open spec fn spec_bits_of(value: i32) -> nat {
    if value >= 0 {
        value as nat
    } else {
        (value + 0x1_0000_0000) as nat
    }
}

/// The signed 32-bit number with the same bits as an unsigned one.
pub open spec fn spec_signed_of(bits: nat) -> int {
    if bits < 0x8000_0000 {
        bits as int
    } else {
        bits - 0x1_0000_0000
    }
}

/// Returns the unsigned number with the same bits as a signed one.
pub fn bits_of(value: i32) -> (bits: u32)
    ensures
        bits == spec_bits_of(value),
        spec_signed_of(bits as nat) == value,
{
    if value >= 0 {
        value as u32
    } else {
        (value as i64 + 0x1_0000_0000i64) as u32
    }
}

/// Returns the signed number with the same bits as an unsigned one.
pub fn signed_of(bits: u32) -> (value: i32)
    ensures
        value == spec_signed_of(bits as nat),
        spec_bits_of(value) == bits,
{
    if bits < 0x8000_0000 {
        bits as i32
    } else {
        (bits as i64 - 0x1_0000_0000i64) as i32
    }
}

} // verus!
