//! CRC-32/ISO-HDLC, bit-reflected, one byte at a time. The register starts
//! at all ones and is inverted at the end.

use vstd::prelude::*;

use crate::bytes;

verus! {

/// Value of the register before the first byte.
pub const CRC_INIT: u32 = 0xFFFF_FFFF;

/// Mask that the final register is inverted with.
pub const CRC_XOROUT: u32 = 0xFFFF_FFFF;

/// The generator polynomial 0x04C1_1DB7 with its bits reversed.
pub const CRC_POLY: u32 = 0xEDB8_8320;

/// The register after one bit.
pub open spec fn shifted(c: u32) -> u32 {
    if c & 1 != 0 {
        (c >> 1) ^ CRC_POLY
    } else {
        c >> 1
    }
}

/// The register after `n` bits.
pub open spec fn shifted_by(c: u32, n: nat) -> u32
    decreases n,
{
    if n == 0 {
        c
    } else {
        shifted(shifted_by(c, (n - 1) as nat))
    }
}

/// The register after one byte.
pub open spec fn crc_of_byte(c: u32, byte: u8) -> u32 {
    shifted_by(c ^ byte as u32, 8)
}

/// The register after all of `data`.
pub open spec fn crc_of(c: u32, data: Seq<u8>) -> u32
    decreases data.len(),
{
    if data.len() == 0 {
        c
    } else {
        crc_of_byte(crc_of(c, data.drop_last()), data.last())
    }
}

/// Feeds one byte to the register.
pub fn crc32_update(crc: u32, byte: u8) -> (r: u32)
    ensures
        r == crc_of_byte(crc, byte),
{
    let mut c: u32 = crc ^ byte as u32;
    let mut i: u32 = 0;
    while i < 8
        invariant
            i <= 8,
            c == shifted_by(crc ^ byte as u32, i as nat),
        decreases 8 - i,
    {
        c = if c & 1 != 0 {
            (c >> 1) ^ CRC_POLY
        } else {
            c >> 1
        };
        i = i + 1;
    }
    c
}

/// The register does not depend on how the data is cut into pieces.
pub proof fn law_crc_of_concatenation(c: u32, a: Seq<u8>, b: Seq<u8>)
    ensures
        crc_of(c, a + b) == crc_of(crc_of(c, a), b),
    decreases b.len(),
{
    if b.len() == 0 {
        assert(a + b =~= a);
    } else {
        law_crc_of_concatenation(c, a, b.drop_last());
        assert((a + b).drop_last() =~= a + b.drop_last());
        assert((a + b).last() == b.last());
    }
}

proof fn lemma_shifted_injective(a: u32, b: u32)
    requires
        shifted(a) == shifted(b),
    ensures
        a == b,
{
    let x = shifted(a);
    let y = shifted(b);
    assert(a == b) by (bit_vector)
        requires
            x == y,
            x == if a & 1 != 0 {
                (a >> 1) ^ 0xEDB8_8320u32
            } else {
                a >> 1
            },
            y == if b & 1 != 0 {
                (b >> 1) ^ 0xEDB8_8320u32
            } else {
                b >> 1
            },
    ;
}

proof fn lemma_shifted_by_injective(a: u32, b: u32, n: nat)
    requires
        shifted_by(a, n) == shifted_by(b, n),
    ensures
        a == b,
    decreases n,
{
    if n > 0 {
        lemma_shifted_injective(shifted_by(a, (n - 1) as nat), shifted_by(b, (n - 1) as nat));
        lemma_shifted_by_injective(a, b, (n - 1) as nat);
    }
}

/// Two registers that differ still differ after the same data.
pub proof fn law_crc_keeps_registers_apart(a: u32, b: u32, data: Seq<u8>)
    requires
        crc_of(a, data) == crc_of(b, data),
    ensures
        a == b,
    decreases data.len(),
{
    if data.len() > 0 {
        let byte = data.last() as u32;
        let x = crc_of(a, data.drop_last());
        let y = crc_of(b, data.drop_last());
        lemma_shifted_by_injective(x ^ byte, y ^ byte, 8);
        assert(x == y) by (bit_vector)
            requires
                x ^ byte == y ^ byte,
        ;
        law_crc_keeps_registers_apart(a, b, data.drop_last());
    }
}

/// Data that differs in a single byte never has the same checksum.
pub proof fn law_crc_detects_a_changed_byte(c: u32, data: Seq<u8>, i: int, byte: u8)
    requires
        0 <= i < data.len(),
        byte != data[i],
    ensures
        crc_of(c, data.update(i, byte)) != crc_of(c, data),
{
    let changed = data.update(i, byte);
    let head = data.take(i);
    let tail = data.skip(i + 1);
    let register = crc_of(c, head);
    let good = data[i];
    assert(data =~= head + seq![good] + tail);
    assert(changed =~= head + seq![byte] + tail);
    law_crc_of_concatenation(c, head + seq![good], tail);
    law_crc_of_concatenation(c, head + seq![byte], tail);
    law_crc_of_concatenation(c, head, seq![good]);
    law_crc_of_concatenation(c, head, seq![byte]);
    lemma_crc_of_one(register, good);
    lemma_crc_of_one(register, byte);
    if crc_of(c, changed) == crc_of(c, data) {
        law_crc_keeps_registers_apart(
            crc_of(register, seq![byte]),
            crc_of(register, seq![good]),
            tail,
        );
        lemma_shifted_by_injective(register ^ byte as u32, register ^ good as u32, 8);
        assert(byte == good) by (bit_vector)
            requires
                register ^ byte as u32 == register ^ good as u32,
        ;
    }
}

proof fn lemma_crc_of_one(c: u32, byte: u8)
    ensures
        crc_of(c, seq![byte]) == crc_of_byte(c, byte),
{
    assert(seq![byte].drop_last() =~= Seq::<u8>::empty());
    assert(crc_of(c, Seq::<u8>::empty()) == c);
}

/// The register after `n` bits, in numbers: it is halved, and where a bit falls
/// out at the bottom the polynomial is added bit by bit.
pub open spec fn register(c: u32, n: nat) -> u32
    decreases n,
{
    if n == 0 {
        c
    } else {
        let r = register(c, (n - 1) as nat);
        if r % 2 == 1 {
            (r / 2) ^ 0xEDB8_8320
        } else {
            r / 2
        }
    }
}

proof fn lemma_register(c: u32, n: nat)
    ensures
        shifted_by(c, n) == register(c, n),
    decreases n,
{
    if n > 0 {
        lemma_register(c, (n - 1) as nat);
        let r = register(c, (n - 1) as nat);
        assert((r & 1 != 0) == (r % 2 == 1)) by (bit_vector);
        assert(r >> 1 == r / 2) by (bit_vector);
    }
}

/// A byte is added to the register bit by bit, which then takes eight bits; no
/// data leaves it as it is.
pub proof fn law_crc_takes_eight_bits_a_byte(c: u32, byte: u8)
    ensures
        crc_of(c, Seq::<u8>::empty()) == c,
        crc_of(c, seq![byte]) == register(c ^ byte as u32, 8),
        crc_of_byte(c, byte) == register(c ^ byte as u32, 8),
{
    lemma_crc_of_one(c, byte);
    lemma_register(c ^ byte as u32, 8);
}

/// The register after eight bits.
spec fn eight(c: u32) -> u32 {
    shifted(shifted(shifted(shifted(shifted(shifted(shifted(shifted(c))))))))
}

proof fn lemma_eight(c: u32)
    ensures
        shifted_by(c, 8) == eight(c),
{
    reveal_with_fuel(shifted_by, 9);
}

/// Bits above the lowest eight are only moved down.
proof fn lemma_upper_bits_move(x: u32, v: u32)
    ensures
        eight(x ^ v) == eight(x ^ (v & 0xFF)) ^ (v >> 8),
{
    assert(eight(x ^ v) == eight(x ^ (v & 0xFF)) ^ (v >> 8)) by (bit_vector);
}

/// Four bytes enter the register like one word.
proof fn lemma_word_enters(c: u32, v: u32)
    ensures
        crc_of(c, bytes::u32_le(v)) == eight(eight(eight(eight(c ^ v)))),
{
    let b = bytes::u32_le(v);
    let (b0, b1, b2, b3) = (b[0], b[1], b[2], b[3]);
    let c1 = crc_of_byte(c, b0);
    let c2 = crc_of_byte(c1, b1);
    let c3 = crc_of_byte(c2, b2);
    let c4 = crc_of_byte(c3, b3);
    assert(b.drop_last() =~= seq![b0, b1, b2]);
    assert(seq![b0, b1, b2].drop_last() =~= seq![b0, b1]);
    assert(seq![b0, b1].drop_last() =~= seq![b0]);
    lemma_crc_of_one(c, b0);
    assert(crc_of(c, seq![b0, b1]) == c2);
    assert(crc_of(c, seq![b0, b1, b2]) == c3);
    assert(crc_of(c, b) == c4);
    let v1 = v >> 8;
    let v2 = v1 >> 8;
    let v3 = v2 >> 8;
    assert(b0 as u32 == v & 0xFF && b1 as u32 == v1 & 0xFF && b2 as u32 == v2 & 0xFF && b3 as u32
        == v3 & 0xFF && v3 >> 8 == 0) by (bit_vector)
        requires
            b0 == v % 0x100,
            b1 == v / 0x100 % 0x100,
            b2 == v / 0x1_0000 % 0x100,
            b3 == v / 0x100_0000,
            v1 == v >> 8,
            v2 == v1 >> 8,
            v3 == v2 >> 8,
    ;
    lemma_eight(c ^ b0 as u32);
    lemma_eight(c1 ^ b1 as u32);
    lemma_eight(c2 ^ b2 as u32);
    lemma_eight(c3 ^ b3 as u32);
    lemma_upper_bits_move(c, v);
    lemma_upper_bits_move(c1, v1);
    lemma_upper_bits_move(c2, v2);
    lemma_upper_bits_move(c3, v3);
    assert(c4 ^ 0 == c4) by (bit_vector);
}

/// Data followed by its checksum, least significant byte first, always leaves
/// the register at 0xDEBB_20E3.
pub proof fn law_data_with_its_checksum_leaves_the_residue(data: Seq<u8>)
    ensures
        crc_of(
            0xFFFF_FFFF,
            data + bytes::u32_le(crc_of(0xFFFF_FFFF, data) ^ 0xFFFF_FFFF),
        ) == 0xDEBB_20E3,
{
    let c = crc_of(0xFFFF_FFFF, data);
    let v = c ^ 0xFFFF_FFFF;
    law_crc_of_concatenation(0xFFFF_FFFF, data, bytes::u32_le(v));
    lemma_word_enters(c, v);
    assert(c ^ (c ^ 0xFFFF_FFFF) == 0xFFFF_FFFF) by (bit_vector);
    assert(eight(eight(eight(eight(0xFFFF_FFFF)))) == 0xDEBB_20E3) by (bit_vector);
}

} // verus!
