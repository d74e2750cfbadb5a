//! Key derivation for SecurityAccess: a shift register with feedback, run
//! for 40 steps, whose bits are then put in reverse order.

use vstd::prelude::*;

use crate::bytes;

verus! {

/// Steps of the shift register.
pub const LFSR_STEPS: u32 = 40;

/// A block of key material, 16 bytes.
#[derive(Copy, Clone, Debug, PartialEq, Eq)]
pub struct AesBlock(pub [u8; 16]);

impl AesBlock {
    pub fn from_bytes(bytes: [u8; 16]) -> (b: AesBlock)
        ensures
            b@ == bytes@,
    {
        AesBlock(bytes)
    }
}

impl View for AesBlock {
    type V = Seq<u8>;

    open spec fn view(&self) -> Seq<u8> {
        self.0@
    }
}

/// `b` with its bits in reverse order.
pub open spec fn reversed(b: u8) -> u8 {
    ((b & 0x01) << 7) | ((b & 0x02) << 5) | ((b & 0x04) << 3) | ((b & 0x08) << 1) | ((b & 0x10)
        >> 1) | ((b & 0x20) >> 3) | ((b & 0x40) >> 5) | ((b & 0x80) >> 7)
}

/// The register after one step.
pub open spec fn stepped(state: u32, mask: u32) -> u32 {
    if state & 0x8000_0000 != 0 {
        (state << 1) ^ mask
    } else {
        state << 1
    }
}

/// The register after `n` steps.
pub open spec fn stepped_by(state: u32, mask: u32, n: nat) -> u32
    decreases n,
{
    if n == 0 {
        state
    } else {
        stepped(stepped_by(state, mask, (n - 1) as nat), mask)
    }
}

/// The word with all 32 bits in reverse order.
pub open spec fn word_reversed(v: u32) -> u32 {
    let b = bytes::u32_le(v);
    bytes::le_u32(seq![reversed(b[3]), reversed(b[2]), reversed(b[1]), reversed(b[0])])
}

/// The key that answers `seed` under `mask`.
pub open spec fn key_for(seed: u32, mask: u32) -> u32 {
    word_reversed(stepped_by(seed, mask, LFSR_STEPS as nat))
}

/// Puts the bits of a byte in reverse order.
pub fn reverse_bits(b: u8) -> (r: u8)
    ensures
        r == reversed(b),
{
    let c: u8 = ((b & 0xAA) >> 1) | ((b & 0x55) << 1);
    let d: u8 = ((c & 0xCC) >> 2) | ((c & 0x33) << 2);
    let e: u8 = ((d & 0xF0) >> 4) | ((d & 0x0F) << 4);
    assert(e == reversed(b)) by (bit_vector)
        requires
            c == ((b & 0xAA) >> 1) | ((b & 0x55) << 1),
            d == ((c & 0xCC) >> 2) | ((c & 0x33) << 2),
            e == ((d & 0xF0) >> 4) | ((d & 0x0F) << 4),
    ;
    e
}

/// Derives the key for `seed` under `mask`.
pub fn generate_key(seed: u32, mask: u32) -> (key: u32)
    ensures
        key == key_for(seed, mask),
{
    let mut state: u32 = seed;
    let mut i: u32 = 0;
    while i < LFSR_STEPS
        invariant
            i <= LFSR_STEPS,
            state == stepped_by(seed, mask, i as nat),
        decreases LFSR_STEPS - i,
    {
        state = if state & 0x8000_0000 != 0 {
            (state << 1) ^ mask
        } else {
            state << 1
        };
        i = i + 1;
    }
    let b = bytes::u32_to_le(state);
    let r: [u8; 4] = [
        reverse_bits(b[3]),
        reverse_bits(b[2]),
        reverse_bits(b[1]),
        reverse_bits(b[0]),
    ];
    proof {
        let s = bytes::u32_le(state);
        assert(r@ =~= seq![reversed(s[3]), reversed(s[2]), reversed(s[1]), reversed(s[0])]);
    }
    bytes::u32_from_le(r)
}

/// Reversing the bits of a byte twice gives the byte.
pub proof fn law_reversal_undoes_itself(b: u8)
    ensures
        reversed(reversed(b)) == b,
{
    assert(reversed(reversed(b)) == b) by (bit_vector);
}

/// Reversing the bits of a word twice gives the word.
pub proof fn law_word_reversal_undoes_itself(v: u32)
    ensures
        word_reversed(word_reversed(v)) == v,
{
    let b = bytes::u32_le(v);
    let r = seq![reversed(b[3]), reversed(b[2]), reversed(b[1]), reversed(b[0])];
    bytes::lemma_le_u32_round_trip(r);
    law_reversal_undoes_itself(b[0]);
    law_reversal_undoes_itself(b[1]);
    law_reversal_undoes_itself(b[2]);
    law_reversal_undoes_itself(b[3]);
    assert(seq![reversed(r[3]), reversed(r[2]), reversed(r[1]), reversed(r[0])] =~= b);
    bytes::lemma_u32_le_round_trip(v);
}

proof fn lemma_step_keeps_apart(a: u32, b: u32, mask: u32, n: nat)
    requires
        mask % 2 == 1,
        stepped_by(a, mask, n) == stepped_by(b, mask, n),
    ensures
        a == b,
    decreases n,
{
    if n > 0 {
        let x = stepped_by(a, mask, (n - 1) as nat);
        let y = stepped_by(b, mask, (n - 1) as nat);
        assert(x == y) by (bit_vector)
            requires
                mask % 2 == 1,
                (if x & 0x8000_0000 != 0 {
                    (x << 1) ^ mask
                } else {
                    x << 1
                }) == (if y & 0x8000_0000 != 0 {
                    (y << 1) ^ mask
                } else {
                    y << 1
                }),
        ;
        lemma_step_keeps_apart(a, b, mask, (n - 1) as nat);
    }
}

/// Under a mask whose lowest bit is set, different seeds have different
/// keys.
pub proof fn law_odd_masks_keep_seeds_apart(a: u32, b: u32, mask: u32)
    requires
        mask % 2 == 1,
        key_for(a, mask) == key_for(b, mask),
    ensures
        a == b,
{
    let n = LFSR_STEPS as nat;
    law_word_reversal_undoes_itself(stepped_by(a, mask, n));
    law_word_reversal_undoes_itself(stepped_by(b, mask, n));
    lemma_step_keeps_apart(a, b, mask, n);
}

/// The all-zero seed has the all-zero key, whatever the mask.
pub proof fn law_zero_seed_has_zero_key(mask: u32)
    ensures
        key_for(0, mask) == 0,
{
    lemma_zero_stays(mask, LFSR_STEPS as nat);
    assert(reversed(0) == 0) by (bit_vector);
}

proof fn lemma_zero_stays(mask: u32, n: nat)
    ensures
        stepped_by(0, mask, n) == 0,
    decreases n,
{
    if n > 0 {
        lemma_zero_stays(mask, (n - 1) as nat);
        assert(0u32 & 0x8000_0000 == 0) by (bit_vector);
        assert(0u32 << 1 == 0u32) by (bit_vector);
    }
}

/// The register after `n` steps, in numbers: it is doubled, and where a bit
/// falls out at the top the mask is added bit by bit.
pub open spec fn register(seed: u32, mask: u32, n: nat) -> u32
    decreases n,
{
    if n == 0 {
        seed
    } else {
        let r = register(seed, mask, (n - 1) as nat);
        if r >= 0x8000_0000 {
            ((2 * r - 0x1_0000_0000) as u32) ^ mask
        } else {
            (2 * r) as u32
        }
    }
}

proof fn lemma_register(seed: u32, mask: u32, n: nat)
    ensures
        stepped_by(seed, mask, n) == register(seed, mask, n),
    decreases n,
{
    if n > 0 {
        lemma_register(seed, mask, (n - 1) as nat);
        let r = register(seed, mask, (n - 1) as nat);
        assert((r & 0x8000_0000 != 0) == (r >= 0x8000_0000)) by (bit_vector);
        assert(r >= 0x8000_0000 ==> r << 1 == 2 * r - 0x1_0000_0000) by (bit_vector);
        assert(r < 0x8000_0000 ==> r << 1 == 2 * r) by (bit_vector);
    }
}

/// Bit `i` of the key, counted from the lowest, is bit `31 - i` of the register
/// after 40 steps from the seed.
pub proof fn law_key_is_the_register_reversed(seed: u32, mask: u32, i: u32)
    requires
        i < 32,
    ensures
        (key_for(seed, mask) >> i) & 1 == (register(seed, mask, 40) >> ((31 - i) as u32)) & 1,
{
    lemma_register(seed, mask, 40);
    let v = register(seed, mask, 40);
    let b = bytes::u32_le(v);
    let (b0, b1, b2, b3) = (b[0], b[1], b[2], b[3]);
    let (r0, r1, r2, r3) = (reversed(b0), reversed(b1), reversed(b2), reversed(b3));
    let k = key_for(seed, mask);
    let j = (31 - i) as u32;
    assert(k == r3 + 0x100 * r2 + 0x1_0000 * r1 + 0x100_0000 * r0);
    assert((k >> i) & 1 == (v >> j) & 1) by (bit_vector)
        requires
            i + j == 31,
            b0 == v % 0x100,
            b1 == v / 0x100 % 0x100,
            b2 == v / 0x1_0000 % 0x100,
            b3 == v / 0x100_0000,
            r0 == reversed(b0),
            r1 == reversed(b1),
            r2 == reversed(b2),
            r3 == reversed(b3),
            k == r3 + 0x100 * r2 + 0x1_0000 * r1 + 0x100_0000 * r0,
    ;
}

/// Bit `i` of a reversed byte is bit `7 - i` of the byte.
pub proof fn law_reversal_turns_bits_round(b: u8, i: u8)
    requires
        i < 8,
    ensures
        (reversed(b) >> i) & 1 == (b >> ((7 - i) as u8)) & 1,
{
    let j = (7 - i) as u8;
    assert((reversed(b) >> i) & 1 == (b >> j) & 1) by (bit_vector)
        requires
            i + j == 7,
    ;
}

} // verus!
