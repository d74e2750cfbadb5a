//! Text output as bytes.

use vstd::prelude::*;

verus! {

/// The UTF-8 bytes of a text.
pub open spec fn utf8(text: Seq<char>) -> Seq<u8> {
    vstd::utf8::encode_utf8(text)
}

/// The decimal digits of a number, most significant first.
pub open spec fn decimal(n: nat) -> Seq<u8>
    decreases n,
{
    if n < 10 {
        seq![(0x30 + n) as u8]
    } else {
        decimal(n / 10).push((0x30 + n % 10) as u8)
    }
}

/// The number that a row of decimal digits stands for.
pub open spec fn number(digits: Seq<u8>) -> nat
    decreases digits.len(),
{
    if digits.len() == 0 {
        0
    } else {
        10 * number(digits.drop_last()) + (digits.last() - 0x30) as nat
    }
}

/// Appends a text.
pub fn push_str(out: &mut Vec<u8>, text: &str)
    ensures
        final(out)@ == old(out)@ + utf8(text@),
{
    let bytes = text.as_bytes();
    let ghost start = out@;
    let mut i: usize = 0;
    assert(start + bytes@.take(0) =~= start);
    while i < bytes.len()
        invariant
            i <= bytes@.len(),
            out@ == start + bytes@.take(i as int),
        decreases bytes.len() - i,
    {
        out.push(bytes[i]);
        i = i + 1;
        assert(out@ =~= start + bytes@.take(i as int));
    }
    assert(bytes@.take(i as int) =~= bytes@);
}

/// Appends a number in decimal.
pub fn write_u32(out: &mut Vec<u8>, n: u32)
    ensures
        final(out)@ == old(out)@ + decimal(n as nat),
{
    if n == 0 {
        out.push(0x30);
        return;
    }
    let mut digits: [u8; 10] = [0; 10];
    let mut i: usize = 10;
    let mut rest: u32 = n;
    let ghost tail = Seq::<u8>::empty();
    assert(digits@.skip(10) =~= tail);
    while rest > 0
        invariant
            0 <= i <= 10,
            rest <= n,
            i == 10 ==> rest == n && tail.len() == 0,
            rest > 0 ==> decimal(n as nat) == decimal(rest as nat) + tail,
            rest == 0 ==> decimal(n as nat) == tail,
            digits@.skip(i as int) == tail,
            i == 10 ==> rest <= 4_294_967_295,
            i == 9 ==> rest <= 429_496_729,
            i == 8 ==> rest <= 42_949_672,
            i == 7 ==> rest <= 4_294_967,
            i == 6 ==> rest <= 429_496,
            i == 5 ==> rest <= 42_949,
            i == 4 ==> rest <= 4_294,
            i == 3 ==> rest <= 429,
            i == 2 ==> rest <= 42,
            i == 1 ==> rest <= 4,
            i == 0 ==> rest == 0,
        decreases rest,
    {
        let digit: u8 = 0x30 + (rest % 10) as u8;
        i = i - 1;
        digits[i] = digit;
        proof {
            let longer = seq![digit] + tail;
            assert(digits@.skip(i as int) =~= longer);
            if rest < 10 {
                assert(decimal(rest as nat) + tail =~= longer);
            } else {
                assert(decimal(rest as nat) + tail =~= decimal((rest / 10) as nat) + longer);
            }
            tail = longer;
        }
        rest = rest / 10;
    }
    let mut j: usize = i;
    let ghost start = out@;
    assert(start + digits@.subrange(i as int, i as int) =~= start);
    while j < 10
        invariant
            i <= j <= 10,
            out@ == start + digits@.subrange(i as int, j as int),
        decreases 10 - j,
    {
        out.push(digits[j]);
        j = j + 1;
        assert(out@ =~= start + digits@.subrange(i as int, j as int));
    }
    assert(digits@.subrange(i as int, 10) =~= tail);
}

/// The digits of a number stand for the number.
pub proof fn law_decimal_reads_back(n: nat)
    ensures
        number(decimal(n)) == n,
        forall|i: int| 0 <= i < decimal(n).len() ==> 0x30 <= #[trigger] decimal(n)[i] <= 0x39,
    decreases n,
{
    if n < 10 {
        assert(decimal(n).drop_last() =~= Seq::<u8>::empty());
        assert(number(Seq::<u8>::empty()) == 0);
    } else {
        law_decimal_reads_back(n / 10);
        assert(decimal(n).drop_last() =~= decimal(n / 10));
    }
}

/// A number is written without zeros in front.
pub proof fn law_decimal_has_no_leading_zero(n: nat)
    ensures
        decimal(n).len() > 0,
        n > 0 ==> decimal(n)[0] != 0x30,
        n == 0 ==> decimal(n) == seq![0x30u8],
    decreases n,
{
    if n >= 10 {
        law_decimal_has_no_leading_zero(n / 10);
    }
}

} // verus!
