//! Hexadecimal numerals as the protocol writes them: variable width, most
//! significant digit first, either letter case when read, upper case when
//! written.

use crate::ascii::lowercase;
use vstd::prelude::*;

verus! {

/// The value of one hexadecimal digit; 0 for a byte that is none.
pub open spec fn spec_hex_digit_value(character: u8) -> nat {
    if 0x30 <= character <= 0x39 {
        (character - 0x30) as nat
    } else if 0x41 <= character <= 0x46 {
        (character - 0x41 + 10) as nat
    } else if 0x61 <= character <= 0x66 {
        (character - 0x61 + 10) as nat
    } else {
        0
    }
}

/// The value of one hexadecimal digit; 0 for a byte that is none.
pub fn hex_digit_value(character: u8) -> (value: u8)
    ensures
        value == spec_hex_digit_value(character),
        value < 16,
{
    if character >= 0x30 && character <= 0x39 {
        character - 0x30
    } else if character >= 0x41 && character <= 0x46 {
        character - 0x41 + 10
    } else if character >= 0x61 && character <= 0x66 {
        character - 0x61 + 10
    } else {
        0
    }
}

/// The number a run of hexadecimal digits denotes in base 16.
pub open spec fn hex_value(digits: Seq<u8>) -> nat
    decreases digits.len(),
{
    if digits.len() == 0 {
        0
    } else {
        hex_value(digits.drop_last()) * 16 + spec_hex_digit_value(digits.last())
    }
}

/// A numeral is worth at least as much as any of its prefixes.
pub proof fn lemma_hex_value_prefix(digits: Seq<u8>, k: int)
    requires
        0 <= k <= digits.len(),
    ensures
        hex_value(digits.subrange(0, k)) <= hex_value(digits),
    decreases digits.len() - k,
{
    if k == digits.len() {
        assert(digits.subrange(0, k) =~= digits);
    } else {
        lemma_hex_value_prefix(digits.drop_last(), k);
        assert(digits.drop_last().subrange(0, k) =~= digits.subrange(0, k));
    }
}

/// Letter case does not change what a digit is worth.
pub proof fn lemma_hex_digit_value_ignores_case(a: u8, b: u8)
    requires
        lowercase(a) == lowercase(b),
    ensures
        spec_hex_digit_value(a) == spec_hex_digit_value(b),
{
}

/// Letter case does not change what a numeral is worth.
pub proof fn lemma_hex_value_ignores_case(a: Seq<u8>, b: Seq<u8>)
    requires
        a.len() == b.len(),
        forall|i: int| 0 <= i < a.len() ==> lowercase(#[trigger] a[i]) == lowercase(b[i]),
    ensures
        hex_value(a) == hex_value(b),
    decreases a.len(),
{
    if a.len() > 0 {
        assert(lowercase(a[a.len() - 1]) == lowercase(b[a.len() - 1]));
        lemma_hex_digit_value_ignores_case(a.last(), b.last());
        assert forall|i: int| 0 <= i < a.drop_last().len() implies lowercase(
            #[trigger] a.drop_last()[i],
        ) == lowercase(b.drop_last()[i]) by {
            assert(lowercase(a[i]) == lowercase(b[i]));
        }
        lemma_hex_value_ignores_case(a.drop_last(), b.drop_last());
    }
}

/// Reads a numeral: its value in base 16, a byte that is no digit counting
/// as `0`. `None` when the value does not fit a `usize`.
pub fn parse_hex(digits: &[u8]) -> (r: Option<usize>)
    ensures
        match r {
            Some(value) => value == hex_value(digits@),
            None => hex_value(digits@) > usize::MAX,
        },
{
    let mut value: usize = 0;
    let mut i: usize = 0;
    while i < digits.len()
        invariant
            i <= digits@.len(),
            value == hex_value(digits@.subrange(0, i as int)),
        decreases digits@.len() - i,
    {
        let digit: usize = hex_digit_value(digits[i]) as usize;
        proof {
            let longer = digits@.subrange(0, i + 1);
            assert(longer.drop_last() =~= digits@.subrange(0, i as int));
            assert(longer.last() == digits@[i as int]);
            assert(hex_value(longer) == value * 16 + digit);
            lemma_hex_value_prefix(digits@, i + 1);
        }
        if value > (usize::MAX - digit) / 16 {
            return None;
        }
        value = value * 16 + digit;
        i += 1;
    }
    assert(digits@.subrange(0, i as int) =~= digits@);
    Some(value)
}

/// The upper-case digit of a value below 16.
pub open spec fn spec_hex_digit(value: nat) -> u8 {
    if value < 10 {
        (0x30 + value) as u8
    } else {
        (0x41 + value - 10) as u8
    }
}

/// The upper-case digit of a value below 16.
fn hex_digit(value: u8) -> (character: u8)
    requires
        value < 16,
    ensures
        character == spec_hex_digit(value as nat),
{
    if value < 10 {
        0x30 + value
    } else {
        0x41 + (value - 10)
    }
}

/// The shortest upper-case numeral of `value`: no leading zero but for zero itself.
pub open spec fn hex_digits(value: nat) -> Seq<u8>
    decreases value,
{
    if value < 16 {
        seq![spec_hex_digit(value)]
    } else {
        hex_digits(value / 16).push(spec_hex_digit(value % 16))
    }
}

/// `hex_digits` writes at least one digit, writes only digits, and what it
/// writes reads back as the value.
pub proof fn lemma_hex_digits(value: nat)
    ensures
        hex_digits(value).len() >= 1,
        forall|i: int|
            0 <= i < hex_digits(value).len() ==> crate::ascii::is_hex_digit(
                #[trigger] hex_digits(value)[i],
            ),
        hex_value(hex_digits(value)) == value,
    decreases value,
{
    if value < 16 {
        let one = seq![spec_hex_digit(value)];
        assert(one.drop_last() =~= Seq::<u8>::empty());
        assert(hex_value(one.drop_last()) == 0);
        assert(one.last() == spec_hex_digit(value));
    } else {
        lemma_hex_digits(value / 16);
        let all = hex_digits(value);
        assert(all.drop_last() =~= hex_digits(value / 16));
        assert(all.last() == spec_hex_digit(value % 16));
    }
}

/// Appends the shortest upper-case numeral of `value` to `out`.
pub fn push_hex(out: &mut Vec<u8>, value: usize)
    ensures
        final(out)@ == old(out)@ + hex_digits(value as nat),
    decreases value,
{
    if value >= 16 {
        push_hex(out, value / 16);
    }
    let last: u8 = (value % 16) as u8;
    out.push(hex_digit(last));
    proof {
        if value < 16 {
            assert(old(out)@.push(spec_hex_digit(value as nat)) =~= old(out)@ + hex_digits(
                value as nat,
            ));
        } else {
            assert((old(out)@ + hex_digits((value / 16) as nat)).push(
                spec_hex_digit((value % 16) as nat),
            ) =~= old(out)@ + hex_digits(value as nat));
        }
    }
}

} // verus!
