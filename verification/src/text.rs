//! Numbers as text.

use vstd::prelude::*;
use vstd::string::*;

verus! {

/// The digits of `value` to `base`, highest first, without leading zeros.
pub open spec fn digits(value: nat, base: nat) -> Seq<char>
    decreases value,
{
    if base < 2 || value < base {
        seq!["0123456789abcdef"@[value as int]]
    } else {
        proof {
            assert(value / base < value) by (nonlinear_arith)
                requires
                    2 <= base <= value,
            ;
        }
        digits(value / base, base).push("0123456789abcdef"@[(value % base) as int])
    }
}

/// `value` in hexadecimal, behind `0x` and in at least two digits.
pub open spec fn prefixed_hex(value: nat) -> Seq<char> {
    "0x"@ + (if value < 16 {
        "0"@
    } else {
        ""@
    }) + digits(value, 16)
}

/// Appends the digits of `value` to `text`.
pub fn append_digits(text: &mut String, value: u64, base: u64)
    requires
        2 <= base <= 16,
    ensures
        final(text)@ == old(text)@ + digits(value as nat, base as nat),
    decreases value,
{
    let ghost before = text@;
    proof {
        reveal_strlit("0123456789abcdef");
    }
    if value >= base {
        assert(value / base < value) by (nonlinear_arith)
            requires
                2 <= base <= value,
        ;
        append_digits(text, value / base, base);
    }
    let digit: usize = (value % base) as usize;
    let numerals = "0123456789abcdef";
    text.append(numerals.substring_char(digit, digit + 1));
    proof {
        if value < base {
            assert(value % base == value) by (nonlinear_arith)
                requires
                    0 <= value < base,
            ;
        }
        assert(text@ =~= before + digits(value as nat, base as nat));
    }
}

/// Appends `value` to `text` in hexadecimal, behind `0x` and in at least two digits.
pub fn append_prefixed_hex(text: &mut String, value: u32)
    ensures
        final(text)@ == old(text)@ + prefixed_hex(value as nat),
{
    let ghost before = text@;
    text.append("0x");
    if value < 16 {
        text.append("0");
    }
    append_digits(text, value as u64, 16);
    proof {
        reveal_strlit("");
    }
    assert(text@ =~= before + prefixed_hex(value as nat));
}

/// The number that a digit stands for, and -1 for what is no digit.
pub open spec fn digit_value(digit: char) -> int {
    if '0' <= digit <= '9' {
        digit as int - '0' as int
    } else if 'a' <= digit <= 'f' {
        digit as int - 'a' as int + 10
    } else {
        -1
    }
}

/// The number that a text spells to `base`, highest digit first.
pub open spec fn spelled(text: Seq<char>, base: nat) -> int
    decreases text.len(),
{
    if text.len() == 0 {
        0
    } else {
        spelled(text.drop_last(), base) * base + digit_value(text.last())
    }
}

/// The digits stand for the numbers from 0 to 15, in order.
proof fn lemma_numerals(value: int)
    requires
        0 <= value < 16,
    ensures
        "0123456789abcdef"@.len() == 16,
        digit_value("0123456789abcdef"@[value]) == value,
{
    reveal_strlit("0123456789abcdef");
    let numerals = "0123456789abcdef"@;
    assert(numerals[0] == '0' && numerals[1] == '1' && numerals[2] == '2' && numerals[3] == '3');
    assert(numerals[4] == '4' && numerals[5] == '5' && numerals[6] == '6' && numerals[7] == '7');
    assert(numerals[8] == '8' && numerals[9] == '9' && numerals[10] == 'a' && numerals[11] == 'b');
    assert(numerals[12] == 'c' && numerals[13] == 'd' && numerals[14] == 'e' && numerals[15]
        == 'f');
}

/// The digits of a number spell that number, are all digits of the base, and begin with a zero
/// only if that is the only one.
pub proof fn law_digits_spell_the_number(value: nat, base: nat)
    requires
        2 <= base <= 16,
    ensures
        spelled(digits(value, base), base) == value,
        digits(value, base).len() >= 1,
        forall|i: int|
            0 <= i < digits(value, base).len() ==> 0 <= digit_value(
                #[trigger] digits(value, base)[i],
            ) < base,
        value >= base ==> digits(value, base).len() >= 2,
        value > 0 ==> digit_value(digits(value, base)[0]) > 0,
        value < base ==> digits(value, base).len() == 1,
        value >= base ==> digits(value, base).drop_last() == digits(value / base, base),
        digits(value, base).last() == "0123456789abcdef"@[(value % base) as int],
    decreases value,
{
    let text = digits(value, base);
    if value < base {
        lemma_numerals(value as int);
        assert(text.drop_last() =~= Seq::<char>::empty());
        assert(spelled(text.drop_last(), base) == 0);
        assert(0 * base == 0);
        assert(value % base == value) by (nonlinear_arith)
            requires
                0 <= value < base,
        ;
    } else {
        assert(value / base < value && value / base > 0 && value % base < base) by (nonlinear_arith)
            requires
                2 <= base <= value,
        ;
        law_digits_spell_the_number(value / base, base);
        lemma_numerals((value % base) as int);
        let front = digits(value / base, base);
        assert(text.drop_last() =~= front);
        assert(text[0] == front[0]);
        assert((value / base) * base + value % base == value) by (nonlinear_arith)
            requires
                2 <= base <= value,
        ;
        assert forall|i: int| 0 <= i < text.len() implies 0 <= digit_value(#[trigger] text[i])
            < base by {
            if i < front.len() {
                assert(text[i] == front[i]);
            }
        }
    }
}

/// A number in hexadecimal begins with `0x` and spells the number after that, in two digits if it
/// fits, and else without a leading zero.
pub proof fn law_hex_spells_the_number(value: nat)
    ensures
        ({
            let hex = prefixed_hex(value);
            &&& hex.len() >= 4
            &&& hex[0] == '0'
            &&& hex[1] == 'x'
            &&& spelled(hex.skip(2), 16) == value
            &&& forall|i: int|
                2 <= i < hex.len() ==> 0 <= digit_value(#[trigger] hex[i]) < 16
            &&& value < 256 <==> hex.len() == 4
            &&& value >= 256 ==> hex[2] != '0'
        }),
{
    reveal_strlit("0x");
    reveal_strlit("0");
    reveal_strlit("");
    let hex = prefixed_hex(value);
    let number = digits(value, 16);
    law_digits_spell_the_number(value, 16);
    reveal_with_fuel(digits, 3);
    assert("0x"@.len() == 2 && "0x"@[0] == '0' && "0x"@[1] == 'x');
    assert("0"@.len() == 1 && "0"@[0] == '0');
    assert(""@.len() == 0);
    if value < 16 {
        assert(hex.skip(2) =~= seq!['0', number[0]]);
        assert(hex.skip(2).drop_last() =~= seq!['0']);
        assert(seq!['0'].drop_last() =~= Seq::<char>::empty());
        assert(number.drop_last() =~= Seq::<char>::empty());
        reveal_with_fuel(spelled, 3);
        assert(number.last() == number[0]);
        assert(digit_value(number[0]) == value);
        assert(hex[2] == '0' && hex[3] == number[0]);
    } else {
        assert(hex.skip(2) =~= number);
        assert(hex[2] == number[0]);
        assert forall|i: int| 2 <= i < hex.len() implies 0 <= digit_value(#[trigger] hex[i])
            < 16 by {
            assert(hex[i] == number[i - 2]);
        }
        law_digits_spell_the_number(value / 16, 16);
        assert(number.drop_last() =~= digits(value / 16, 16));
        if value >= 256 {
            law_digits_spell_the_number(value / 16 / 16, 16);
        }
    }
}

} // verus!
