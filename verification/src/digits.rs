//! Decimal and hexadecimal digit sequences: what a string of digits denotes,
//! which character sequence denotes a given number, and proofs that the two
//! directions agree.

use vstd::prelude::*;

verus! {

/// `c` is an ASCII decimal digit.
pub open spec fn is_dec_digit(c: char) -> bool {
    48 <= c as u32 && c as u32 <= 57
}

/// The numeric value of a decimal digit.
pub open spec fn dec_digit_val(c: char) -> nat {
    (c as u32 - 48) as nat
}

/// `c` is an ASCII hexadecimal digit, in either letter case.
pub open spec fn is_hex_digit(c: char) -> bool {
    is_dec_digit(c) || (65 <= c as u32 && c as u32 <= 70) || (97 <= c as u32 && c as u32 <= 102)
}

/// The numeric value of a hexadecimal digit.
pub open spec fn hex_digit_val(c: char) -> nat {
    if is_dec_digit(c) {
        (c as u32 - 48) as nat
    } else if 65 <= c as u32 && c as u32 <= 70 {
        (c as u32 - 55) as nat
    } else if 97 <= c as u32 && c as u32 <= 102 {
        (c as u32 - 87) as nat
    } else {
        0
    }
}

/// The lower-case digit character for a value below 16.
pub open spec fn digit_char(d: nat) -> char {
    if d == 0 {
        '0'
    } else if d == 1 {
        '1'
    } else if d == 2 {
        '2'
    } else if d == 3 {
        '3'
    } else if d == 4 {
        '4'
    } else if d == 5 {
        '5'
    } else if d == 6 {
        '6'
    } else if d == 7 {
        '7'
    } else if d == 8 {
        '8'
    } else if d == 9 {
        '9'
    } else if d == 10 {
        'a'
    } else if d == 11 {
        'b'
    } else if d == 12 {
        'c'
    } else if d == 13 {
        'd'
    } else if d == 14 {
        'e'
    } else if d == 15 {
        'f'
    } else {
        '0'
    }
}

/// A non-empty sequence of decimal digits.
pub open spec fn valid_dec(s: Seq<char>) -> bool {
    s.len() > 0 && (forall|i: int| 0 <= i < s.len() ==> is_dec_digit(#[trigger] s[i]))
}

/// A non-empty sequence of hexadecimal digits.
pub open spec fn valid_hex(s: Seq<char>) -> bool {
    s.len() > 0 && (forall|i: int| 0 <= i < s.len() ==> is_hex_digit(#[trigger] s[i]))
}

/// The number denoted by a sequence of decimal digits, most significant
/// digit first.
pub open spec fn dec_value_of(s: Seq<char>) -> nat
    decreases s.len(),
{
    if s.len() == 0 {
        0
    } else {
        dec_value_of(s.drop_last()) * 10 + dec_digit_val(s.last())
    }
}

/// The number denoted by a sequence of hexadecimal digits, most significant
/// digit first.
pub open spec fn hex_value_of(s: Seq<char>) -> nat
    decreases s.len(),
{
    if s.len() == 0 {
        0
    } else {
        hex_value_of(s.drop_last()) * 16 + hex_digit_val(s.last())
    }
}

/// The shortest decimal rendering of `n`: no leading zeros, except that zero
/// itself is the single digit `0`.
pub open spec fn dec_seq_of(n: nat) -> Seq<char>
    decreases n,
{
    if n < 10 {
        seq![digit_char(n)]
    } else {
        dec_seq_of(n / 10).push(digit_char(n % 10))
    }
}

/// The shortest lower-case hexadecimal rendering of `n`.
pub open spec fn hex_seq_of(n: nat) -> Seq<char>
    decreases n,
{
    if n < 16 {
        seq![digit_char(n)]
    } else {
        hex_seq_of(n / 16).push(digit_char(n % 16))
    }
}

/// Appending a digit multiplies the denoted value by ten and adds the digit.
pub proof fn lemma_dec_value_push(s: Seq<char>, c: char)
    ensures
        dec_value_of(s.push(c)) == dec_value_of(s) * 10 + dec_digit_val(c),
{
    assert(s.push(c).drop_last() =~= s);
    assert(s.push(c).last() == c);
}

/// Appending a digit multiplies the denoted value by sixteen and adds the
/// digit.
pub proof fn lemma_hex_value_push(s: Seq<char>, c: char)
    ensures
        hex_value_of(s.push(c)) == hex_value_of(s) * 16 + hex_digit_val(c),
{
    assert(s.push(c).drop_last() =~= s);
    assert(s.push(c).last() == c);
}

/// The decimal rendering of `n` is a digit string that denotes `n` again.
pub proof fn lemma_dec_seq_of_value(n: nat)
    ensures
        valid_dec(dec_seq_of(n)),
        dec_value_of(dec_seq_of(n)) == n,
    decreases n,
{
    if n < 10 {
        let s = dec_seq_of(n);
        assert(s.drop_last() =~= Seq::<char>::empty());
        assert(dec_value_of(s) == dec_value_of(s.drop_last()) * 10 + dec_digit_val(s.last()));
    } else {
        lemma_dec_seq_of_value(n / 10);
        let prefix = dec_seq_of(n / 10);
        let c = digit_char(n % 10);
        lemma_dec_value_push(prefix, c);
        assert(dec_value_of(dec_seq_of(n)) == (n / 10) * 10 + n % 10);
        vstd::arithmetic::div_mod::lemma_fundamental_div_mod(n as int, 10);
        assert forall|i: int| 0 <= i < dec_seq_of(n).len() implies is_dec_digit(
            #[trigger] dec_seq_of(n)[i],
        ) by {
            if i < prefix.len() {
                assert(dec_seq_of(n)[i] == prefix[i]);
            } else {
                assert(dec_seq_of(n)[i] == c);
            }
        }
    }
}

/// The hexadecimal rendering of `n` is a digit string that denotes `n`
/// again.
pub proof fn lemma_hex_seq_of_value(n: nat)
    ensures
        valid_hex(hex_seq_of(n)),
        hex_value_of(hex_seq_of(n)) == n,
    decreases n,
{
    if n < 16 {
        let s = hex_seq_of(n);
        assert(s.drop_last() =~= Seq::<char>::empty());
        assert(hex_value_of(s) == hex_value_of(s.drop_last()) * 16 + hex_digit_val(s.last()));
    } else {
        lemma_hex_seq_of_value(n / 16);
        let prefix = hex_seq_of(n / 16);
        let c = digit_char(n % 16);
        lemma_hex_value_push(prefix, c);
        assert(hex_value_of(hex_seq_of(n)) == (n / 16) * 16 + n % 16);
        vstd::arithmetic::div_mod::lemma_fundamental_div_mod(n as int, 16);
        assert forall|i: int| 0 <= i < hex_seq_of(n).len() implies is_hex_digit(
            #[trigger] hex_seq_of(n)[i],
        ) by {
            if i < prefix.len() {
                assert(hex_seq_of(n)[i] == prefix[i]);
            } else {
                assert(hex_seq_of(n)[i] == c);
            }
        }
    }
}

} // verus!
