//! Base-10 reading of version numbers.
//!
//! Version options carry integer literals, modelled as their base-10
//! digits. The reader here accepts exactly the digit strings whose value
//! fits an unsigned 16-bit number; a sign, any other non-digit, an empty
//! string, or a value above 65535 is rejected.

use vstd::prelude::*;

verus! {

/// Whether a byte is an ASCII decimal digit.
pub open spec fn is_digit(b: u8) -> bool {
    48 <= b && b <= 57
}

/// The numeric value of a digit byte (0 for non-digits, which no caller
/// relies on).
pub open spec fn digit_value(b: u8) -> nat {
    if 48 <= b {
        (b - 48) as nat
    } else {
        0
    }
}

/// Whether a byte string is a nonempty run of decimal digits.
pub open spec fn is_digits(s: Seq<u8>) -> bool {
    s.len() > 0 && forall|i: int| 0 <= i < s.len() ==> is_digit(#[trigger] s[i])
}

/// The base-10 value of a byte string of digits.
pub open spec fn dec_value(s: Seq<u8>) -> nat
    decreases s.len(),
{
    if s.len() == 0 {
        0
    } else {
        dec_value(s.drop_last()) * 10 + digit_value(s.last())
    }
}

/// What reading a 16-bit version number from a byte string yields: the
/// value when the string is a digit run whose value fits, nothing
/// otherwise.
pub open spec fn u16_of_digits(s: Seq<u8>) -> Option<u16> {
    if is_digits(s) && dec_value(s) <= 65535 {
        Some(dec_value(s) as u16)
    } else {
        None
    }
}

/// Extending a digit prefix by one byte multiplies its value by ten and
/// adds the new digit.
proof fn lemma_dec_value_step(s: Seq<u8>, j: int)
    requires
        0 <= j < s.len(),
    ensures
        dec_value(s.subrange(0, j + 1)) == dec_value(s.subrange(0, j)) * 10 + digit_value(s[j]),
{
    assert(s.subrange(0, j + 1).drop_last() =~= s.subrange(0, j));
    assert(s.subrange(0, j + 1).last() == s[j]);
}

/// The value of a prefix never exceeds the value of the whole string.
proof fn lemma_dec_value_prefix(s: Seq<u8>, j: int)
    requires
        0 <= j <= s.len(),
    ensures
        dec_value(s.subrange(0, j)) <= dec_value(s),
    decreases s.len() - j,
{
    if j == s.len() {
        assert(s.subrange(0, j) =~= s);
    } else {
        lemma_dec_value_step(s, j);
        lemma_dec_value_prefix(s, j + 1);
    }
}

/// Reads a 16-bit version number from base-10 digits.
pub fn u16_from_digits(digits: &Vec<u8>) -> (r: Option<u16>)
    ensures
        r == u16_of_digits(digits@),
{
    if digits.len() == 0 {
        return None;
    }
    let mut i: usize = 0;
    let mut acc: u32 = 0;
    while i < digits.len()
        invariant
            i <= digits@.len(),
            forall|k: int| 0 <= k < i ==> is_digit(#[trigger] digits@[k]),
            acc == dec_value(digits@.subrange(0, i as int)),
            acc <= 65535,
        decreases digits@.len() - i,
    {
        let b = digits[i];
        if b < 48 || b > 57 {
            return None;
        }
        let d: u32 = (b - 48) as u32;
        let next: u32 = acc * 10 + d;
        proof {
            lemma_dec_value_step(digits@, i as int);
        }
        if next > 65535 {
            proof {
                lemma_dec_value_prefix(digits@, i as int + 1);
            }
            return None;
        }
        acc = next;
        i += 1;
    }
    proof {
        assert(digits@.subrange(0, digits@.len() as int) =~= digits@);
    }
    Some(acc as u16)
}

} // verus!
