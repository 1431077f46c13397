//! Reading a count of seconds written in decimal digits.

use vstd::prelude::*;
use vstd::string::*;

verus! {

/// One of the ten decimal digits.
pub open spec fn is_digit(c: char) -> bool {
    '0' <= c <= '9'
}

/// Nothing but decimal digits.
pub open spec fn all_digits(text: Seq<char>) -> bool {
    forall|i: int| 0 <= i < text.len() ==> is_digit(#[trigger] text[i])
}

/// The number that a run of decimal digits stands for, most significant
/// digit first.
pub open spec fn decimal_value(digits: Seq<char>) -> nat
    decreases digits.len(),
{
    if digits.len() == 0 {
        0
    } else {
        10 * decimal_value(digits.drop_last()) + (digits.last() as nat - '0' as nat) as nat
    }
}

/// What `text` reads as: a number if it is one or more decimal digits and
/// nothing else, and the number fits in 64 bits; otherwise nothing. A sign,
/// a blank or an empty text is not a number.
pub open spec fn decimal_of(text: Seq<char>) -> Option<u64> {
    if text.len() > 0 && all_digits(text) && decimal_value(text) <= u64::MAX {
        Some(decimal_value(text) as u64)
    } else {
        None
    }
}

/// A number is never smaller than the one its leading digits stand for.
pub proof fn lemma_prefix_value_bounded(digits: Seq<char>, len: int)
    requires
        0 <= len <= digits.len(),
        all_digits(digits),
    ensures
        decimal_value(digits.take(len)) <= decimal_value(digits),
    decreases digits.len() - len,
{
    if len == digits.len() {
        assert(digits.take(len) =~= digits);
    } else {
        let front = digits.drop_last();
        assert(front.take(len) =~= digits.take(len));
        assert(is_digit(digits.last()));
        lemma_prefix_value_bounded(front, len);
    }
}

/// Reads `text` as a decimal number of at most 64 bits.
pub fn parse_decimal(text: &str) -> (value: Option<u64>)
    ensures
        value == decimal_of(text@),
{
    if !text.is_ascii() {
        proof {
            let i = choose|i: int| 0 <= i < text@.len() && !('\0' <= #[trigger] text@[i] <= '\u{7f}');
            assert(!is_digit(text@[i]));
        }
        return None;
    }
    let bytes = text.as_bytes();
    let len = bytes.len();
    proof {
        is_ascii_spec_bytes(text);
    }
    if len == 0 {
        return None;
    }
    let mut value: u64 = 0;
    let mut i: usize = 0;
    while i < len
        invariant
            i <= len,
            len == text@.len(),
            is_ascii(text),
            bytes@ =~= Seq::new(text@.len(), |k: int| text@[k] as u8),
            all_digits(text@.take(i as int)),
            value == decimal_value(text@.take(i as int)),
        decreases len - i,
    {
        let byte = bytes[i];
        let ghost seen = text@.take(i as int + 1);
        assert(seen.drop_last() =~= text@.take(i as int));
        assert(seen.last() == text@[i as int]);
        if byte < 48 || byte > 57 {
            assert(!is_digit(text@[i as int]));
            return None;
        }
        assert(is_digit(text@[i as int]));
        assert(all_digits(seen)) by {
            assert forall|j: int| 0 <= j < seen.len() implies is_digit(#[trigger] seen[j]) by {
                if j < i {
                    assert(text@.take(i as int)[j] == seen[j]);
                }
            }
        }
        let digit: u64 = (byte - 48) as u64;
        assert(decimal_value(seen) == 10 * value + digit);
        let grown = match value.checked_mul(10) {
            Some(tens) => tens.checked_add(digit),
            None => None,
        };
        match grown {
            Some(next) => {
                value = next;
            },
            None => {
                proof {
                    if all_digits(text@) {
                        lemma_prefix_value_bounded(text@, i as int + 1);
                    }
                }
                return None;
            },
        }
        i = i + 1;
    }
    assert(text@.take(len as int) =~= text@);
    Some(value)
}

} // verus!
