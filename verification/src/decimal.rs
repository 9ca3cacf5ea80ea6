//! Numbers in decimal digits, as they stand in an address and in a script:
//! without a sign, read from any number of digits, written without zeros
//! before them.

use vstd::prelude::*;

verus! {

/// The digit that stands for a number below ten.
pub open spec fn digit_char(digit: nat) -> char {
    if digit == 0 {
        '0'
    } else if digit == 1 {
        '1'
    } else if digit == 2 {
        '2'
    } else if digit == 3 {
        '3'
    } else if digit == 4 {
        '4'
    } else if digit == 5 {
        '5'
    } else if digit == 6 {
        '6'
    } else if digit == 7 {
        '7'
    } else if digit == 8 {
        '8'
    } else {
        '9'
    }
}

/// The number that a digit stands for, or `None` for any other character.
pub open spec fn digit_value(c: char) -> Option<nat> {
    if c == '0' {
        Some(0)
    } else if c == '1' {
        Some(1)
    } else if c == '2' {
        Some(2)
    } else if c == '3' {
        Some(3)
    } else if c == '4' {
        Some(4)
    } else if c == '5' {
        Some(5)
    } else if c == '6' {
        Some(6)
    } else if c == '7' {
        Some(7)
    } else if c == '8' {
        Some(8)
    } else if c == '9' {
        Some(9)
    } else {
        None
    }
}

/// A number written in decimal digits, without a sign and without zeros
/// before it.
pub open spec fn decimal_text(n: nat) -> Seq<char>
    decreases n,
{
    if n < 10 {
        seq![digit_char(n)]
    } else {
        decimal_text(n / 10).push(digit_char(n % 10))
    }
}

/// The number that decimal digits stand for, or `None` where a character is
/// no digit. No digits at all stand for no number.
pub open spec fn decimal_value(text: Seq<char>) -> Option<nat>
    decreases text.len(),
{
    if text.len() == 0 {
        None
    } else if text.len() == 1 {
        digit_value(text[0])
    } else {
        match (decimal_value(text.drop_last()), digit_value(text.last())) {
            (Some(high), Some(low)) => Some(high * 10 + low),
            _ => None,
        }
    }
}

/// A number that is written in decimal digits and read again is the same
/// number.
pub proof fn decimal_round_trip(n: nat)
    ensures
        decimal_value(decimal_text(n)) == Some(n),
    decreases n,
{
    if n >= 10 {
        decimal_round_trip(n / 10);
        decimal_text_len(n / 10);
        let text = decimal_text(n);
        assert(text.drop_last() == decimal_text(n / 10));
        assert(text.last() == digit_char(n % 10));
    }
}

/// A number has at least one digit.
pub proof fn decimal_text_len(n: nat)
    ensures
        decimal_text(n).len() >= 1,
    decreases n,
{
    if n >= 10 {
        decimal_text_len(n / 10);
    }
}


/// A longer text of digits stands for no smaller number than its beginning,
/// and where the beginning stands for none, the whole stands for none.
pub proof fn decimal_value_of_prefix(text: Seq<char>, upto: int)
    requires
        1 <= upto <= text.len(),
        decimal_value(text) is Some,
    ensures
        decimal_value(text.subrange(0, upto)) is Some,
        decimal_value(text.subrange(0, upto))->0 <= decimal_value(text)->0,
    decreases text.len(),
{
    if upto == text.len() {
        assert(text.subrange(0, upto) == text);
    } else {
        assert(text.drop_last().subrange(0, upto) == text.subrange(0, upto));
        decimal_value_of_prefix(text.drop_last(), upto);
    }
}

/// The number that the digit `c` stands for.
pub fn digit_of(c: char) -> (value: Option<u64>)
    ensures
        match value {
            Some(digit) => digit_value(c) == Some(digit as nat) && digit <= 9,
            None => digit_value(c) is None,
        },
{
    match c {
        '0' => Some(0),
        '1' => Some(1),
        '2' => Some(2),
        '3' => Some(3),
        '4' => Some(4),
        '5' => Some(5),
        '6' => Some(6),
        '7' => Some(7),
        '8' => Some(8),
        '9' => Some(9),
        _ => None,
    }
}

/// Reads a number from decimal digits. There is none where the text is
/// empty, holds anything but digits, or stands for more than fits.
pub fn parse_decimal(text: &Vec<char>) -> (value: Option<u64>)
    ensures
        match value {
            Some(n) => decimal_value(text@) == Some(n as nat),
            None => decimal_value(text@) matches Some(n) ==> n > u64::MAX,
        },
{
    if text.len() == 0 {
        return None;
    }
    let mut total: u64 = match digit_of(text[0]) {
        Some(digit) => digit,
        None => {
            proof {
                if decimal_value(text@) is Some {
                    decimal_value_of_prefix(text@, 1);
                    assert(text@.subrange(0, 1)[0] == text@[0]);
                }
            }
            return None;
        },
    };
    let mut i: usize = 1;
    assert(text@.subrange(0, 1)[0] == text@[0]);
    while i < text.len()
        invariant
            1 <= i <= text.len(),
            decimal_value(text@.subrange(0, i as int)) == Some(total as nat),
        decreases text.len() - i,
    {
        proof {
            let next = text@.subrange(0, i + 1);
            assert(next.drop_last() == text@.subrange(0, i as int));
            assert(next.last() == text@[i as int]);
            if decimal_value(text@) is Some {
                decimal_value_of_prefix(text@, i + 1);
            }
        }
        let digit = match digit_of(text[i]) {
            Some(digit) => digit,
            None => {
                return None;
            },
        };
        if total > (u64::MAX - digit) / 10 {
            return None;
        }
        total = total * 10 + digit;
        i += 1;
    }
    assert(text@.subrange(0, text.len() as int) == text@);
    Some(total)
}

/// Appends `n` to `out`, written in decimal digits.
pub fn push_decimal(out: &mut Vec<char>, n: u64)
    ensures
        final(out)@ == old(out)@ + decimal_text(n as nat),
    decreases n,
{
    if n >= 10 {
        push_decimal(out, n / 10);
    }
    let digit: u64 = n % 10;
    let c = if digit == 0 {
        '0'
    } else if digit == 1 {
        '1'
    } else if digit == 2 {
        '2'
    } else if digit == 3 {
        '3'
    } else if digit == 4 {
        '4'
    } else if digit == 5 {
        '5'
    } else if digit == 6 {
        '6'
    } else if digit == 7 {
        '7'
    } else if digit == 8 {
        '8'
    } else {
        '9'
    };
    out.push(c);
    assert(out@ =~= old(out)@ + decimal_text(n as nat));
}

} // verus!
