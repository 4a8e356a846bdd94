//! Text helpers: building strings a character at a time, and whole numbers
//! in decimal.

use vstd::prelude::*;

verus! {

/// Appends `c` to `text` with `String::push`: the text grows by that one
/// character at its end.
#[verifier::external_body]
pub(crate) fn push_char(text: &mut String, c: char)
    ensures
        final(text)@ == old(text)@.push(c),
{
    text.push(c);
}

/// Whether `c` is one of the digits `0` to `9`.
pub open spec fn is_digit(c: char) -> bool {
    '0' <= c <= '9'
}

/// The value of the digit `c`.
pub open spec fn digit_value(c: char) -> int {
    c as int - '0' as int
}

/// The digit of value `d`.
pub open spec fn digit_char(d: int) -> char {
    (d + '0' as int) as char
}

/// Whether `s` holds digits only.
pub open spec fn all_digits(s: Seq<char>) -> bool {
    forall|i: int| 0 <= i < s.len() ==> is_digit(#[trigger] s[i])
}

/// The number that the digits `s` write in decimal.
pub open spec fn digits_value(s: Seq<char>) -> int
    decreases s.len(),
{
    if s.len() == 0 {
        0
    } else {
        digits_value(s.drop_last()) * 10 + digit_value(s.last())
    }
}

/// The digits of `n` in decimal, without leading zeros.
pub open spec fn decimal_digits(n: nat) -> Seq<char>
    decreases n,
{
    if n < 10 {
        seq![digit_char(n as int)]
    } else {
        decimal_digits(n / 10).push(digit_char((n % 10) as int))
    }
}

/// The number `n` in decimal, with a minus sign when it is negative.
pub open spec fn decimal(n: int) -> Seq<char> {
    if n < 0 {
        seq!['-'] + decimal_digits((-n) as nat)
    } else {
        decimal_digits(n as nat)
    }
}

/// The 32-bit number that `s` writes: an optional sign, then one digit or
/// more, the whole within the range of the type.
pub open spec fn parsed_i32(s: Seq<char>) -> Option<i32> {
    let signed = s.len() > 0 && (s[0] == '-' || s[0] == '+');
    let body = if signed {
        s.skip(1)
    } else {
        s
    };
    let value = if s.len() > 0 && s[0] == '-' {
        -digits_value(body)
    } else {
        digits_value(body)
    };
    if body.len() > 0 && all_digits(body) && i32::MIN <= value <= i32::MAX {
        Some(value as i32)
    } else {
        None
    }
}

/// The digits of a number are digits, and write that number.
pub proof fn lemma_decimal_digits(n: nat)
    ensures
        decimal_digits(n).len() > 0,
        all_digits(decimal_digits(n)),
        digits_value(decimal_digits(n)) == n,
    decreases n,
{
    if n < 10 {
        let s = decimal_digits(n);
        assert(s.drop_last() =~= Seq::<char>::empty());
        assert(digits_value(s.drop_last()) == 0);
    } else {
        lemma_decimal_digits(n / 10);
        let s = decimal_digits(n);
        assert(s.drop_last() =~= decimal_digits(n / 10));
    }
}

/// Writing a 32-bit number in decimal and reading it back gives the number.
pub proof fn lemma_decimal_round_trip(n: i32)
    ensures
        parsed_i32(decimal(n as int)) == Some(n),
{
    let s = decimal(n as int);
    if n < 0 {
        let digits = decimal_digits((-n) as nat);
        lemma_decimal_digits((-n) as nat);
        assert(s[0] == '-');
        assert(s.skip(1) =~= digits);
    } else {
        lemma_decimal_digits(n as nat);
        assert(is_digit(s[0]));
    }
}

/// Appends the digits of `n` to `text`.
fn push_digits(text: &mut String, n: u32)
    ensures
        final(text)@ == old(text)@ + decimal_digits(n as nat),
    decreases n,
{
    if n >= 10 {
        push_digits(text, n / 10);
    }
    let digit = (n % 10) as u8;
    push_char(text, (digit + 48) as char);
    proof {
        assert(final(text)@ =~= old(text)@ + decimal_digits(n as nat));
    }
}

/// Appends `n` in decimal to `text`.
pub fn push_i32(text: &mut String, n: i32)
    ensures
        final(text)@ == old(text)@ + decimal(n as int),
{
    if n < 0 {
        push_char(text, '-');
        let magnitude: u32 = if n == i32::MIN {
            2147483648u32
        } else {
            (-n) as u32
        };
        push_digits(text, magnitude);
        proof {
            assert(final(text)@ =~= old(text)@ + decimal(n as int));
        }
    } else {
        push_digits(text, n as u32);
    }
}

/// The number `n` in decimal.
pub fn format_i32(n: i32) -> (text: String)
    ensures
        text@ == decimal(n as int),
{
    let mut text = String::new();
    push_i32(&mut text, n);
    text
}

/// What has been read of the digits of `s` when `end` characters are read,
/// where `signed` says that the first of them is a sign.
spec fn digits_read(s: Seq<char>, signed: bool, end: int) -> Seq<char> {
    s.subrange(
        if signed {
            1
        } else {
            0
        },
        end,
    )
}

/// Reads a 32-bit number in decimal: an optional sign, then one digit or
/// more. Anything else, and a number out of range, gives nothing.
pub fn parse_i32(s: &str) -> (number: Option<i32>)
    ensures
        number == parsed_i32(s@),
{
    let length = s.unicode_len();
    let mut magnitude: u64 = 0;
    let mut too_large = false;
    let mut negative = false;
    let mut signed = false;
    let mut valid = true;
    let mut position: usize = 0;
    for c in it: s.chars()
        invariant
            it.seq() == s@,
            length == s@.len(),
            position == it.index(),
            negative == (position > 0 && s@[0] == '-'),
            signed == (position > 0 && (s@[0] == '-' || s@[0] == '+')),
            valid == all_digits(digits_read(s@, signed, position as int)),
            valid && !too_large ==> magnitude == digits_value(
                digits_read(s@, signed, position as int),
            ),
            valid && too_large ==> digits_value(digits_read(s@, signed, position as int))
                > 2147483648,
            magnitude <= 2147483648,
    {
        let ghost before = digits_read(s@, signed, position as int);
        if position == 0 && (c == '-' || c == '+') {
            negative = c == '-';
            signed = true;
            proof {
                assert(digits_read(s@, true, 1) =~= Seq::<char>::empty());
            }
        } else {
            let ghost after = digits_read(s@, signed, position + 1);
            proof {
                assert(after.drop_last() =~= before);
                assert(after.last() == c);
                assert forall|i: int| 0 <= i < before.len() implies before[i] == after[i] by {}
            }
            if c >= '0' && c <= '9' {
                let digit = (c as u8 - 48) as u64;
                if !too_large {
                    let next = magnitude * 10 + digit;
                    if next > 2147483648 {
                        too_large = true;
                    } else {
                        magnitude = next;
                    }
                }
            } else {
                valid = false;
            }
        }
        position += 1;
    }
    proof {
        assert(digits_read(s@, signed, position as int) =~= if signed {
            s@.skip(1)
        } else {
            s@
        });
    }
    let digits = if signed {
        position - 1
    } else {
        position
    };
    if !valid || digits == 0 || too_large {
        return None;
    }
    if negative {
        if magnitude == 2147483648 {
            Some(i32::MIN)
        } else {
            Some(-(magnitude as i32))
        }
    } else if magnitude == 2147483648 {
        None
    } else {
        Some(magnitude as i32)
    }
}

} // verus!
